use crate::cfa::{BLUE, CHANNELS, GREEN, RED};
use crate::container::{container_contents, read_container, sensor_from_dump, SensorDump};
use crate::decoded::{outcome, DecodedImage, ImageView};
use crate::demosaic::{known, lemma_interior_neighbors, lemma_known_neighbor_fills, mean_of_known};
use crate::detector::{classify, detect_image_type, ImageType, HEADER_LEN};
use crate::error::LoadError;
use crate::gamma::{
    gamma_byte, gamma_tenths, gamma_tenths_of, lemma_gamma_byte_scales, GammaEncoder,
};
use crate::processors::ImageProcessor;
use crate::sensor::{RawSensorImage, SensorView};
use vstd::prelude::*;

verus! {

impl SensorView {
    /// The byte of channel `c` at pixel `i` of the developed image.
    pub open spec fn output_byte(self, image_type: ImageType, c: int, i: int) -> nat {
        gamma_byte(self.channel_value(c, i), self.unit(c), gamma_tenths_of(image_type))
    }

    /// The packed pixels of the developed image.
    pub open spec fn developed(self, image_type: ImageType) -> Seq<u8> {
        Seq::new(
            (CHANNELS * self.pixels()) as nat,
            |k: int| self.output_byte(image_type, k % (CHANNELS as int), k / (CHANNELS as int)) as u8,
        )
    }
}

/// What loading a RAW file with the leading and whole bytes `data` gives.
pub open spec fn raw_loaded(data: Seq<u8>) -> Result<ImageView, LoadError> {
    if data.len() < HEADER_LEN {
        Err(LoadError::Read)
    } else {
        match container_contents(data) {
            None => Err(LoadError::Decode),
            Some(dump) => dump.developed(classify(data)),
        }
    }
}

/// Turns sensor data into pixels.
#[derive(Debug, Clone, Copy)]
pub struct RawProcessor {}

impl RawProcessor {
    pub fn new() -> (r: RawProcessor) {
        RawProcessor {  }
    }

    /// Develops what a container holds.
    pub fn develop_dump(&self, dump: SensorDump, image_type: ImageType) -> (r: Result<
        DecodedImage,
        LoadError,
    >)
        ensures
            outcome(r) == dump@.developed(image_type),
    {
        match sensor_from_dump(dump) {
            Ok(sensor) => self.develop(&sensor, image_type),
            Err(e) => Err(e),
        }
    }

    /// Develops a sensor image: normalises and white-balances the samples,
    /// reconstructs the two missing channels of every interior pixel, and
    /// encodes the result with the gamma of the sensor family.
    pub fn develop(&self, sensor: &RawSensorImage, image_type: ImageType) -> (r: Result<
        DecodedImage,
        LoadError,
    >)
        ensures
            (r is Ok) == (sensor@.rejection() is None),
            r matches Err(e) ==> Some(e) == sensor@.rejection(),
            r matches Ok(image) ==> image@ == (ImageView {
                width: sensor.width as nat,
                height: sensor.height as nat,
                pixels: sensor@.developed(image_type),
            }),
    {
        match sensor.validate() {
            Some(e) => {
                return Err(e);
            },
            None => {},
        }
        let tenths: u32 = gamma_tenths(image_type);
        let mut red: Vec<u64> = sensor.native_plane(RED);
        sensor.fill_plane(RED, &mut red);
        let mut green: Vec<u64> = sensor.native_plane(GREEN);
        sensor.fill_plane(GREEN, &mut green);
        let mut blue: Vec<u64> = sensor.native_plane(BLUE);
        sensor.fill_plane(BLUE, &mut blue);
        let count: usize = red.len();
        let red_curve = GammaEncoder::new(sensor.unit_of(RED), tenths, count);
        let green_curve = GammaEncoder::new(sensor.unit_of(GREEN), tenths, count);
        let blue_curve = GammaEncoder::new(sensor.unit_of(BLUE), tenths, count);
        let mut buffer: Vec<u8> = Vec::new();
        let mut i: usize = 0;
        while i < count
            invariant
                i <= count,
                count == sensor@.pixels(),
                CHANNELS * count <= usize::MAX,
                red@.len() == count,
                green@.len() == count,
                blue@.len() == count,
                forall|j: int| 0 <= j < count ==> #[trigger] red@[j] == sensor@.channel_value(0, j),
                forall|j: int| 0 <= j < count ==> #[trigger] green@[j] == sensor@.channel_value(1, j),
                forall|j: int| 0 <= j < count ==> #[trigger] blue@[j] == sensor@.channel_value(2, j),
                red_curve.denominator() == sensor@.unit(0),
                green_curve.denominator() == sensor@.unit(1),
                blue_curve.denominator() == sensor@.unit(2),
                red_curve.tenths() == gamma_tenths_of(image_type),
                green_curve.tenths() == gamma_tenths_of(image_type),
                blue_curve.tenths() == gamma_tenths_of(image_type),
                buffer@.len() == CHANNELS * i,
                forall|k: int|
                    0 <= k < CHANNELS * i ==> #[trigger] buffer@[k] == sensor@.output_byte(
                        image_type,
                        k % (CHANNELS as int),
                        k / (CHANNELS as int),
                    ),
            decreases count - i,
        {
            let r: u8 = red_curve.encode(red[i]);
            let g: u8 = green_curve.encode(green[i]);
            let b: u8 = blue_curve.encode(blue[i]);
            buffer.push(r);
            buffer.push(g);
            buffer.push(b);
            i += 1;
        }
        assert(buffer@ =~= sensor@.developed(image_type));
        let image = DecodedImage::from_raw(sensor.width, sensor.height, buffer);
        match image {
            Some(image) => Ok(image),
            None => Err(LoadError::Decode),
        }
    }
}

impl ImageProcessor for RawProcessor {
    open spec fn handles(&self, data: Seq<u8>) -> bool {
        data.len() >= HEADER_LEN && classify(data).raw()
    }

    open spec fn loaded(&self, data: Seq<u8>) -> Result<ImageView, LoadError> {
        raw_loaded(data)
    }

    fn can_handle(&self, data: &[u8]) -> (r: bool) {
        match detect_image_type(data) {
            Ok(image_type) => image_type.is_raw(),
            Err(_) => false,
        }
    }

    /// Reads the container and develops what it holds with the gamma of the
    /// family that the header shows.
    fn load_image(&self, data: &[u8]) -> (r: Result<DecodedImage, LoadError>) {
        let image_type = match detect_image_type(data) {
            Ok(image_type) => image_type,
            Err(e) => {
                return Err(e);
            },
        };
        match read_container(data) {
            Ok(dump) => self.develop_dump(dump, image_type),
            Err(_) => Err(LoadError::Decode),
        }
    }
}

impl SensorView {
    /// Every sample is `v`, every channel has black level 0 and white level
    /// 65535, and every white-balance factor is one.
    pub open spec fn uniform(self, v: u16) -> bool {
        &&& forall|i: int| 0 <= i < self.samples.len() ==> #[trigger] self.samples[i] == v
        &&& forall|c: int|
            0 <= c < CHANNELS ==> {
                &&& #[trigger] self.black_levels[c] == 0
                &&& self.white_levels[c] == 0xFFFF
                &&& self.wb_coeffs[c].num == self.wb_coeffs[c].den
            }
    }
}

/// In a uniform image every channel value is unknown or the sample itself.
proof fn lemma_uniform_values(s: SensorView, v: u16, c: int, i: int)
    requires
        s.rejection() is None,
        s.uniform(v),
        0 <= c < CHANNELS,
        0 <= i < s.pixels(),
    ensures
        s.channel_value(c, i) == 0 || s.channel_value(c, i) == v * s.wb_coeffs[c].den,
        s.native_value(c, i) == 0 || s.native_value(c, i) == v * s.wb_coeffs[c].den,
    decreases i,
{
    let full = (v * s.wb_coeffs[c].den) as nat;
    assert(s.samples[i] == v);
    assert(s.black_levels[c] == 0);
    if s.interior(i) && s.native_channel(i) != c {
        lemma_interior_neighbors(s.width as int, s.height as int, i);
        let n = s.neighbors(c, i);
        lemma_uniform_seen(s, v, c, i, n.0);
        lemma_uniform_seen(s, v, c, i, n.1);
        lemma_uniform_seen(s, v, c, i, n.2);
        lemma_uniform_seen(s, v, c, i, n.3);
        lemma_mean_uniform(
            s.seen(c, i, n.0),
            s.seen(c, i, n.1),
            s.seen(c, i, n.2),
            s.seen(c, i, n.3),
            full,
        );
    }
}

proof fn lemma_uniform_seen(s: SensorView, v: u16, c: int, i: int, n: int)
    requires
        s.rejection() is None,
        s.uniform(v),
        0 <= c < CHANNELS,
        0 <= i < s.pixels(),
        0 <= n < s.pixels(),
    ensures
        s.seen(c, i, n) == 0 || s.seen(c, i, n) == v * s.wb_coeffs[c].den,
    decreases i, 0int,
{
    assert(s.samples[n] == v);
    assert(s.black_levels[c] == 0);
    if n < i {
        lemma_uniform_values(s, v, c, n);
    }
}

/// The mean of values that are each unknown or `full` is `full` if one of
/// them is known, and unknown otherwise.
proof fn lemma_mean_uniform(a: nat, b: nat, c: nat, d: nat, full: nat)
    requires
        a == 0 || a == full,
        b == 0 || b == full,
        c == 0 || c == full,
        d == 0 || d == full,
    ensures
        mean_of_known(a, b, c, d) == (if a > 0 || b > 0 || c > 0 || d > 0 {
            full
        } else {
            0
        }),
{
    let count = known(a) + known(b) + known(c)
        + known(d);
    let sum = a + b + c + d;
    if count == 1 {
        assert(sum / 1 == full);
    } else if count == 2 {
        assert(sum == 2 * full);
        assert(sum / 2 == full);
    } else if count == 3 {
        assert(sum == 3 * full);
        assert(sum / 3 == full);
    } else if count == 4 {
        assert(sum == 4 * full);
        assert(sum / 4 == full);
    }
}

/// A uniform image under a well-covering pattern develops, at every interior
/// pixel and in all three channels, to the byte that encodes `v / 65535`.
pub proof fn lemma_uniform_interior(s: SensorView, v: u16, image_type: ImageType, c: int, i: int)
    requires
        s.rejection() is None,
        s.uniform(v),
        s.well_covered(),
        0 <= i < s.pixels(),
        s.interior(i),
        0 <= c < CHANNELS,
    ensures
        s.output_byte(image_type, c, i) == gamma_byte(
            v as nat,
            0xFFFF,
            gamma_tenths_of(image_type),
        ),
{
    let k = s.wb_coeffs[c].den as nat;
    let full = (v * k) as nat;
    assert(s.black_levels[c] == 0);
    assert(s.unit(c) == 0xFFFF * k);
    lemma_uniform_values(s, v, c, i);
    if v > 0 {
        assert(forall|m: int| 0 <= m < s.pixels() ==> #[trigger] s.samples[m] == v);
        assert(full > 0) by (nonlinear_arith)
            requires
                v > 0,
                k > 0,
                full == v * k,
        ;
        if s.native_channel(i) != c {
            assert(s.has_native_neighbor(c, i));
            lemma_interior_neighbors(s.width as int, s.height as int, i);
            assert forall|m: int|
                0 <= m < s.pixels() && s.native_channel(m) == c implies s.seen(c, i, m) > 0 by {
                assert(s.samples[m] == v);
            }
            lemma_known_neighbor_fills(s, c, i);
        }
    }
    assert(s.channel_value(c, i) == full);
    lemma_gamma_byte_scales(v as nat, 0xFFFF, k, gamma_tenths_of(image_type));
}

} // verus!
