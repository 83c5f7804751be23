use crate::cfa::{letter_channel, letters_known, CfaPattern, CfaView, CHANNELS};
use crate::decoded::ImageView;
use crate::detector::ImageType;
use crate::error::LoadError;
use crate::sensor::{ratio_of_bits, Ratio, RawSensorImage, SensorView};
use vstd::prelude::*;

verus! {

/// What a RAW container holds, as its decoder hands it out. Levels and white
/// balance come for four channels, of which the first three are red, green
/// and blue; the white balance comes as the bits of single-precision numbers.
/// `samples` is `None` where the container holds floating-point samples.
#[derive(Debug)]
pub struct SensorDump {
    pub width: usize,
    pub height: usize,
    pub components: usize,
    pub samples: Option<Vec<u16>>,
    pub black_levels: [u16; 4],
    pub white_levels: [u16; 4],
    pub wb_bits: [u32; 4],
    pub cfa_letters: Vec<u8>,
    pub cfa_width: usize,
    pub cfa_height: usize,
}

/// A `SensorDump` as plain values.
pub struct SensorDumpView {
    pub width: nat,
    pub height: nat,
    pub components: nat,
    pub samples: Option<Seq<u16>>,
    pub black_levels: Seq<u16>,
    pub white_levels: Seq<u16>,
    pub wb_bits: Seq<u32>,
    pub cfa_letters: Seq<u8>,
    pub cfa_width: nat,
    pub cfa_height: nat,
}

impl View for SensorDump {
    type V = SensorDumpView;

    open spec fn view(&self) -> SensorDumpView {
        SensorDumpView {
            width: self.width as nat,
            height: self.height as nat,
            components: self.components as nat,
            samples: match self.samples {
                Some(values) => Some(values@),
                None => None,
            },
            black_levels: self.black_levels@,
            white_levels: self.white_levels@,
            wb_bits: self.wb_bits@,
            cfa_letters: self.cfa_letters@,
            cfa_width: self.cfa_width as nat,
            cfa_height: self.cfa_height as nat,
        }
    }
}

impl SensorDumpView {
    /// The samples are integers, one per pixel position.
    pub open spec fn readable(self) -> bool {
        self.samples is Some && self.components == 1
    }

    /// The pattern name fits the tile and names only the three channels, and
    /// each of the three white-balance factors is a fraction.
    pub open spec fn usable(self) -> bool {
        &&& self.cfa_width > 0
        &&& self.cfa_height > 0
        &&& self.cfa_letters.len() == self.cfa_width * self.cfa_height
        &&& letters_known(self.cfa_letters)
        &&& forall|c: int| 0 <= c < CHANNELS ==> (#[trigger] ratio_of_bits(self.wb_bits[c])) is Some
    }

    /// The sensor image that the dump describes.
    pub open spec fn sensor(self) -> SensorView
        recommends
            self.readable(),
            self.usable(),
    {
        SensorView {
            width: self.width,
            height: self.height,
            samples: self.samples->0,
            black_levels: self.black_levels.take(CHANNELS as int),
            white_levels: self.white_levels.take(CHANNELS as int),
            wb_coeffs: Seq::new(CHANNELS as nat, |c: int| ratio_of_bits(self.wb_bits[c])->0),
            cfa: CfaView {
                width: self.cfa_width,
                height: self.cfa_height,
                colors: Seq::new(
                    self.cfa_letters.len(),
                    |i: int| letter_channel(self.cfa_letters[i])->0,
                ),
            },
        }
    }

    /// Why the dump gives no sensor image, if it gives none.
    pub open spec fn refusal(self) -> Option<LoadError> {
        if !self.readable() {
            Some(LoadError::Decode)
        } else if !self.usable() {
            Some(LoadError::Config)
        } else {
            None
        }
    }

    /// What developing the dump gives.
    pub open spec fn developed(self, image_type: ImageType) -> Result<ImageView, LoadError> {
        if self.refusal() is Some {
            Err(self.refusal()->0)
        } else if self.sensor().rejection() is Some {
            Err(self.sensor().rejection()->0)
        } else {
            Ok(
                ImageView {
                    width: self.width,
                    height: self.height,
                    pixels: self.sensor().developed(image_type),
                },
            )
        }
    }
}

#[verifier::external_type_specification]
#[verifier::external_body]
pub struct ExRawLoaderError(rawloader::RawLoaderError);

/// What the container decoder makes of the bytes of a file: the dump, or
/// `None` where it gives up.
pub uninterp spec fn container_contents(data: Seq<u8>) -> Option<SensorDumpView>;

/// Calls `rawloader::decode` on a file held in memory and copies out the
/// fields that development reads. Trusted: the decoder's answer depends on
/// the bytes alone, so it is `container_contents` of them; nothing is said
/// about what that answer is.
#[verifier::external_body]
pub(crate) fn read_container(data: &[u8]) -> (r: Result<SensorDump, rawloader::RawLoaderError>)
    ensures
        r matches Ok(dump) ==> container_contents(data@) == Some(dump@),
        r is Err ==> container_contents(data@) is None,
{
    let mut reader = data;
    let raw = rawloader::decode(&mut reader)?;
    let samples = match raw.data {
        rawloader::RawImageData::Integer(values) => Some(values),
        rawloader::RawImageData::Float(_) => None,
    };
    let wb_bits = raw.wb_coeffs.map(|c| c.to_bits());
    let (black_levels, white_levels) = (raw.blacklevels, raw.whitelevels);
    let (width, height, components) = (raw.width, raw.height, raw.cpp);
    let (cfa_width, cfa_height, cfa_letters) = (raw.cfa.width, raw.cfa.height, raw.cfa.name.into_bytes());
    Ok(SensorDump { width, height, components, samples, black_levels, white_levels, wb_bits, cfa_letters, cfa_width, cfa_height })
}

/// Builds the sensor image that a dump describes.
pub fn sensor_from_dump(dump: SensorDump) -> (r: Result<RawSensorImage, LoadError>)
    ensures
        (r is Ok) == (dump@.refusal() is None),
        r matches Ok(sensor) ==> sensor@ == dump@.sensor(),
        r matches Err(e) ==> Some(e) == dump@.refusal(),
{
    let ghost view = dump@;
    if dump.components != 1 {
        return Err(LoadError::Decode);
    }
    let samples: Vec<u16> = match dump.samples {
        Some(values) => values,
        None => {
            return Err(LoadError::Decode);
        },
    };
    let cfa: CfaPattern = match CfaPattern::from_descriptor(
        dump.cfa_letters.as_slice(),
        dump.cfa_width,
        dump.cfa_height,
    ) {
        Ok(pattern) => pattern,
        Err(_) => {
            return Err(LoadError::Config);
        },
    };
    let red: Ratio = match Ratio::from_f32_bits(dump.wb_bits[0]) {
        Some(q) => q,
        None => {
            assert(ratio_of_bits(view.wb_bits[0]) is None);
            return Err(LoadError::Config);
        },
    };
    let green: Ratio = match Ratio::from_f32_bits(dump.wb_bits[1]) {
        Some(q) => q,
        None => {
            assert(ratio_of_bits(view.wb_bits[1]) is None);
            return Err(LoadError::Config);
        },
    };
    let blue: Ratio = match Ratio::from_f32_bits(dump.wb_bits[2]) {
        Some(q) => q,
        None => {
            assert(ratio_of_bits(view.wb_bits[2]) is None);
            return Err(LoadError::Config);
        },
    };
    let sensor = RawSensorImage {
        width: dump.width,
        height: dump.height,
        samples,
        black_levels: [dump.black_levels[0], dump.black_levels[1], dump.black_levels[2]],
        white_levels: [dump.white_levels[0], dump.white_levels[1], dump.white_levels[2]],
        wb_coeffs: [red, green, blue],
        cfa,
    };
    proof {
        let want = view.sensor();
        assert(sensor@.samples == want.samples);
        assert(sensor@.black_levels =~= want.black_levels);
        assert(sensor@.white_levels =~= want.white_levels);
        assert(sensor@.wb_coeffs =~= want.wb_coeffs);
        assert(sensor@.cfa.colors =~= want.cfa.colors);
        assert(sensor@.cfa == want.cfa);
        assert(sensor@ == want);
    }
    Ok(sensor)
}

} // verus!
