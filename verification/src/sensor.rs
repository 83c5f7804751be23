use crate::cfa::{CfaPattern, CfaView, BLUE, CHANNELS};
use crate::error::LoadError;
use vstd::arithmetic::power2::{lemma2_to64, lemma_pow2_unfold, pow2};
use vstd::prelude::*;

verus! {

/// The largest numerator that a channel value can have: a full-range sample
/// times the largest white-balance numerator.
pub const VALUE_LIMIT: u64 = 0xFFFF * 0xFFFF_FFFF;

/// A non-negative fraction `num / den`.
#[derive(Debug, Clone, Copy, PartialEq, Eq, Structural)]
pub struct Ratio {
    pub num: u32,
    pub den: u32,
}

/// The sign bit of an IEEE 754 single-precision number.
pub open spec fn float_sign(bits: u32) -> int {
    (bits / 0x8000_0000) as int
}

/// The biased exponent of an IEEE 754 single-precision number.
pub open spec fn float_exponent(bits: u32) -> int {
    ((bits / 0x80_0000) % 256) as int
}

/// The significand of a normal IEEE 754 single-precision number, with its
/// leading one: 24 bits that are to be scaled by `2 ^ (exponent - 150)`.
pub open spec fn float_significand(bits: u32) -> int {
    0x80_0000 + bits % 0x80_0000
}

/// The number that `bits` stand for as an IEEE 754 single-precision number,
/// as a fraction, where that number is zero or at least `2 ^ -8` and below
/// `2 ^ 32`. The fraction is the significand over a power of two, or scaled
/// by one; negative numbers, infinities and NaN have none.
pub open spec fn ratio_of_bits(bits: u32) -> Option<Ratio> {
    let e = float_exponent(bits);
    if float_sign(bits) != 0 || e == 255 {
        None
    } else if e == 0 {
        if bits == 0 {
            Some(Ratio { num: 0, den: 1 })
        } else {
            None
        }
    } else if e >= 150 {
        if e <= 158 {
            Some(Ratio { num: (float_significand(bits) * pow2((e - 150) as nat)) as u32, den: 1 })
        } else {
            None
        }
    } else if e >= 119 {
        Some(Ratio { num: float_significand(bits) as u32, den: pow2((150 - e) as nat) as u32 })
    } else {
        None
    }
}

/// `2 ^ k`.
fn power_of_two(k: u32) -> (r: u32)
    requires
        k <= 31,
    ensures
        r == pow2(k as nat),
{
    let mut r: u32 = 1;
    let mut i: u32 = 0;
    proof {
        lemma2_to64();
    }
    while i < k
        invariant
            i <= k <= 31,
            r == pow2(i as nat),
            r <= 0x8000_0000,
        decreases k - i,
    {
        proof {
            lemma_pow2_unfold((i + 1) as nat);
            lemma2_to64();
            vstd::arithmetic::power2::lemma_pow2_strictly_increases(i as nat, 31);
        }
        r = r * 2;
        i += 1;
    }
    r
}

impl Ratio {
    /// Reads the bits of a single-precision number as a fraction.
    pub fn from_f32_bits(bits: u32) -> (r: Option<Ratio>)
        ensures
            r == ratio_of_bits(bits),
    {
        let sign: u32 = bits / 0x8000_0000;
        let e: u32 = (bits / 0x80_0000) % 256;
        let significand: u32 = 0x80_0000 + bits % 0x80_0000;
        if sign != 0 || e == 255 {
            None
        } else if e == 0 {
            if bits == 0 {
                Some(Ratio { num: 0, den: 1 })
            } else {
                None
            }
        } else if e >= 150 {
            if e <= 158 {
                let scale: u32 = power_of_two(e - 150);
                proof {
                    lemma2_to64();
                    vstd::arithmetic::power2::lemma_pow2_strictly_increases((e - 150) as nat, 9);
                    assert(significand * scale <= 0xFF_FFFF * 256) by (nonlinear_arith)
                        requires
                            0 <= significand <= 0xFF_FFFF,
                            0 <= scale <= 256,
                    ;
                }
                Some(Ratio { num: significand * scale, den: 1 })
            } else {
                None
            }
        } else if e >= 119 {
            Some(Ratio { num: significand, den: power_of_two(150 - e) })
        } else {
            None
        }
    }
}

/// What a sensor delivered: one sample per pixel, row by row, with the
/// levels, white balance and filter pattern needed to read them. The three
/// entries of each array belong to red, green and blue.
#[derive(Debug)]
pub struct RawSensorImage {
    pub width: usize,
    pub height: usize,
    pub samples: Vec<u16>,
    pub black_levels: [u16; 3],
    pub white_levels: [u16; 3],
    pub wb_coeffs: [Ratio; 3],
    pub cfa: CfaPattern,
}

/// The distance between the two levels.
pub open spec fn span(black: u16, white: u16) -> nat {
    if white >= black {
        (white - black) as nat
    } else {
        (black - white) as nat
    }
}

/// `(sample - black) / (white - black)`, held between 0 and 1, in units of
/// `1 / span(black, white)`.
pub open spec fn level(sample: u16, black: u16, white: u16) -> nat {
    if white >= black {
        if sample <= black {
            0
        } else if sample >= white {
            (white - black) as nat
        } else {
            (sample - black) as nat
        }
    } else {
        if sample >= black {
            0
        } else if sample <= white {
            (black - white) as nat
        } else {
            (black - sample) as nat
        }
    }
}

pub fn level_of(sample: u16, black: u16, white: u16) -> (r: u16)
    ensures
        r == level(sample, black, white),
        r <= span(black, white),
{
    if white >= black {
        if sample <= black {
            0
        } else if sample >= white {
            white - black
        } else {
            sample - black
        }
    } else {
        if sample >= black {
            0
        } else if sample <= white {
            black - white
        } else {
            black - sample
        }
    }
}

/// What a sensor image is, as plain values.
pub struct SensorView {
    pub width: nat,
    pub height: nat,
    pub samples: Seq<u16>,
    pub black_levels: Seq<u16>,
    pub white_levels: Seq<u16>,
    pub wb_coeffs: Seq<Ratio>,
    pub cfa: CfaView,
}

impl View for RawSensorImage {
    type V = SensorView;

    open spec fn view(&self) -> SensorView {
        SensorView {
            width: self.width as nat,
            height: self.height as nat,
            samples: self.samples@,
            black_levels: self.black_levels@,
            white_levels: self.white_levels@,
            wb_coeffs: self.wb_coeffs@,
            cfa: self.cfa@,
        }
    }
}

impl SensorView {
    /// Number of pixels.
    pub open spec fn pixels(self) -> int {
        (self.width * self.height) as int
    }

    /// There is one sample per pixel, and three bytes per pixel can be
    /// addressed.
    pub open spec fn well_sized(self) -> bool {
        self.samples.len() == self.pixels() && CHANNELS * self.pixels() <= usize::MAX
    }

    /// The pattern is valid, no channel has equal black and white levels, and
    /// every white-balance factor has a denominator.
    pub open spec fn configured(self) -> bool {
        &&& self.black_levels.len() == CHANNELS
        &&& self.white_levels.len() == CHANNELS
        &&& self.wb_coeffs.len() == CHANNELS
        &&& self.cfa.valid()
        &&& forall|c: int|
            0 <= c < CHANNELS ==> #[trigger] self.white_levels[c] != self.black_levels[c]
        &&& forall|c: int| 0 <= c < CHANNELS ==> (#[trigger] self.wb_coeffs[c]).den != 0
    }

    /// Why the image cannot be decoded, if it cannot.
    pub open spec fn rejection(self) -> Option<LoadError> {
        if !self.well_sized() {
            Some(LoadError::Decode)
        } else if !self.configured() {
            Some(LoadError::Config)
        } else {
            None
        }
    }

    /// The channel that the filter lets through at pixel `i`.
    pub open spec fn native_channel(self, i: int) -> int {
        self.cfa.color_of(i % (self.width as int), i / (self.width as int)) as int
    }

    /// The unit in which values of channel `c` are counted is `1 / unit(c)`.
    pub open spec fn unit(self, c: int) -> nat {
        (span(self.black_levels[c], self.white_levels[c]) * self.wb_coeffs[c].den) as nat
    }

    /// The white-balanced sample at pixel `i` where the filter lets channel
    /// `c` through, and zero, which stands for unknown, elsewhere. Counted in
    /// units of `1 / unit(c)`.
    pub open spec fn native_value(self, c: int, i: int) -> nat {
        if self.native_channel(i) == c {
            (level(self.samples[i], self.black_levels[c], self.white_levels[c])
                * self.wb_coeffs[c].num) as nat
        } else {
            0
        }
    }

}

impl RawSensorImage {
    pub fn validate(&self) -> (r: Option<LoadError>)
        ensures
            r == self@.rejection(),
    {
        let count: usize = self.samples.len();
        match self.width.checked_mul(self.height) {
            None => {
                return Some(LoadError::Decode);
            },
            Some(pixels) => {
                if count != pixels || pixels.checked_mul(CHANNELS).is_none() {
                    return Some(LoadError::Decode);
                }
            },
        }
        if !self.cfa.is_valid() {
            return Some(LoadError::Config);
        }
        let mut c: usize = 0;
        while c < CHANNELS
            invariant
                c <= CHANNELS,
                self@.well_sized(),
                self.cfa@.valid(),
                forall|k: int|
                    0 <= k < c ==> #[trigger] self.white_levels[k] != self.black_levels[k],
                forall|k: int| 0 <= k < c ==> (#[trigger] self.wb_coeffs[k]).den != 0,
            decreases CHANNELS - c,
        {
            if self.white_levels[c] == self.black_levels[c] || self.wb_coeffs[c].den == 0 {
                assert(self.white_levels[c as int] == self.black_levels[c as int]
                    || self.wb_coeffs[c as int].den == 0);
                return Some(LoadError::Config);
            }
            c += 1;
        }
        None
    }

    /// The unit of channel `c`.
    pub fn unit_of(&self, c: u8) -> (r: u64)
        requires
            c <= BLUE,
        ensures
            r == self@.unit(c as int),
            r <= VALUE_LIMIT,
    {
        let black: u16 = self.black_levels[c as usize];
        let white: u16 = self.white_levels[c as usize];
        let range: u16 = if white >= black {
            white - black
        } else {
            black - white
        };
        let den: u32 = self.wb_coeffs[c as usize].den;
        assert(range * den <= 0xFFFF * 0xFFFF_FFFF) by (nonlinear_arith)
            requires
                0 <= range <= 0xFFFF,
                0 <= den <= 0xFFFF_FFFF,
        ;
        (range as u64) * (den as u64)
    }

    /// The plane of channel `c` before reconstruction: the native values.
    pub fn native_plane(&self, c: u8) -> (plane: Vec<u64>)
        requires
            self@.rejection() is None,
            c <= BLUE,
        ensures
            plane@.len() == self@.pixels(),
            forall|i: int|
                0 <= i < self@.pixels() ==> #[trigger] plane@[i] == self@.native_value(c as int, i),
            forall|i: int| 0 <= i < self@.pixels() ==> #[trigger] plane@[i] <= VALUE_LIMIT,
    {
        let count: usize = self.samples.len();
        let black: u16 = self.black_levels[c as usize];
        let white: u16 = self.white_levels[c as usize];
        let num: u32 = self.wb_coeffs[c as usize].num;
        let mut plane: Vec<u64> = Vec::new();
        let mut i: usize = 0;
        while i < count
            invariant
                self@.rejection() is None,
                c <= BLUE,
                count == self@.pixels(),
                count == self.samples@.len(),
                black == self.black_levels[c as int],
                white == self.white_levels[c as int],
                num == self.wb_coeffs[c as int].num,
                i <= count,
                plane@.len() == i,
                forall|j: int|
                    0 <= j < i ==> #[trigger] plane@[j] == self@.native_value(c as int, j),
                forall|j: int| 0 <= j < i ==> #[trigger] plane@[j] <= VALUE_LIMIT,
            decreases count - i,
        {
            assert(self.width > 0) by (nonlinear_arith)
                requires
                    i < self.width * self.height,
                    self.width >= 0,
            ;
            let native: u8 = self.cfa.color_at(i % self.width, i / self.width);
            let value: u64 = if native == c {
                let reading: u16 = level_of(self.samples[i], black, white);
                assert(reading * num <= 0xFFFF * 0xFFFF_FFFF) by (nonlinear_arith)
                    requires
                        0 <= reading <= 0xFFFF,
                        0 <= num <= 0xFFFF_FFFF,
                ;
                (reading as u64) * (num as u64)
            } else {
                0
            };
            plane.push(value);
            i += 1;
        }
        plane
    }
}

} // verus!
