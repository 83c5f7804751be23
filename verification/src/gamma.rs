use crate::bignat::BigNat;
use crate::detector::ImageType;
use vstd::arithmetic::power::pow;
use vstd::prelude::*;

verus! {

/// The largest value of an output byte.
pub const TOP_LEVEL: u8 = 255;

/// Gammas are held in tenths: `tenths / GAMMA_UNIT` is the gamma.
pub const GAMMA_UNIT: u32 = 10;

/// From this many values on, working out a table first is the faster way to
/// encode them.
pub const TABLE_FROM: usize = 16384;

/// The gamma, in tenths, that a sensor family is encoded with.
pub open spec fn gamma_tenths_of(image_type: ImageType) -> nat {
    match image_type {
        ImageType::RawFuji => 24,
        ImageType::RawCanon => 21,
        _ => 22,
    }
}

pub fn gamma_tenths(image_type: ImageType) -> (r: u32)
    ensures
        r == gamma_tenths_of(image_type),
{
    match image_type {
        ImageType::RawFuji => 24,
        ImageType::RawCanon => 21,
        _ => 22,
    }
}

/// Level `k` is reached by the light `n / d` under the gamma `tenths / 10`
/// when `255 * (n / d) ^ (10 / tenths) >= k - 1/2`. Both sides are raised to
/// the power `tenths` and cleared of fractions, which leaves integers.
pub open spec fn level_reached(n: nat, d: nat, tenths: nat, k: int) -> bool {
    pow(n as int, GAMMA_UNIT as nat) * pow(510, tenths) >= pow(2 * k - 1, tenths) * pow(
        d as int,
        GAMMA_UNIT as nat,
    )
}

/// The highest level from 1 to `k` that is reached, or 0 if none is.
pub open spec fn highest_level(n: nat, d: nat, tenths: nat, k: nat) -> nat
    decreases k,
{
    if k == 0 {
        0
    } else if level_reached(n, d, tenths, k as int) {
        k
    } else {
        highest_level(n, d, tenths, (k - 1) as nat)
    }
}

/// The light `n / d`, held to at most 1.
pub open spec fn clamped(n: nat, d: nat) -> nat {
    if n <= d {
        n
    } else {
        d
    }
}

/// The byte that encodes the light `n / d`: `255 * min(n / d, 1) ^ (10 /
/// tenths)`, rounded to the nearest integer, halves upward.
pub open spec fn gamma_byte(n: nat, d: nat, tenths: nat) -> nat {
    highest_level(clamped(n, d), d, tenths, TOP_LEVEL as nat)
}

/// Powers grow with their base.
pub proof fn lemma_pow_base_monotonic(a: int, b: int, e: nat)
    requires
        0 <= a <= b,
    ensures
        0 <= pow(a, e) <= pow(b, e),
    decreases e,
{
    reveal(pow);
    if e > 0 {
        lemma_pow_base_monotonic(a, b, (e - 1) as nat);
        let x = pow(a, (e - 1) as nat);
        let y = pow(b, (e - 1) as nat);
        assert(0 <= a * x <= b * y) by (nonlinear_arith)
            requires
                0 <= a <= b,
                0 <= x <= y,
        ;
    }
}

/// A level that is reached has every lower level reached too.
pub proof fn lemma_levels_nest(n: nat, d: nat, tenths: nat, j: int, k: int)
    requires
        1 <= j <= k,
        level_reached(n, d, tenths, k),
    ensures
        level_reached(n, d, tenths, j),
{
    lemma_pow_base_monotonic(2 * j - 1, 2 * k - 1, tenths);
    lemma_pow_base_monotonic(0, d as int, GAMMA_UNIT as nat);
    let low = pow(2 * j - 1, tenths);
    let high = pow(2 * k - 1, tenths);
    let scale = pow(d as int, GAMMA_UNIT as nat);
    assert(low * scale <= high * scale) by (nonlinear_arith)
        requires
            0 <= low <= high,
            0 <= scale,
    ;
}

/// The encoded byte depends on the light alone, not on the unit it is
/// counted in.
pub proof fn lemma_gamma_byte_scales(n: nat, d: nat, k: nat, tenths: nat)
    requires
        k > 0,
    ensures
        gamma_byte(n * k, d * k, tenths) == gamma_byte(n, d, tenths),
{
    assert(clamped(n * k, d * k) == clamped(n, d) * k) by (nonlinear_arith)
        requires
            k > 0,
            clamped(n * k, d * k) == (if n * k <= d * k {
                n * k
            } else {
                d * k
            }),
            clamped(n, d) == (if n <= d {
                n
            } else {
                d
            }),
    ;
    lemma_highest_level_scales(clamped(n, d), d, k, tenths, TOP_LEVEL as nat);
}

proof fn lemma_highest_level_scales(n: nat, d: nat, k: nat, tenths: nat, top: nat)
    requires
        k > 0,
    ensures
        highest_level(n * k, d * k, tenths, top) == highest_level(n, d, tenths, top),
    decreases top,
{
    if top > 0 {
        lemma_level_scales(n, d, k, tenths, top as int);
        lemma_highest_level_scales(n, d, k, tenths, (top - 1) as nat);
    }
}

proof fn lemma_level_scales(n: nat, d: nat, k: nat, tenths: nat, level: int)
    requires
        k > 0,
    ensures
        level_reached(n * k, d * k, tenths, level) == level_reached(n, d, tenths, level),
{
    let e = GAMMA_UNIT as nat;
    vstd::arithmetic::power::lemma_pow_distributes(n as int, k as int, e);
    vstd::arithmetic::power::lemma_pow_distributes(d as int, k as int, e);
    vstd::arithmetic::power::lemma_pow_positive(k as int, e);
    let a = pow(n as int, e);
    let b = pow(510, tenths);
    let c = pow(2 * level - 1, tenths);
    let dd = pow(d as int, e);
    let kk = pow(k as int, e);
    assert(((a * kk) * b >= c * (dd * kk)) == (a * b >= c * dd)) by (nonlinear_arith)
        requires
            kk > 0,
    ;
}

/// The encoded byte is the one level `b` with `b - 1/2 <= 255 * t ^ (10 /
/// tenths) < b + 1/2`, where `t` is the clamped light.
pub proof fn lemma_gamma_byte_is_nearest(n: nat, d: nat, tenths: nat)
    ensures
        gamma_byte(n, d, tenths) <= TOP_LEVEL,
        gamma_byte(n, d, tenths) >= 1 ==> level_reached(
            clamped(n, d),
            d,
            tenths,
            gamma_byte(n, d, tenths) as int,
        ),
        gamma_byte(n, d, tenths) < TOP_LEVEL ==> !level_reached(
            clamped(n, d),
            d,
            tenths,
            (gamma_byte(n, d, tenths) + 1) as int,
        ),
{
    lemma_highest_level(clamped(n, d), d, tenths, TOP_LEVEL as nat);
}

proof fn lemma_highest_level(n: nat, d: nat, tenths: nat, k: nat)
    ensures
        highest_level(n, d, tenths, k) <= k,
        highest_level(n, d, tenths, k) >= 1 ==> level_reached(
            n,
            d,
            tenths,
            highest_level(n, d, tenths, k) as int,
        ),
        forall|j: int|
            highest_level(n, d, tenths, k) < j <= k ==> !#[trigger] level_reached(n, d, tenths, j),
    decreases k,
{
    if k > 0 && !level_reached(n, d, tenths, k as int) {
        lemma_highest_level(n, d, tenths, (k - 1) as nat);
    }
}

/// More light reaches whatever less light reaches.
pub proof fn lemma_light_monotonic(n: nat, m: nat, d: nat, tenths: nat, k: int)
    requires
        n <= m,
        level_reached(n, d, tenths, k),
    ensures
        level_reached(m, d, tenths, k),
{
    lemma_pow_base_monotonic(n as int, m as int, GAMMA_UNIT as nat);
    lemma_pow_base_monotonic(0, 510, tenths);
    let low = pow(n as int, GAMMA_UNIT as nat);
    let high = pow(m as int, GAMMA_UNIT as nat);
    let scale = pow(510, tenths);
    assert(low * scale <= high * scale) by (nonlinear_arith)
        requires
            0 <= low <= high,
            0 <= scale,
    ;
}

/// Full light reaches every level.
pub proof fn lemma_full_light_reaches(d: nat, tenths: nat, k: int)
    requires
        1 <= k <= TOP_LEVEL,
    ensures
        level_reached(d, d, tenths, k),
{
    lemma_pow_base_monotonic(2 * k - 1, 510, tenths);
    lemma_pow_base_monotonic(0, d as int, GAMMA_UNIT as nat);
    let low = pow(2 * k - 1, tenths);
    let high = pow(510, tenths);
    let scale = pow(d as int, GAMMA_UNIT as nat);
    assert(low * scale <= scale * high) by (nonlinear_arith)
        requires
            0 <= low <= high,
            0 <= scale,
    ;
}

/// A level that is reached under one gamma is reached under every higher
/// gamma.
pub proof fn lemma_level_kept_under_higher_gamma(n: nat, d: nat, lower: nat, higher: nat, k: int)
    requires
        1 <= k <= TOP_LEVEL,
        lower <= higher,
        level_reached(n, d, lower, k),
    ensures
        level_reached(n, d, higher, k),
{
    let more = (higher - lower) as nat;
    vstd::arithmetic::power::lemma_pow_adds(510, lower, more);
    vstd::arithmetic::power::lemma_pow_adds(2 * k - 1, lower, more);
    lemma_pow_base_monotonic(2 * k - 1, 510, more);
    lemma_pow_base_monotonic(0, 2 * k - 1, lower);
    lemma_pow_base_monotonic(0, d as int, GAMMA_UNIT as nat);
    let a = pow(n as int, GAMMA_UNIT as nat);
    let scale = pow(d as int, GAMMA_UNIT as nat);
    let p = pow(510, lower);
    let c = pow(2 * k - 1, lower);
    let p_more = pow(510, more);
    let c_more = pow(2 * k - 1, more);
    assert(a * (p * p_more) >= (c * c_more) * scale) by (nonlinear_arith)
        requires
            a * p >= c * scale,
            0 <= c_more <= p_more,
            0 <= c,
            0 <= scale,
    ;
}

/// The highest level is at least every level that is reached.
proof fn lemma_highest_level_covers(n: nat, d: nat, tenths: nat, k: nat, top: nat)
    requires
        1 <= k <= top,
        level_reached(n, d, tenths, k as int),
    ensures
        highest_level(n, d, tenths, top) >= k,
    decreases top,
{
    if top > k && !level_reached(n, d, tenths, top as int) {
        lemma_highest_level_covers(n, d, tenths, k, (top - 1) as nat);
    }
}

/// The same light is encoded at least as brightly under a higher gamma: what
/// the Fuji curve gives is never below what the common curve gives, and that
/// never below what the Canon curve gives.
pub proof fn lemma_higher_gamma_is_brighter(n: nat, d: nat, lower: nat, higher: nat)
    requires
        lower <= higher,
    ensures
        gamma_byte(n, d, lower) <= gamma_byte(n, d, higher),
{
    let light = clamped(n, d);
    let level = gamma_byte(n, d, lower);
    lemma_highest_level(light, d, lower, TOP_LEVEL as nat);
    if level >= 1 {
        lemma_level_kept_under_higher_gamma(light, d, lower, higher, level as int);
        lemma_highest_level_covers(light, d, higher, level, TOP_LEVEL as nat);
    }
}

/// A level that is reached while the next is not, is the highest.
proof fn lemma_highest_level_found(n: nat, d: nat, tenths: nat, found: nat, k: nat)
    requires
        found <= k,
        found >= 1 ==> level_reached(n, d, tenths, found as int),
        found < k ==> !level_reached(n, d, tenths, (found + 1) as int),
    ensures
        highest_level(n, d, tenths, k) == found,
    decreases k,
{
    if k > found {
        if level_reached(n, d, tenths, k as int) {
            lemma_levels_nest(n, d, tenths, (found + 1) as int, k as int);
        }
        lemma_highest_level_found(n, d, tenths, found, (k - 1) as nat);
    }
}

/// `a ^ ea * b ^ eb`.
fn power_product(a: u64, ea: u32, b: u64, eb: u32) -> (r: BigNat)
    ensures
        r@ == pow(a as int, ea as nat) * pow(b as int, eb as nat),
{
    let mut acc = BigNat::from_u64(1);
    let mut i: u32 = 0;
    proof {
        reveal(pow);
    }
    while i < ea
        invariant
            i <= ea,
            acc@ == pow(a as int, i as nat),
        decreases ea - i,
    {
        proof {
            reveal(pow);
            let x = pow(a as int, i as nat);
            assert(x * a == a * x) by (nonlinear_arith);
        }
        acc = acc.mul_small(a);
        i += 1;
    }
    let mut j: u32 = 0;
    while j < eb
        invariant
            j <= eb,
            acc@ == pow(a as int, ea as nat) * pow(b as int, j as nat),
        decreases eb - j,
    {
        proof {
            reveal(pow);
            let x = pow(a as int, ea as nat);
            let y = pow(b as int, j as nat);
            assert((x * y) * b == x * (b * y)) by (nonlinear_arith);
        }
        acc = acc.mul_small(b);
        j += 1;
    }
    acc
}

/// The encoding of light measured in units of `1 / denominator` under one
/// gamma, with the bound of every level worked out in advance.
pub struct GammaCurve {
    denominator: u64,
    tenths: u32,
    bounds: Vec<BigNat>,
}

impl GammaCurve {
    pub closed spec fn denominator(&self) -> nat {
        self.denominator as nat
    }

    pub closed spec fn tenths(&self) -> nat {
        self.tenths as nat
    }

    /// Entry `k - 1` holds the right-hand side of `level_reached` for level `k`.
    #[verifier::type_invariant]
    spec fn wf(&self) -> bool {
        &&& self.bounds@.len() == TOP_LEVEL
        &&& forall|k: int|
            1 <= k <= TOP_LEVEL ==> (#[trigger] self.bounds@[k - 1])@ == pow(2 * k - 1, self.tenths())
                * pow(self.denominator as int, GAMMA_UNIT as nat)
    }

    pub fn new(denominator: u64, tenths: u32) -> (r: GammaCurve)
        ensures
            r.denominator() == denominator,
            r.tenths() == tenths,
    {
        let mut bounds: Vec<BigNat> = Vec::new();
        let mut k: u64 = 1;
        while k <= 255
            invariant
                1 <= k <= 256,
                bounds@.len() == k - 1,
                forall|j: int|
                    1 <= j < k ==> (#[trigger] bounds@[j - 1])@ == pow(2 * j - 1, tenths as nat)
                        * pow(denominator as int, GAMMA_UNIT as nat),
            decreases 256 - k,
        {
            let bound = power_product(2 * k - 1, tenths, denominator, GAMMA_UNIT);
            bounds.push(bound);
            k += 1;
        }
        GammaCurve { denominator, tenths, bounds }
    }

    /// Whether the light `light / denominator` reaches level `k`.
    pub fn reaches(&self, light: u64, k: u8) -> (r: bool)
        requires
            k >= 1,
        ensures
            r == level_reached(light as nat, self.denominator(), self.tenths(), k as int),
    {
        proof {
            use_type_invariant(self);
        }
        let reach = power_product(light, GAMMA_UNIT, 510, self.tenths);
        assert((self.bounds@[k as int - 1])@ == pow(2 * (k as int) - 1, self.tenths()) * pow(
            self.denominator as int,
            GAMMA_UNIT as nat,
        ));
        self.bounds[(k - 1) as usize].le(&reach)
    }

    /// The byte for the light `n / denominator`.
    pub fn encode(&self, n: u64) -> (r: u8)
        ensures
            r == gamma_byte(n as nat, self.denominator(), self.tenths()),
    {
        proof {
            use_type_invariant(self);
        }
        let light: u64 = if n <= self.denominator { n } else { self.denominator };
        let reach = power_product(light, GAMMA_UNIT, 510, self.tenths);
        let ghost d = self.denominator as nat;
        let ghost t = self.tenths as nat;
        let mut low: u8 = 0;
        let mut high: u16 = 256;
        while high - low as u16 > 1
            invariant
                self.wf(),
                d == self.denominator,
                t == self.tenths,
                low < high <= 256,
                reach@ == pow(light as int, GAMMA_UNIT as nat) * pow(510, t),
                low >= 1 ==> level_reached(light as nat, d, t, low as int),
                high <= 255 ==> !level_reached(light as nat, d, t, high as int),
            decreases high - low,
        {
            let mid: u16 = (low as u16 + high) / 2;
            assert(1 <= mid <= 255);
            let bound = &self.bounds[(mid - 1) as usize];
            assert((self.bounds@[mid as int - 1])@ == pow(2 * (mid as int) - 1, t) * pow(
                d as int,
                GAMMA_UNIT as nat,
            ));
            if bound.le(&reach) {
                low = mid as u8;
            } else {
                high = mid;
            }
        }
        proof {
            lemma_highest_level_found(light as nat, d, t, low as nat, TOP_LEVEL as nat);
        }
        low
    }
}

/// The encoding of light measured in units of `1 / denominator` under one
/// gamma, with the least light of every level worked out in advance. Costly
/// to make, quick to use.
pub struct GammaTable {
    denominator: u64,
    tenths: u32,
    thresholds: Vec<u64>,
}

impl GammaTable {
    pub closed spec fn denominator(&self) -> nat {
        self.denominator as nat
    }

    pub closed spec fn tenths(&self) -> nat {
        self.tenths as nat
    }

    /// Entry `k - 1` holds the least light that reaches level `k`.
    #[verifier::type_invariant]
    spec fn wf(&self) -> bool {
        &&& self.thresholds@.len() == TOP_LEVEL
        &&& forall|k: int, light: nat|
            1 <= k <= TOP_LEVEL && light <= self.denominator ==> (#[trigger] level_reached(
                light,
                self.denominator as nat,
                self.tenths as nat,
                k,
            )) == (light >= self.thresholds@[k - 1])
    }

    pub fn new(denominator: u64, tenths: u32) -> (r: GammaTable)
        ensures
            r.denominator() == denominator,
            r.tenths() == tenths,
    {
        let curve = GammaCurve::new(denominator, tenths);
        let ghost d = denominator as nat;
        let ghost t = tenths as nat;
        let mut thresholds: Vec<u64> = Vec::new();
        let mut k: u16 = 1;
        while k <= 255
            invariant
                1 <= k <= 256,
                curve.denominator() == d,
                curve.tenths() == t,
                d == denominator,
                thresholds@.len() == k - 1,
                forall|j: int, light: nat|
                    1 <= j < k && light <= d ==> (#[trigger] level_reached(light, d, t, j)) == (
                    light >= thresholds@[j - 1]),
            decreases 256 - k,
        {
            let mut low: u64 = 0;
            let mut high: u64 = denominator;
            proof {
                lemma_full_light_reaches(d, t, k as int);
            }
            while low < high
                invariant
                    1 <= k <= 255,
                        curve.denominator() == d,
                    curve.tenths() == t,
                    low <= high <= denominator,
                    level_reached(high as nat, d, t, k as int),
                    low > 0 ==> !level_reached((low - 1) as nat, d, t, k as int),
                decreases high - low,
            {
                let mid: u64 = low + (high - low) / 2;
                if curve.reaches(mid, k as u8) {
                    high = mid;
                } else {
                    low = mid + 1;
                }
            }
            let ghost before = thresholds@;
            thresholds.push(low);
            proof {
                assert forall|j: int, light: nat| 1 <= j <= k && light <= d implies (
                #[trigger] level_reached(light, d, t, j)) == (light >= thresholds@[j - 1]) by {
                    if j < k {
                        assert(thresholds@[j - 1] == before[j - 1]);
                    } else if light >= low {
                        lemma_light_monotonic(low as nat, light, d, t, k as int);
                    } else if level_reached(light, d, t, k as int) {
                        lemma_light_monotonic(light, (low - 1) as nat, d, t, k as int);
                    }
                }
            }
            k += 1;
        }
        GammaTable { denominator, tenths, thresholds }
    }

    /// The byte for the light `n / denominator`.
    pub fn encode(&self, n: u64) -> (r: u8)
        ensures
            r == gamma_byte(n as nat, self.denominator(), self.tenths()),
    {
        proof {
            use_type_invariant(self);
        }
        let light: u64 = if n <= self.denominator { n } else { self.denominator };
        let ghost d = self.denominator as nat;
        let ghost t = self.tenths as nat;
        let mut low: u8 = 0;
        let mut high: u16 = 256;
        while high - low as u16 > 1
            invariant
                self.wf(),
                d == self.denominator,
                t == self.tenths,
                light <= d,
                low < high <= 256,
                low >= 1 ==> level_reached(light as nat, d, t, low as int),
                high <= 255 ==> !level_reached(light as nat, d, t, high as int),
            decreases high - low,
        {
            let mid: u16 = (low as u16 + high) / 2;
            assert(1 <= mid <= 255);
            assert(level_reached(light as nat, d, t, mid as int) == (light
                >= self.thresholds@[mid as int - 1]));
            if self.thresholds[(mid - 1) as usize] <= light {
                low = mid as u8;
            } else {
                high = mid;
            }
        }
        proof {
            lemma_highest_level_found(light as nat, d, t, low as nat, TOP_LEVEL as nat);
        }
        low
    }
}

/// An encoder of light under one gamma, made in the way that suits the
/// number of values to encode.
pub enum GammaEncoder {
    Direct(GammaCurve),
    Tabulated(GammaTable),
}

impl GammaEncoder {
    pub open spec fn denominator(&self) -> nat {
        match self {
            GammaEncoder::Direct(curve) => curve.denominator(),
            GammaEncoder::Tabulated(table) => table.denominator(),
        }
    }

    pub open spec fn tenths(&self) -> nat {
        match self {
            GammaEncoder::Direct(curve) => curve.tenths(),
            GammaEncoder::Tabulated(table) => table.tenths(),
        }
    }

    /// An encoder for `values` values.
    pub fn new(denominator: u64, tenths: u32, values: usize) -> (r: GammaEncoder)
        ensures
            r.denominator() == denominator,
            r.tenths() == tenths,
            r is Tabulated == (values >= TABLE_FROM),
    {
        if values >= TABLE_FROM {
            GammaEncoder::Tabulated(GammaTable::new(denominator, tenths))
        } else {
            GammaEncoder::Direct(GammaCurve::new(denominator, tenths))
        }
    }

    /// The byte for the light `n / denominator`.
    pub fn encode(&self, n: u64) -> (r: u8)
        ensures
            r == gamma_byte(n as nat, self.denominator(), self.tenths()),
    {
        match self {
            GammaEncoder::Direct(curve) => curve.encode(n),
            GammaEncoder::Tabulated(table) => table.encode(n),
        }
    }
}

} // verus!
