use vstd::arithmetic::power::pow;
use vstd::prelude::*;

verus! {

/// The base in which a `BigNat` is written: one limb is one digit.
pub open spec fn base() -> int {
    0x1_0000_0000_0000_0000
}

/// The number that the digits `limbs` denote, least significant first.
pub open spec fn limbs_value(limbs: Seq<u64>) -> int
    decreases limbs.len(),
{
    if limbs.len() == 0 {
        0
    } else {
        limbs_value(limbs.drop_last()) + limbs.last() * pow(base(), (limbs.len() - 1) as nat)
    }
}

/// The digit at position `i`, zero past the end.
pub open spec fn limb_or_zero(limbs: Seq<u64>, i: int) -> int {
    if 0 <= i < limbs.len() {
        limbs[i] as int
    } else {
        0
    }
}

proof fn lemma_base_power_positive(e: nat)
    ensures
        pow(base(), e) > 0,
{
    vstd::arithmetic::power::lemma_pow_positive(base(), e);
}

proof fn lemma_base_power_step(e: nat)
    ensures
        pow(base(), e + 1) == base() * pow(base(), e),
{
    reveal(pow);
}

/// A number of `n` digits is below the `n`-th power of the base.
proof fn lemma_value_bounds(limbs: Seq<u64>)
    ensures
        0 <= limbs_value(limbs) < pow(base(), limbs.len()),
    decreases limbs.len(),
{
    reveal(pow);
    if limbs.len() > 0 {
        let rest = limbs.drop_last();
        let e = (limbs.len() - 1) as nat;
        lemma_value_bounds(rest);
        lemma_base_power_positive(e);
        lemma_base_power_step(e);
        let w = pow(base(), e);
        let top = limbs.last() as int;
        assert(top * w >= 0) by (nonlinear_arith)
            requires
                top >= 0,
                w > 0,
        ;
        assert(top * w + w <= base() * w) by (nonlinear_arith)
            requires
                0 <= top < base(),
                w > 0,
        ;
    }
}

/// Two numbers of equal length that agree above position `at` compare as
/// their digits at `at` do.
proof fn lemma_compare_at(a: Seq<u64>, b: Seq<u64>, at: int)
    requires
        a.len() == b.len(),
        0 <= at < a.len(),
        forall|i: int| at < i < a.len() ==> a[i] == b[i],
        a[at] < b[at],
    ensures
        limbs_value(a) < limbs_value(b),
    decreases a.len(),
{
    let e = (a.len() - 1) as nat;
    let w = pow(base(), e);
    lemma_base_power_positive(e);
    if at == a.len() - 1 {
        lemma_value_bounds(a.drop_last());
        lemma_value_bounds(b.drop_last());
        let x = a[at] as int;
        let y = b[at] as int;
        assert(x * w + w <= y * w) by (nonlinear_arith)
            requires
                x < y,
                w > 0,
        ;
    } else {
        assert forall|i: int| at < i < a.drop_last().len() implies a.drop_last()[i]
            == b.drop_last()[i] by {}
        lemma_compare_at(a.drop_last(), b.drop_last(), at);
    }
}

/// An arbitrarily large natural number.
pub struct BigNat {
    limbs: Vec<u64>,
}

impl View for BigNat {
    type V = int;

    closed spec fn view(&self) -> int {
        limbs_value(self.limbs@)
    }
}

impl BigNat {
    pub fn from_u64(value: u64) -> (r: BigNat)
        ensures
            r@ == value,
    {
        let mut limbs: Vec<u64> = Vec::new();
        limbs.push(value);
        proof {
            reveal(pow);
            assert(limbs@.drop_last() =~= Seq::<u64>::empty());
            assert(limbs_value(limbs@.drop_last()) == 0);
            assert(pow(base(), 0) == 1);
        }
        BigNat { limbs }
    }

    /// The product of the number and `factor`.
    pub fn mul_small(&self, factor: u64) -> (r: BigNat)
        ensures
            r@ == self@ * factor,
    {
        let n: usize = self.limbs.len();
        let mut out: Vec<u64> = Vec::new();
        let mut carry: u64 = 0;
        let mut i: usize = 0;
        proof {
            reveal(pow);
            assert(self.limbs@.take(0) =~= Seq::<u64>::empty());
        }
        while i < n
            invariant
                n == self.limbs@.len(),
                i <= n,
                out@.len() == i,
                limbs_value(out@) + carry * pow(base(), i as nat) == limbs_value(
                    self.limbs@.take(i as int),
                ) * factor,
            decreases n - i,
        {
            let limb: u64 = self.limbs[i];
            assert(limb as int * factor as int + carry as int <= 0xFFFF_FFFF_FFFF_FFFF
                * 0xFFFF_FFFF_FFFF_FFFF + 0xFFFF_FFFF_FFFF_FFFF) by (nonlinear_arith)
                requires
                    0 <= limb <= 0xFFFF_FFFF_FFFF_FFFF,
                    0 <= factor <= 0xFFFF_FFFF_FFFF_FFFF,
                    0 <= carry <= 0xFFFF_FFFF_FFFF_FFFF,
            ;
            let total: u128 = (limb as u128) * (factor as u128) + (carry as u128);
            let low: u64 = (total % 0x1_0000_0000_0000_0000u128) as u64;
            let high: u64 = (total / 0x1_0000_0000_0000_0000u128) as u64;
            proof {
                let w = pow(base(), i as nat);
                let prefix = self.limbs@.take(i as int);
                let next = self.limbs@.take(i + 1);
                assert(next.drop_last() =~= prefix);
                assert(next.last() == limb);
                assert(out@.push(low).drop_last() =~= out@);
                lemma_base_power_step(i as nat);
                assert(total == high * base() + low);
                assert(limbs_value(out@) + low * w + high * (base() * w) == (limbs_value(prefix)
                    + limb * w) * factor) by (nonlinear_arith)
                    requires
                        limbs_value(out@) + carry * w == limbs_value(prefix) * factor,
                        limb * factor + carry == high * base() + low,
                ;
            }
            out.push(low);
            carry = high;
            i += 1;
        }
        proof {
            assert(self.limbs@.take(n as int) =~= self.limbs@);
            assert(out@.push(carry).drop_last() =~= out@);
        }
        out.push(carry);
        BigNat { limbs: out }
    }

    fn limb_at(&self, i: usize) -> (r: u64)
        ensures
            r == limb_or_zero(self.limbs@, i as int),
    {
        if i < self.limbs.len() {
            self.limbs[i]
        } else {
            0
        }
    }

    /// Whether the number is at most `other`.
    pub fn le(&self, other: &BigNat) -> (r: bool)
        ensures
            r == (self@ <= other@),
    {
        let n: usize = if self.limbs.len() >= other.limbs.len() {
            self.limbs.len()
        } else {
            other.limbs.len()
        };
        let ghost a = padded(self.limbs@, n as nat);
        let ghost b = padded(other.limbs@, n as nat);
        proof {
            lemma_padded_value(self.limbs@, n as nat);
            lemma_padded_value(other.limbs@, n as nat);
        }
        let mut k: usize = n;
        while k > 0
            invariant
                k <= n,
                a == padded(self.limbs@, n as nat),
                b == padded(other.limbs@, n as nat),
                a.len() == n,
                b.len() == n,
                limbs_value(a) == self@,
                limbs_value(b) == other@,
                forall|i: int| k <= i < n ==> a[i] == b[i],
            decreases k,
        {
            k -= 1;
            let x: u64 = self.limb_at(k);
            let y: u64 = other.limb_at(k);
            if x < y {
                proof {
                    lemma_compare_at(a, b, k as int);
                }
                return true;
            }
            if x > y {
                proof {
                    lemma_compare_at(b, a, k as int);
                }
                return false;
            }
        }
        proof {
            assert(a =~= b);
        }
        true
    }
}

/// `limbs` lengthened to `n` digits with leading zeros.
pub open spec fn padded(limbs: Seq<u64>, n: nat) -> Seq<u64> {
    Seq::new(
        if n >= limbs.len() {
            n
        } else {
            limbs.len()
        },
        |i: int| limb_or_zero(limbs, i) as u64,
    )
}

proof fn lemma_padded_value(limbs: Seq<u64>, n: nat)
    ensures
        limbs_value(padded(limbs, n)) == limbs_value(limbs),
    decreases n,
{
    if n <= limbs.len() {
        assert(padded(limbs, n) =~= limbs);
    } else {
        let longer = padded(limbs, n);
        let shorter = padded(limbs, (n - 1) as nat);
        assert(longer.drop_last() =~= shorter);
        assert(longer.last() == 0);
        lemma_padded_value(limbs, (n - 1) as nat);
    }
}

} // verus!
