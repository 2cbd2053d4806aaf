//! Natural numbers of any size, as far as the placement of bin edges needs
//! them: products of many small factors, and their comparison.

use vstd::prelude::*;

verus! {

/// The base of the limbs, as an integer.
pub open spec fn radix() -> int {
    0x1_0000_0000
}

/// The weight of limb `k`: the base to the power of `k`.
pub open spec fn radix_pow(k: nat) -> int
    decreases k,
{
    if k == 0 {
        1
    } else {
        radix() * radix_pow((k - 1) as nat)
    }
}

/// Limb `k` of a number, which is zero beyond the limbs that the number has.
pub open spec fn limb_at(limbs: Seq<u32>, k: int) -> int {
    if 0 <= k < limbs.len() {
        limbs[k] as int
    } else {
        0
    }
}

/// The value of the lowest `k` limbs of a number.
pub open spec fn value_upto(limbs: Seq<u32>, k: nat) -> int
    decreases k,
{
    if k == 0 {
        0
    } else {
        value_upto(limbs, (k - 1) as nat) + limb_at(limbs, k - 1) * radix_pow((k - 1) as nat)
    }
}

/// The value of a number given by its limbs, the least significant first.
pub open spec fn limbs_value(limbs: Seq<u32>) -> int {
    value_upto(limbs, limbs.len())
}

/// A base multiplied by itself `exponent` times.
pub open spec fn power(base: int, exponent: nat) -> int
    decreases exponent,
{
    if exponent == 0 {
        1
    } else {
        base * power(base, (exponent - 1) as nat)
    }
}

/// Weights are positive.
pub proof fn lemma_radix_pow_positive(k: nat)
    ensures
        radix_pow(k) > 0,
    decreases k,
{
    if k > 0 {
        lemma_radix_pow_positive((k - 1) as nat);
        assert(radix() * radix_pow((k - 1) as nat) > 0) by (nonlinear_arith)
            requires
                radix() > 0,
                radix_pow((k - 1) as nat) > 0,
        ;
    }
}

/// The lowest `k` limbs stay below the weight of limb `k`.
pub proof fn lemma_value_upto_bounds(limbs: Seq<u32>, k: nat)
    ensures
        0 <= value_upto(limbs, k) < radix_pow(k),
    decreases k,
{
    if k > 0 {
        let j = (k - 1) as nat;
        lemma_value_upto_bounds(limbs, j);
        lemma_radix_pow_positive(j);
        let limb = limb_at(limbs, k - 1);
        let weight = radix_pow(j);
        assert(0 <= limb * weight && limb * weight + weight <= radix() * weight)
            by (nonlinear_arith)
            requires
                0 <= limb <= radix() - 1,
                weight > 0,
        ;
    }
}

/// The value of the lowest `k` limbs depends on those limbs alone.
pub proof fn lemma_value_upto_agrees(a: Seq<u32>, b: Seq<u32>, k: nat)
    requires
        forall|j: int| 0 <= j < k ==> limb_at(a, j) == limb_at(b, j),
    ensures
        value_upto(a, k) == value_upto(b, k),
    decreases k,
{
    if k > 0 {
        lemma_value_upto_agrees(a, b, (k - 1) as nat);
    }
}

/// Limbs beyond those that a number has add nothing to its value.
pub proof fn lemma_value_upto_padding(limbs: Seq<u32>, k: nat)
    requires
        k >= limbs.len(),
    ensures
        value_upto(limbs, k) == limbs_value(limbs),
    decreases k,
{
    if k > limbs.len() {
        lemma_value_upto_padding(limbs, (k - 1) as nat);
        assert(limb_at(limbs, k - 1) * radix_pow((k - 1) as nat) == 0) by (nonlinear_arith)
            requires
                limb_at(limbs, k - 1) == 0,
        ;
    }
}

/// A limb pushed on top of a number adds its weight to the value.
pub proof fn lemma_value_push(limbs: Seq<u32>, limb: u32)
    ensures
        limbs_value(limbs.push(limb)) == limbs_value(limbs) + limb * radix_pow(limbs.len()),
{
    let pushed = limbs.push(limb);
    assert forall|j: int| 0 <= j < limbs.len() implies limb_at(pushed, j) == limb_at(limbs, j) by {}
    lemma_value_upto_agrees(pushed, limbs, limbs.len());
}

/// A natural number of any size.
pub struct BigNat {
    limbs: Vec<u32>,
}

impl BigNat {
    /// The number that the limbs stand for.
    pub closed spec fn view(&self) -> int {
        limbs_value(self.limbs@)
    }

    /// A number that fits one limb.
    pub fn from_u32(value: u32) -> (r: BigNat)
        ensures
            r@ == value,
    {
        let mut limbs: Vec<u32> = Vec::new();
        proof {
            lemma_value_push(limbs@, value);
            assert(value * radix_pow(0) == value) by (nonlinear_arith)
                requires
                    radix_pow(0) == 1,
            ;
        }
        limbs.push(value);
        BigNat { limbs }
    }

    /// This number multiplied by a factor that fits one limb.
    pub fn mul_small(&self, factor: u32) -> (r: BigNat)
        ensures
            r@ == self@ * factor,
    {
        let mut limbs: Vec<u32> = Vec::new();
        let mut carry: u64 = 0;
        let mut k: usize = 0;
        while k < self.limbs.len()
            invariant
                0 <= k <= self.limbs@.len(),
                limbs@.len() == k,
                0 <= carry < radix(),
                limbs_value(limbs@) + carry * radix_pow(k as nat) == value_upto(
                    self.limbs@,
                    k as nat,
                ) * factor,
            decreases self.limbs@.len() - k,
        {
            let limb: u32 = self.limbs[k];
            assert(limb * factor + carry <= 0xffff_ffff * 0xffff_ffff + 0xffff_ffff)
                by (nonlinear_arith)
                requires
                    0 <= limb <= 0xffff_ffff,
                    0 <= factor <= 0xffff_ffff,
                    0 <= carry <= 0xffff_ffff,
            ;
            let product: u64 = (limb as u64) * (factor as u64) + carry;
            let low: u32 = (product % 0x1_0000_0000) as u32;
            let high: u64 = product / 0x1_0000_0000;
            proof {
                let weight = radix_pow(k as nat);
                lemma_value_push(limbs@, low);
                assert(limbs_value(limbs@) + low * weight + high * (radix() * weight) == (value_upto(
                    self.limbs@,
                    k as nat,
                ) + limb * weight) * factor) by (nonlinear_arith)
                    requires
                        limbs_value(limbs@) + carry * weight == value_upto(
                            self.limbs@,
                            k as nat,
                        ) * factor,
                        low + high * radix() == limb * factor + carry,
                ;
            }
            limbs.push(low);
            carry = high;
            k += 1;
        }
        proof {
            lemma_value_push(limbs@, carry as u32);
        }
        limbs.push(carry as u32);
        BigNat { limbs }
    }

    /// Decides whether this number is at most another.
    pub fn le(&self, other: &BigNat) -> (r: bool)
        ensures
            r == (self@ <= other@),
    {
        let len: usize = if self.limbs.len() >= other.limbs.len() {
            self.limbs.len()
        } else {
            other.limbs.len()
        };
        proof {
            lemma_value_upto_padding(self.limbs@, len as nat);
            lemma_value_upto_padding(other.limbs@, len as nat);
        }
        let mut k: usize = len;
        while k > 0
            invariant
                0 <= k <= len,
                self@ - value_upto(self.limbs@, k as nat) == other@ - value_upto(
                    other.limbs@,
                    k as nat,
                ),
            decreases k,
        {
            let mine: u32 = if k - 1 < self.limbs.len() {
                self.limbs[k - 1]
            } else {
                0
            };
            let theirs: u32 = if k - 1 < other.limbs.len() {
                other.limbs[k - 1]
            } else {
                0
            };
            if mine != theirs {
                proof {
                    let j = (k - 1) as nat;
                    let weight = radix_pow(j);
                    lemma_value_upto_bounds(self.limbs@, j);
                    lemma_value_upto_bounds(other.limbs@, j);
                    if mine < theirs {
                        assert(mine * weight + weight <= theirs * weight) by (nonlinear_arith)
                            requires
                                mine + 1 <= theirs,
                                weight > 0,
                        ;
                    } else {
                        assert(theirs * weight + weight <= mine * weight) by (nonlinear_arith)
                            requires
                                theirs + 1 <= mine,
                                weight > 0,
                        ;
                    }
                }
                return mine < theirs;
            }
            k -= 1;
        }
        true
    }
}

/// Powers of a base that is not negative are not negative.
pub proof fn lemma_power_nonnegative(base: int, exponent: nat)
    requires
        base >= 0,
    ensures
        power(base, exponent) >= 0,
    decreases exponent,
{
    if exponent > 0 {
        lemma_power_nonnegative(base, (exponent - 1) as nat);
        assert(base * power(base, (exponent - 1) as nat) >= 0) by (nonlinear_arith)
            requires
                base >= 0,
                power(base, (exponent - 1) as nat) >= 0,
        ;
    }
}

/// Powers of a positive base are positive.
pub proof fn lemma_power_positive(base: int, exponent: nat)
    requires
        base > 0,
    ensures
        power(base, exponent) > 0,
    decreases exponent,
{
    if exponent > 0 {
        lemma_power_positive(base, (exponent - 1) as nat);
        assert(base * power(base, (exponent - 1) as nat) > 0) by (nonlinear_arith)
            requires
                base > 0,
                power(base, (exponent - 1) as nat) > 0,
        ;
    }
}

/// A larger base gives a power at least as large.
pub proof fn lemma_power_increases(smaller: int, larger: int, exponent: nat)
    requires
        0 <= smaller <= larger,
    ensures
        power(smaller, exponent) <= power(larger, exponent),
    decreases exponent,
{
    if exponent > 0 {
        let rest = (exponent - 1) as nat;
        lemma_power_increases(smaller, larger, rest);
        lemma_power_nonnegative(smaller, rest);
        assert(smaller * power(smaller, rest) <= larger * power(larger, rest))
            by (nonlinear_arith)
            requires
                0 <= smaller <= larger,
                0 <= power(smaller, rest) <= power(larger, rest),
        ;
    }
}

/// A strictly larger base gives a strictly larger power, the power of zero
/// aside.
pub proof fn lemma_power_strictly_increases(smaller: int, larger: int, exponent: nat)
    requires
        0 <= smaller < larger,
        exponent > 0,
    ensures
        power(smaller, exponent) < power(larger, exponent),
    decreases exponent,
{
    let rest = (exponent - 1) as nat;
    lemma_power_increases(smaller, larger, rest);
    lemma_power_nonnegative(smaller, rest);
    lemma_power_positive(larger, rest);
    assert(smaller * power(smaller, rest) < larger * power(larger, rest)) by (nonlinear_arith)
        requires
            0 <= smaller < larger,
            0 <= power(smaller, rest) <= power(larger, rest),
            power(larger, rest) > 0,
    ;
}

/// A power splits along a sum of exponents.
pub proof fn lemma_power_adds(base: int, first: nat, second: nat)
    ensures
        power(base, first + second) == power(base, first) * power(base, second),
    decreases first,
{
    if first == 0 {
        assert(1 * power(base, second) == power(base, second));
    } else {
        let rest = (first - 1) as nat;
        lemma_power_adds(base, rest, second);
        assert(power(base, first + second) == base * power(base, (rest + second) as nat));
        assert(base * (power(base, rest) * power(base, second)) == (base * power(base, rest))
            * power(base, second)) by (nonlinear_arith);
    }
}

/// Computes the power of a base that fits one limb.
pub fn power_of(base: u32, exponent: usize) -> (r: BigNat)
    ensures
        r@ == power(base as int, exponent as nat),
{
    let mut result = BigNat::from_u32(1);
    let mut k: usize = 0;
    while k < exponent
        invariant
            0 <= k <= exponent,
            result@ == power(base as int, k as nat),
        decreases exponent - k,
    {
        proof {
            assert(power(base as int, k as nat) * base == base * power(base as int, k as nat))
                by (nonlinear_arith);
        }
        result = result.mul_small(base);
        k += 1;
    }
    result
}

} // verus!
