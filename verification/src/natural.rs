//! Natural numbers of any size, with arithmetic done by GMP.

use vstd::prelude::*;
use rug::integer::Order;
use rug::ops::Pow;
use rug::Integer;

verus! {

/// The radix of a limb: 2^64.
pub open spec fn radix() -> nat {
    0x1_0000_0000_0000_0000
}

/// `base` raised to `exponent`.
pub open spec fn power(base: nat, exponent: nat) -> nat
    decreases exponent,
{
    if exponent == 0 {
        1
    } else {
        base * power(base, (exponent - 1) as nat)
    }
}

/// The number that the limbs stand for, least significant limb first.
pub open spec fn limbs_value(limbs: Seq<u64>) -> nat
    decreases limbs.len(),
{
    if limbs.len() == 0 {
        0
    } else {
        limbs[0] as nat + radix() * limbs_value(limbs.skip(1))
    }
}

/// The number of limbs needed to write `v`: none for zero.
pub open spec fn limb_count(v: nat) -> nat
    decreases v,
{
    if v == 0 {
        0
    } else {
        1 + limb_count(v / radix())
    }
}

/// The most limbs that GMP is handed here: two to the 30, less one. GMP counts the limbs
/// of a number in a C `int` and ends the process beyond it; this bound leaves room for
/// the limbs that a result has more than its operands.
pub const MAX_LIMBS: usize = 0x3fff_ffff;

/// The largest number of limbs that the arithmetic accepts in an operand: `MAX_LIMBS`,
/// or fewer where the bits of that many limbs cannot be counted in a `usize`.
pub open spec fn limb_capacity() -> nat {
    if usize::MAX / 64 < MAX_LIMBS {
        (usize::MAX / 64) as nat
    } else {
        MAX_LIMBS as nat
    }
}

/// Computes the largest number of limbs that the arithmetic accepts in an operand.
pub fn capacity() -> (c: usize)
    ensures
        c == limb_capacity(),
        c >= 1,
{
    if usize::MAX / 64 < MAX_LIMBS {
        usize::MAX / 64
    } else {
        MAX_LIMBS
    }
}

/// A number below `radix()` to the `k` needs at most `k` limbs.
pub proof fn lemma_limb_count_bound(v: nat, k: nat)
    requires
        v < power(radix(), k),
    ensures
        limb_count(v) <= k,
    decreases k,
{
    if v > 0 {
        assert(k > 0);
        let rest = power(radix(), (k - 1) as nat);
        assert(power(radix(), k) == radix() * rest);
        assert(v / radix() < rest) by (nonlinear_arith)
            requires
                v < radix() * rest,
                radix() == 0x1_0000_0000_0000_0000,
        ;
        lemma_limb_count_bound(v / radix(), (k - 1) as nat);
    }
}

/// A power of a word is below the radix raised to one more than the exponent.
pub proof fn lemma_power_below_radix(d: nat, n: nat)
    requires
        d < radix(),
    ensures
        power(d, n) < power(radix(), n + 1),
        power(radix(), n) > 0,
    decreases n,
{
    if n == 0 {
        assert(power(radix(), 1) == radix() * power(radix(), 0));
    } else {
        let m = (n - 1) as nat;
        lemma_power_below_radix(d, m);
        let a = power(d, m);
        let b = power(radix(), n);
        assert(power(radix(), n + 1) == radix() * b);
        assert(b == radix() * power(radix(), m));
        assert(d * a < radix() * b && b > 0) by (nonlinear_arith)
            requires
                d < radix(),
                a < b,
                b == radix() * power(radix(), m),
                power(radix(), m) > 0,
                radix() > 0,
        ;
    }
}

/// A number that is at most a power of a word has at most one limb more than the exponent.
pub proof fn lemma_limbs_under_power(v: nat, d: nat, n: nat)
    requires
        d < radix(),
        v <= power(d, n),
    ensures
        limb_count(v) <= n + 1,
{
    lemma_power_below_radix(d, n);
    lemma_limb_count_bound(v, n + 1);
}

/// Powers of two are positive.
pub proof fn lemma_power_of_two_positive(e: nat)
    ensures
        power(2, e) > 0,
    decreases e,
{
    if e > 0 {
        lemma_power_of_two_positive((e - 1) as nat);
    }
}

/// A smaller number needs no more limbs.
pub proof fn lemma_limb_count_monotone(a: nat, b: nat)
    requires
        a <= b,
    ensures
        limb_count(a) <= limb_count(b),
    decreases b,
{
    if a > 0 {
        assert(a / radix() <= b / radix()) by (nonlinear_arith)
            requires
                a <= b,
                radix() > 0,
        ;
        assert(b / radix() < b) by (nonlinear_arith)
            requires
                b > 0,
                radix() > 1,
        ;
        lemma_limb_count_monotone(a / radix(), b / radix());
    }
}

/// Limbs never stand for a number that needs more limbs than there are.
pub proof fn lemma_limb_count_at_most_len(limbs: Seq<u64>)
    ensures
        limb_count(limbs_value(limbs)) <= limbs.len(),
    decreases limbs.len(),
{
    let v = limbs_value(limbs);
    if limbs.len() > 0 {
        let rest = limbs_value(limbs.skip(1));
        lemma_limb_count_at_most_len(limbs.skip(1));
        assert(v == limbs[0] as nat + radix() * rest);
        if v > 0 {
            assert(v / radix() == rest) by (nonlinear_arith)
                requires
                    v == limbs[0] as nat + radix() * rest,
                    limbs[0] < radix(),
                    radix() > 0,
            ;
        }
    }
}

/// A natural number of any size.
#[derive(Clone, Debug, PartialEq, Eq)]
pub struct Natural {
    pub limbs: Vec<u64>,
}

impl View for Natural {
    type V = nat;

    open spec fn view(&self) -> nat {
        limbs_value(self.limbs@)
    }
}

impl Natural {
    /// The number of limbs that hold the number.
    pub open spec fn len(&self) -> nat {
        self.limbs@.len()
    }

    /// The number is small enough to be an operand.
    pub open spec fn fits(&self) -> bool {
        self.len() <= limb_capacity()
    }

    /// Whether the number is small enough to be an operand.
    pub fn is_operand(&self) -> (b: bool)
        ensures
            b == self.fits(),
    {
        self.limbs.len() <= capacity()
    }

    /// The number zero.
    pub fn zero() -> (r: Natural)
        ensures
            r@ == 0,
            r.len() == 0,
    {
        Natural { limbs: Vec::new() }
    }

    /// The number `word`.
    pub fn from_word(word: u64) -> (r: Natural)
        ensures
            r@ == word,
            r.len() == 1,
    {
        let mut limbs: Vec<u64> = Vec::new();
        limbs.push(word);
        proof {
            assert(limbs@.skip(1).len() == 0);
            assert(limbs_value(limbs@.skip(1)) == 0);
            assert(limbs_value(limbs@) == limbs@[0] as nat + radix() * limbs_value(limbs@.skip(1)));
        }
        Natural { limbs }
    }

    /// A copy of the number.
    pub fn duplicate(&self) -> (r: Natural)
        ensures
            r@ == self@,
            r.len() == self.len(),
    {
        let mut limbs: Vec<u64> = Vec::new();
        let mut i: usize = 0;
        while i < self.limbs.len()
            invariant
                i <= self.limbs.len(),
                limbs@ == self.limbs@.take(i as int),
            decreases self.limbs.len() - i,
        {
            limbs.push(self.limbs[i]);
            i += 1;
            assert(limbs@ =~= self.limbs@.take(i as int));
        }
        assert(limbs@ =~= self.limbs@);
        Natural { limbs }
    }

    /// The sum of the two numbers, computed by `+` of `rug::Integer`.
    ///
    /// The operands are read by `Integer::from_digits`, least significant limb first, and
    /// the sum is written by `Integer::to_digits`, which gives as many limbs as the sum
    /// needs. `from_digits` refuses a slice whose length in bits overflows `usize`, and
    /// GMP ends the process where an operand or the result has more limbs than a C `int`
    /// counts: the operands stay under `limb_capacity()`, and the sum has at most one
    /// limb more than the longer of them.
    #[verifier::external_body]
    pub(crate) fn plus(&self, other: &Natural) -> (r: Natural)
        requires
            self.fits(),
            other.fits(),
        ensures
            r@ == self@ + other@,
            r.len() == limb_count(r@),
    {
        let a = Integer::from_digits(&self.limbs, Order::Lsf);
        let b = Integer::from_digits(&other.limbs, Order::Lsf);
        Natural { limbs: (a + b).to_digits(Order::Lsf) }
    }

    /// The difference `self - other`, computed by `-` of `rug::Integer`.
    ///
    /// The operands are read and the difference is written as in `plus`.
    /// `Integer::to_digits` writes the absolute value, so the difference must not be
    /// negative.
    #[verifier::external_body]
    pub(crate) fn minus(&self, other: &Natural) -> (r: Natural)
        requires
            self.fits(),
            other.fits(),
            other@ <= self@,
        ensures
            r@ == self@ - other@,
            r.len() == limb_count(r@),
    {
        let a = Integer::from_digits(&self.limbs, Order::Lsf);
        let b = Integer::from_digits(&other.limbs, Order::Lsf);
        Natural { limbs: (a - b).to_digits(Order::Lsf) }
    }

    /// The product of the number and `word`, computed by `*` of `rug::Integer` and `u64`.
    ///
    /// The number is read and the product is written as in `plus`.
    #[verifier::external_body]
    pub(crate) fn times_word(&self, word: u64) -> (r: Natural)
        requires
            self.fits(),
        ensures
            r@ == self@ * word,
            r.len() == limb_count(r@),
    {
        let a = Integer::from_digits(&self.limbs, Order::Lsf);
        Natural { limbs: (a * word).to_digits(Order::Lsf) }
    }

    /// `base` raised to `exponent`, computed by `Pow::pow` of `rug::Integer` and `u32`,
    /// which gives one for the exponent zero, whatever the base.
    ///
    /// The power is written by `Integer::to_digits`, as in `plus`. GMP asks for a few
    /// limbs more than the exponent, so the exponent stays under `limb_capacity()`.
    #[verifier::external_body]
    pub(crate) fn power_of(base: u64, exponent: u32) -> (r: Natural)
        requires
            exponent < limb_capacity(),
        ensures
            r@ == power(base as nat, exponent as nat),
            r.len() == limb_count(r@),
    {
        Natural { limbs: Integer::from(base).pow(exponent).to_digits(Order::Lsf) }
    }

    /// The number divided by two to the `bits`, rounded down, computed by `>>` of
    /// `rug::Integer` and `u32`.
    ///
    /// The number is read and the quotient is written as in `plus`.
    #[verifier::external_body]
    pub(crate) fn shifted_right(&self, bits: u32) -> (r: Natural)
        requires
            self.fits(),
        ensures
            r@ == self@ / power(2, bits as nat),
            r.len() == limb_count(r@),
    {
        let a = Integer::from_digits(&self.limbs, Order::Lsf);
        Natural { limbs: (a >> bits).to_digits(Order::Lsf) }
    }

    /// Whether the number is at most `other`, decided by `<=` of `rug::Integer`.
    ///
    /// The operands are read by `Integer::from_digits`, as in `plus`.
    #[verifier::external_body]
    pub(crate) fn at_most(&self, other: &Natural) -> (b: bool)
        requires
            self.fits(),
            other.fits(),
        ensures
            b == (self@ <= other@),
    {
        Integer::from_digits(&self.limbs, Order::Lsf) <= Integer::from_digits(&other.limbs, Order::Lsf)
    }
}

} // verus!
