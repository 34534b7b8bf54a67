//! The sizes of the evaluation domain over the rounds of folding.

use vstd::prelude::*;
use vstd::arithmetic::div_mod::lemma_div_denominator;
use crate::error::{ConfigurationFault, WinterCircomError};
use crate::natural::power;

verus! {

/// Whether `n` is a power of two.
pub open spec fn is_pow2(n: nat) -> bool
    decreases n,
{
    n == 1 || (n > 1 && n % 2 == 0 && is_pow2(n / 2))
}

/// The base 2 logarithm of `n`, rounded down; zero for zero.
pub open spec fn log2(n: nat) -> nat
    decreases n,
{
    if n <= 1 {
        0
    } else {
        1 + log2(n / 2)
    }
}

/// The domain size after `rounds` divisions by `folding`.
pub open spec fn folded(domain: nat, folding: nat, rounds: nat) -> nat
    decreases rounds,
{
    if rounds == 0 {
        domain
    } else {
        folded(domain, folding, (rounds - 1) as nat) / folding
    }
}

/// The logarithms of the domain sizes after each division by `folding`, as long as the
/// domain is larger than `max_remainder`.
pub open spec fn schedule(domain: nat, folding: nat, max_remainder: nat) -> Seq<nat>
    decreases domain,
{
    if domain <= max_remainder || folding < 2 {
        Seq::empty()
    } else {
        proof {
            assert(domain / folding < domain) by (nonlinear_arith)
                requires
                    folding >= 2,
                    domain > 0,
            ;
        }
        seq![log2(domain / folding)] + schedule(domain / folding, folding, max_remainder)
    }
}

/// The first thing that stops the folding of `domain`, if anything does: a size that is
/// no multiple of `folding`, or a size after division that is no power of two.
pub open spec fn folding_fault(domain: nat, folding: nat, max_remainder: nat) -> Option<
    ConfigurationFault,
>
    decreases domain,
{
    if domain <= max_remainder || folding < 2 {
        None
    } else if domain % folding != 0 {
        Some(ConfigurationFault::InexactFolding)
    } else if !is_pow2(domain / folding) {
        Some(ConfigurationFault::DomainNotPowerOfTwo)
    } else {
        proof {
            assert(domain / folding < domain) by (nonlinear_arith)
                requires
                    folding >= 2,
                    domain > 0,
            ;
        }
        folding_fault(domain / folding, folding, max_remainder)
    }
}

/// What stops the schedule for the given options, if anything does.
pub open spec fn schedule_fault(
    trace_length: nat,
    blowup_factor: nat,
    folding_factor: nat,
    max_remainder_size: nat,
) -> Option<ConfigurationFault> {
    let domain = trace_length * blowup_factor;
    if domain > usize::MAX {
        Some(ConfigurationFault::DomainOverflow)
    } else if domain > max_remainder_size && folding_factor < 2 {
        Some(ConfigurationFault::FoldingFactor)
    } else {
        folding_fault(domain, folding_factor, max_remainder_size)
    }
}

/// Whether `n` is a power of two.
pub fn is_power_of_two(n: usize) -> (b: bool)
    ensures
        b == is_pow2(n as nat),
{
    if n == 0 {
        return false;
    }
    let mut m: usize = n;
    while m % 2 == 0
        invariant
            m > 0,
            is_pow2(m as nat) == is_pow2(n as nat),
        decreases m,
    {
        m = m / 2;
    }
    m == 1
}

/// The base 2 logarithm of a power of two, computed by `winterfell::math::log2`, which
/// counts the trailing zero bits of `n` and refuses an `n` that is no power of two.
#[verifier::external_body]
pub(crate) fn binary_logarithm(n: usize) -> (r: u32)
    requires
        is_pow2(n as nat),
    ensures
        r == log2(n as nat),
{
    winterfell::math::log2(n)
}

/// The base 2 logarithm of `n`, if `n` is a power of two.
pub fn exact_log2(n: usize) -> (r: Option<u32>)
    ensures
        r is Some <==> is_pow2(n as nat),
        r matches Some(l) ==> l == log2(n as nat),
{
    if is_power_of_two(n) {
        Some(binary_logarithm(n))
    } else {
        None
    }
}

/// The view of a schedule as numbers.
pub open spec fn depths(v: Seq<u32>) -> Seq<nat> {
    v.map_values(|l: u32| l as nat)
}

/// The folding schedule of a proof: the base 2 logarithm of the domain size after each
/// folding round.
///
/// The domain starts at `trace_length * blowup_factor` and is divided by
/// `folding_factor` as long as it is larger than `max_remainder_size`. A domain that
/// starts within the bound gives the empty schedule. A division that is not exact, or
/// one that leaves a size that is no power of two, is refused.
pub fn folding_schedule(
    trace_length: usize,
    blowup_factor: usize,
    folding_factor: usize,
    max_remainder_size: usize,
) -> (r: Result<Vec<u32>, WinterCircomError>)
    ensures
        match r {
            Ok(v) => {
                &&& schedule_fault(
                    trace_length as nat,
                    blowup_factor as nat,
                    folding_factor as nat,
                    max_remainder_size as nat,
                ) is None
                &&& depths(v@) == schedule(
                    (trace_length * blowup_factor) as nat,
                    folding_factor as nat,
                    max_remainder_size as nat,
                )
            },
            Err(e) => {
                &&& schedule_fault(
                    trace_length as nat,
                    blowup_factor as nat,
                    folding_factor as nat,
                    max_remainder_size as nat,
                ) matches Some(fault)
                &&& e == WinterCircomError::InvalidConfiguration(fault)
            },
        },
{
    let start = match trace_length.checked_mul(blowup_factor) {
        Some(size) => size,
        None => {
            return Err(WinterCircomError::InvalidConfiguration(ConfigurationFault::DomainOverflow));
        },
    };
    if start > max_remainder_size && folding_factor < 2 {
        return Err(WinterCircomError::InvalidConfiguration(ConfigurationFault::FoldingFactor));
    }
    let ghost f = folding_factor as nat;
    let ghost bound = max_remainder_size as nat;
    let mut domain: usize = start;
    let mut v: Vec<u32> = Vec::new();
    while domain > max_remainder_size
        invariant
            domain <= max_remainder_size || folding_factor >= 2,
            start == trace_length * blowup_factor,
            f == folding_factor,
            bound == max_remainder_size,
            schedule(start as nat, f, bound) == depths(v@) + schedule(domain as nat, f, bound),
            folding_fault(start as nat, f, bound) == folding_fault(domain as nat, f, bound),
        decreases domain,
    {
        if domain % folding_factor != 0 {
            return Err(WinterCircomError::InvalidConfiguration(ConfigurationFault::InexactFolding));
        }
        let next = domain / folding_factor;
        assert(next < domain) by (nonlinear_arith)
            requires
                next == domain / folding_factor,
                folding_factor >= 2,
                domain > 0,
        ;
        let depth = match exact_log2(next) {
            Some(l) => l,
            None => {
                return Err(
                    WinterCircomError::InvalidConfiguration(
                        ConfigurationFault::DomainNotPowerOfTwo,
                    ),
                );
            },
        };
        let ghost before = v@;
        v.push(depth);
        proof {
            assert(depths(v@) =~= depths(before) + seq![log2(next as nat)]);
            assert(schedule(domain as nat, f, bound) == seq![log2(next as nat)] + schedule(
                next as nat,
                f,
                bound,
            ));
            assert(depths(before) + (seq![log2(next as nat)] + schedule(next as nat, f, bound))
                =~= (depths(before) + seq![log2(next as nat)]) + schedule(next as nat, f, bound));
        }
        domain = next;
    }
    proof {
        assert(schedule(domain as nat, f, bound) =~= Seq::<nat>::empty());
        assert(depths(v@) + Seq::<nat>::empty() =~= depths(v@));
    }
    Ok(v)
}

/// Every entry of the schedule is the logarithm of the domain size after its division,
/// and the domain before that division was still larger than the bound.
pub proof fn lemma_schedule_entry(domain: nat, folding: nat, max_remainder: nat, i: nat)
    requires
        i < schedule(domain, folding, max_remainder).len(),
    ensures
        folding >= 2,
        folded(domain, folding, i) > max_remainder,
        schedule(domain, folding, max_remainder)[i as int] == log2(folded(domain, folding, i + 1)),
    decreases i,
{
    assert(domain > max_remainder && folding >= 2);
    assert(domain / folding < domain) by (nonlinear_arith)
        requires
            folding >= 2,
            domain > 0,
    ;
    let rest = schedule(domain / folding, folding, max_remainder);
    if i == 0 {
        assert(folded(domain, folding, 1) == folded(domain, folding, 0) / folding);
    } else {
        lemma_schedule_entry(domain / folding, folding, max_remainder, (i - 1) as nat);
        lemma_folded_shift(domain, folding, (i - 1) as nat);
        lemma_folded_shift(domain, folding, i);
    }
}

/// The schedule is as long as the divisions go: after that many the domain is within
/// the bound.
pub proof fn lemma_schedule_length(domain: nat, folding: nat, max_remainder: nat)
    requires
        folding >= 2,
    ensures
        folded(domain, folding, schedule(domain, folding, max_remainder).len()) <= max_remainder,
    decreases domain,
{
    if domain > max_remainder {
        assert(domain / folding < domain) by (nonlinear_arith)
            requires
                folding >= 2,
                domain > 0,
        ;
        lemma_schedule_length(domain / folding, folding, max_remainder);
        let rest = schedule(domain / folding, folding, max_remainder);
        assert(schedule(domain, folding, max_remainder).len() == rest.len() + 1);
        lemma_folded_shift(domain, folding, rest.len());
    }
}

/// Dividing first and then `rounds` times is dividing `rounds + 1` times.
pub proof fn lemma_folded_shift(domain: nat, folding: nat, rounds: nat)
    requires
        folding >= 2,
    ensures
        folded(domain / folding, folding, rounds) == folded(domain, folding, rounds + 1),
    decreases rounds,
{
    reveal_with_fuel(folded, 2);
    if rounds > 0 {
        lemma_folded_shift(domain, folding, (rounds - 1) as nat);
    }
}

/// A power of two that is at least `factor`, one of 4, 8 and 16, is a multiple of it,
/// and what is left after the division is a power of two.
pub proof fn lemma_pow2_divides(n: nat, factor: nat)
    requires
        is_pow2(n),
        factor == 4 || factor == 8 || factor == 16,
        n >= factor,
    ensures
        n % factor == 0,
        is_pow2(n / factor),
{
    reveal_with_fuel(is_pow2, 5);
}

/// The product of two powers of two is a power of two.
pub proof fn lemma_pow2_product(a: nat, b: nat)
    requires
        is_pow2(a),
        is_pow2(b),
    ensures
        is_pow2(a * b),
    decreases a,
{
    if a == 1 {
        assert(a * b == b) by (nonlinear_arith)
            requires
                a == 1,
        ;
    } else {
        let half = a / 2;
        lemma_pow2_product(half, b);
        assert(a * b == 2 * (half * b) && half * b >= 1) by (nonlinear_arith)
            requires
                a == 2 * half,
                half >= 1,
                b >= 1,
        ;
    }
}

/// A domain that is a power of two folds without a fault by 4, 8 or 16 down to any bound
/// of at least 15.
pub proof fn lemma_pow2_folds(domain: nat, folding: nat, max_remainder: nat)
    requires
        is_pow2(domain),
        folding == 4 || folding == 8 || folding == 16,
        max_remainder >= 15,
    ensures
        folding_fault(domain, folding, max_remainder) is None,
    decreases domain,
{
    if domain > max_remainder {
        lemma_pow2_divides(domain, folding);
        assert(domain / folding < domain) by (nonlinear_arith)
            requires
                folding >= 2,
                domain > 0,
        ;
        lemma_pow2_folds(domain / folding, folding, max_remainder);
    }
}

/// The domain after `rounds` divisions is the domain divided by the folding factor
/// raised to `rounds`.
pub proof fn lemma_folded_is_quotient(domain: nat, folding: nat, rounds: nat)
    requires
        folding >= 1,
    ensures
        power(folding, rounds) >= 1,
        folded(domain, folding, rounds) == domain / power(folding, rounds),
    decreases rounds,
{
    if rounds > 0 {
        let before = (rounds - 1) as nat;
        lemma_folded_is_quotient(domain, folding, before);
        let divisor = power(folding, before);
        lemma_div_denominator(domain as int, divisor as int, folding as int);
        assert(power(folding, rounds) == divisor * folding && divisor * folding >= 1)
            by (nonlinear_arith)
            requires
                power(folding, rounds) == folding * divisor,
                folding >= 1,
                divisor >= 1,
        ;
        assert(folded(domain, folding, rounds) == folded(domain, folding, before) / folding);
        assert((domain as int / divisor as int) / (folding as int) == domain as int / (
        divisor as int * folding as int));
    } else {
        assert(power(folding, 0) == 1);
    }
}

/// The logarithm never falls as the number grows.
pub proof fn lemma_log2_monotone(a: nat, b: nat)
    requires
        a <= b,
    ensures
        log2(a) <= log2(b),
    decreases b,
{
    if a > 1 {
        lemma_log2_monotone(a / 2, b / 2);
    }
}

/// Folding by at least two lowers the logarithm of a domain of more than one position.
pub proof fn lemma_log2_folds(domain: nat, folding: nat)
    requires
        folding >= 2,
        domain >= 2,
    ensures
        log2(domain / folding) < log2(domain),
{
    assert(domain / folding <= domain / 2) by (nonlinear_arith)
        requires
            folding >= 2,
    ;
    lemma_log2_monotone(domain / folding, domain / 2);
}

} // verus!
