//! The number of query draws that a target soundness asks for.
//!
//! A draw from a domain of `d` positions is a success when it adds to the `x` successes
//! that are there, which it does with probability `(d - x) / d`. The probability of
//! reaching `q` successes within `n` draws is a fraction over `d` to the `n`; the
//! functions here work on its numerator, so that every step is exact.

use vstd::prelude::*;
use std::collections::HashMap;
use crate::error::{ConfigurationFault, WinterCircomError};
use crate::natural::{
    lemma_limb_count_at_most_len, lemma_limb_count_monotone, lemma_limbs_under_power,
    capacity, lemma_power_of_two_positive, limb_capacity, power, Natural,
};

verus! {

broadcast use vstd::std_specs::hash::group_hash_axioms;

/// Numerator, over `power(d, n)`, of the probability of reaching `q` successes within
/// `n` draws when `x` successes are already there.
///
/// With `q` successes nothing is left to reach, whatever `n` is. Short of that, no
/// draw left means failure, and otherwise the next draw either succeeds, with weight
/// `d - x`, or does not, with weight `x`. It is meant for `x <= q <= d`.
pub open spec fn successes(q: nat, d: nat, x: nat, n: nat) -> nat
    decreases n,
{
    if x >= q {
        power(d, n)
    } else if n == 0 {
        0
    } else {
        ((d - x) * successes(q, d, x + 1, (n - 1) as nat) + x * successes(
            q,
            d,
            x,
            (n - 1) as nat,
        )) as nat
    }
}

/// Whether `n` draws fail to reach `q` successes with probability at most two to the
/// minus `security`: the failing share of `power(d, n)`, times two to the `security`,
/// is at most `power(d, n)`.
pub open spec fn meets_bound(q: nat, d: nat, security: nat, n: nat) -> bool {
    (power(d, n) - successes(q, d, 0, n)) * power(2, security) <= power(d, n)
}

/// The largest draw count that is tried: the numbers met on the way have up to one limb
/// more than the count, and must fit in as many limbs as the arithmetic accepts.
pub open spec fn draw_limit() -> nat {
    (limb_capacity() - 1) as nat
}

/// The numerator never exceeds the denominator.
pub proof fn lemma_successes_bounded(q: nat, d: nat, x: nat, n: nat)
    requires
        x <= q <= d,
    ensures
        successes(q, d, x, n) <= power(d, n),
    decreases n,
{
    if x < q && n > 0 {
        let m = (n - 1) as nat;
        lemma_successes_bounded(q, d, x + 1, m);
        lemma_successes_bounded(q, d, x, m);
        let a = successes(q, d, x + 1, m);
        let b = successes(q, d, x, m);
        let p = power(d, m);
        assert((d - x) * a + x * b <= d * p) by (nonlinear_arith)
            requires
                a <= p,
                b <= p,
                x <= d,
        ;
        assert((d - x) * a + x * b >= 0) by (nonlinear_arith)
            requires
                x <= d,
        ;
    }
}

/// The two terms of a step, each at most the denominator.
proof fn lemma_step_terms(q: nat, d: nat, x: nat, n: nat)
    requires
        x < q <= d,
        n > 0,
    ensures
        (d - x) * successes(q, d, x + 1, (n - 1) as nat) <= power(d, n),
        x * successes(q, d, x, (n - 1) as nat) <= power(d, n),
        successes(q, d, x, n) == (d - x) * successes(q, d, x + 1, (n - 1) as nat) + x * successes(
            q,
            d,
            x,
            (n - 1) as nat,
        ),
{
    let m = (n - 1) as nat;
    lemma_successes_bounded(q, d, x + 1, m);
    lemma_successes_bounded(q, d, x, m);
    let a = successes(q, d, x + 1, m);
    let b = successes(q, d, x, m);
    let p = power(d, m);
    assert((d - x) * a <= d * p && x * b <= d * p && (d - x) * a + x * b >= 0)
        by (nonlinear_arith)
        requires
            a <= p,
            b <= p,
            x <= d,
    ;
}

/// The key under which the value for `x` successes and `n` draws is kept.
pub open spec fn memo_key(x: u64, n: u32) -> u128 {
    (x * 0x1_0000_0000 + n) as u128
}

/// The values computed so far for one draw count, keyed by successes and draws left.
#[derive(Debug)]
pub struct Memo {
    pub table: HashMap<u128, Natural>,
}

impl Memo {
    /// Every value kept is the numerator for its key, for `q` queries over `d` positions.
    pub open spec fn holds(&self, q: nat, d: nat) -> bool {
        forall|x: u64, n: u32|
            self.table@.contains_key(#[trigger] memo_key(x, n)) ==> {
                &&& self.table@[memo_key(x, n)]@ == successes(q, d, x as nat, n as nat)
                &&& self.table@[memo_key(x, n)].len() <= n + 1
            }
    }

    /// A table with nothing in it.
    pub fn new() -> (memo: Memo)
        ensures
            memo.table@ == Map::<u128, Natural>::empty(),
            forall|q: nat, d: nat| memo.holds(q, d),
    {
        Memo { table: HashMap::new() }
    }

    fn key(x: u64, n: u32) -> (k: u128)
        ensures
            k == memo_key(x, n),
    {
        let high: u128 = x as u128;
        let low: u128 = n as u128;
        high * 0x1_0000_0000u128 + low
    }

    /// The value kept for `x` successes and `n` draws, if there is one.
    pub fn get(&self, x: u64, n: u32) -> (r: Option<Natural>)
        ensures
            match r {
                Some(v) => self.table@.contains_key(memo_key(x, n)) && v@ == self.table@[memo_key(
                    x,
                    n,
                )]@ && v.len() == self.table@[memo_key(x, n)].len(),
                None => !self.table@.contains_key(memo_key(x, n)),
            },
    {
        let k = Memo::key(x, n);
        match self.table.get(&k) {
            Some(v) => Some(v.duplicate()),
            None => None,
        }
    }

    /// Keeps `value` for `x` successes and `n` draws.
    pub fn insert(&mut self, x: u64, n: u32, value: Natural)
        ensures
            final(self).table@ == old(self).table@.insert(memo_key(x, n), value),
    {
        let k = Memo::key(x, n);
        self.table.insert(k, value);
    }
}

/// Whether `k` is the key of a pair with at least `x` and at most `q` successes and at most
/// `n` draws.
pub open spec fn key_within(k: u128, x: u64, q: u64, n: u32) -> bool {
    exists|y: u64, m: u32| k == #[trigger] memo_key(y, m) && x <= y <= q && m <= n
}

/// A key within narrower limits is within wider ones.
proof fn lemma_key_within_widens(k: u128, x: u64, y: u64, q: u64, n: u32, m: u32)
    requires
        key_within(k, y, q, m),
        x <= y,
        m <= n,
    ensures
        key_within(k, x, q, n),
{
    let (a, b) = choose|a: u64, b: u32| k == #[trigger] memo_key(a, b) && y <= a <= q && b <= m;
    assert(k == memo_key(a, b) && x <= a <= q && b <= n);
}

/// Distinct pairs have distinct keys.
proof fn lemma_key_injective(x: u64, n: u32, y: u64, m: u32)
    ensures
        memo_key(x, n) == memo_key(y, m) ==> x == y && n == m,
{
}

/// The numerator of the probability of reaching `num_queries` successes within `n` draws
/// when `x` are already there, over `lde_domain_size` to the `n`.
///
/// A value already in `memo` is taken from it, and `memo` is left as it was. Otherwise the
/// value is computed and put there, with those that it is computed from: the entries
/// that were there stay as they were, and every new one is for at least `x` successes and
/// at most `n` draws.
pub fn step(x: u64, n: u32, memo: &mut Memo, num_queries: u64, lde_domain_size: u64) -> (r:
    Natural)
    requires
        x <= num_queries <= lde_domain_size,
        n < limb_capacity(),
        old(memo).holds(num_queries as nat, lde_domain_size as nat),
    ensures
        r@ == successes(num_queries as nat, lde_domain_size as nat, x as nat, n as nat),
        r.len() <= n + 1,
        final(memo).holds(num_queries as nat, lde_domain_size as nat),
        final(memo).table@.contains_key(memo_key(x, n)),
        final(memo).table@[memo_key(x, n)]@ == r@,
        old(memo).table@.contains_key(memo_key(x, n)) ==> final(memo).table@ == old(memo).table@,
        forall|k: u128|
            #![trigger old(memo).table@.contains_key(k)]
            #![trigger final(memo).table@.contains_key(k)]
            old(memo).table@.contains_key(k) ==> final(memo).table@.contains_key(k)
                && final(memo).table@[k] == old(memo).table@[k],
        forall|k: u128|
            #![trigger final(memo).table@.contains_key(k)]
            final(memo).table@.contains_key(k) && !old(memo).table@.contains_key(k)
                ==> key_within(k, x, num_queries, n),
    decreases n,
{
    let ghost q = num_queries as nat;
    let ghost d = lde_domain_size as nat;
    let ghost start = memo.table@;
    match memo.get(x, n) {
        Some(value) => value,
        None => {
            let num = if x == num_queries {
                let one = Natural::power_of(lde_domain_size, n);
                proof {
                    lemma_limbs_under_power(one@, d, n as nat);
                }
                one
            } else if n == 0 {
                Natural::zero()
            } else {
                let a = step(x + 1, n - 1, memo, num_queries, lde_domain_size);
                let ghost middle = memo.table@;
                let b = step(x, n - 1, memo, num_queries, lde_domain_size);
                proof {
                    lemma_step_terms(q, d, x as nat, n as nat);
                    assert forall|k: u128| start.contains_key(k) implies memo.table@.contains_key(
                        k,
                    ) && memo.table@[k] == start[k] by {
                        assert(middle.contains_key(k) && middle[k] == start[k]);
                    }
                    assert forall|k: u128|
                        memo.table@.contains_key(k) && !start.contains_key(k) implies key_within(
                        k,
                        x,
                        num_queries,
                        n,
                    ) by {
                        if middle.contains_key(k) {
                            lemma_key_within_widens(
                                k,
                                x,
                                (x + 1) as u64,
                                num_queries,
                                n,
                                (n - 1) as u32,
                            );
                        } else {
                            lemma_key_within_widens(k, x, x, num_queries, n, (n - 1) as u32);
                        }
                    }
                }
                let hit = a.times_word(lde_domain_size - x);
                let miss = b.times_word(x);
                proof {
                    let w = (lde_domain_size - x) as nat;
                    assert(hit@ == (d - x) * a@) by (nonlinear_arith)
                        requires
                            hit@ == a@ * w,
                            w == d - x,
                    ;
                    assert(miss@ == x * b@) by (nonlinear_arith)
                        requires
                            miss@ == b@ * x,
                    ;
                    lemma_limbs_under_power(hit@, d, n as nat);
                    lemma_limbs_under_power(miss@, d, n as nat);
                }
                let sum = hit.plus(&miss);
                proof {
                    lemma_successes_bounded(q, d, x as nat, n as nat);
                    lemma_limbs_under_power(sum@, d, n as nat);
                }
                sum
            };
            let kept = num.duplicate();
            let ghost before = memo.table@;
            memo.insert(x, n, kept);
            proof {
                assert forall|y: u64, m: u32|
                    memo.table@.contains_key(#[trigger] memo_key(y, m)) implies {
                    &&& memo.table@[memo_key(y, m)]@ == successes(q, d, y as nat, m as nat)
                    &&& memo.table@[memo_key(y, m)].len() <= m + 1
                } by {
                    lemma_key_injective(x, n, y, m);
                    if memo_key(y, m) != memo_key(x, n) {
                        assert(before.contains_key(memo_key(y, m)));
                    }
                }
                assert forall|k: u128|
                    memo.table@.contains_key(k) && !start.contains_key(k) implies key_within(
                    k,
                    x,
                    num_queries,
                    n,
                ) by {
                    if k == memo_key(x, n) {
                        assert(x <= x <= num_queries && n <= n);
                    } else {
                        assert(before.contains_key(k));
                    }
                }
                assert forall|k: u128| start.contains_key(k) implies memo.table@.contains_key(k)
                    && memo.table@[k] == start[k] by {
                    assert(k != memo_key(x, n));
                    assert(before.contains_key(k) && before[k] == start[k]);
                }
            }
            num
        },
    }
}

/// Whether the failing share of `total` is within the bound: `total - reached`, times two
/// to the `security`, is at most `total`.
pub fn bound_met(reached: &Natural, total: &Natural, security: u32) -> (met: bool)
    requires
        reached@ <= total@,
        reached.fits(),
        total.fits(),
    ensures
        met == ((total@ - reached@) * power(2, security as nat) <= total@),
{
    let failing = total.minus(reached);
    let allowed = total.shifted_right(security);
    proof {
        let c = power(2, security as nat);
        lemma_power_of_two_positive(security as nat);
        let f = failing@;
        let t = total@;
        assert((f * c <= t) == (f <= t / c)) by (nonlinear_arith)
            requires
                c > 0,
        ;
        assert(allowed@ <= t) by (nonlinear_arith)
            requires
                allowed@ == t / c,
                c > 0,
        ;
        assert(failing.len() <= total.len()) by {
            lemma_limb_count_monotone(f, t);
            lemma_limb_count_at_most_len(total.limbs@);
        }
        assert(allowed.len() <= total.len()) by {
            lemma_limb_count_monotone(allowed@, t);
            lemma_limb_count_at_most_len(total.limbs@);
        }
    }
    failing.at_most(&allowed)
}

/// The least number of draws after which `num_queries` distinct positions of a domain
/// of `lde_domain_size` have been hit, but for a probability of at most two to the minus
/// `security`.
///
/// A domain with fewer positions than queries is refused. The draw counts are tried in
/// turn from zero, each with a table of its own, up to `draw_limit()`.
pub fn number_of_draws(num_queries: u64, lde_domain_size: u64, security: u32) -> (r: Result<
    u32,
    WinterCircomError,
>)
    ensures
        match r {
            Ok(n) => {
                &&& num_queries <= lde_domain_size
                &&& n <= draw_limit()
                &&& meets_bound(
                    num_queries as nat,
                    lde_domain_size as nat,
                    security as nat,
                    n as nat,
                )
                &&& forall|m: nat|
                    m < n ==> !meets_bound(
                        num_queries as nat,
                        lde_domain_size as nat,
                        security as nat,
                        m,
                    )
            },
            Err(e) => {
                ||| {
                    &&& e == WinterCircomError::InvalidConfiguration(
                        ConfigurationFault::DomainTooSmall,
                    )
                    &&& lde_domain_size < num_queries
                }
                ||| {
                    &&& e == WinterCircomError::InvalidConfiguration(
                        ConfigurationFault::DrawsOutOfRange,
                    )
                    &&& num_queries <= lde_domain_size
                    &&& forall|m: nat|
                        m <= draw_limit() ==> !meets_bound(
                            num_queries as nat,
                            lde_domain_size as nat,
                            security as nat,
                            m,
                        )
                }
            },
        },
        num_queries == 0 ==> r == Ok::<u32, WinterCircomError>(0u32),
{
    let ghost q = num_queries as nat;
    let ghost d = lde_domain_size as nat;
    if num_queries == 0 {
        proof {
            lemma_no_queries(d, security as nat);
        }
        return Ok(0);
    }
    if lde_domain_size < num_queries {
        return Err(WinterCircomError::InvalidConfiguration(ConfigurationFault::DomainTooSmall));
    }
    let limit: u32 = (capacity() - 1) as u32;
    let mut num_draws: u32 = 0;
    loop
        invariant
            q == num_queries,
            d == lde_domain_size,
            0 < num_queries <= lde_domain_size,
            limit == draw_limit(),
            num_draws <= limit,
            forall|m: nat| m < num_draws ==> !meets_bound(q, d, security as nat, m),
        decreases limit - num_draws,
    {
        let mut memo = Memo::new();
        let reached = step(0, num_draws, &mut memo, num_queries, lde_domain_size);
        let total = Natural::power_of(lde_domain_size, num_draws);
        proof {
            lemma_successes_bounded(q, d, 0, num_draws as nat);
            lemma_limbs_under_power(total@, d, num_draws as nat);
        }
        if bound_met(&reached, &total, security) {
            return Ok(num_draws);
        }
        if num_draws == limit {
            return Err(
                WinterCircomError::InvalidConfiguration(ConfigurationFault::DrawsOutOfRange),
            );
        }
        num_draws += 1;
    }
}

/// With no query asked for, no draw is needed.
pub proof fn lemma_no_queries(d: nat, security: nat)
    ensures
        meets_bound(0, d, security, 0),
{
    assert(successes(0, d, 0, 0) == power(d, 0));
    assert((power(d, 0) - successes(0, d, 0, 0)) * power(2, security) == 0) by (nonlinear_arith)
        requires
            power(d, 0) - successes(0, d, 0, 0) == 0,
    ;
}

/// One more draw never lowers the probability of reaching the queries.
pub proof fn lemma_successes_grow(q: nat, d: nat, x: nat, n: nat)
    requires
        x <= q <= d,
    ensures
        successes(q, d, x, n + 1) >= d * successes(q, d, x, n),
    decreases n,
{
    if x < q {
        lemma_step_terms(q, d, x, n + 1);
        if n == 0 {
            assert(d * successes(q, d, x, 0) == 0) by (nonlinear_arith)
                requires
                    successes(q, d, x, 0) == 0,
            ;
        } else {
            let m = (n - 1) as nat;
            lemma_step_terms(q, d, x, n);
            lemma_successes_grow(q, d, x + 1, m);
            lemma_successes_grow(q, d, x, m);
            let a0 = successes(q, d, x + 1, m);
            let b0 = successes(q, d, x, m);
            let a1 = successes(q, d, x + 1, n);
            let b1 = successes(q, d, x, n);
            assert((d - x) * a1 + x * b1 >= d * ((d - x) * a0 + x * b0)) by (nonlinear_arith)
                requires
                    a1 >= d * a0,
                    b1 >= d * b0,
                    x <= d,
            ;
        }
    }
}

/// A bound that is met stays met with one more draw.
pub proof fn lemma_bound_persists(q: nat, d: nat, security: nat, n: nat)
    requires
        q <= d,
        meets_bound(q, d, security, n),
    ensures
        meets_bound(q, d, security, n + 1),
{
    lemma_successes_grow(q, d, 0, n);
    lemma_successes_bounded(q, d, 0, n);
    lemma_successes_bounded(q, d, 0, n + 1);
    let c = power(2, security);
    let p0 = power(d, n);
    let p1 = power(d, n + 1);
    let f0 = p0 - successes(q, d, 0, n);
    let f1 = p1 - successes(q, d, 0, n + 1);
    assert(p1 == d * p0);
    assert(f1 * c <= p1) by (nonlinear_arith)
        requires
            f0 * c <= p0,
            f1 <= d * p0 - d * (p0 - f0),
            0 <= f1,
            0 <= f0,
            0 <= c,
            p1 == d * p0,
    ;
}

/// Every count from the least one on meets the bound.
pub proof fn lemma_bound_from(q: nat, d: nat, security: nat, n: nat, m: nat)
    requires
        q <= d,
        meets_bound(q, d, security, n),
        n <= m,
    ensures
        meets_bound(q, d, security, m),
    decreases m - n,
{
    if n < m {
        lemma_bound_persists(q, d, security, n);
        lemma_bound_from(q, d, security, n + 1, m);
    }
}

} // verus!
