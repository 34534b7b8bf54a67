use winter_circom_prover::{
    bound_met, number_of_draws, step, ConfigurationFault, Memo, Natural, WinterCircomError,
};

fn value(n: &Natural) -> u64 {
    match n.limbs.len() {
        0 => 0,
        1 => n.limbs[0],
        _ => panic!("more than one limb"),
    }
}

#[test]
fn one_query_in_a_domain_of_two_needs_one_draw() {
    assert_eq!(number_of_draws(1, 2, 1), Ok(1));
}

#[test]
fn success_numerators_for_one_query_in_a_domain_of_two() {
    // P(0, 0) = 0 and P(0, n) = 1 for n >= 1, over 2^n
    for (n, expected) in [(0u32, 0u64), (1, 2), (2, 4), (3, 8), (4, 16)] {
        let mut memo = Memo::new();
        assert_eq!(value(&step(0, n, &mut memo, 1, 2)), expected);
    }
}

#[test]
fn no_query_needs_no_draw() {
    assert_eq!(number_of_draws(0, 0, 1), Ok(0));
    assert_eq!(number_of_draws(0, 7, 128), Ok(0));
    assert_eq!(number_of_draws(0, u64::MAX, u32::MAX), Ok(0));
}

#[test]
fn two_queries_in_a_domain_of_two() {
    // failure after n draws is 2^-(n-1)
    assert_eq!(number_of_draws(2, 2, 1), Ok(2));
    assert_eq!(number_of_draws(2, 2, 3), Ok(4));
    assert_eq!(number_of_draws(2, 2, 128), Ok(129));
}

#[test]
fn two_queries_in_a_domain_of_four() {
    // failure after n draws is 4^-(n-1)
    assert_eq!(number_of_draws(2, 4, 3), Ok(3));
    assert_eq!(number_of_draws(2, 4, 4), Ok(3));
    assert_eq!(number_of_draws(2, 4, 5), Ok(4));
}

#[test]
fn three_queries_in_a_domain_of_three() {
    // failure after 4 draws is 15/27, after 5 draws 31/81
    assert_eq!(number_of_draws(3, 3, 1), Ok(5));
}

#[test]
fn zero_security_bits_are_met_at_once() {
    assert_eq!(number_of_draws(5, 10, 0), Ok(0));
}

#[test]
fn the_result_is_the_least_count_that_meets_the_bound() {
    let (q, d, s) = (3u64, 8u64, 6u32);
    let n = number_of_draws(q, d, s).unwrap();
    for m in 0..=n {
        let mut memo = Memo::new();
        let reached = step(0, m, &mut memo, q, d);
        let total = Natural::from_word(d.pow(m));
        assert_eq!(bound_met(&reached, &total, s), m == n);
    }
}

#[test]
fn a_domain_smaller_than_the_queries_is_refused() {
    assert_eq!(
        number_of_draws(3, 2, 10),
        Err(WinterCircomError::InvalidConfiguration(ConfigurationFault::DomainTooSmall))
    );
}

#[test]
fn step_takes_values_from_the_memo() {
    let mut memo = Memo::new();
    // P(1, 3) for two queries in a domain of two is 7/8
    assert_eq!(value(&step(1, 3, &mut memo, 2, 2)), 7);
    assert_eq!(value(&memo.get(1, 3).unwrap()), 7);
    assert_eq!(value(&memo.get(2, 2).unwrap()), 4);
    assert!(memo.get(0, 3).is_none());
    let entries = memo.table.len();
    assert_eq!(value(&step(1, 3, &mut memo, 2, 2)), 7);
    assert_eq!(memo.table.len(), entries);
    // P(0, 3) is P(1, 2), which is there; the values for no success are added
    assert_eq!(value(&step(0, 3, &mut memo, 2, 2)), 6);
    assert_eq!(memo.table.len(), entries + 4);
    assert_eq!(value(&memo.get(1, 3).unwrap()), 7);
}

#[test]
fn step_fills_the_memo_from_its_own_successes_on() {
    let mut memo = Memo::new();
    step(1, 2, &mut memo, 3, 5);
    for (x, n) in [(1, 2), (2, 1), (1, 1), (3, 0), (2, 0), (1, 0)] {
        assert!(memo.get(x, n).is_some());
    }
    assert_eq!(memo.table.len(), 6);
    assert!(memo.get(0, 2).is_none());
    assert!(memo.get(0, 1).is_none());
}

#[test]
fn bound_is_met_when_the_failing_share_is_small_enough() {
    let total = Natural::from_word(1024);
    assert!(bound_met(&Natural::from_word(1023), &total, 10));
    assert!(!bound_met(&Natural::from_word(1022), &total, 10));
    assert!(bound_met(&Natural::from_word(1022), &total, 9));
    assert!(bound_met(&Natural::from_word(1024), &total, 40));
    assert!(!bound_met(&Natural::zero(), &total, 1));
    assert!(bound_met(&Natural::zero(), &total, 0));
}

#[test]
fn a_bound_that_is_met_stays_met() {
    let (q, d, s) = (3u64, 4u64, 10u32);
    let n = number_of_draws(q, d, s).unwrap();
    for m in n..n + 5 {
        let mut memo = Memo::new();
        let reached = step(0, m, &mut memo, q, d);
        assert!(bound_met(&reached, &Natural::from_word(d.pow(m)), s));
    }
}
