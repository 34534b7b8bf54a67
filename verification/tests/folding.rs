use winter_circom_prover::{
    exact_log2, folding_schedule, is_power_of_two, ConfigurationFault, WinterCircomError,
};

#[test]
fn schedule_of_a_domain_of_64_folded_by_4() {
    assert_eq!(folding_schedule(8, 8, 4, 4), Ok(vec![4, 2]));
}

#[test]
fn schedule_is_empty_within_the_remainder_bound() {
    assert_eq!(folding_schedule(8, 4, 4, 32), Ok(vec![]));
    assert_eq!(folding_schedule(8, 4, 0, 64), Ok(vec![]));
}

#[test]
fn schedule_stops_at_the_bound() {
    assert_eq!(folding_schedule(128, 8, 4, 32), Ok(vec![8, 6, 4]));
    assert_eq!(folding_schedule(128, 8, 2, 256), Ok(vec![9, 8]));
    assert_eq!(folding_schedule(1, 1024, 16, 4), Ok(vec![6, 2]));
    assert_eq!(folding_schedule(1, 256, 16, 1), Ok(vec![4, 0]));
}

#[test]
fn inexact_folding_is_refused() {
    assert_eq!(
        folding_schedule(8, 8, 16, 1),
        Err(WinterCircomError::InvalidConfiguration(ConfigurationFault::InexactFolding))
    );
    assert_eq!(
        folding_schedule(1, 1024, 16, 3),
        Err(WinterCircomError::InvalidConfiguration(ConfigurationFault::InexactFolding))
    );
}

#[test]
fn a_domain_that_is_no_power_of_two_is_refused() {
    assert_eq!(
        folding_schedule(6, 4, 4, 2),
        Err(WinterCircomError::InvalidConfiguration(ConfigurationFault::DomainNotPowerOfTwo))
    );
}

#[test]
fn a_folding_factor_under_two_is_refused() {
    assert_eq!(
        folding_schedule(8, 8, 1, 4),
        Err(WinterCircomError::InvalidConfiguration(ConfigurationFault::FoldingFactor))
    );
    assert_eq!(
        folding_schedule(8, 8, 0, 4),
        Err(WinterCircomError::InvalidConfiguration(ConfigurationFault::FoldingFactor))
    );
}

#[test]
fn a_domain_that_overflows_is_refused() {
    assert_eq!(
        folding_schedule(usize::MAX, 2, 2, 4),
        Err(WinterCircomError::InvalidConfiguration(ConfigurationFault::DomainOverflow))
    );
}

#[test]
fn powers_of_two_and_their_logarithms() {
    assert!(is_power_of_two(1));
    assert!(is_power_of_two(1 << 20));
    assert!(!is_power_of_two(0));
    assert!(!is_power_of_two(12));
    assert_eq!(exact_log2(1), Some(0));
    assert_eq!(exact_log2(16), Some(4));
    assert_eq!(exact_log2(1 << 20), Some(20));
    assert_eq!(exact_log2(24), None);
}

#[test]
fn every_entry_is_the_logarithm_of_the_domain_after_its_division() {
    for (length, blowup, folding, bound) in
        [(8usize, 8usize, 4usize, 4usize), (1024, 16, 8, 64), (64, 2, 2, 1), (4096, 4, 16, 256)]
    {
        let depths = folding_schedule(length, blowup, folding, bound).unwrap();
        let mut domain = length * blowup;
        let mut divisions = 0;
        while domain > bound {
            domain /= folding;
            assert_eq!(1usize << depths[divisions], domain);
            divisions += 1;
        }
        assert_eq!(depths.len(), divisions);
    }
}
