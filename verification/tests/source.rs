use winter_circom_prover::{
    depths_text, generate_circom_main, natural_decimal, word_to_decimal, CircuitParameters,
    ConfigurationFault, FieldParameters, Natural, WinterCircomError, WinterCircomProofOptions,
};

fn options() -> WinterCircomProofOptions {
    WinterCircomProofOptions {
        trace_length: 128,
        trace_width: 2,
        transition_constraint_degrees: vec![2, 3],
        num_assertions: 1,
        num_queries: 2,
        blowup_factor: 8,
        grinding_factor: 16,
        fri_folding_factor: 4,
        fri_max_remainder_size: 32,
    }
}

fn field() -> FieldParameters {
    FieldParameters {
        two_adicity: 28,
        generator: Natural::from_word(5),
        modulus: Natural { limbs: vec![1, 0, 0, 1] },
    }
}

fn fault(options: &WinterCircomProofOptions) -> ConfigurationFault {
    match CircuitParameters::derive(options, &field(), 3) {
        Err(WinterCircomError::InvalidConfiguration(fault)) => fault,
        other => panic!("unexpected {:?}", other),
    }
}

#[test]
fn parameters_of_a_small_computation() {
    let p = CircuitParameters::derive(&options(), &field(), 3).unwrap();
    assert_eq!(p.addicity, 28);
    assert_eq!(p.ce_blowup_factor, 2);
    assert_eq!(p.domain_offset.limbs, vec![5]);
    assert_eq!(p.folding_factor, 4);
    assert_eq!(p.fri_tree_depths, vec![8, 6, 4]);
    assert_eq!(p.grinding_factor, 16);
    assert_eq!(p.lde_blowup_factor, 8);
    assert_eq!(p.num_assertions, 1);
    assert_eq!(p.num_draws, 16);
    assert_eq!(p.num_fri_layers, 3);
    assert_eq!(p.num_pub_coin_seed, 5);
    assert_eq!(p.num_public_inputs, 3);
    assert_eq!(p.num_queries, 2);
    assert_eq!(p.num_transition_constraints, 2);
    assert_eq!(p.trace_length, 128);
    assert_eq!(p.trace_width, 2);
    assert_eq!(p.tree_depth, 9);
}

#[test]
fn constraint_blowup_follows_the_highest_degree() {
    let mut o = options();
    o.transition_constraint_degrees = vec![1];
    assert_eq!(CircuitParameters::derive(&o, &field(), 0).unwrap().ce_blowup_factor, 2);
    o.transition_constraint_degrees = vec![4, 5, 2];
    assert_eq!(CircuitParameters::derive(&o, &field(), 0).unwrap().ce_blowup_factor, 4);
    o.transition_constraint_degrees = vec![6];
    assert_eq!(CircuitParameters::derive(&o, &field(), 0).unwrap().ce_blowup_factor, 8);
    o.transition_constraint_degrees = vec![9, 1];
    assert_eq!(CircuitParameters::derive(&o, &field(), 0).unwrap().ce_blowup_factor, 8);
}

#[test]
fn source_of_a_small_computation() {
    let main = generate_circom_main(&options(), &field(), 3, "sum").unwrap();
    let expected = "pragma circom 2.0.0;\n\
        \n\
        include \"../../../circuits/verify.circom\";\n\
        include \"../../../circuits/air/sum.circom\";\n\
        \n\
        component main {public [ood_frame_constraint_evaluation, ood_trace_frame]} = Verify(\n    \
            28, // addicity\n    \
            2, // ce_blowup_factor\n    \
            5, // domain_offset\n    \
            4, // folding_factor\n    \
            [8, 6, 4], // fri_tree_depth\n    \
            16, // grinding_factor\n    \
            8, // lde_blowup_factor\n    \
            1, // num_assertions\n    \
            16, // num_draws\n    \
            3, // num_fri_layers\n    \
            5, // num_pub_coin_seed\n    \
            3, // num_public_inputs\n    \
            2, // num_queries\n    \
            2, // num_transition_constraints\n    \
            128, // trace_length\n    \
            2, // trace_width\n    \
            9 // tree_depth\n\
        );\n";
    assert_eq!(main.contents, expected);
    assert_eq!(main.parameters.num_draws, 16);
}

#[test]
fn source_is_the_same_on_every_run() {
    let first = generate_circom_main(&options(), &field(), 3, "sum").unwrap();
    let second = generate_circom_main(&options(), &field(), 3, "sum").unwrap();
    assert_eq!(first.contents, second.contents);
}

#[test]
fn no_folding_round_is_written_as_a_single_zero() {
    let mut o = options();
    o.trace_length = 8;
    o.blowup_factor = 4;
    let main = generate_circom_main(&o, &field(), 0, "sum").unwrap();
    assert_eq!(main.parameters.fri_tree_depths, Vec::<u32>::new());
    assert_eq!(main.parameters.num_fri_layers, 0);
    assert!(main.contents.contains("    [0], // fri_tree_depth\n    "));
    assert!(main.contents.contains("    0, // num_fri_layers\n    "));
}

#[test]
fn options_outside_the_limits_are_refused() {
    let mut o = options();
    o.trace_width = 0;
    assert_eq!(fault(&o), ConfigurationFault::TraceWidth);
    o = options();
    o.trace_width = 256;
    assert_eq!(fault(&o), ConfigurationFault::TraceWidth);
    o = options();
    o.trace_length = 4;
    assert_eq!(fault(&o), ConfigurationFault::TraceLength);
    o = options();
    o.trace_length = 24;
    assert_eq!(fault(&o), ConfigurationFault::TraceLength);
    o = options();
    o.num_assertions = 0;
    assert_eq!(fault(&o), ConfigurationFault::Assertions);
    o = options();
    o.num_queries = 0;
    assert_eq!(fault(&o), ConfigurationFault::Queries);
    o = options();
    o.num_queries = 129;
    assert_eq!(fault(&o), ConfigurationFault::Queries);
    o = options();
    o.blowup_factor = 256;
    assert_eq!(fault(&o), ConfigurationFault::BlowupFactor);
    o = options();
    o.blowup_factor = 12;
    assert_eq!(fault(&o), ConfigurationFault::BlowupFactor);
    o = options();
    o.grinding_factor = 33;
    assert_eq!(fault(&o), ConfigurationFault::GrindingFactor);
    o = options();
    o.fri_folding_factor = 2;
    assert_eq!(fault(&o), ConfigurationFault::FoldingFactor);
    o = options();
    o.fri_max_remainder_size = 16;
    assert_eq!(fault(&o), ConfigurationFault::RemainderSize);
    o = options();
    o.transition_constraint_degrees = vec![];
    assert_eq!(fault(&o), ConfigurationFault::ConstraintDegrees);
    o = options();
    o.transition_constraint_degrees = vec![2, 0];
    assert_eq!(fault(&o), ConfigurationFault::ConstraintDegrees);
    o = options();
    o.transition_constraint_degrees = vec![10];
    assert_eq!(fault(&o), ConfigurationFault::ConstraintDegrees);
    o = options();
    o.trace_length = 1 << 37;
    assert_eq!(fault(&o), ConfigurationFault::DomainTooLarge);
}

#[test]
fn more_queries_than_positions_are_refused() {
    let mut o = options();
    o.trace_length = 8;
    o.num_queries = 33;
    assert_eq!(fault(&o), ConfigurationFault::DomainTooSmall);
}

#[test]
fn the_largest_domain_is_sized() {
    let mut o = options();
    o.trace_length = 1 << 36;
    o.num_queries = 1;
    let mut f = field();
    f.two_adicity = 39;
    let p = CircuitParameters::derive(&o, &f, 0).unwrap();
    assert_eq!(p.fri_tree_depths.len(), 17);
    assert_eq!(p.tree_depth, 38);
    assert_eq!(p.num_draws, 1);
}

#[test]
fn decimal_text_of_words() {
    assert_eq!(word_to_decimal(0), "0");
    assert_eq!(word_to_decimal(7), "7");
    assert_eq!(word_to_decimal(10), "10");
    assert_eq!(word_to_decimal(1234567890), "1234567890");
    assert_eq!(word_to_decimal(u64::MAX), "18446744073709551615");
}

#[test]
fn decimal_text_of_naturals() {
    assert_eq!(natural_decimal(&Natural::zero()).unwrap(), "0");
    assert_eq!(natural_decimal(&Natural::from_word(42)).unwrap(), "42");
    let two_to_64 = Natural { limbs: vec![0, 1] };
    assert_eq!(natural_decimal(&two_to_64).unwrap(), "18446744073709551616");
    let padded = Natural { limbs: vec![9, 0, 0] };
    assert_eq!(natural_decimal(&padded).unwrap(), "9");
}

#[test]
fn lists_of_depths() {
    assert_eq!(depths_text(&vec![]), "[0]");
    assert_eq!(depths_text(&vec![7]), "[7]");
    assert_eq!(depths_text(&vec![12, 10, 8]), "[12, 10, 8]");
}

#[test]
fn a_seed_length_that_overflows_is_refused() {
    match CircuitParameters::derive(&options(), &field(), usize::MAX) {
        Err(e) => assert_eq!(
            e,
            WinterCircomError::InvalidConfiguration(ConfigurationFault::CountOverflow)
        ),
        Ok(_) => panic!("parameters were derived"),
    }
}

#[test]
fn a_generator_that_is_no_element_is_refused() {
    let mut f = field();
    f.modulus = Natural::from_word(5);
    match CircuitParameters::derive(&options(), &f, 3) {
        Err(e) => {
            assert_eq!(e, WinterCircomError::InvalidConfiguration(ConfigurationFault::Generator))
        }
        Ok(_) => panic!("parameters were derived"),
    }
    f.modulus = Natural::from_word(6);
    assert!(CircuitParameters::derive(&options(), &f, 3).is_ok());
}

#[test]
fn a_domain_beyond_the_field_is_refused() {
    let mut f = field();
    // the evaluation domain has two to the 10 positions
    f.two_adicity = 9;
    match CircuitParameters::derive(&options(), &f, 3) {
        Err(e) => assert_eq!(
            e,
            WinterCircomError::InvalidConfiguration(ConfigurationFault::DomainExceedsField)
        ),
        Ok(_) => panic!("parameters were derived"),
    }
    f.two_adicity = 10;
    assert!(CircuitParameters::derive(&options(), &f, 3).is_ok());
}
