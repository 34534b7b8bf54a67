use winter_circom_prover::{
    circom_create, circom_prove, CircuitParameters, ConfigurationFault, CreationFiles,
    FieldParameters, Natural, ProofWitness, WinterCircomError, WinterCircomProofOptions,
    WitnessPart,
};

fn n(v: u64) -> Natural {
    Natural::from_word(v)
}

fn row(values: &[u64]) -> Vec<Natural> {
    values.iter().map(|v| n(*v)).collect()
}

fn options() -> WinterCircomProofOptions {
    WinterCircomProofOptions {
        trace_length: 128,
        trace_width: 2,
        transition_constraint_degrees: vec![2, 3],
        num_assertions: 1,
        num_queries: 2,
        blowup_factor: 8,
        grinding_factor: 16,
        fri_folding_factor: 4,
        fri_max_remainder_size: 32,
    }
}

fn field() -> FieldParameters {
    FieldParameters { two_adicity: 28, generator: n(5), modulus: modulus() }
}

// the order of the scalar field of BN254
fn modulus() -> Natural {
    Natural {
        limbs: vec![
            0x43e1_f593_f000_0001,
            0x2833_e848_79b9_7091,
            0xb850_45b6_8181_585d,
            0x3064_4e72_e131_a029,
        ],
    }
}

fn present() -> CreationFiles {
    CreationFiles { powers_of_tau: true, air_circuit: true }
}

fn parameters() -> CircuitParameters {
    CircuitParameters {
        addicity: 28,
        ce_blowup_factor: 2,
        domain_offset: n(5),
        folding_factor: 4,
        fri_tree_depths: vec![2],
        grinding_factor: 0,
        lde_blowup_factor: 2,
        num_assertions: 1,
        num_draws: 3,
        num_fri_layers: 1,
        num_pub_coin_seed: 3,
        num_public_inputs: 1,
        num_queries: 1,
        num_transition_constraints: 1,
        trace_length: 8,
        trace_width: 2,
        tree_depth: 3,
    }
}

fn witness() -> ProofWitness {
    ProofWitness {
        public_inputs: row(&[7]),
        trace_commitment: n(11),
        constraint_commitment: n(12),
        ood_trace_frame: vec![row(&[1, 2]), row(&[3, 4])],
        ood_constraint_evaluations: row(&[5, 6]),
        trace_evaluations: vec![row(&[21, 22])],
        trace_query_proofs: vec![row(&[31, 32, 33])],
        constraint_evaluations: vec![row(&[41, 42])],
        constraint_query_proofs: vec![row(&[51, 52, 53])],
        fri_commitments: row(&[61, 62]),
        fri_layer_queries: vec![vec![row(&[71, 72, 73, 74])]],
        fri_layer_proofs: vec![vec![row(&[81, 82])]],
        fri_remainder: row(&[91, 92, 93, 94]),
        pow_nonce: 18446744073709551615,
    }
}

fn part(w: &ProofWitness) -> WitnessPart {
    match circom_prove(w, &parameters(), &field(), "sum") {
        Err(WinterCircomError::InvalidProof(part)) => part,
        other => panic!("unexpected {:?}", other),
    }
}

#[test]
fn missing_transcript_stops_the_creation() {
    let files = CreationFiles { powers_of_tau: false, air_circuit: false };
    match circom_create(&options(), &field(), 3, "sum", files) {
        Err(e) => assert_eq!(
            e,
            WinterCircomError::FileNotFound {
                file: String::from("final.ptau"),
                comment: Some(String::from("required for the generation of circuit-specific keys")),
            }
        ),
        Ok(_) => panic!("a circuit was created"),
    }
}

#[test]
fn missing_transcript_is_reported_before_bad_options() {
    let mut o = options();
    o.trace_length = 0;
    let files = CreationFiles { powers_of_tau: false, air_circuit: true };
    match circom_create(&o, &field(), 3, "sum", files) {
        Err(WinterCircomError::FileNotFound { file, .. }) => assert_eq!(file, "final.ptau"),
        other => panic!("unexpected {:?}", other.map(|c| c.file)),
    }
}

#[test]
fn missing_air_circuit_stops_the_creation() {
    let files = CreationFiles { powers_of_tau: true, air_circuit: false };
    match circom_create(&options(), &field(), 3, "sum", files) {
        Err(e) => assert_eq!(
            e,
            WinterCircomError::FileNotFound {
                file: String::from("circuits/air/sum.circom"),
                comment: Some(String::from("required for the compilation of Circom code")),
            }
        ),
        Ok(_) => panic!("a circuit was created"),
    }
}

#[test]
fn creation_gives_the_source_file() {
    let circuit = circom_create(&options(), &field(), 3, "sum", present()).unwrap();
    assert_eq!(circuit.file.directory, "target/circom/sum");
    assert_eq!(circuit.file.path, "target/circom/sum/verifier.circom");
    assert!(circuit.file.contents.starts_with("pragma circom 2.0.0;\n\ninclude \""));
    assert!(circuit.file.contents.ends_with("    9 // tree_depth\n);\n"));
    assert_eq!(circuit.parameters.fri_tree_depths, vec![8, 6, 4]);
}

#[test]
fn creation_refuses_bad_options() {
    let mut o = options();
    o.blowup_factor = 3;
    match circom_create(&o, &field(), 3, "sum", present()) {
        Err(e) => assert_eq!(
            e,
            WinterCircomError::InvalidConfiguration(ConfigurationFault::BlowupFactor)
        ),
        Ok(_) => panic!("a circuit was created"),
    }
}

#[test]
fn witness_of_a_small_proof() {
    let file = circom_prove(&witness(), &parameters(), &field(), "sum").unwrap();
    assert_eq!(file.directory, "target/circom/sum");
    assert_eq!(file.path, "target/circom/sum/input.json");
    let expected = "{\"constraint_commitment\":\"12\",\
        \"constraint_evaluations\":[[\"41\",\"42\"]],\
        \"constraint_query_proofs\":[[\"51\",\"52\",\"53\"]],\
        \"fri_commitments\":[\"61\",\"62\"],\
        \"fri_layer_proofs\":[[[\"81\",\"82\"]]],\
        \"fri_layer_queries\":[[[\"71\",\"72\",\"73\",\"74\"]]],\
        \"fri_remainder\":[\"91\",\"92\",\"93\",\"94\"],\
        \"ood_constraint_evaluations\":[\"5\",\"6\"],\
        \"ood_trace_frame\":[[\"1\",\"2\"],[\"3\",\"4\"]],\
        \"pow_nonce\":\"18446744073709551615\",\
        \"public_inputs\":[\"7\"],\
        \"trace_commitment\":\"11\",\
        \"trace_evaluations\":[[\"21\",\"22\"]],\
        \"trace_query_proofs\":[[\"31\",\"32\",\"33\"]]}";
    assert_eq!(file.contents, expected);
}

#[test]
fn witness_keeps_large_field_elements_exact() {
    let mut w = witness();
    // one less than the modulus
    w.trace_commitment = modulus();
    w.trace_commitment.limbs[0] -= 1;
    let file = circom_prove(&w, &parameters(), &field(), "sum").unwrap();
    assert!(file.contents.contains(
        "\"trace_commitment\":\"21888242871839275222246405745257275088548364400416034343698204186575808495616\""
    ));
}

#[test]
fn a_number_that_is_no_field_element_is_refused() {
    let mut w = witness();
    w.trace_commitment = modulus();
    assert_eq!(part(&w), WitnessPart::Element);
    w = witness();
    w.fri_layer_proofs[0][0][1] = modulus();
    assert_eq!(part(&w), WitnessPart::Element);
    w = witness();
    w.fri_layer_proofs[0][0][1].limbs = vec![82, 0, 0, 0, 1];
    assert_eq!(part(&w), WitnessPart::Element);
    w = witness();
    w.public_inputs[0].limbs = vec![7, 0, 0, 0, 0, 0];
    assert!(circom_prove(&w, &parameters(), &field(), "sum").is_ok());
}

#[test]
fn the_shape_is_held_before_the_numbers() {
    let mut w = witness();
    w.trace_commitment = modulus();
    w.fri_remainder = vec![];
    assert_eq!(part(&w), WitnessPart::Remainder);
}

#[test]
fn witness_with_no_folding_round() {
    let mut p = parameters();
    p.fri_tree_depths = vec![];
    p.num_fri_layers = 0;
    let mut w = witness();
    w.fri_commitments = row(&[61]);
    w.fri_layer_queries = vec![];
    w.fri_layer_proofs = vec![];
    w.fri_remainder = (0..16).map(n).collect();
    let file = circom_prove(&w, &p, &field(), "sum").unwrap();
    assert!(file.contents.contains("\"fri_layer_proofs\":[],\"fri_layer_queries\":[],"));
}

#[test]
fn witness_of_another_shape_is_refused() {
    let mut w = witness();
    w.public_inputs = row(&[7, 8]);
    assert_eq!(part(&w), WitnessPart::PublicInputs);
    w = witness();
    w.ood_trace_frame = vec![row(&[1, 2])];
    assert_eq!(part(&w), WitnessPart::TraceFrame);
    w = witness();
    w.ood_constraint_evaluations = row(&[5]);
    assert_eq!(part(&w), WitnessPart::OodConstraintEvaluations);
    w = witness();
    w.trace_evaluations = vec![row(&[21, 22]), row(&[23, 24])];
    assert_eq!(part(&w), WitnessPart::TraceEvaluations);
    w = witness();
    w.trace_query_proofs = vec![row(&[31, 32])];
    assert_eq!(part(&w), WitnessPart::TraceQueryProofs);
    w = witness();
    w.constraint_evaluations = vec![row(&[41, 42, 43])];
    assert_eq!(part(&w), WitnessPart::ConstraintEvaluations);
    w = witness();
    w.constraint_query_proofs = vec![];
    assert_eq!(part(&w), WitnessPart::ConstraintQueryProofs);
    w = witness();
    w.fri_commitments = row(&[61]);
    assert_eq!(part(&w), WitnessPart::FriCommitments);
    w = witness();
    w.fri_layer_queries = vec![vec![row(&[71, 72])]];
    assert_eq!(part(&w), WitnessPart::FriLayerQueries);
    w = witness();
    w.fri_layer_proofs = vec![vec![row(&[81, 82, 83])]];
    assert_eq!(part(&w), WitnessPart::FriLayerProofs);
    w = witness();
    w.fri_remainder = row(&[91, 92, 93]);
    assert_eq!(part(&w), WitnessPart::Remainder);
}

#[test]
fn the_first_part_that_does_not_fit_is_reported() {
    let mut w = witness();
    w.fri_remainder = vec![];
    w.trace_query_proofs = vec![];
    assert_eq!(part(&w), WitnessPart::TraceQueryProofs);
}

#[test]
fn a_witness_that_fits_the_derived_parameters_is_written() {
    let p = CircuitParameters::derive(&options(), &field(), 1).unwrap();
    let path = |depth: usize| -> Vec<Natural> { (0..depth as u64).map(n).collect() };
    let w = ProofWitness {
        public_inputs: row(&[7]),
        trace_commitment: n(11),
        constraint_commitment: n(12),
        ood_trace_frame: vec![row(&[1, 2]), row(&[3, 4])],
        ood_constraint_evaluations: row(&[5, 6]),
        trace_evaluations: vec![row(&[21, 22]); 2],
        trace_query_proofs: vec![path(9); 2],
        constraint_evaluations: vec![row(&[41, 42]); 2],
        constraint_query_proofs: vec![path(9); 2],
        fri_commitments: row(&[61, 62, 63, 64]),
        fri_layer_queries: vec![vec![row(&[71, 72, 73, 74]); 2]; 3],
        fri_layer_proofs: vec![vec![path(8); 2], vec![path(6); 2], vec![path(4); 2]],
        fri_remainder: path(16),
        pow_nonce: 3,
    };
    assert!(circom_prove(&w, &p, &field(), "sum").is_ok());
}
