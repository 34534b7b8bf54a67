use winter_circom_prover::{circom_verify, Executable, VerificationFiles, WinterCircomError};

#[test]
fn verify_runs_snarkjs_when_all_files_are_present() {
    let files = VerificationFiles { verification_key: true, public_inputs: true, groth16_proof: true };
    let run = circom_verify("sum", files).unwrap();
    assert_eq!(run.executable, Executable::SnarkJS);
    assert_eq!(run.directory, "target/circom/sum");
    assert_eq!(run.arguments, vec!["g16v", "verification_key.json", "public.json", "proof.json"]);
}

#[test]
fn verify_reports_the_first_missing_file() {
    let files = VerificationFiles { verification_key: true, public_inputs: false, groth16_proof: false };
    assert_eq!(
        circom_verify("sum", files),
        Err(WinterCircomError::FileNotFound {
            file: String::from("target/circom/sum/public.json"),
            comment: Some(String::from("needed for verification")),
        })
    );
}
