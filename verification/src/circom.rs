//! The three operations on a circuit: creating it, proving with it, and verifying.
//!
//! Each operation is told which files are there and answers with what is to be written
//! or run; reading, writing and running are the caller's.

use vstd::prelude::*;
use vstd::string::*;
use crate::air::WinterCircomProofOptions;
use crate::error::{ConfigurationFault, WinterCircomError, WitnessPart};
use crate::field::FieldParameters;
use crate::params::{assembly_fault, CircuitParameters};
use crate::source::{generate_circom_main, source_text};
use crate::toolchain::{
    missing, output_dir, output_directory, output_file, output_path, Executable, Invocation,
};
use crate::witness::{lemma_canonical_is_writable, ProofWitness};

verus! {

/// Which of the files needed to verify a Groth16 proof are present in the output directory.
#[derive(Clone, Copy, Debug, PartialEq, Eq, Structural)]
pub struct VerificationFiles {
    pub verification_key: bool,
    pub public_inputs: bool,
    pub groth16_proof: bool,
}

/// Which of the files needed to create a circuit are present.
#[derive(Clone, Copy, Debug, PartialEq, Eq, Structural)]
pub struct CreationFiles {
    /// The transcript of the first phase of the setup, `final.ptau`.
    pub powers_of_tau: bool,
    /// The circuit of the transitions and assertions of the computation.
    pub air_circuit: bool,
}

/// A file to write in the output directory of a circuit.
#[derive(Debug)]
pub struct OutputFile {
    pub directory: String,
    pub path: String,
    pub contents: String,
}

/// A circuit to write: its parameters and its source file.
#[derive(Debug)]
pub struct CircuitFile {
    pub parameters: CircuitParameters,
    pub file: OutputFile,
}

/// The arguments of the Groth16 verification command.
pub open spec fn verify_arguments() -> Seq<Seq<char>> {
    seq!["g16v"@, "verification_key.json"@, "public.json"@, "proof.json"@]
}

/// The first file that is needed for verification and absent, if any.
pub open spec fn first_missing(files: VerificationFiles) -> Option<Seq<char>> {
    if !files.verification_key {
        Some("verification_key.json"@)
    } else if !files.public_inputs {
        Some("public.json"@)
    } else if !files.groth16_proof {
        Some("proof.json"@)
    } else {
        None
    }
}

/// The path of the circuit of the transitions and assertions of the computation `name`.
pub open spec fn air_circuit_path(name: Seq<char>) -> Seq<char> {
    "circuits/air/"@ + name + ".circom"@
}

/// What stops the writing of a witness, if anything does: a part whose shape is not that
/// of the circuit, or else a number that is no canonical representative of an element of
/// the field.
pub open spec fn witness_fault(
    witness: &ProofWitness,
    parameters: &CircuitParameters,
    field: &FieldParameters,
) -> Option<WitnessPart> {
    if witness.shape_fault(parameters) is Some {
        witness.shape_fault(parameters)
    } else if !witness.canonical(field.modulus) {
        Some(WitnessPart::Element)
    } else {
        None
    }
}

fn verification_file(name: &str, file: &str) -> (e: WinterCircomError)
    ensures
        e.is_missing(output_file(name@, file@), "needed for verification"@),
{
    missing(output_path(name, file), "needed for verification")
}

/// Plans the verification of the Groth16 proof of the circuit `circuit_name`.
///
/// The verification key, the public inputs and the proof must all be present in the
/// output directory. They are looked for in that order, and the first one that is absent
/// is reported. When all three are present the result is the verification command.
pub fn circom_verify(circuit_name: &str, files: VerificationFiles) -> (r: Result<
    Invocation,
    WinterCircomError,
>)
    ensures
        match r {
            Ok(run) => {
                &&& first_missing(files) is None
                &&& run.executable == Executable::SnarkJS
                &&& run.directory@ == output_dir(circuit_name@)
                &&& run.arguments.deep_view() == verify_arguments()
            },
            Err(e) => {
                &&& first_missing(files) matches Some(file)
                &&& e.is_missing(output_file(circuit_name@, file), "needed for verification"@)
            },
        },
{
    if !files.verification_key {
        return Err(verification_file(circuit_name, "verification_key.json"));
    }
    if !files.public_inputs {
        return Err(verification_file(circuit_name, "public.json"));
    }
    if !files.groth16_proof {
        return Err(verification_file(circuit_name, "proof.json"));
    }
    let mut arguments: Vec<String> = Vec::new();
    arguments.push(String::from_str("g16v"));
    arguments.push(String::from_str("verification_key.json"));
    arguments.push(String::from_str("public.json"));
    arguments.push(String::from_str("proof.json"));
    assert(arguments.deep_view() =~= verify_arguments());
    Ok(
        Invocation {
            executable: Executable::SnarkJS,
            arguments,
            directory: output_directory(circuit_name),
        },
    )
}

/// Plans the creation of the circuit `circuit_name`: the source file that binds the
/// verification template to the parameters of the computation.
///
/// The setup transcript and the circuit of the computation are looked for first, in that
/// order, and nothing is derived when one of them is absent.
pub fn circom_create(
    proof_options: &WinterCircomProofOptions,
    field: &FieldParameters,
    num_pub_inputs: usize,
    circuit_name: &str,
    files: CreationFiles,
) -> (r: Result<CircuitFile, WinterCircomError>)
    ensures
        match r {
            Ok(circuit) => {
                &&& files.powers_of_tau
                &&& files.air_circuit
                &&& assembly_fault(proof_options, field, num_pub_inputs) is None
                &&& circuit.parameters.describes(proof_options, field, num_pub_inputs)
                &&& circuit.parameters.sized()
                &&& circuit.file.directory@ == output_dir(circuit_name@)
                &&& circuit.file.path@ == output_file(circuit_name@, "verifier.circom"@)
                &&& circuit.file.contents@ == source_text(circuit_name@, &circuit.parameters)
            },
            Err(e) => if !files.powers_of_tau {
                e.is_missing(
                    "final.ptau"@,
                    "required for the generation of circuit-specific keys"@,
                )
            } else if !files.air_circuit {
                e.is_missing(
                    air_circuit_path(circuit_name@),
                    "required for the compilation of Circom code"@,
                )
            } else {
                assembly_fault(proof_options, field, num_pub_inputs) matches Some(fault)
                    && e == WinterCircomError::InvalidConfiguration(fault)
            },
        },
{
    if !files.powers_of_tau {
        return Err(
            missing(
                String::from_str("final.ptau"),
                "required for the generation of circuit-specific keys",
            ),
        );
    }
    if !files.air_circuit {
        let mut path = String::from_str("circuits/air/");
        path.append(circuit_name);
        path.append(".circom");
        return Err(missing(path, "required for the compilation of Circom code"));
    }
    match generate_circom_main(proof_options, field, num_pub_inputs, circuit_name) {
        Ok(main) => Ok(
            CircuitFile {
                parameters: main.parameters,
                file: OutputFile {
                    directory: output_directory(circuit_name),
                    path: output_path(circuit_name, "verifier.circom"),
                    contents: main.contents,
                },
            },
        ),
        Err(e) => Err(e),
    }
}

/// Turns a proof into the input file of the circuit `circuit_name`.
///
/// The shape of the witness is held against the parameters of the circuit first, then
/// its numbers against the modulus of the field: a witness that does not fit the circuit
/// is refused, and nothing is written for it.
pub fn circom_prove(
    witness: &ProofWitness,
    parameters: &CircuitParameters,
    field: &FieldParameters,
    circuit_name: &str,
) -> (r: Result<OutputFile, WinterCircomError>)
    requires
        parameters.sized(),
    ensures
        match r {
            Ok(file) => {
                &&& field.modulus.fits()
                &&& witness_fault(witness, parameters, field) is None
                &&& file.directory@ == output_dir(circuit_name@)
                &&& file.path@ == output_file(circuit_name@, "input.json"@)
                &&& file.contents@ == witness.text()
            },
            Err(e) => if !field.modulus.fits() {
                e == WinterCircomError::InvalidConfiguration(ConfigurationFault::Modulus)
            } else {
                witness_fault(witness, parameters, field) matches Some(part) && e
                    == WinterCircomError::InvalidProof(part)
            },
        },
{
    if !field.modulus.is_operand() {
        return Err(WinterCircomError::InvalidConfiguration(ConfigurationFault::Modulus));
    }
    match witness.check_shape(parameters) {
        Ok(_) => {},
        Err(e) => {
            return Err(e);
        },
    }
    if !witness.check_elements(&field.modulus) {
        return Err(WinterCircomError::InvalidProof(WitnessPart::Element));
    }
    proof {
        lemma_canonical_is_writable(witness, field.modulus);
    }
    match witness.to_json() {
        Some(contents) => Ok(
            OutputFile {
                directory: output_directory(circuit_name),
                path: output_path(circuit_name, "input.json"),
                contents,
            },
        ),
        None => Err(WinterCircomError::InvalidProof(WitnessPart::Element)),
    }
}

} // verus!
