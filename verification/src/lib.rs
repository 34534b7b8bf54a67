//! Parameters and witnesses for a circuit that verifies a STARK proof inside a Groth16 proof.

pub mod air;
pub mod circom;
pub mod draws;
pub mod error;
pub mod field;
pub mod folding;
pub mod json;
pub mod natural;
pub mod params;
pub mod positions;
pub mod source;
pub mod text;
pub mod toolchain;
pub mod witness;

pub use air::{AirSizing, WinterCircomProofOptions};
pub use circom::{
    circom_create, circom_prove, circom_verify, CircuitFile, CreationFiles, OutputFile,
    VerificationFiles,
};
pub use draws::{bound_met, number_of_draws, step, Memo};
pub use error::{ConfigurationFault, WinterCircomError, WitnessPart};
pub use folding::{exact_log2, folding_schedule, is_power_of_two};
pub use natural::Natural;
pub use field::{all_canonical, is_canonical, FieldParameters};
pub use params::CircuitParameters;
pub use positions::{fold_positions, position_index, query_rows};
pub use source::{depths_text, generate_circom_main, CircuitSource};
pub use text::{natural_decimal, word_to_decimal};
pub use toolchain::{Executable, Invocation};
pub use witness::ProofWitness;
