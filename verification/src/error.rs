//! Errors reported by the library.

use vstd::prelude::*;

verus! {

/// Why a configuration is rejected.
#[derive(Clone, Copy, Debug, PartialEq, Eq, Structural)]
pub enum ConfigurationFault {
    /// The evaluation domain holds fewer positions than the number of queries asked for.
    DomainTooSmall,
    /// No draw count that the machine can represent meets the security target.
    DrawsOutOfRange,
    /// The folding factor is smaller than two, so that folding never shrinks the domain,
    /// or it is none of those that the proving library supports.
    FoldingFactor,
    /// The initial domain size does not fit in a machine word.
    DomainOverflow,
    /// A domain size met during folding is not a multiple of the folding factor.
    InexactFolding,
    /// A domain size met during folding is not a power of two.
    DomainNotPowerOfTwo,
    /// The trace width is zero or larger than the proving library supports.
    TraceWidth,
    /// The trace length is too short or not a power of two.
    TraceLength,
    /// No transition constraint degree is given, or one of them is zero.
    ConstraintDegrees,
    /// No assertion is declared.
    Assertions,
    /// The number of queries is zero or larger than the proving library supports.
    Queries,
    /// The blowup factor is out of range, not a power of two, or too small for the constraints.
    BlowupFactor,
    /// The grinding factor is larger than the proving library supports.
    GrindingFactor,
    /// The maximum remainder size is out of range or not a power of two.
    RemainderSize,
    /// The evaluation domain is larger than the proving library sizes.
    DomainTooLarge,
    /// A count derived from the configuration does not fit in a machine word.
    CountOverflow,
    /// The modulus of the field has more limbs than the arithmetic accepts.
    Modulus,
    /// The generator of the field is not the canonical representative of an element.
    Generator,
    /// The evaluation domain is larger than the two-adic subgroup of the field.
    DomainExceedsField,
}

/// What is wrong with a proof witness.
#[derive(Clone, Copy, Debug, PartialEq, Eq, Structural)]
pub enum WitnessPart {
    /// The number of public inputs is not that of the circuit.
    PublicInputs,
    /// The out-of-domain trace frame is not two rows as wide as the trace.
    TraceFrame,
    /// The out-of-domain constraint evaluations are not as many as the circuit takes.
    OodConstraintEvaluations,
    /// The trace evaluations are not one row as wide as the trace for each query.
    TraceEvaluations,
    /// The trace paths are not one path as deep as the tree for each query.
    TraceQueryProofs,
    /// The constraint evaluations are not one row of the circuit's width for each query.
    ConstraintEvaluations,
    /// The constraint paths are not one path as deep as the tree for each query.
    ConstraintQueryProofs,
    /// The commitments are not one for each folding round and one for the remainder.
    FriCommitments,
    /// The folded values are not, for each round, one row of the folding factor's width
    /// for each query.
    FriLayerQueries,
    /// The folding paths are not, for each round, one path as deep as the round's tree for
    /// each query.
    FriLayerProofs,
    /// The remainder is not as long as the domain that is left after the last round.
    Remainder,
    /// A number of the witness is not the canonical representative of a field element.
    Element,
}

/// Failure of a library operation.
#[derive(Clone, Debug, PartialEq, Eq)]
pub enum WinterCircomError {
    /// A file that an earlier step produces is absent.
    FileNotFound { file: String, comment: Option<String> },
    /// The configuration cannot be used.
    InvalidConfiguration(ConfigurationFault),
    /// The proof does not fit the circuit that the parameters instantiate.
    InvalidProof(WitnessPart),
}

impl WinterCircomError {
    /// The error names the missing file `file` and carries the hint `comment`.
    pub open spec fn is_missing(self, file: Seq<char>, comment: Seq<char>) -> bool {
        &&& self matches WinterCircomError::FileNotFound { file: f, comment: c }
        &&& f@ == file
        &&& c matches Some(hint)
        &&& hint@ == comment
    }
}

} // verus!
