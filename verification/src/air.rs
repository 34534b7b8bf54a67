//! The shape of a computation and the options of its proof.

use vstd::prelude::*;
use winterfell::math::fields::f62::BaseElement;
use winterfell::{
    AirContext, FieldExtension, HashFunction, ProofOptions, TraceInfo, TransitionConstraintDegree,
};
use crate::error::{ConfigurationFault, WinterCircomError};
use crate::folding::{is_pow2, is_power_of_two};

verus! {

/// The least power of two that is at least `n`.
pub open spec fn next_pow2(n: nat) -> nat
    decreases n,
{
    if n <= 1 {
        1
    } else {
        2 * next_pow2((n + 1) / 2)
    }
}

/// The least blowup factor that a transition constraint of the given degree asks for.
pub open spec fn min_blowup_factor(degree: nat) -> nat {
    let needed = next_pow2((degree - 1) as nat);
    if needed < 2 {
        2
    } else {
        needed
    }
}

/// The blowup factor of the constraint evaluation domain: the largest of the factors
/// that the transition constraints ask for.
pub open spec fn ce_blowup_factor(degrees: Seq<usize>) -> nat
    decreases degrees.len(),
{
    if degrees.len() == 0 {
        0
    } else {
        let rest = ce_blowup_factor(degrees.drop_last());
        let last = min_blowup_factor(degrees.last() as nat);
        if rest < last {
            last
        } else {
            rest
        }
    }
}

/// Whether every degree is at least one and at most `blowup + 1`.
pub open spec fn degrees_within(degrees: Seq<usize>, blowup: nat) -> bool {
    forall|i: int| 0 <= i < degrees.len() ==> 1 <= #[trigger] degrees[i] <= blowup + 1
}

/// The largest evaluation domain that the proving library sizes here: two to the 39, the
/// order of the two-adic subgroup of the field that the sizes are worked out over. The
/// field of the proof has a limit of its own, which the domain is held against where the
/// parameters are derived.
pub const MAX_DOMAIN_SIZE: u64 = 0x80_0000_0000;

/// The trace shape, the constraints and the proof options of a computation.
#[derive(Clone, Debug, PartialEq, Eq)]
pub struct WinterCircomProofOptions {
    pub trace_length: usize,
    pub trace_width: usize,
    pub transition_constraint_degrees: Vec<usize>,
    pub num_assertions: usize,
    pub num_queries: usize,
    pub blowup_factor: usize,
    pub grinding_factor: u32,
    pub fri_folding_factor: usize,
    pub fri_max_remainder_size: usize,
}

/// What the proving library derives from the shape of a computation.
#[derive(Clone, Copy, Debug, PartialEq, Eq, Structural)]
pub struct AirSizing {
    pub ce_domain_size: usize,
    pub num_transition_constraints: usize,
}

impl WinterCircomProofOptions {
    /// The first reason for which the proving library refuses the options, if there is one.
    pub open spec fn fault(&self) -> Option<ConfigurationFault> {
        if !(1 <= self.trace_width <= 255) {
            Some(ConfigurationFault::TraceWidth)
        } else if !(self.trace_length >= 8 && is_pow2(self.trace_length as nat)) {
            Some(ConfigurationFault::TraceLength)
        } else if !(self.num_assertions >= 1) {
            Some(ConfigurationFault::Assertions)
        } else if !(1 <= self.num_queries <= 128) {
            Some(ConfigurationFault::Queries)
        } else if !(2 <= self.blowup_factor <= 128 && is_pow2(self.blowup_factor as nat)) {
            Some(ConfigurationFault::BlowupFactor)
        } else if !(self.grinding_factor <= 32) {
            Some(ConfigurationFault::GrindingFactor)
        } else if !(self.fri_folding_factor == 4 || self.fri_folding_factor == 8
            || self.fri_folding_factor == 16) {
            Some(ConfigurationFault::FoldingFactor)
        } else if !(32 <= self.fri_max_remainder_size <= 1024 && is_pow2(
            self.fri_max_remainder_size as nat,
        )) {
            Some(ConfigurationFault::RemainderSize)
        } else if !(self.transition_constraint_degrees@.len() >= 1 && degrees_within(
            self.transition_constraint_degrees@,
            self.blowup_factor as nat,
        )) {
            Some(ConfigurationFault::ConstraintDegrees)
        } else if !(self.trace_length * self.blowup_factor <= MAX_DOMAIN_SIZE && self.trace_length
            * self.blowup_factor <= usize::MAX) {
            Some(ConfigurationFault::DomainTooLarge)
        } else {
            None
        }
    }

    /// Checks the options against the limits of the proving library.
    #[verifier::loop_isolation(false)]
    pub fn check(&self) -> (r: Result<(), WinterCircomError>)
        ensures
            match r {
                Ok(_) => self.fault() is None,
                Err(e) => self.fault() matches Some(fault)
                    && e == WinterCircomError::InvalidConfiguration(fault),
            },
    {
        if self.trace_width < 1 || self.trace_width > 255 {
            return Err(WinterCircomError::InvalidConfiguration(ConfigurationFault::TraceWidth));
        }
        if self.trace_length < 8 || !is_power_of_two(self.trace_length) {
            return Err(WinterCircomError::InvalidConfiguration(ConfigurationFault::TraceLength));
        }
        if self.num_assertions < 1 {
            return Err(WinterCircomError::InvalidConfiguration(ConfigurationFault::Assertions));
        }
        if self.num_queries < 1 || self.num_queries > 128 {
            return Err(WinterCircomError::InvalidConfiguration(ConfigurationFault::Queries));
        }
        if self.blowup_factor < 2 || self.blowup_factor > 128 || !is_power_of_two(
            self.blowup_factor,
        ) {
            return Err(WinterCircomError::InvalidConfiguration(ConfigurationFault::BlowupFactor));
        }
        if self.grinding_factor > 32 {
            return Err(WinterCircomError::InvalidConfiguration(ConfigurationFault::GrindingFactor));
        }
        if self.fri_folding_factor != 4 && self.fri_folding_factor != 8 && self.fri_folding_factor
            != 16 {
            return Err(WinterCircomError::InvalidConfiguration(ConfigurationFault::FoldingFactor));
        }
        if self.fri_max_remainder_size < 32 || self.fri_max_remainder_size > 1024
            || !is_power_of_two(self.fri_max_remainder_size) {
            return Err(WinterCircomError::InvalidConfiguration(ConfigurationFault::RemainderSize));
        }
        if self.transition_constraint_degrees.len() < 1 {
            return Err(
                WinterCircomError::InvalidConfiguration(ConfigurationFault::ConstraintDegrees),
            );
        }
        let mut i: usize = 0;
        while i < self.transition_constraint_degrees.len()
            invariant
                i <= self.transition_constraint_degrees@.len(),
                self.blowup_factor <= 128,
                forall|j: int|
                    0 <= j < i ==> 1 <= #[trigger] self.transition_constraint_degrees@[j]
                        <= self.blowup_factor + 1,
            decreases self.transition_constraint_degrees@.len() - i,
        {
            let degree = self.transition_constraint_degrees[i];
            if degree < 1 || degree > self.blowup_factor + 1 {
                assert(!(1 <= self.transition_constraint_degrees@[i as int]
                    <= self.blowup_factor + 1));
                return Err(
                    WinterCircomError::InvalidConfiguration(ConfigurationFault::ConstraintDegrees),
                );
            }
            i += 1;
        }
        let within = match self.trace_length.checked_mul(self.blowup_factor) {
            Some(size) => size as u64 <= MAX_DOMAIN_SIZE,
            None => false,
        };
        if !within {
            return Err(WinterCircomError::InvalidConfiguration(ConfigurationFault::DomainTooLarge));
        }
        Ok(())
    }

    /// The sizes that the proving library derives for the options, read from a
    /// `winterfell::AirContext` made of them.
    ///
    /// `AirContext::new`, `TraceInfo::new`, `ProofOptions::new` and
    /// `TransitionConstraintDegree::new` refuse what `fault` names: a width outside 1 to
    /// 255, a length under 8 or no power of two, no assertion, queries outside 1 to 128,
    /// a blowup factor outside 2 to 128, no power of two or under the factor that a degree
    /// asks for, a grinding factor over 32, a folding factor other than 4, 8 or 16, a
    /// remainder size outside 32 to 1024 or no power of two, no degree or a degree of
    /// zero, and a domain beyond the two-adic subgroup of the field, of order two to the 39
    /// in the 62-bit field used here. The sizes do not depend on the field or on the hash
    /// function. The constraint evaluation domain is the trace length times the largest
    /// `min_blowup_factor` of the degrees, and there is one transition constraint for each
    /// degree.
    #[verifier::external_body]
    pub(crate) fn sizing(&self) -> (r: AirSizing)
        requires
            self.fault() is None,
        ensures
            r.ce_domain_size == self.trace_length * ce_blowup_factor(
                self.transition_constraint_degrees@,
            ),
            r.num_transition_constraints == self.transition_constraint_degrees@.len(),
    {
        let degrees = self.transition_constraint_degrees.iter().map(|d| TransitionConstraintDegree::new(*d)).collect();
        let info = TraceInfo::new(self.trace_width, self.trace_length);
        let options = ProofOptions::new(self.num_queries, self.blowup_factor, self.grinding_factor,
            HashFunction::Blake3_256, FieldExtension::None, self.fri_folding_factor, self.fri_max_remainder_size);
        let context = AirContext::<BaseElement>::new(info, degrees, self.num_assertions, options);
        AirSizing {
            ce_domain_size: context.ce_domain_size(),
            num_transition_constraints: context.num_transition_constraints(),
        }
    }
}

/// The least power of two that is at least `n` is at most any power of two that is.
pub proof fn lemma_next_pow2_within(n: nat, bound: nat)
    requires
        is_pow2(bound),
        n <= bound,
    ensures
        next_pow2(n) <= bound,
    decreases bound,
{
    if n > 1 {
        lemma_next_pow2_within((n + 1) / 2, bound / 2);
    }
}

/// A blowup factor that is a power of two covers the constraints whose degrees are at most
/// one more than it.
pub proof fn lemma_blowup_covers(degrees: Seq<usize>, blowup: nat)
    requires
        is_pow2(blowup),
        blowup >= 2,
        degrees_within(degrees, blowup),
    ensures
        ce_blowup_factor(degrees) <= blowup,
    decreases degrees.len(),
{
    if degrees.len() > 0 {
        let rest = degrees.drop_last();
        assert forall|i: int| 0 <= i < rest.len() implies 1 <= #[trigger] rest[i] <= blowup + 1 by {
            assert(rest[i] == degrees[i]);
        }
        lemma_blowup_covers(rest, blowup);
        let last = degrees[degrees.len() - 1];
        lemma_next_pow2_within((last - 1) as nat, blowup);
    }
}

} // verus!
