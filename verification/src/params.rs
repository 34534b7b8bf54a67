//! The parameters that instantiate the verification circuit, and their text.

use vstd::prelude::*;
use crate::air::{ce_blowup_factor, lemma_blowup_covers, WinterCircomProofOptions};
use crate::draws::{draw_limit, meets_bound, number_of_draws};
use crate::error::{ConfigurationFault, WinterCircomError};
use crate::field::FieldParameters;
use crate::folding::{
    binary_logarithm, depths, exact_log2, folded, folding_schedule, is_pow2,
    lemma_folded_is_quotient, lemma_log2_folds, lemma_log2_monotone, lemma_pow2_folds,
    lemma_pow2_product, lemma_schedule_entry, lemma_schedule_length, log2, schedule,
    schedule_fault,
};
use crate::natural::power;
use crate::natural::Natural;

verus! {

/// The soundness, in bits, that the number of draws is chosen for.
pub const SECURITY_BITS: u32 = 128;

/// The number of field elements that the serialized context adds to the public inputs
/// in the seed of the public coin.
pub const CONTEXT_ELEMENTS: usize = 2;

/// The parameters of the verification circuit, in the order in which the circuit
/// template takes them.
#[derive(Debug)]
pub struct CircuitParameters {
    pub addicity: u32,
    pub ce_blowup_factor: usize,
    pub domain_offset: Natural,
    pub folding_factor: usize,
    pub fri_tree_depths: Vec<u32>,
    pub grinding_factor: u32,
    pub lde_blowup_factor: usize,
    pub num_assertions: usize,
    pub num_draws: u32,
    pub num_fri_layers: usize,
    pub num_pub_coin_seed: usize,
    pub num_public_inputs: usize,
    pub num_queries: usize,
    pub num_transition_constraints: usize,
    pub trace_length: usize,
    pub trace_width: usize,
    pub tree_depth: u32,
}

/// Whether `n` is the least number of draws that meets the bound.
pub open spec fn is_least_draws(q: nat, d: nat, security: nat, n: nat) -> bool {
    &&& meets_bound(q, d, security, n)
    &&& forall|m: nat| m < n ==> !meets_bound(q, d, security, m)
}

/// Why no number of draws is found, if none is.
pub open spec fn draws_fault(q: nat, d: nat, security: nat) -> Option<ConfigurationFault> {
    if d < q {
        Some(ConfigurationFault::DomainTooSmall)
    } else if forall|m: nat| m <= draw_limit() ==> !meets_bound(q, d, security, m) {
        Some(ConfigurationFault::DrawsOutOfRange)
    } else {
        None
    }
}

/// The first reason for which no parameters are derived from the options, if there is one.
pub open spec fn assembly_fault(
    options: &WinterCircomProofOptions,
    field: &FieldParameters,
    num_pub_inputs: usize,
) -> Option<ConfigurationFault> {
    let folds = schedule_fault(
        options.trace_length as nat,
        options.blowup_factor as nat,
        options.fri_folding_factor as nat,
        options.fri_max_remainder_size as nat,
    );
    let query_domain = options.trace_length * options.fri_folding_factor;
    let draws = draws_fault(options.num_queries as nat, query_domain as nat, SECURITY_BITS as nat);
    if field.fault() is Some {
        field.fault()
    } else if options.fault() is Some {
        options.fault()
    } else if log2((options.trace_length * options.blowup_factor) as nat) > field.two_adicity {
        Some(ConfigurationFault::DomainExceedsField)
    } else if folds is Some {
        folds
    } else if query_domain > usize::MAX {
        Some(ConfigurationFault::CountOverflow)
    } else if !is_pow2(query_domain as nat) {
        Some(ConfigurationFault::DomainNotPowerOfTwo)
    } else if draws is Some {
        draws
    } else if num_pub_inputs + CONTEXT_ELEMENTS > usize::MAX {
        Some(ConfigurationFault::CountOverflow)
    } else {
        None
    }
}

impl CircuitParameters {
    /// The counts are consistent: folding shrinks the domain, there is one depth for each
    /// folding round, and the evaluation domain fits in a machine word.
    pub open spec fn sized(&self) -> bool {
        &&& self.folding_factor >= 2
        &&& self.num_fri_layers == self.fri_tree_depths@.len()
        &&& self.trace_length * self.lde_blowup_factor <= usize::MAX
    }

    /// The parameters are those of the options, the field and the number of public inputs.
    pub open spec fn describes(
        &self,
        options: &WinterCircomProofOptions,
        field: &FieldParameters,
        num_pub_inputs: usize,
    ) -> bool {
        &&& self.addicity == field.two_adicity
        &&& self.ce_blowup_factor == ce_blowup_factor(options.transition_constraint_degrees@)
        &&& self.domain_offset@ == field.generator@
        &&& self.domain_offset.len() == field.generator.len()
        &&& self.folding_factor == options.fri_folding_factor
        &&& depths(self.fri_tree_depths@) == schedule(
            (options.trace_length * options.blowup_factor) as nat,
            options.fri_folding_factor as nat,
            options.fri_max_remainder_size as nat,
        )
        &&& self.grinding_factor == options.grinding_factor
        &&& self.lde_blowup_factor == options.blowup_factor
        &&& self.num_assertions == options.num_assertions
        &&& is_least_draws(
            options.num_queries as nat,
            (options.trace_length * options.fri_folding_factor) as nat,
            SECURITY_BITS as nat,
            self.num_draws as nat,
        )
        &&& self.num_fri_layers == self.fri_tree_depths@.len()
        &&& self.num_pub_coin_seed == num_pub_inputs + CONTEXT_ELEMENTS
        &&& self.num_public_inputs == num_pub_inputs
        &&& self.num_queries == options.num_queries
        &&& self.num_transition_constraints == options.transition_constraint_degrees@.len()
        &&& self.trace_length == options.trace_length
        &&& self.trace_width == options.trace_width
        &&& self.tree_depth == log2((options.trace_length * options.fri_folding_factor) as nat)
    }

    /// Derives the parameters of the circuit that verifies proofs made with `options`
    /// over the field `field`, for a computation with `num_pub_inputs` public inputs.
    pub fn derive(
        options: &WinterCircomProofOptions,
        field: &FieldParameters,
        num_pub_inputs: usize,
    ) -> (r: Result<CircuitParameters, WinterCircomError>)
        ensures
            match r {
                Ok(p) => assembly_fault(options, field, num_pub_inputs) is None && p.describes(
                    options,
                    field,
                    num_pub_inputs,
                ) && p.sized(),
                Err(e) => assembly_fault(options, field, num_pub_inputs) matches Some(fault)
                    && e == WinterCircomError::InvalidConfiguration(fault),
            },
    {
        match field.check() {
            Ok(_) => {},
            Err(e) => {
                return Err(e);
            },
        }
        match options.check() {
            Ok(_) => {},
            Err(e) => {
                return Err(e);
            },
        }
        proof {
            lemma_pow2_product(options.trace_length as nat, options.blowup_factor as nat);
        }
        if binary_logarithm(options.trace_length * options.blowup_factor) > field.two_adicity {
            return Err(
                WinterCircomError::InvalidConfiguration(ConfigurationFault::DomainExceedsField),
            );
        }
        let fri_tree_depths = match folding_schedule(
            options.trace_length,
            options.blowup_factor,
            options.fri_folding_factor,
            options.fri_max_remainder_size,
        ) {
            Ok(v) => v,
            Err(e) => {
                return Err(e);
            },
        };
        let sizing = options.sizing();
        let ce_blowup = sizing.ce_domain_size / options.trace_length;
        proof {
            let t = options.trace_length as int;
            let c = ce_blowup_factor(options.transition_constraint_degrees@) as int;
            assert((t * c) / t == c) by (nonlinear_arith)
                requires
                    t > 0,
            ;
        }
        let query_domain = match options.trace_length.checked_mul(options.fri_folding_factor) {
            Some(size) => size,
            None => {
                return Err(
                    WinterCircomError::InvalidConfiguration(ConfigurationFault::CountOverflow),
                );
            },
        };
        let tree_depth = match exact_log2(query_domain) {
            Some(l) => l,
            None => {
                return Err(
                    WinterCircomError::InvalidConfiguration(
                        ConfigurationFault::DomainNotPowerOfTwo,
                    ),
                );
            },
        };
        let num_draws = match number_of_draws(
            options.num_queries as u64,
            query_domain as u64,
            SECURITY_BITS,
        ) {
            Ok(n) => n,
            Err(e) => {
                return Err(e);
            },
        };
        let num_pub_coin_seed = match num_pub_inputs.checked_add(CONTEXT_ELEMENTS) {
            Some(n) => n,
            None => {
                return Err(
                    WinterCircomError::InvalidConfiguration(ConfigurationFault::CountOverflow),
                );
            },
        };
        let num_fri_layers = fri_tree_depths.len();
        Ok(
            CircuitParameters {
                addicity: field.two_adicity,
                ce_blowup_factor: ce_blowup,
                domain_offset: field.generator.duplicate(),
                folding_factor: options.fri_folding_factor,
                fri_tree_depths,
                grinding_factor: options.grinding_factor,
                lde_blowup_factor: options.blowup_factor,
                num_assertions: options.num_assertions,
                num_draws,
                num_fri_layers,
                num_pub_coin_seed,
                num_public_inputs: num_pub_inputs,
                num_queries: options.num_queries,
                num_transition_constraints: sizing.num_transition_constraints,
                trace_length: options.trace_length,
                trace_width: options.trace_width,
                tree_depth,
            },
        )
    }
}

/// Options within the limits of the proving library always fold without a fault, and
/// the domain that the queries are drawn from is a power of two: parameters are derived
/// from them whenever the field holds the evaluation domain, a number of draws is found
/// and the counts fit in a machine word.
pub proof fn lemma_checked_options_derive(
    options: &WinterCircomProofOptions,
    field: &FieldParameters,
    num_pub_inputs: usize,
)
    requires
        options.fault() is None,
        field.fault() is None,
    ensures
        schedule_fault(
            options.trace_length as nat,
            options.blowup_factor as nat,
            options.fri_folding_factor as nat,
            options.fri_max_remainder_size as nat,
        ) is None,
        is_pow2((options.trace_length * options.fri_folding_factor) as nat),
        ce_blowup_factor(options.transition_constraint_degrees@) <= options.blowup_factor,
        assembly_fault(options, field, num_pub_inputs) is None <==> {
            &&& log2((options.trace_length * options.blowup_factor) as nat) <= field.two_adicity
            &&& options.trace_length * options.fri_folding_factor <= usize::MAX
            &&& draws_fault(
                options.num_queries as nat,
                (options.trace_length * options.fri_folding_factor) as nat,
                SECURITY_BITS as nat,
            ) is None
            &&& num_pub_inputs + CONTEXT_ELEMENTS <= usize::MAX
        },
{
    let length = options.trace_length as nat;
    let blowup = options.blowup_factor as nat;
    let folding = options.fri_folding_factor as nat;
    lemma_pow2_product(length, blowup);
    lemma_pow2_folds(length * blowup, folding, options.fri_max_remainder_size as nat);
    assert(is_pow2(folding)) by {
        reveal_with_fuel(is_pow2, 5);
    }
    lemma_pow2_product(length, folding);
    lemma_blowup_covers(options.transition_constraint_degrees@, blowup);
}

/// Parameters that describe options count the folding rounds and list their depths: the
/// number of rounds is the least number of divisions by the folding factor that brings
/// the evaluation domain within the remainder bound, and the depth of a round is the
/// logarithm of the domain after its division. The depths fall from round to round, and
/// the last one is at most the logarithm of the bound.
pub proof fn lemma_described_rounds(
    options: &WinterCircomProofOptions,
    field: &FieldParameters,
    num_pub_inputs: usize,
    p: &CircuitParameters,
    round: nat,
)
    requires
        p.describes(options, field, num_pub_inputs),
        options.fri_folding_factor >= 2,
        options.fri_max_remainder_size >= 1,
        round < p.num_fri_layers,
    ensures
        p.fri_tree_depths@.len() == p.num_fri_layers,
        folded(
            (options.trace_length * options.blowup_factor) as nat,
            options.fri_folding_factor as nat,
            p.num_fri_layers as nat,
        ) <= options.fri_max_remainder_size,
        folded(
            (options.trace_length * options.blowup_factor) as nat,
            options.fri_folding_factor as nat,
            round,
        ) > options.fri_max_remainder_size,
        p.fri_tree_depths@[round as int] == log2(
            (options.trace_length * options.blowup_factor) as nat / power(
                options.fri_folding_factor as nat,
                round + 1,
            ),
        ),
        round + 1 < p.num_fri_layers ==> p.fri_tree_depths@[round as int + 1]
            < p.fri_tree_depths@[round as int],
        round + 1 == p.num_fri_layers ==> p.fri_tree_depths@[round as int] <= log2(
            options.fri_max_remainder_size as nat,
        ),
{
    let domain = (options.trace_length * options.blowup_factor) as nat;
    let folding = options.fri_folding_factor as nat;
    let bound = options.fri_max_remainder_size as nat;
    let rounds = schedule(domain, folding, bound);
    assert(depths(p.fri_tree_depths@).len() == p.fri_tree_depths@.len());
    assert(depths(p.fri_tree_depths@)[round as int] == p.fri_tree_depths@[round as int]);
    lemma_schedule_length(domain, folding, bound);
    lemma_schedule_entry(domain, folding, bound, round);
    lemma_folded_is_quotient(domain, folding, round + 1);
    if round + 1 < p.num_fri_layers {
        assert(depths(p.fri_tree_depths@)[round as int + 1] == p.fri_tree_depths@[round as int + 1]);
        lemma_schedule_entry(domain, folding, bound, round + 1);
        assert(folded(domain, folding, round + 2) == folded(domain, folding, round + 1) / folding);
        lemma_log2_folds(folded(domain, folding, round + 1), folding);
    } else {
        lemma_log2_monotone(folded(domain, folding, round + 1), bound);
    }
}

} // verus!
