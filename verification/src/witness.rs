//! A proof as the witness of the verification circuit.

use vstd::prelude::*;
use vstd::string::*;
use crate::error::{WinterCircomError, WitnessPart};
use crate::field::{
    all_canonical, canonical, cube_canonical, is_canonical, layers_canonical, matrix_canonical,
    rows_canonical, vector_canonical,
};
use crate::folding::folded;
use crate::json::{
    cube_fits, cube_json, cube_text, element_json, element_text, matrix_fits, matrix_json,
    matrix_text, vector_fits, vector_json, vector_text,
};
use crate::natural::Natural;
use crate::params::CircuitParameters;
use crate::text::word_to_decimal;

verus! {

/// The values of a proof, each a field element as its canonical representative, in the
/// order in which the proving library gives them: queries by position, folding rounds
/// from the first. The commitments and the nodes of the paths are field elements too.
#[derive(Clone, Debug, PartialEq, Eq)]
pub struct ProofWitness {
    /// The public inputs of the computation.
    pub public_inputs: Vec<Natural>,
    /// The commitment to the trace.
    pub trace_commitment: Natural,
    /// The commitment to the constraint evaluations.
    pub constraint_commitment: Natural,
    /// The trace at the out-of-domain point and at the next one.
    pub ood_trace_frame: Vec<Vec<Natural>>,
    /// The constraint evaluations at the out-of-domain point.
    pub ood_constraint_evaluations: Vec<Natural>,
    /// For each query, the trace at its position.
    pub trace_evaluations: Vec<Vec<Natural>>,
    /// For each query, the authentication path of the trace at its position.
    pub trace_query_proofs: Vec<Vec<Natural>>,
    /// For each query, the constraint evaluations at its position.
    pub constraint_evaluations: Vec<Vec<Natural>>,
    /// For each query, the authentication path of the constraint evaluations at its position.
    pub constraint_query_proofs: Vec<Vec<Natural>>,
    /// The commitment of each folding round, and that of the remainder.
    pub fri_commitments: Vec<Natural>,
    /// For each folding round and each query, the values that are folded into one.
    pub fri_layer_queries: Vec<Vec<Vec<Natural>>>,
    /// For each folding round and each query, the authentication path of those values.
    pub fri_layer_proofs: Vec<Vec<Vec<Natural>>>,
    /// The coefficients of the remainder.
    pub fri_remainder: Vec<Natural>,
    /// The nonce of the proof of work.
    pub pow_nonce: u64,
}

/// Whether `m` has `rows` rows of `cols` elements each.
pub open spec fn is_matrix(m: Seq<Vec<Natural>>, rows: nat, cols: nat) -> bool {
    &&& m.len() == rows
    &&& forall|i: int| 0 <= i < m.len() ==> (#[trigger] m[i])@.len() == cols
}

/// Whether `c` has `layers` layers of `rows` rows of `cols` elements each.
pub open spec fn is_cube(c: Seq<Vec<Vec<Natural>>>, layers: nat, rows: nat, cols: nat) -> bool {
    &&& c.len() == layers
    &&& forall|l: int| 0 <= l < c.len() ==> is_matrix((#[trigger] c[l])@, rows, cols)
}

/// Whether `c` has one layer for each depth, of `rows` rows of as many elements as the depth.
pub open spec fn is_paths(c: Seq<Vec<Vec<Natural>>>, depths: Seq<u32>, rows: nat) -> bool {
    &&& c.len() == depths.len()
    &&& forall|l: int| 0 <= l < c.len() ==> is_matrix((#[trigger] c[l])@, rows, depths[l] as nat)
}

/// The size of the domain that is left after the last folding round.
pub open spec fn remainder_size(p: &CircuitParameters) -> nat {
    folded(
        (p.trace_length * p.lde_blowup_factor) as nat,
        p.folding_factor as nat,
        p.num_fri_layers as nat,
    )
}

/// Whether `m` has `rows` rows of `cols` elements each.
pub fn has_shape(m: &Vec<Vec<Natural>>, rows: usize, cols: usize) -> (b: bool)
    ensures
        b == is_matrix(m@, rows as nat, cols as nat),
{
    if m.len() != rows {
        return false;
    }
    let mut i: usize = 0;
    while i < m.len()
        invariant
            i <= m@.len(),
            forall|j: int| 0 <= j < i ==> (#[trigger] m@[j])@.len() == cols,
        decreases m@.len() - i,
    {
        if m[i].len() != cols {
            assert(m@[i as int]@.len() != cols);
            return false;
        }
        i += 1;
    }
    true
}

/// Whether `c` has `layers` layers of `rows` rows of `cols` elements each.
pub fn layers_have_shape(c: &Vec<Vec<Vec<Natural>>>, layers: usize, rows: usize, cols: usize) -> (b:
    bool)
    ensures
        b == is_cube(c@, layers as nat, rows as nat, cols as nat),
{
    if c.len() != layers {
        return false;
    }
    let mut l: usize = 0;
    while l < c.len()
        invariant
            l <= c@.len(),
            forall|j: int| 0 <= j < l ==> is_matrix((#[trigger] c@[j])@, rows as nat, cols as nat),
        decreases c@.len() - l,
    {
        if !has_shape(&c[l], rows, cols) {
            assert(!is_matrix(c@[l as int]@, rows as nat, cols as nat));
            return false;
        }
        l += 1;
    }
    true
}

/// Whether `c` has one layer for each depth, of `rows` rows of as many elements as the depth.
pub fn paths_have_shape(c: &Vec<Vec<Vec<Natural>>>, depths: &Vec<u32>, rows: usize) -> (b: bool)
    ensures
        b == is_paths(c@, depths@, rows as nat),
{
    if c.len() != depths.len() {
        return false;
    }
    let mut l: usize = 0;
    while l < c.len()
        invariant
            l <= c@.len(),
            c@.len() == depths@.len(),
            forall|j: int|
                0 <= j < l ==> is_matrix((#[trigger] c@[j])@, rows as nat, depths@[j] as nat),
        decreases c@.len() - l,
    {
        if !has_shape(&c[l], rows, depths[l] as usize) {
            assert(!is_matrix(c@[l as int]@, rows as nat, depths@[l as int] as nat));
            return false;
        }
        l += 1;
    }
    true
}

/// Computes the size of the domain that is left after the last folding round.
pub fn remainder_length(p: &CircuitParameters) -> (size: usize)
    requires
        p.sized(),
    ensures
        size == remainder_size(p),
{
    let mut size: usize = p.trace_length * p.lde_blowup_factor;
    let ghost domain = size as nat;
    let mut i: usize = 0;
    while i < p.num_fri_layers
        invariant
            i <= p.num_fri_layers,
            p.folding_factor >= 2,
            size == folded(domain, p.folding_factor as nat, i as nat),
        decreases p.num_fri_layers - i,
    {
        size = size / p.folding_factor;
        i += 1;
    }
    size
}

/// A member of an object that is not the last: the key, the value and a comma.
pub open spec fn member(key: Seq<char>, value: Seq<char>) -> Seq<char> {
    "\""@ + key + "\":"@ + value + ","@
}

fn push_member(s: &mut String, key: &str, value: &str)
    ensures
        final(s)@ == old(s)@ + member(key@, value@),
{
    s.append("\"");
    s.append(key);
    s.append("\":");
    s.append(value);
    s.append(",");
    assert(s@ =~= old(s)@ + member(key@, value@));
}

impl ProofWitness {
    /// The first part of the witness whose shape is not that of the circuit, if there is one.
    pub open spec fn shape_fault(&self, p: &CircuitParameters) -> Option<WitnessPart> {
        if self.public_inputs@.len() != p.num_public_inputs {
            Some(WitnessPart::PublicInputs)
        } else if !is_matrix(self.ood_trace_frame@, 2, p.trace_width as nat) {
            Some(WitnessPart::TraceFrame)
        } else if self.ood_constraint_evaluations@.len() != p.ce_blowup_factor {
            Some(WitnessPart::OodConstraintEvaluations)
        } else if !is_matrix(self.trace_evaluations@, p.num_queries as nat, p.trace_width as nat) {
            Some(WitnessPart::TraceEvaluations)
        } else if !is_matrix(self.trace_query_proofs@, p.num_queries as nat, p.tree_depth as nat) {
            Some(WitnessPart::TraceQueryProofs)
        } else if !is_matrix(
            self.constraint_evaluations@,
            p.num_queries as nat,
            p.ce_blowup_factor as nat,
        ) {
            Some(WitnessPart::ConstraintEvaluations)
        } else if !is_matrix(
            self.constraint_query_proofs@,
            p.num_queries as nat,
            p.tree_depth as nat,
        ) {
            Some(WitnessPart::ConstraintQueryProofs)
        } else if self.fri_commitments@.len() != p.num_fri_layers + 1 {
            Some(WitnessPart::FriCommitments)
        } else if !is_cube(
            self.fri_layer_queries@,
            p.num_fri_layers as nat,
            p.num_queries as nat,
            p.folding_factor as nat,
        ) {
            Some(WitnessPart::FriLayerQueries)
        } else if !is_paths(self.fri_layer_proofs@, p.fri_tree_depths@, p.num_queries as nat) {
            Some(WitnessPart::FriLayerProofs)
        } else if self.fri_remainder@.len() != remainder_size(p) {
            Some(WitnessPart::Remainder)
        } else {
            None
        }
    }

    /// Whether every field element is small enough to be written.
    pub open spec fn writable(&self) -> bool {
        &&& self.constraint_commitment.fits()
        &&& matrix_fits(self.constraint_evaluations@)
        &&& matrix_fits(self.constraint_query_proofs@)
        &&& vector_fits(self.fri_commitments@)
        &&& cube_fits(self.fri_layer_proofs@)
        &&& cube_fits(self.fri_layer_queries@)
        &&& vector_fits(self.fri_remainder@)
        &&& vector_fits(self.ood_constraint_evaluations@)
        &&& matrix_fits(self.ood_trace_frame@)
        &&& vector_fits(self.public_inputs@)
        &&& self.trace_commitment.fits()
        &&& matrix_fits(self.trace_evaluations@)
        &&& matrix_fits(self.trace_query_proofs@)
    }

    /// Whether every number of the witness is the canonical representative of an element
    /// of the field of `modulus` elements.
    pub open spec fn canonical(&self, modulus: Natural) -> bool {
        &&& canonical(self.constraint_commitment, modulus)
        &&& matrix_canonical(self.constraint_evaluations@, modulus)
        &&& matrix_canonical(self.constraint_query_proofs@, modulus)
        &&& vector_canonical(self.fri_commitments@, modulus)
        &&& cube_canonical(self.fri_layer_proofs@, modulus)
        &&& cube_canonical(self.fri_layer_queries@, modulus)
        &&& vector_canonical(self.fri_remainder@, modulus)
        &&& vector_canonical(self.ood_constraint_evaluations@, modulus)
        &&& matrix_canonical(self.ood_trace_frame@, modulus)
        &&& vector_canonical(self.public_inputs@, modulus)
        &&& canonical(self.trace_commitment, modulus)
        &&& matrix_canonical(self.trace_evaluations@, modulus)
        &&& matrix_canonical(self.trace_query_proofs@, modulus)
    }

    /// Whether every number of the witness is the canonical representative of an element
    /// of the field of `modulus` elements.
    pub fn check_elements(&self, modulus: &Natural) -> (b: bool)
        requires
            modulus.fits(),
        ensures
            b == self.canonical(*modulus),
    {
        is_canonical(&self.constraint_commitment, modulus) && rows_canonical(
            &self.constraint_evaluations,
            modulus,
        ) && rows_canonical(&self.constraint_query_proofs, modulus) && all_canonical(
            &self.fri_commitments,
            modulus,
        ) && layers_canonical(&self.fri_layer_proofs, modulus) && layers_canonical(
            &self.fri_layer_queries,
            modulus,
        ) && all_canonical(&self.fri_remainder, modulus) && all_canonical(
            &self.ood_constraint_evaluations,
            modulus,
        ) && rows_canonical(&self.ood_trace_frame, modulus) && all_canonical(
            &self.public_inputs,
            modulus,
        ) && is_canonical(&self.trace_commitment, modulus) && rows_canonical(
            &self.trace_evaluations,
            modulus,
        ) && rows_canonical(&self.trace_query_proofs, modulus)
    }

    /// The witness as a JSON object: the members by name, every number as decimal text in
    /// double quotes, every array in the order of the witness.
    pub open spec fn text(&self) -> Seq<char> {
        "{"@ + member("constraint_commitment"@, element_text(self.constraint_commitment@)) + member(
            "constraint_evaluations"@,
            matrix_text(self.constraint_evaluations@),
        ) + member("constraint_query_proofs"@, matrix_text(self.constraint_query_proofs@)) + member(
            "fri_commitments"@,
            vector_text(self.fri_commitments@),
        ) + member("fri_layer_proofs"@, cube_text(self.fri_layer_proofs@)) + member(
            "fri_layer_queries"@,
            cube_text(self.fri_layer_queries@),
        ) + member("fri_remainder"@, vector_text(self.fri_remainder@)) + member(
            "ood_constraint_evaluations"@,
            vector_text(self.ood_constraint_evaluations@),
        ) + member("ood_trace_frame"@, matrix_text(self.ood_trace_frame@)) + member(
            "pow_nonce"@,
            element_text(self.pow_nonce as nat),
        ) + member("public_inputs"@, vector_text(self.public_inputs@)) + member(
            "trace_commitment"@,
            element_text(self.trace_commitment@),
        ) + member("trace_evaluations"@, matrix_text(self.trace_evaluations@))
            + "\"trace_query_proofs\":"@ + matrix_text(self.trace_query_proofs@) + "}"@
    }

    /// Holds the shape of the witness against the parameters of the circuit.
    pub fn check_shape(&self, p: &CircuitParameters) -> (r: Result<(), WinterCircomError>)
        requires
            p.sized(),
        ensures
            match r {
                Ok(_) => self.shape_fault(p) is None,
                Err(e) => self.shape_fault(p) matches Some(part) && e
                    == WinterCircomError::InvalidProof(part),
            },
    {
        if self.public_inputs.len() != p.num_public_inputs {
            return Err(WinterCircomError::InvalidProof(WitnessPart::PublicInputs));
        }
        if !has_shape(&self.ood_trace_frame, 2, p.trace_width) {
            return Err(WinterCircomError::InvalidProof(WitnessPart::TraceFrame));
        }
        if self.ood_constraint_evaluations.len() != p.ce_blowup_factor {
            return Err(WinterCircomError::InvalidProof(WitnessPart::OodConstraintEvaluations));
        }
        if !has_shape(&self.trace_evaluations, p.num_queries, p.trace_width) {
            return Err(WinterCircomError::InvalidProof(WitnessPart::TraceEvaluations));
        }
        if !has_shape(&self.trace_query_proofs, p.num_queries, p.tree_depth as usize) {
            return Err(WinterCircomError::InvalidProof(WitnessPart::TraceQueryProofs));
        }
        if !has_shape(&self.constraint_evaluations, p.num_queries, p.ce_blowup_factor) {
            return Err(WinterCircomError::InvalidProof(WitnessPart::ConstraintEvaluations));
        }
        if !has_shape(&self.constraint_query_proofs, p.num_queries, p.tree_depth as usize) {
            return Err(WinterCircomError::InvalidProof(WitnessPart::ConstraintQueryProofs));
        }
        let commitments = self.fri_commitments.len();
        if p.num_fri_layers == usize::MAX || commitments != p.num_fri_layers + 1 {
            return Err(WinterCircomError::InvalidProof(WitnessPart::FriCommitments));
        }
        if !layers_have_shape(
            &self.fri_layer_queries,
            p.num_fri_layers,
            p.num_queries,
            p.folding_factor,
        ) {
            return Err(WinterCircomError::InvalidProof(WitnessPart::FriLayerQueries));
        }
        if !paths_have_shape(&self.fri_layer_proofs, &p.fri_tree_depths, p.num_queries) {
            return Err(WinterCircomError::InvalidProof(WitnessPart::FriLayerProofs));
        }
        if self.fri_remainder.len() != remainder_length(p) {
            return Err(WinterCircomError::InvalidProof(WitnessPart::Remainder));
        }
        Ok(())
    }

    /// Writes the witness as a JSON object, if every field element is small enough to be
    /// written.
    pub fn to_json(&self) -> (r: Option<String>)
        ensures
            r is Some <==> self.writable(),
            r matches Some(s) ==> s@ == self.text(),
    {
        let constraint_commitment = match element_json(&self.constraint_commitment) {
            Some(s) => s,
            None => {
                return None;
            },
        };
        let constraint_evaluations = match matrix_json(&self.constraint_evaluations) {
            Some(s) => s,
            None => {
                return None;
            },
        };
        let constraint_query_proofs = match matrix_json(&self.constraint_query_proofs) {
            Some(s) => s,
            None => {
                return None;
            },
        };
        let fri_commitments = match vector_json(&self.fri_commitments) {
            Some(s) => s,
            None => {
                return None;
            },
        };
        let fri_layer_proofs = match cube_json(&self.fri_layer_proofs) {
            Some(s) => s,
            None => {
                return None;
            },
        };
        let fri_layer_queries = match cube_json(&self.fri_layer_queries) {
            Some(s) => s,
            None => {
                return None;
            },
        };
        let fri_remainder = match vector_json(&self.fri_remainder) {
            Some(s) => s,
            None => {
                return None;
            },
        };
        let ood_constraint_evaluations = match vector_json(&self.ood_constraint_evaluations) {
            Some(s) => s,
            None => {
                return None;
            },
        };
        let ood_trace_frame = match matrix_json(&self.ood_trace_frame) {
            Some(s) => s,
            None => {
                return None;
            },
        };
        let public_inputs = match vector_json(&self.public_inputs) {
            Some(s) => s,
            None => {
                return None;
            },
        };
        let trace_commitment = match element_json(&self.trace_commitment) {
            Some(s) => s,
            None => {
                return None;
            },
        };
        let trace_evaluations = match matrix_json(&self.trace_evaluations) {
            Some(s) => s,
            None => {
                return None;
            },
        };
        let trace_query_proofs = match matrix_json(&self.trace_query_proofs) {
            Some(s) => s,
            None => {
                return None;
            },
        };
        let mut pow_nonce = String::from_str("\"");
        pow_nonce.append(word_to_decimal(self.pow_nonce).as_str());
        pow_nonce.append("\"");
        let mut s = String::from_str("{");
        push_member(&mut s, "constraint_commitment", constraint_commitment.as_str());
        push_member(&mut s, "constraint_evaluations", constraint_evaluations.as_str());
        push_member(&mut s, "constraint_query_proofs", constraint_query_proofs.as_str());
        push_member(&mut s, "fri_commitments", fri_commitments.as_str());
        push_member(&mut s, "fri_layer_proofs", fri_layer_proofs.as_str());
        push_member(&mut s, "fri_layer_queries", fri_layer_queries.as_str());
        push_member(&mut s, "fri_remainder", fri_remainder.as_str());
        push_member(&mut s, "ood_constraint_evaluations", ood_constraint_evaluations.as_str());
        push_member(&mut s, "ood_trace_frame", ood_trace_frame.as_str());
        push_member(&mut s, "pow_nonce", pow_nonce.as_str());
        push_member(&mut s, "public_inputs", public_inputs.as_str());
        push_member(&mut s, "trace_commitment", trace_commitment.as_str());
        push_member(&mut s, "trace_evaluations", trace_evaluations.as_str());
        s.append("\"trace_query_proofs\":");
        s.append(trace_query_proofs.as_str());
        s.append("}");
        Some(s)
    }
}

/// A witness that passes the check has the profile of the circuit: every array is as
/// long as the count that the parameters give for it, for every query and every
/// folding round.
pub proof fn lemma_witness_profile(w: &ProofWitness, p: &CircuitParameters, query: int, layer: int)
    requires
        p.sized(),
        w.shape_fault(p) is None,
        0 <= query < p.num_queries,
        0 <= layer < p.num_fri_layers,
    ensures
        w.public_inputs@.len() == p.num_public_inputs,
        w.ood_trace_frame@.len() == 2,
        w.ood_trace_frame@[0]@.len() == p.trace_width,
        w.ood_trace_frame@[1]@.len() == p.trace_width,
        w.ood_constraint_evaluations@.len() == p.ce_blowup_factor,
        w.trace_evaluations@.len() == p.num_queries,
        w.trace_evaluations@[query]@.len() == p.trace_width,
        w.trace_query_proofs@.len() == p.num_queries,
        w.trace_query_proofs@[query]@.len() == p.tree_depth,
        w.constraint_evaluations@.len() == p.num_queries,
        w.constraint_evaluations@[query]@.len() == p.ce_blowup_factor,
        w.constraint_query_proofs@.len() == p.num_queries,
        w.constraint_query_proofs@[query]@.len() == p.tree_depth,
        w.fri_commitments@.len() == p.num_fri_layers + 1,
        w.fri_layer_queries@.len() == p.num_fri_layers,
        w.fri_layer_queries@[layer]@.len() == p.num_queries,
        w.fri_layer_queries@[layer]@[query]@.len() == p.folding_factor,
        w.fri_layer_proofs@.len() == p.num_fri_layers,
        w.fri_layer_proofs@[layer]@.len() == p.num_queries,
        w.fri_layer_proofs@[layer]@[query]@.len() == p.fri_tree_depths@[layer],
        w.fri_remainder@.len() == remainder_size(p),
{
    assert(is_matrix(w.fri_layer_queries@[layer]@, p.num_queries as nat, p.folding_factor as nat));
    assert(is_matrix(
        w.fri_layer_proofs@[layer]@,
        p.num_queries as nat,
        p.fri_tree_depths@[layer] as nat,
    ));
}

/// Canonical representatives are small enough to be written.
pub proof fn lemma_canonical_is_writable(w: &ProofWitness, modulus: Natural)
    requires
        w.canonical(modulus),
    ensures
        w.writable(),
{
    lemma_matrix(w.constraint_evaluations@, modulus);
    lemma_matrix(w.constraint_query_proofs@, modulus);
    lemma_cube(w.fri_layer_proofs@, modulus);
    lemma_cube(w.fri_layer_queries@, modulus);
    lemma_matrix(w.ood_trace_frame@, modulus);
    lemma_matrix(w.trace_evaluations@, modulus);
    lemma_matrix(w.trace_query_proofs@, modulus);
}

proof fn lemma_matrix(m: Seq<Vec<Natural>>, modulus: Natural)
    requires
        matrix_canonical(m, modulus),
    ensures
        matrix_fits(m),
{
    assert forall|i: int| 0 <= i < m.len() implies vector_fits((#[trigger] m[i])@) by {
        assert(vector_canonical(m[i]@, modulus));
    }
}

proof fn lemma_cube(c: Seq<Vec<Vec<Natural>>>, modulus: Natural)
    requires
        cube_canonical(c, modulus),
    ensures
        cube_fits(c),
{
    assert forall|i: int| 0 <= i < c.len() implies matrix_fits((#[trigger] c[i])@) by {
        lemma_matrix(c[i]@, modulus);
    }
}

} // verus!
