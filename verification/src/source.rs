//! The source file that instantiates the verification circuit.

use vstd::prelude::*;
use vstd::string::*;
use crate::air::WinterCircomProofOptions;
use crate::error::WinterCircomError;
use crate::draws::meets_bound;
use crate::folding::depths;
use crate::field::FieldParameters;
use crate::params::{assembly_fault, CircuitParameters, SECURITY_BITS};
use crate::text::{decimal, natural_to_decimal, word_to_decimal};

verus! {

/// The depths, separated by a comma and a space.
pub open spec fn joined(depths: Seq<u32>) -> Seq<char>
    decreases depths.len(),
{
    if depths.len() == 0 {
        Seq::empty()
    } else if depths.len() == 1 {
        decimal(depths[0] as nat)
    } else {
        joined(depths.drop_last()) + ", "@ + decimal(depths.last() as nat)
    }
}

/// The depths as a list in square brackets. The circuit template takes no empty list:
/// where there is no folding round the list holds a single zero.
pub open spec fn list_text(depths: Seq<u32>) -> Seq<char> {
    if depths.len() == 0 {
        "[0]"@
    } else {
        "["@ + joined(depths) + "]"@
    }
}

/// One argument of the template with its name in a comment, up to the indentation of
/// the next one.
pub open spec fn line(value: Seq<char>, name: Seq<char>) -> Seq<char> {
    value + ", // "@ + name + "\n    "@
}

/// The arguments of the template, one on each line, in the order of the template.
pub open spec fn arguments_text(p: &CircuitParameters) -> Seq<char> {
    Seq::<char>::empty() + line(decimal(p.addicity as nat), "addicity"@) + line(
        decimal(p.ce_blowup_factor as nat),
        "ce_blowup_factor"@,
    ) + line(decimal(p.domain_offset@), "domain_offset"@) + line(
        decimal(p.folding_factor as nat),
        "folding_factor"@,
    ) + line(list_text(p.fri_tree_depths@), "fri_tree_depth"@) + line(
        decimal(p.grinding_factor as nat),
        "grinding_factor"@,
    ) + line(decimal(p.lde_blowup_factor as nat), "lde_blowup_factor"@) + line(
        decimal(p.num_assertions as nat),
        "num_assertions"@,
    ) + line(decimal(p.num_draws as nat), "num_draws"@) + line(
        decimal(p.num_fri_layers as nat),
        "num_fri_layers"@,
    ) + line(decimal(p.num_pub_coin_seed as nat), "num_pub_coin_seed"@) + line(
        decimal(p.num_public_inputs as nat),
        "num_public_inputs"@,
    ) + line(decimal(p.num_queries as nat), "num_queries"@) + line(
        decimal(p.num_transition_constraints as nat),
        "num_transition_constraints"@,
    ) + line(decimal(p.trace_length as nat), "trace_length"@) + line(
        decimal(p.trace_width as nat),
        "trace_width"@,
    ) + decimal(p.tree_depth as nat) + " // tree_depth"@
}

/// The text of the source file for the circuit `name` with the parameters `p`.
pub open spec fn source_text(name: Seq<char>, p: &CircuitParameters) -> Seq<char> {
    "pragma circom 2.0.0;\n\n"@ + inclusion("../../../circuits/verify.circom"@) + inclusion(
        "../../../circuits/air/"@ + name + ".circom"@,
    ) + "\ncomponent main {public [ood_frame_constraint_evaluation, ood_trace_frame]} = Verify(\n    "@
        + arguments_text(p) + "\n);\n"@
}

/// The line that brings the file at `path` into the circuit.
pub open spec fn inclusion(path: Seq<char>) -> Seq<char> {
    "include \""@ + path + "\";\n"@
}

fn push_line(s: &mut String, value: &str, name: &str)
    ensures
        final(s)@ == old(s)@ + line(value@, name@),
{
    s.append(value);
    s.append(", // ");
    s.append(name);
    s.append("\n    ");
    assert(s@ =~= old(s)@ + line(value@, name@));
}

fn push_inclusion(s: &mut String, path: &str)
    ensures
        final(s)@ == old(s)@ + inclusion(path@),
{
    s.append("include \"");
    s.append(path);
    s.append("\";\n");
    assert(s@ =~= old(s)@ + inclusion(path@));
}

/// Writes the depths as a list in square brackets.
pub fn depths_text(depths: &Vec<u32>) -> (s: String)
    ensures
        s@ == list_text(depths@),
{
    if depths.len() == 0 {
        return String::from_str("[0]");
    }
    let mut s = String::from_str("[");
    let first = word_to_decimal(depths[0] as u64);
    s.append(first.as_str());
    assert(depths@.take(1) =~= seq![depths@[0]]);
    let mut i: usize = 1;
    while i < depths.len()
        invariant
            1 <= i <= depths@.len(),
            s@ == "["@ + joined(depths@.take(i as int)),
        decreases depths@.len() - i,
    {
        let next = word_to_decimal(depths[i] as u64);
        s.append(", ");
        s.append(next.as_str());
        proof {
            let upto = depths@.take(i + 1);
            assert(upto.drop_last() =~= depths@.take(i as int));
            assert(upto.last() == depths@[i as int]);
            assert(s@ =~= "["@ + joined(upto));
        }
        i += 1;
    }
    assert(depths@.take(i as int) =~= depths@);
    s.append("]");
    s
}

impl CircuitParameters {
    /// Writes the arguments of the template, one on each line.
    pub fn arguments(&self) -> (s: String)
        requires
            self.domain_offset.fits(),
        ensures
            s@ == arguments_text(self),
    {
        let mut s = String::new();
        push_line(&mut s, word_to_decimal(self.addicity as u64).as_str(), "addicity");
        push_line(&mut s, word_to_decimal(self.ce_blowup_factor as u64).as_str(), "ce_blowup_factor");
        push_line(&mut s, natural_to_decimal(&self.domain_offset).as_str(), "domain_offset");
        push_line(&mut s, word_to_decimal(self.folding_factor as u64).as_str(), "folding_factor");
        push_line(&mut s, depths_text(&self.fri_tree_depths).as_str(), "fri_tree_depth");
        push_line(&mut s, word_to_decimal(self.grinding_factor as u64).as_str(), "grinding_factor");
        push_line(&mut s, word_to_decimal(self.lde_blowup_factor as u64).as_str(), "lde_blowup_factor");
        push_line(&mut s, word_to_decimal(self.num_assertions as u64).as_str(), "num_assertions");
        push_line(&mut s, word_to_decimal(self.num_draws as u64).as_str(), "num_draws");
        push_line(&mut s, word_to_decimal(self.num_fri_layers as u64).as_str(), "num_fri_layers");
        push_line(&mut s, word_to_decimal(self.num_pub_coin_seed as u64).as_str(), "num_pub_coin_seed");
        push_line(&mut s, word_to_decimal(self.num_public_inputs as u64).as_str(), "num_public_inputs");
        push_line(&mut s, word_to_decimal(self.num_queries as u64).as_str(), "num_queries");
        push_line(
            &mut s,
            word_to_decimal(self.num_transition_constraints as u64).as_str(),
            "num_transition_constraints",
        );
        push_line(&mut s, word_to_decimal(self.trace_length as u64).as_str(), "trace_length");
        push_line(&mut s, word_to_decimal(self.trace_width as u64).as_str(), "trace_width");
        s.append(word_to_decimal(self.tree_depth as u64).as_str());
        s.append(" // tree_depth");
        s
    }

    /// Writes the source file that instantiates the circuit `circuit_name`.
    pub fn source(&self, circuit_name: &str) -> (s: String)
        requires
            self.domain_offset.fits(),
        ensures
            s@ == source_text(circuit_name@, self),
    {
        let mut path = String::from_str("../../../circuits/air/");
        path.append(circuit_name);
        path.append(".circom");
        let mut s = String::from_str("pragma circom 2.0.0;\n\n");
        push_inclusion(&mut s, "../../../circuits/verify.circom");
        push_inclusion(&mut s, path.as_str());
        s.append(
            "\ncomponent main {public [ood_frame_constraint_evaluation, ood_trace_frame]} = Verify(\n    ",
        );
        s.append(self.arguments().as_str());
        s.append("\n);\n");
        s
    }
}

/// The parameters of a circuit and the source file that instantiates it.
#[derive(Debug)]
pub struct CircuitSource {
    pub parameters: CircuitParameters,
    pub contents: String,
}

/// Derives the parameters of the circuit `circuit_name` and writes the source file that
/// binds the verification template to them.
pub fn generate_circom_main(
    proof_options: &WinterCircomProofOptions,
    field: &FieldParameters,
    num_pub_inputs: usize,
    circuit_name: &str,
) -> (r: Result<CircuitSource, WinterCircomError>)
    ensures
        match r {
            Ok(main) => {
                &&& assembly_fault(proof_options, field, num_pub_inputs) is None
                &&& main.parameters.describes(proof_options, field, num_pub_inputs)
                &&& main.parameters.sized()
                &&& main.contents@ == source_text(circuit_name@, &main.parameters)
            },
            Err(e) => assembly_fault(proof_options, field, num_pub_inputs) matches Some(fault)
                && e == WinterCircomError::InvalidConfiguration(fault),
        },
{
    let parameters = match CircuitParameters::derive(proof_options, field, num_pub_inputs) {
        Ok(p) => p,
        Err(e) => {
            return Err(e);
        },
    };
    let contents = parameters.source(circuit_name);
    Ok(CircuitSource { parameters, contents })
}

/// The source file is a function of the circuit's name, the options, the field and the
/// number of public inputs: any two sets of parameters that describe the same inputs
/// give the same text.
pub proof fn lemma_source_is_determined(
    options: &WinterCircomProofOptions,
    field: &FieldParameters,
    num_pub_inputs: usize,
    name: Seq<char>,
    first: &CircuitParameters,
    second: &CircuitParameters,
)
    requires
        first.describes(options, field, num_pub_inputs),
        second.describes(options, field, num_pub_inputs),
    ensures
        first.num_draws == second.num_draws,
        first.fri_tree_depths@ == second.fri_tree_depths@,
        arguments_text(first) == arguments_text(second),
        source_text(name, first) == source_text(name, second),
{
    let a = first.fri_tree_depths@;
    let b = second.fri_tree_depths@;
    assert(depths(a).len() == depths(b).len());
    assert forall|i: int| 0 <= i < a.len() implies a[i] == b[i] by {
        assert(depths(a)[i] == depths(b)[i]);
    }
    assert(a =~= b);
    let q = options.num_queries as nat;
    let d = (options.trace_length * options.fri_folding_factor) as nat;
    let s = SECURITY_BITS as nat;
    if first.num_draws < second.num_draws {
        assert(meets_bound(q, d, s, first.num_draws as nat));
    }
    if second.num_draws < first.num_draws {
        assert(meets_bound(q, d, s, second.num_draws as nat));
    }
}

} // verus!
