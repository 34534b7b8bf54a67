//! Field elements and arrays of them as JSON text.

use vstd::prelude::*;
use vstd::string::*;
use crate::natural::Natural;
use crate::text::{decimal, natural_decimal};

verus! {

/// The text of a field element: its decimal text in double quotes.
pub open spec fn element_text(n: nat) -> Seq<char> {
    "\""@ + decimal(n) + "\""@
}

/// The items, separated by commas.
pub open spec fn comma_joined(items: Seq<Seq<char>>) -> Seq<char>
    decreases items.len(),
{
    if items.len() == 0 {
        Seq::empty()
    } else if items.len() == 1 {
        items[0]
    } else {
        comma_joined(items.drop_last()) + ","@ + items.last()
    }
}

/// The items as an array.
pub open spec fn array_text(items: Seq<Seq<char>>) -> Seq<char> {
    "["@ + comma_joined(items) + "]"@
}

/// The texts that the strings hold.
pub open spec fn texts(items: Seq<String>) -> Seq<Seq<char>> {
    items.map_values(|s: String| s@)
}

/// Whether every element is small enough to be written.
pub open spec fn vector_fits(v: Seq<Natural>) -> bool {
    forall|i: int| 0 <= i < v.len() ==> (#[trigger] v[i]).fits()
}

/// Whether every element of every row is small enough to be written.
pub open spec fn matrix_fits(m: Seq<Vec<Natural>>) -> bool {
    forall|i: int| 0 <= i < m.len() ==> vector_fits((#[trigger] m[i])@)
}

/// Whether every element of every layer is small enough to be written.
pub open spec fn cube_fits(c: Seq<Vec<Vec<Natural>>>) -> bool {
    forall|i: int| 0 <= i < c.len() ==> matrix_fits((#[trigger] c[i])@)
}

/// The text of a vector of field elements, in their order.
pub open spec fn vector_text(v: Seq<Natural>) -> Seq<char> {
    array_text(v.map_values(|n: Natural| element_text(n@)))
}

/// The text of a matrix of field elements: the array of its rows, in their order.
pub open spec fn matrix_text(m: Seq<Vec<Natural>>) -> Seq<char> {
    array_text(m.map_values(|row: Vec<Natural>| vector_text(row@)))
}

/// The text of layers of matrices of field elements: the array of the layers, in their order.
pub open spec fn cube_text(c: Seq<Vec<Vec<Natural>>>) -> Seq<char> {
    array_text(c.map_values(|layer: Vec<Vec<Natural>>| matrix_text(layer@)))
}

/// Writes a field element, if it is small enough to be written.
pub fn element_json(n: &Natural) -> (r: Option<String>)
    ensures
        r is Some <==> n.fits(),
        r matches Some(s) ==> s@ == element_text(n@),
{
    match natural_decimal(n) {
        Some(digits) => {
            let mut s = String::from_str("\"");
            s.append(digits.as_str());
            s.append("\"");
            Some(s)
        },
        None => None,
    }
}

/// Writes the items as an array.
pub fn array_json(items: &Vec<String>) -> (s: String)
    ensures
        s@ == array_text(texts(items@)),
{
    let mut s = String::from_str("[");
    let ghost all = texts(items@);
    let mut i: usize = 0;
    while i < items.len()
        invariant
            i <= items@.len(),
            all == texts(items@),
            s@ == "["@ + comma_joined(all.take(i as int)),
        decreases items@.len() - i,
    {
        if i > 0 {
            s.append(",");
        }
        s.append(items[i].as_str());
        proof {
            let upto = all.take(i + 1);
            assert(upto.drop_last() =~= all.take(i as int));
            assert(upto.last() == items@[i as int]@);
            if i == 0 {
                assert(all.take(0).len() == 0);
                assert(s@ =~= "["@ + upto[0]);
            } else {
                assert(s@ =~= "["@ + (comma_joined(upto.drop_last()) + ","@ + upto.last()));
            }
        }
        i += 1;
    }
    assert(all.take(i as int) =~= all);
    s.append("]");
    s
}

/// Writes a vector of field elements, if each is small enough to be written.
pub fn vector_json(v: &Vec<Natural>) -> (r: Option<String>)
    ensures
        r is Some <==> vector_fits(v@),
        r matches Some(s) ==> s@ == vector_text(v@),
{
    let mut items: Vec<String> = Vec::new();
    let mut i: usize = 0;
    while i < v.len()
        invariant
            i <= v@.len(),
            items@.len() == i,
            forall|j: int| 0 <= j < i ==> (#[trigger] v@[j]).fits(),
            forall|j: int| 0 <= j < i ==> (#[trigger] items@[j])@ == element_text(v@[j]@),
        decreases v@.len() - i,
    {
        match element_json(&v[i]) {
            Some(s) => {
                items.push(s);
            },
            None => {
                assert(!v@[i as int].fits());
                return None;
            },
        }
        i += 1;
    }
    assert(texts(items@) =~= v@.map_values(|n: Natural| element_text(n@)));
    Some(array_json(&items))
}

/// Writes a matrix of field elements, if each is small enough to be written.
pub fn matrix_json(m: &Vec<Vec<Natural>>) -> (r: Option<String>)
    ensures
        r is Some <==> matrix_fits(m@),
        r matches Some(s) ==> s@ == matrix_text(m@),
{
    let mut items: Vec<String> = Vec::new();
    let mut i: usize = 0;
    while i < m.len()
        invariant
            i <= m@.len(),
            items@.len() == i,
            forall|j: int| 0 <= j < i ==> vector_fits((#[trigger] m@[j])@),
            forall|j: int| 0 <= j < i ==> (#[trigger] items@[j])@ == vector_text(m@[j]@),
        decreases m@.len() - i,
    {
        match vector_json(&m[i]) {
            Some(s) => {
                items.push(s);
            },
            None => {
                assert(!vector_fits(m@[i as int]@));
                return None;
            },
        }
        i += 1;
    }
    assert(texts(items@) =~= m@.map_values(|row: Vec<Natural>| vector_text(row@)));
    Some(array_json(&items))
}

/// Writes layers of matrices of field elements, if each element is small enough to be written.
pub fn cube_json(c: &Vec<Vec<Vec<Natural>>>) -> (r: Option<String>)
    ensures
        r is Some <==> cube_fits(c@),
        r matches Some(s) ==> s@ == cube_text(c@),
{
    let mut items: Vec<String> = Vec::new();
    let mut i: usize = 0;
    while i < c.len()
        invariant
            i <= c@.len(),
            items@.len() == i,
            forall|j: int| 0 <= j < i ==> matrix_fits((#[trigger] c@[j])@),
            forall|j: int| 0 <= j < i ==> (#[trigger] items@[j])@ == matrix_text(c@[j]@),
        decreases c@.len() - i,
    {
        match matrix_json(&c[i]) {
            Some(s) => {
                items.push(s);
            },
            None => {
                assert(!matrix_fits(c@[i as int]@));
                return None;
            },
        }
        i += 1;
    }
    assert(texts(items@) =~= c@.map_values(|layer: Vec<Vec<Natural>>| matrix_text(layer@)));
    Some(array_json(&items))
}

} // verus!
