//! The base field, and the numbers that stand for its elements.

use vstd::prelude::*;
use crate::error::{ConfigurationFault, WinterCircomError};
use crate::natural::Natural;

verus! {

/// What the circuit needs to know of the base field.
#[derive(Debug)]
pub struct FieldParameters {
    /// The largest `n` such that two to the `n` divides the order of the multiplicative group.
    pub two_adicity: u32,
    /// The generator of the multiplicative group, as its canonical representative.
    pub generator: Natural,
    /// The number of elements of the field.
    pub modulus: Natural,
}

/// Whether `n` is the canonical representative of an element of the field of `modulus`
/// elements: a number below the modulus, in no more limbs than the arithmetic accepts.
pub open spec fn canonical(n: Natural, modulus: Natural) -> bool {
    n.fits() && n@ < modulus@
}

/// Whether every number is a canonical representative.
pub open spec fn vector_canonical(v: Seq<Natural>, modulus: Natural) -> bool {
    forall|i: int| 0 <= i < v.len() ==> canonical(#[trigger] v[i], modulus)
}

/// Whether every number of every row is a canonical representative.
pub open spec fn matrix_canonical(m: Seq<Vec<Natural>>, modulus: Natural) -> bool {
    forall|i: int| 0 <= i < m.len() ==> vector_canonical((#[trigger] m[i])@, modulus)
}

/// Whether every number of every layer is a canonical representative.
pub open spec fn cube_canonical(c: Seq<Vec<Vec<Natural>>>, modulus: Natural) -> bool {
    forall|i: int| 0 <= i < c.len() ==> matrix_canonical((#[trigger] c[i])@, modulus)
}

/// Whether `n` is the canonical representative of an element of the field.
pub fn is_canonical(n: &Natural, modulus: &Natural) -> (b: bool)
    requires
        modulus.fits(),
    ensures
        b == canonical(*n, *modulus),
{
    n.is_operand() && !modulus.at_most(n)
}

/// Whether every number is a canonical representative.
pub fn all_canonical(v: &Vec<Natural>, modulus: &Natural) -> (b: bool)
    requires
        modulus.fits(),
    ensures
        b == vector_canonical(v@, *modulus),
{
    let mut i: usize = 0;
    while i < v.len()
        invariant
            i <= v@.len(),
            modulus.fits(),
            forall|j: int| 0 <= j < i ==> canonical(#[trigger] v@[j], *modulus),
        decreases v@.len() - i,
    {
        if !is_canonical(&v[i], modulus) {
            assert(!canonical(v@[i as int], *modulus));
            return false;
        }
        i += 1;
    }
    true
}

/// Whether every number of every row is a canonical representative.
pub fn rows_canonical(m: &Vec<Vec<Natural>>, modulus: &Natural) -> (b: bool)
    requires
        modulus.fits(),
    ensures
        b == matrix_canonical(m@, *modulus),
{
    let mut i: usize = 0;
    while i < m.len()
        invariant
            i <= m@.len(),
            modulus.fits(),
            forall|j: int| 0 <= j < i ==> vector_canonical((#[trigger] m@[j])@, *modulus),
        decreases m@.len() - i,
    {
        if !all_canonical(&m[i], modulus) {
            assert(!vector_canonical(m@[i as int]@, *modulus));
            return false;
        }
        i += 1;
    }
    true
}

/// Whether every number of every layer is a canonical representative.
pub fn layers_canonical(c: &Vec<Vec<Vec<Natural>>>, modulus: &Natural) -> (b: bool)
    requires
        modulus.fits(),
    ensures
        b == cube_canonical(c@, *modulus),
{
    let mut i: usize = 0;
    while i < c.len()
        invariant
            i <= c@.len(),
            modulus.fits(),
            forall|j: int| 0 <= j < i ==> matrix_canonical((#[trigger] c@[j])@, *modulus),
        decreases c@.len() - i,
    {
        if !rows_canonical(&c[i], modulus) {
            assert(!matrix_canonical(c@[i as int]@, *modulus));
            return false;
        }
        i += 1;
    }
    true
}

impl FieldParameters {
    /// What is wrong with the description of the field, if anything is: a modulus with more
    /// limbs than the arithmetic accepts, or a generator that is no canonical
    /// representative.
    pub open spec fn fault(&self) -> Option<ConfigurationFault> {
        if !self.modulus.fits() {
            Some(ConfigurationFault::Modulus)
        } else if !canonical(self.generator, self.modulus) {
            Some(ConfigurationFault::Generator)
        } else {
            None
        }
    }

    /// Checks the description of the field.
    pub fn check(&self) -> (r: Result<(), WinterCircomError>)
        ensures
            match r {
                Ok(_) => self.fault() is None,
                Err(e) => self.fault() matches Some(fault)
                    && e == WinterCircomError::InvalidConfiguration(fault),
            },
    {
        if !self.modulus.is_operand() {
            return Err(WinterCircomError::InvalidConfiguration(ConfigurationFault::Modulus));
        }
        if !is_canonical(&self.generator, &self.modulus) {
            return Err(WinterCircomError::InvalidConfiguration(ConfigurationFault::Generator));
        }
        Ok(())
    }
}

} // verus!
