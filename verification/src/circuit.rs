//! The arithmetic relation a succinct proof attests to: over the BN254
//! scalar field, the public inputs `a` and `c` and the private witness `b`
//! satisfy `a + b = c`. One circuit shape serves both key generation, where
//! no values are assigned, and proving, where all three are.

use vstd::prelude::*;

verus! {

use crate::field::{FieldElement, fr_modulus};

/// Why constraint generation failed.
#[derive(Clone, Copy, PartialEq, Eq, Structural, Debug)]
pub enum CircuitError {
    /// A value the constraints need was not assigned. Expected during key
    /// generation, where the circuit shape is built from placeholders.
    AssignmentMissing,
}

/// The addition relation: public inputs `a` and `c`, private witness `b`.
/// `None` values give the bare circuit shape used for key generation.
pub struct AddCircuit {
    pub a: Option<FieldElement>,
    pub c: Option<FieldElement>,
    pub b: Option<FieldElement>,
}

/// The relation itself: the witness `b` joins the public inputs `a` and `c`
/// exactly when `a + b = c` in the field.
pub open spec fn relation_holds(a: FieldElement, b: FieldElement, c: FieldElement) -> bool {
    c.value() == (a.value() + b.value()) % fr_modulus()
}

impl AddCircuit {
    /// All three values are assigned.
    pub open spec fn assigned(&self) -> bool {
        self.a is Some && self.b is Some && self.c is Some
    }

    /// The bare shape handed to key generation: nothing assigned.
    pub fn setup_shape() -> (r: AddCircuit)
        ensures
            r.a is None,
            r.b is None,
            r.c is None,
    {
        AddCircuit { a: None, c: None, b: None }
    }

    /// The honest proving assignment for inputs `a` and `b`: the public
    /// output is computed as `a + b`, so the assignment satisfies the
    /// relation.
    pub fn prove_assignment(a: FieldElement, b: FieldElement) -> (r: AddCircuit)
        ensures
            r.a == Some(a),
            r.b == Some(b),
            r.c is Some,
            relation_holds(a, b, r.c->0),
            r.assigned(),
    {
        let c = a.add(&b);
        AddCircuit { a: Some(a), c: Some(c), b: Some(b) }
    }

    /// Whether the assignment satisfies the relation; fails exactly when a
    /// required value is missing.
    pub fn satisfied(&self) -> (r: Result<bool, CircuitError>)
        ensures
            match r {
                Ok(sat) => self.assigned() && sat == relation_holds(
                    self.a->0,
                    self.b->0,
                    self.c->0,
                ),
                Err(e) => e == CircuitError::AssignmentMissing && !self.assigned(),
            },
    {
        match (&self.a, &self.b, &self.c) {
            (Some(a), Some(b), Some(c)) => {
                let sum = a.add(b);
                Ok(sum.equals(c))
            },
            _ => Err(CircuitError::AssignmentMissing),
        }
    }
}

/// The relation pins the public output: two satisfying assignments that
/// agree on the public input `a` and the witness `b` agree on the value of
/// the public output `c`. Tampering with `c` therefore leaves the relation
/// unsatisfied.
pub proof fn lemma_relation_output_unique(
    a: FieldElement,
    b: FieldElement,
    c1: FieldElement,
    c2: FieldElement,
)
    requires
        relation_holds(a, b, c1),
        relation_holds(a, b, c2),
    ensures
        c1.value() == c2.value(),
{
}

} // verus!
