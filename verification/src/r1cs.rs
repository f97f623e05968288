use vstd::prelude::*;
use crate::field::Scalar;
use crate::field::fr_add;
use crate::field::fr_mul;
use crate::field::scalar_add;
use crate::field::scalar_mul;
use crate::field::scalar_values;

verus! {

/// One row of a constraint matrix: the coefficients that are not zero, each
/// with the index of its variable.
pub type Row = Vec<(Scalar, usize)>;

/// A rank-1 constraint system after synthesis: its dimensions, its three
/// matrices row by row, and, where the circuit was synthesised with values,
/// the assignment. Variable 0 is the constant one; the instance variables
/// come first, then the witness variables.
#[derive(Clone, Debug)]
pub struct ConstraintSystem {
    pub num_instance_variables: usize,
    pub num_witness_variables: usize,
    pub num_constraints: usize,
    pub a: Vec<Row>,
    pub b: Vec<Row>,
    pub c: Vec<Row>,
    pub instance_assignment: Vec<Scalar>,
    pub witness_assignment: Vec<Scalar>,
}

/// Whether every term of every row names one of the first `vars` variables.
pub open spec fn matrix_within(m: Seq<Row>, vars: nat) -> bool {
    forall|i: int, k: int|
        0 <= i < m.len() && 0 <= k < m[i]@.len() ==> (#[trigger] m[i]@[k]).1 < vars
}

/// The value of the first `n` terms of a row under an assignment: the sum
/// of the coefficients times the values of their variables, added up in the
/// order of the terms.
pub open spec fn row_value(row: Seq<(Scalar, usize)>, z: Seq<nat>, n: nat) -> nat
    decreases n,
{
    if n == 0 {
        0
    } else {
        fr_add(row_value(row, z, (n - 1) as nat), fr_mul(row[n - 1].0@, z[row[n - 1].1 as int]))
    }
}

impl ConstraintSystem {
    /// The number of variables, the constant one included.
    pub open spec fn num_variables(&self) -> nat {
        (self.num_instance_variables + self.num_witness_variables) as nat
    }

    /// Whether the matrices have one row for each constraint and speak of
    /// the system's variables only, and the constant one is among them.
    pub open spec fn well_formed(&self) -> bool {
        &&& self.num_instance_variables >= 1
        &&& self.num_instance_variables + self.num_witness_variables <= usize::MAX
        &&& self.a@.len() == self.num_constraints
        &&& self.b@.len() == self.num_constraints
        &&& self.c@.len() == self.num_constraints
        &&& matrix_within(self.a@, self.num_variables())
        &&& matrix_within(self.b@, self.num_variables())
        &&& matrix_within(self.c@, self.num_variables())
    }

    /// Whether the system holds a value for each of its variables.
    pub open spec fn assigned(&self) -> bool {
        &&& self.instance_assignment@.len() == self.num_instance_variables
        &&& self.witness_assignment@.len() == self.num_witness_variables
    }

    /// The values of all variables: those of the instance, then those of
    /// the witness.
    pub open spec fn full_assignment(&self) -> Seq<nat> {
        scalar_values(self.instance_assignment@ + self.witness_assignment@)
    }
}

/// The value of a row under an assignment.
pub fn evaluate_constraint(terms: &Row, assignment: &Vec<Scalar>) -> (r: Scalar)
    requires
        forall|k: int| 0 <= k < terms@.len() ==> (#[trigger] terms@[k]).1 < assignment@.len(),
    ensures
        r@ == row_value(terms@, scalar_values(assignment@), terms@.len()),
{
    let mut res = Scalar::zero();
    let n: usize = terms.len();
    let mut k: usize = 0;
    while k < n
        invariant
            k <= n,
            n == terms@.len(),
            forall|j: int| 0 <= j < terms@.len() ==> (#[trigger] terms@[j]).1 < assignment@.len(),
            res@ == row_value(terms@, scalar_values(assignment@), k as nat),
        decreases n - k,
    {
        let index: usize = terms[k].1;
        let prod = scalar_mul(&terms[k].0, &assignment[index]);
        res = scalar_add(&res, &prod);
        k = k + 1;
    }
    res
}

} // verus!
