use vstd::prelude::*;
use crate::domain::coset_fft;
use crate::domain::coset_fft_values;
use crate::domain::coset_ifft;
use crate::domain::coset_ifft_values;
use crate::domain::coset_shift;
use crate::domain::domain_size;
use crate::domain::domain_size_for;
use crate::domain::evaluate_lagrange;
use crate::domain::evaluate_vanishing;
use crate::domain::field_generator;
use crate::domain::ifft;
use crate::domain::ifft_values;
use crate::domain::lagrange_coefficients;
use crate::domain::lemma_domain_size;
use crate::domain::vanishing_at;
use crate::error::Error;
use crate::field::Scalar;
use crate::field::fr_add;
use crate::field::fr_inv;
use crate::field::fr_mul;
use crate::field::fr_sub;
use crate::field::scalar_add;
use crate::field::scalar_inverse;
use crate::field::scalar_mul;
use crate::field::scalar_sub;
use crate::field::scalar_values;
use crate::r1cs::ConstraintSystem;
use crate::r1cs::Row;
use crate::r1cs::evaluate_constraint;
use crate::r1cs::matrix_within;
use crate::r1cs::row_value;

verus! {

/// What the first `n` terms of a row add to the evaluation of variable `j`:
/// `start`, and `w` times the coefficient of each term that names `j`.
pub open spec fn term_sum(start: nat, row: Seq<(Scalar, usize)>, w: nat, j: int, n: nat) -> nat
    decreases n,
{
    if n == 0 {
        start
    } else {
        let prev = term_sum(start, row, w, j, (n - 1) as nat);
        if row[n - 1].1 == j {
            fr_add(prev, fr_mul(w, row[n - 1].0@))
        } else {
            prev
        }
    }
}

/// The evaluation of variable `j` after the first `rows` rows of a matrix:
/// `start`, and for each term that names `j` the weight of its row times
/// its coefficient.
pub open spec fn qap_eval(start: nat, m: Seq<Row>, u: Seq<nat>, j: int, rows: nat) -> nat
    decreases rows,
{
    if rows == 0 {
        start
    } else {
        term_sum(
            qap_eval(start, m, u, j, (rows - 1) as nat),
            m[rows - 1]@,
            u[rows - 1],
            j,
            m[rows - 1]@.len(),
        )
    }
}

/// What the first matrix's evaluation of variable `j` starts from: for a
/// variable of the instance, the weight of the row that ties it down.
pub open spec fn instance_start(cs: ConstraintSystem, u: Seq<nat>, j: int) -> nat {
    if j < cs.num_instance_variables {
        u[cs.num_constraints + j]
    } else {
        0
    }
}

/// The evaluations at one point of the polynomials of a constraint system.
#[derive(Clone, Debug)]
pub struct InstanceMap {
    /// For each variable, the value of its polynomial of the first matrix.
    pub a: Vec<Scalar>,
    /// For each variable, the value of its polynomial of the second matrix.
    pub b: Vec<Scalar>,
    /// For each variable, the value of its polynomial of the third matrix.
    pub c: Vec<Scalar>,
    /// The value of the vanishing polynomial of the domain.
    pub zt: Scalar,
    /// The number of variables, the constant one not counted.
    pub qap_num_variables: usize,
    /// The size of the domain.
    pub domain_size: usize,
}

/// Whether `m` holds the evaluations at `t` of the polynomials of `cs` over
/// the domain of the given size.
pub open spec fn is_instance_map(cs: ConstraintSystem, t: nat, size: nat, m: InstanceMap) -> bool {
    let u = lagrange_coefficients(size, t);
    let rows = cs.num_constraints as nat;
    &&& m.domain_size == size
    &&& m.qap_num_variables + 1 == cs.num_variables()
    &&& m.zt@ == vanishing_at(size, t)
    &&& m.a@.len() == cs.num_variables()
    &&& m.b@.len() == cs.num_variables()
    &&& m.c@.len() == cs.num_variables()
    &&& forall|j: int|
        0 <= j < cs.num_variables() ==> (#[trigger] m.a@[j])@ == qap_eval(
            instance_start(cs, u, j),
            cs.a@,
            u,
            j,
            rows,
        )
    &&& forall|j: int|
        0 <= j < cs.num_variables() ==> (#[trigger] m.b@[j])@ == qap_eval(0, cs.b@, u, j, rows)
    &&& forall|j: int|
        0 <= j < cs.num_variables() ==> (#[trigger] m.c@[j])@ == qap_eval(0, cs.c@, u, j, rows)
}

/// The number of coefficients that the domain of a constraint system has to
/// hold: one for each constraint and each instance variable.
pub open spec fn domain_request(cs: ConstraintSystem) -> nat {
    (cs.num_constraints + cs.num_instance_variables) as nat
}

/// The size of the domain of a constraint system, if there is one.
pub open spec fn domain_of(cs: ConstraintSystem) -> Option<nat> {
    if domain_request(cs) <= usize::MAX {
        domain_size_for(domain_request(cs))
    } else {
        None
    }
}

/// Adds to each evaluation what the rows of a matrix give it, each row
/// weighted by its entry of `u`.
fn accumulate_rows(acc: &mut Vec<Scalar>, m: &Vec<Row>, u: &Vec<Scalar>)
    requires
        matrix_within(m@, old(acc)@.len()),
        m@.len() <= u@.len(),
    ensures
        final(acc)@.len() == old(acc)@.len(),
        forall|j: int|
            0 <= j < old(acc)@.len() ==> (#[trigger] final(acc)@[j])@ == qap_eval(
                old(acc)@[j]@,
                m@,
                scalar_values(u@),
                j,
                m@.len(),
            ),
{
    let rows: usize = m.len();
    let mut i: usize = 0;
    while i < rows
        invariant
            i <= rows,
            rows == m@.len(),
            rows <= u@.len(),
            acc@.len() == old(acc)@.len(),
            matrix_within(m@, acc@.len()),
            forall|j: int|
                0 <= j < acc@.len() ==> (#[trigger] acc@[j])@ == qap_eval(
                    old(acc)@[j]@,
                    m@,
                    scalar_values(u@),
                    j,
                    i as nat,
                ),
        decreases rows - i,
    {
        let row = &m[i];
        let n: usize = row.len();
        let mut k: usize = 0;
        while k < n
            invariant
                k <= n,
                i < rows,
                rows == m@.len(),
                rows <= u@.len(),
                row == m@[i as int],
                n == row@.len(),
                acc@.len() == old(acc)@.len(),
                matrix_within(m@, acc@.len()),
                forall|j: int|
                    0 <= j < acc@.len() ==> (#[trigger] acc@[j])@ == term_sum(
                        qap_eval(old(acc)@[j]@, m@, scalar_values(u@), j, i as nat),
                        row@,
                        u@[i as int]@,
                        j,
                        k as nat,
                    ),
            decreases n - k,
        {
            let index: usize = row[k].1;
            assert(m@[i as int]@[k as int].1 < acc@.len());
            let prod = scalar_mul(&u[i], &row[k].0);
            let sum = scalar_add(&acc[index], &prod);
            acc.set(index, sum);
            k = k + 1;
        }
        assert(scalar_values(u@)[i as int] == u@[i as int]@);
        i = i + 1;
    }
}

/// The evaluations at `t` of the polynomials of a constraint system, with
/// the value of the vanishing polynomial and the size of the domain.
pub fn instance_map_with_evaluation(cs: &ConstraintSystem, t: &Scalar) -> (r: Result<
    InstanceMap,
    Error,
>)
    requires
        cs.well_formed(),
    ensures
        r.is_ok() == domain_of(*cs).is_some(),
        r.is_ok() ==> is_instance_map(*cs, t@, domain_of(*cs).unwrap(), r.unwrap()),
        r.is_err() ==> r.unwrap_err() == Error::PolynomialDegreeTooLarge,
{
    let num_inputs: usize = cs.num_instance_variables;
    let rows: usize = cs.num_constraints;
    let request: usize = match rows.checked_add(num_inputs) {
        Some(n) => n,
        None => {
            return Err(Error::PolynomialDegreeTooLarge);
        },
    };
    let size: usize = match domain_size(request) {
        Some(s) => s,
        None => {
            return Err(Error::PolynomialDegreeTooLarge);
        },
    };
    proof {
        lemma_domain_size(request as nat);
    }
    let zt = evaluate_vanishing(size, t);
    let u = evaluate_lagrange(size, t);
    let num_vars: usize = num_inputs + cs.num_witness_variables;
    let qap_num_variables: usize = num_vars - 1;
    let mut a: Vec<Scalar> = Vec::new();
    let mut b: Vec<Scalar> = Vec::new();
    let mut c: Vec<Scalar> = Vec::new();
    let ghost weights = lagrange_coefficients(size as nat, t@);
    let mut j: usize = 0;
    while j < num_vars
        invariant
            j <= num_vars,
            num_vars == cs.num_variables(),
            num_inputs == cs.num_instance_variables,
            rows == cs.num_constraints,
            rows + num_inputs <= size,
            u@.len() == size,
            scalar_values(u@) == weights,
            a@.len() == j,
            b@.len() == j,
            c@.len() == j,
            forall|i: int| 0 <= i < j ==> (#[trigger] a@[i])@ == instance_start(*cs, weights, i),
            forall|i: int| 0 <= i < j ==> (#[trigger] b@[i])@ == 0,
            forall|i: int| 0 <= i < j ==> (#[trigger] c@[i])@ == 0,
        decreases num_vars - j,
    {
        if j < num_inputs {
            assert(scalar_values(u@)[rows + j] == u@[rows + j]@);
            a.push(u[rows + j]);
        } else {
            a.push(Scalar::zero());
        }
        b.push(Scalar::zero());
        c.push(Scalar::zero());
        j = j + 1;
    }
    accumulate_rows(&mut a, &cs.a, &u);
    accumulate_rows(&mut b, &cs.b, &u);
    accumulate_rows(&mut c, &cs.c, &u);
    Ok(InstanceMap { a, b, c, zt, qap_num_variables, domain_size: size })
}

/// The values that the rows of a matrix take under the assignment, one for
/// each element of the domain; with `tail`, the values of the instance
/// variables follow those of the rows.
pub open spec fn row_values(m: Seq<Row>, z: Seq<nat>, tail: nat, size: nat) -> Seq<nat> {
    Seq::new(
        size,
        |i: int|
            if i < m.len() {
                row_value(m[i]@, z, m[i]@.len())
            } else if i < m.len() + tail {
                z[i - m.len()]
            } else {
                0
            },
    )
}

/// The values on the coset of the polynomial that takes the given values on
/// the domain.
pub open spec fn on_coset(size: nat, evals: Seq<nat>) -> Seq<nat> {
    coset_fft_values(size, ifft_values(size, evals))
}

/// The values of the quotient on the coset: at each point the product of
/// the first two polynomials less the third, divided by the vanishing
/// polynomial, whose value is the same at every point of the coset.
pub open spec fn quotient_on_coset(a: Seq<nat>, b: Seq<nat>, c: Seq<nat>, vinv: nat, size: nat) -> Seq<
    nat,
> {
    Seq::new(size, |i: int| fr_mul(fr_sub(fr_mul(a[i], b[i]), c[i]), vinv))
}

/// The coefficients of the quotient polynomial of an assigned constraint
/// system over the domain of the given size.
pub open spec fn quotient_coefficients(cs: ConstraintSystem, size: nat) -> Seq<nat> {
    let z = cs.full_assignment();
    coset_ifft_values(
        size,
        quotient_on_coset(
            on_coset(size, row_values(cs.a@, z, cs.num_instance_variables as nat, size)),
            on_coset(size, row_values(cs.b@, z, 0, size)),
            on_coset(size, row_values(cs.c@, z, 0, size)),
            fr_inv(vanishing_at(size, coset_shift())),
            size,
        ),
    )
}

/// Whether the vanishing polynomial of the domain has an inverse on the
/// coset.
pub open spec fn coset_is_apart(size: nat) -> bool {
    vanishing_at(size, coset_shift()) != 0
}

/// Whether the value of the vanishing polynomial on the coset times its
/// inverse is one.
pub open spec fn coset_inverse_holds(size: nat) -> bool {
    fr_mul(vanishing_at(size, coset_shift()), fr_inv(vanishing_at(size, coset_shift()))) == 1
}

/// The values that the rows of a matrix take under the assignment `z`,
/// followed by the first `tail` values of `z` and then zeros, `size` in
/// all.
fn evaluate_rows(m: &Vec<Row>, z: &Vec<Scalar>, tail: usize, size: usize) -> (r: Vec<Scalar>)
    requires
        matrix_within(m@, z@.len()),
        tail <= z@.len(),
        m@.len() + tail <= size,
    ensures
        r@.len() == size,
        scalar_values(r@) == row_values(m@, scalar_values(z@), tail as nat, size as nat),
{
    let rows: usize = m.len();
    let mut r: Vec<Scalar> = Vec::new();
    let mut i: usize = 0;
    while i < size
        invariant
            i <= size,
            rows == m@.len(),
            matrix_within(m@, z@.len()),
            tail <= z@.len(),
            rows + tail <= size,
            r@.len() == i,
            forall|k: int|
                0 <= k < i ==> (#[trigger] r@[k])@ == row_values(
                    m@,
                    scalar_values(z@),
                    tail as nat,
                    size as nat,
                )[k],
        decreases size - i,
    {
        if i < rows {
            r.push(evaluate_constraint(&m[i], z));
        } else if i - rows < tail {
            assert(scalar_values(z@)[i - rows] == z@[i - rows]@);
            r.push(z[i - rows]);
        } else {
            r.push(Scalar::zero());
        }
        i = i + 1;
    }
    assert(scalar_values(r@) =~= row_values(m@, scalar_values(z@), tail as nat, size as nat));
    r
}

/// The coefficients of the quotient polynomial of an assigned constraint
/// system: of the product of the first two matrices' polynomials less the
/// third's, divided by the vanishing polynomial of the domain.
pub fn witness_map(cs: &ConstraintSystem) -> (r: Result<Vec<Scalar>, Error>)
    requires
        cs.well_formed(),
        cs.assigned(),
    ensures
        r.is_ok() == (domain_of(*cs).is_some() && coset_is_apart(domain_of(*cs).unwrap())),
        r.is_ok() ==> coset_inverse_holds(domain_of(*cs).unwrap()),
        r.is_ok() ==> r.unwrap()@.len() == domain_of(*cs).unwrap() && scalar_values(r.unwrap()@)
            == quotient_coefficients(*cs, domain_of(*cs).unwrap()),
        r.is_err() ==> r.unwrap_err() == (if domain_of(*cs).is_none() {
            Error::PolynomialDegreeTooLarge
        } else {
            Error::UnexpectedIdentity
        }),
{
    let num_inputs: usize = cs.num_instance_variables;
    let rows: usize = cs.num_constraints;
    let request: usize = match rows.checked_add(num_inputs) {
        Some(n) => n,
        None => {
            return Err(Error::PolynomialDegreeTooLarge);
        },
    };
    let size: usize = match domain_size(request) {
        Some(s) => s,
        None => {
            return Err(Error::PolynomialDegreeTooLarge);
        },
    };
    proof {
        lemma_domain_size(request as nat);
    }
    let shift = field_generator();
    let vanishing = evaluate_vanishing(size, &shift);
    let vinv = match scalar_inverse(&vanishing) {
        Some(x) => x,
        None => {
            return Err(Error::UnexpectedIdentity);
        },
    };
    let mut z: Vec<Scalar> = cs.instance_assignment.clone();
    let mut w: Vec<Scalar> = cs.witness_assignment.clone();
    z.append(&mut w);
    assert(scalar_values(z@) =~= cs.full_assignment());
    let mut a = evaluate_rows(&cs.a, &z, num_inputs, size);
    let mut b = evaluate_rows(&cs.b, &z, 0, size);
    let mut c = evaluate_rows(&cs.c, &z, 0, size);
    ifft(size, &mut a);
    ifft(size, &mut b);
    ifft(size, &mut c);
    coset_fft(size, &mut a);
    coset_fft(size, &mut b);
    coset_fft(size, &mut c);
    let mut ab: Vec<Scalar> = Vec::new();
    let mut i: usize = 0;
    while i < size
        invariant
            i <= size,
            a@.len() == size,
            b@.len() == size,
            c@.len() == size,
            ab@.len() == i,
            forall|k: int|
                0 <= k < i ==> (#[trigger] ab@[k])@ == fr_mul(
                    fr_sub(fr_mul(a@[k]@, b@[k]@), c@[k]@),
                    vinv@,
                ),
        decreases size - i,
    {
        let prod = scalar_mul(&a[i], &b[i]);
        let diff = scalar_sub(&prod, &c[i]);
        ab.push(scalar_mul(&diff, &vinv));
        i = i + 1;
    }
    assert(scalar_values(ab@) =~= quotient_on_coset(
        scalar_values(a@),
        scalar_values(b@),
        scalar_values(c@),
        vinv@,
        size as nat,
    ));
    coset_ifft(size, &mut ab);
    Ok(ab)
}

} // verus!
