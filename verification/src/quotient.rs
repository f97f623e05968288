use vstd::prelude::*;
use crate::completeness::a_values;
use crate::completeness::b_values;
use crate::completeness::c_values;
use crate::completeness::quotient_holds;
use crate::domain::coset_ifft_values;
use crate::domain::coset_shift;
use crate::domain::ifft_values;
use crate::domain::lagrange_coefficients;
use crate::domain::vanishing_at;
use crate::field::fr_add;
use crate::field::fr_inv;
use crate::field::fr_mul;
use crate::field::fr_pow;
use crate::field::Scalar;
use crate::model::cong;
use crate::model::lemma_cong_add;
use crate::model::lemma_cong_mul;
use crate::model::lemma_fr_add;
use crate::model::lemma_fr_mul;
use crate::model::lemma_sdot_ext;
use crate::model::lemma_sdot_split;
use crate::model::sdot;
use crate::r1cs::ConstraintSystem;
use crate::r1cs::Row;
use crate::r1cs::matrix_within;
use crate::r1cs::row_value;
use crate::r1cs_to_qap::coset_inverse_holds;
use crate::r1cs_to_qap::instance_start;
use crate::r1cs_to_qap::on_coset;
use crate::r1cs_to_qap::qap_eval;
use crate::r1cs_to_qap::quotient_coefficients;
use crate::r1cs_to_qap::quotient_on_coset;
use crate::r1cs_to_qap::row_values;
use crate::r1cs_to_qap::term_sum;

verus! {

/// The first `n` powers of `t`.
pub open spec fn powers(t: nat, n: nat) -> Seq<int> {
    Seq::new(n, |i: int| fr_pow(t, i as nat) as int)
}

/// A sequence of scalars as integers.
pub open spec fn ints(s: Seq<nat>) -> Seq<int> {
    Seq::new(s.len(), |i: int| s[i] as int)
}

/// The value at `t` of the polynomial with the first `n` of the given
/// coefficients.
pub open spec fn poly_at(coeffs: Seq<nat>, t: nat, n: nat) -> int {
    sdot(powers(t, n), coeffs, n)
}

/// Whether the values at each place multiply to the third.
pub open spec fn pointwise(a: Seq<nat>, b: Seq<nat>, c: Seq<nat>, size: nat) -> bool {
    forall|k: int| 0 <= k < size ==> cong((#[trigger] a[k] as int) * (b[k] as int), c[k] as int)
}

/// Interpolation: the polynomial that takes the values `e` on the domain
/// has at `t` the value that the Lagrange coefficients at `t` give to `e`.
pub open spec fn interpolation_law(size: nat, e: Seq<nat>, t: nat) -> bool {
    cong(
        poly_at(ifft_values(size, e), t, size),
        sdot(ints(lagrange_coefficients(size, t)), e, size),
    )
}

/// The coefficients that come back from the coset, for values `a`, `b` and
/// `c` on the domain and the inverse `vinv` of the vanishing polynomial on
/// the coset.
pub open spec fn quotient_of(size: nat, a: Seq<nat>, b: Seq<nat>, c: Seq<nat>, vinv: nat) -> Seq<nat> {
    coset_ifft_values(
        size,
        quotient_on_coset(on_coset(size, a), on_coset(size, b), on_coset(size, c), vinv, size),
    )
}

/// Division by the vanishing polynomial: the coefficients that come back
/// from the coset are those of a polynomial of a degree below the domain's
/// size less one, whose value at `t` times that of the vanishing polynomial
/// is the product of the first two polynomials' values less the third's.
pub open spec fn division_law(size: nat, a: Seq<nat>, b: Seq<nat>, c: Seq<nat>, vinv: nat, t: nat) -> bool {
    &&& quotient_of(size, a, b, c, vinv).len() == size
    &&& cong(
        poly_at(quotient_of(size, a, b, c, vinv), t, (size - 1) as nat) * (vanishing_at(size, t) as int),
        poly_at(ifft_values(size, a), t, size) * poly_at(ifft_values(size, b), t, size) - poly_at(
            ifft_values(size, c),
            t,
            size,
        ),
    )
}

/// Whether the transforms between values on the domain of the given size
/// and coefficients are those of polynomials over the scalar field: there
/// is a Lagrange coefficient for each element of the domain, interpolation
/// holds for all values, and division by the vanishing polynomial holds for
/// all values of which the third are the products of the first two.
pub open spec fn is_domain_model(size: nat) -> bool {
    &&& forall|t: nat| (#[trigger] lagrange_coefficients(size, t)).len() == size
    &&& forall|e: Seq<nat>, t: nat| e.len() == size ==> #[trigger] interpolation_law(size, e, t)
    &&& forall|a: Seq<nat>, b: Seq<nat>, c: Seq<nat>, vinv: nat, t: nat|
        a.len() == size && b.len() == size && c.len() == size && cong(
            (vanishing_at(size, coset_shift()) as int) * (vinv as int),
            1,
        ) && pointwise(a, b, c, size) ==> #[trigger] division_law(size, a, b, c, vinv, t)
}

/// Whether the assignment satisfies every constraint: the values of the
/// first two matrices' rows multiply to that of the third's.
pub open spec fn satisfied(cs: ConstraintSystem) -> bool {
    let z = cs.full_assignment();
    forall|i: int|
        0 <= i < cs.num_constraints ==> cong(
            (row_value((#[trigger] cs.a@[i])@, z, cs.a@[i]@.len()) as int) * (row_value(
                cs.b@[i]@,
                z,
                cs.b@[i]@.len(),
            ) as int),
            row_value(cs.c@[i]@, z, cs.c@[i]@.len()) as int,
        )
}

/// For each of `n` variables, its evaluation after the first `k` terms of a
/// row.
pub open spec fn after_terms(p: Seq<nat>, row: Seq<(Scalar, usize)>, w: nat, n: nat, k: nat) -> Seq<int> {
    Seq::new(n, |j: int| term_sum(p[j], row, w, j, k) as int)
}

/// For each of `n` variables, its evaluation after the first `i` rows of a
/// matrix.
pub open spec fn after_rows(start: Seq<nat>, m: Seq<Row>, u: Seq<nat>, n: nat, i: nat) -> Seq<nat> {
    Seq::new(n, |j: int| qap_eval(start[j], m, u, j, i))
}

/// The values of the first `i` rows of a matrix under the assignment, each
/// times the weight of its row.
pub open spec fn weighted_rows(m: Seq<Row>, u: Seq<nat>, z: Seq<nat>, i: nat) -> int
    decreases i,
{
    if i == 0 {
        0
    } else {
        weighted_rows(m, u, z, (i - 1) as nat) + (u[i - 1] as int) * (row_value(
            m[i - 1]@,
            z,
            m[i - 1]@.len(),
        ) as int)
    }
}

/// A sum of products after one number changed.
proof fn lemma_sdot_update(s1: Seq<int>, s2: Seq<int>, z: Seq<nat>, idx: int, n: nat)
    requires
        forall|j: int| 0 <= j < n && j != idx ==> s1[j] == s2[j],
    ensures
        sdot(s2, z, n) == sdot(s1, z, n) + if 0 <= idx < n {
            (s2[idx] - s1[idx]) * (z[idx] as int)
        } else {
            0
        },
    decreases n,
{
    if n > 0 {
        lemma_sdot_update(s1, s2, z, idx, (n - 1) as nat);
        if idx == n - 1 {
            let (x, y, zz) = (s1[idx], s2[idx], z[idx] as int);
            assert(y * zz == x * zz + (y - x) * zz) by (nonlinear_arith);
        }
    }
}

/// A sum of products with zeros is zero.
proof fn lemma_sdot_zero(u: Seq<int>, x: Seq<nat>, n: nat)
    requires
        forall|j: int| 0 <= j < n ==> u[j] == 0 || x[j] == 0,
    ensures
        sdot(u, x, n) == 0,
    decreases n,
{
    if n > 0 {
        lemma_sdot_zero(u, x, (n - 1) as nat);
        let (a, b) = (u[n - 1], x[n - 1] as int);
        assert(a * b == 0) by (nonlinear_arith)
            requires
                a == 0 || b == 0,
        ;
    }
}

/// The evaluations after the first `k` terms of a row, under the
/// assignment, are those before the row and the weight times the value of
/// the first `k` terms.
proof fn lemma_after_terms(p: Seq<nat>, row: Seq<(Scalar, usize)>, w: nat, z: Seq<nat>, n: nat, k: nat)
    requires
        k <= row.len(),
        forall|e: int| 0 <= e < row.len() ==> (#[trigger] row[e]).1 < n,
    ensures
        cong(
            sdot(after_terms(p, row, w, n, k), z, n),
            sdot(after_terms(p, row, w, n, 0), z, n) + (w as int) * (row_value(row, z, k) as int),
        ),
    decreases k,
{
    let base = sdot(after_terms(p, row, w, n, 0), z, n);
    if k > 0 {
        let m = (k - 1) as nat;
        lemma_after_terms(p, row, w, z, n, m);
        let s1 = after_terms(p, row, w, n, m);
        let s2 = after_terms(p, row, w, n, k);
        let idx = row[k - 1].1 as int;
        let coeff = row[k - 1].0@;
        assert(row[k - 1].1 < n);
        lemma_sdot_update(s1, s2, z, idx, n);
        let zz = z[idx] as int;
        let ww = w as int;
        let cc = coeff as int;
        // the one evaluation that the term changes
        let before = term_sum(p[idx], row, w, idx, m);
        assert(s1[idx] == before as int);
        assert(s2[idx] == fr_add(before, fr_mul(w, coeff)) as int);
        lemma_fr_add(before, fr_mul(w, coeff));
        lemma_fr_mul(w, coeff);
        lemma_cong_add(before as int, before as int, fr_mul(w, coeff) as int, ww * cc);
        lemma_cong_add(s2[idx], before + ww * cc, -s1[idx], -s1[idx]);
        lemma_cong_mul(s2[idx] - s1[idx], ww * cc, zz, zz);
        lemma_cong_add(
            sdot(s1, z, n),
            base + ww * (row_value(row, z, m) as int),
            (s2[idx] - s1[idx]) * zz,
            ww * cc * zz,
        );
        // the value of the row
        let rv = row_value(row, z, m);
        lemma_fr_add(rv, fr_mul(coeff, z[idx]));
        lemma_fr_mul(coeff, z[idx]);
        lemma_cong_add(rv as int, rv as int, fr_mul(coeff, z[idx]) as int, cc * zz);
        lemma_cong_mul(ww, ww, row_value(row, z, k) as int, rv + cc * zz);
        let rvi = rv as int;
        assert(base + ww * rvi + ww * cc * zz == base + ww * (rvi + cc * zz)) by (nonlinear_arith);
        lemma_cong_add(base, base, ww * (row_value(row, z, k) as int), ww * (rvi + cc * zz));
    } else {
        assert((w as int) * 0 == 0);
    }
}

/// The evaluations after the first `i` rows of a matrix, under the
/// assignment, are the starting values under the assignment and the values
/// of the rows, each times the weight of its row.
proof fn lemma_after_rows(start: Seq<nat>, m: Seq<Row>, u: Seq<nat>, z: Seq<nat>, n: nat, i: nat)
    requires
        i <= m.len(),
        matrix_within(m, n),
        start.len() == n,
    ensures
        cong(
            sdot(ints(after_rows(start, m, u, n, i)), z, n),
            sdot(ints(start), z, n) + weighted_rows(m, u, z, i),
        ),
    decreases i,
{
    if i > 0 {
        let prev = after_rows(start, m, u, n, (i - 1) as nat);
        let row = m[i - 1]@;
        let w = u[i - 1];
        lemma_after_rows(start, m, u, z, n, (i - 1) as nat);
        assert forall|e: int| 0 <= e < row.len() implies (#[trigger] row[e]).1 < n by {
            assert(m[i - 1]@[e].1 < n);
        }
        lemma_after_terms(prev, row, w, z, n, row.len());
        lemma_sdot_ext(
            after_terms(prev, row, w, n, row.len()),
            z,
            ints(after_rows(start, m, u, n, i)),
            z,
            n,
        );
        lemma_sdot_ext(after_terms(prev, row, w, n, 0), z, ints(prev), z, n);
        lemma_cong_add(
            sdot(ints(prev), z, n),
            sdot(ints(start), z, n) + weighted_rows(m, u, z, (i - 1) as nat),
            (w as int) * (row_value(row, z, row.len()) as int),
            (w as int) * (row_value(row, z, row.len()) as int),
        );
    } else {
        lemma_sdot_ext(ints(after_rows(start, m, u, n, 0)), z, ints(start), z, n);
    }
}

/// The weights times the values of the first `i` rows are the first `i`
/// products of the weights and the values that the rows take on the domain.
proof fn lemma_weighted_rows(m: Seq<Row>, u: Seq<nat>, z: Seq<nat>, tail: nat, size: nat, i: nat)
    requires
        i <= m.len(),
        i <= size,
        i <= u.len(),
    ensures
        weighted_rows(m, u, z, i) == sdot(ints(u), row_values(m, z, tail, size), i),
    decreases i,
{
    if i > 0 {
        lemma_weighted_rows(m, u, z, tail, size, (i - 1) as nat);
    }
}

/// The weights times the values that the rows of a matrix and, after them,
/// the first `tail` variables take on the domain are the evaluations of the
/// variables under the assignment, where the evaluation of each of the
/// first `tail` variables starts from the weight of its place after the
/// rows, and that of every other from zero.
proof fn lemma_exchange(m: Seq<Row>, u: Seq<nat>, z: Seq<nat>, start: Seq<nat>, tail: nat, size: nat, n: nat)
    requires
        matrix_within(m, n),
        z.len() == n,
        start.len() == n,
        u.len() == size,
        tail <= n,
        m.len() + tail <= size,
        forall|j: int| 0 <= j < n ==> #[trigger] start[j] == if j < tail {
            u[m.len() + j]
        } else {
            0
        },
    ensures
        cong(
            sdot(ints(u), row_values(m, z, tail, size), size),
            sdot(ints(after_rows(start, m, u, n, m.len())), z, n),
        ),
{
    let rows = m.len();
    let e = row_values(m, z, tail, size);
    let ui = ints(u);
    // the rows, the variables after them, and the rest of the domain
    lemma_sdot_split(ui, e, rows, size);
    let u2 = ui.subrange(rows as int, size as int);
    let e2 = e.subrange(rows as int, size as int);
    let rest = (size - rows) as nat;
    lemma_sdot_split(u2, e2, tail, rest);
    let u3 = u2.subrange(tail as int, rest as int);
    let e3 = e2.subrange(tail as int, rest as int);
    lemma_sdot_zero(u3, e3, (rest - tail) as nat);
    lemma_weighted_rows(m, u, z, tail, size, rows);
    lemma_sdot_ext(u2, e2, ints(start), z, tail);
    // the starting values under the assignment
    lemma_sdot_split(ints(start), z, tail, n);
    lemma_sdot_zero(
        ints(start).subrange(tail as int, n as int),
        z.subrange(tail as int, n as int),
        (n - tail) as nat,
    );
    assert(sdot(ui, e, size) == weighted_rows(m, u, z, rows) + sdot(ints(start), z, n));
    lemma_after_rows(start, m, u, z, n, rows);
}

/// The quotient. Over a domain that holds the constraints and the instance
/// variables and whose transforms are those of polynomials, for a
/// well-formed constraint system with an assignment that satisfies every
/// constraint, the coefficients that the witness map gives are those of the
/// quotient, at every point `t`.
pub proof fn lemma_quotient(cs: ConstraintSystem, size: nat, t: nat)
    requires
        cs.well_formed(),
        cs.assigned(),
        satisfied(cs),
        is_domain_model(size),
        cs.num_constraints + cs.num_instance_variables <= size,
        coset_inverse_holds(size),
    ensures
        quotient_coefficients(cs, size).len() == size,
        quotient_holds(cs, size, t, quotient_coefficients(cs, size)),
{
    let z = cs.full_assignment();
    let n = cs.num_variables();
    let ni = cs.num_instance_variables as nat;
    let rows = cs.num_constraints as nat;
    let u = lagrange_coefficients(size, t);
    let ea = row_values(cs.a@, z, ni, size);
    let eb = row_values(cs.b@, z, 0, size);
    let ec = row_values(cs.c@, z, 0, size);
    let vz = vanishing_at(size, coset_shift());
    let vinv = fr_inv(vz);
    lemma_fr_mul(vz, vinv);
    assert(u.len() == size);
    // the values on the domain multiply place by place
    assert forall|k: int| 0 <= k < size implies cong(
        (#[trigger] ea[k] as int) * (eb[k] as int),
        ec[k] as int,
    ) by {
        if k < rows {
            assert(cong(
                (row_value(cs.a@[k]@, z, cs.a@[k]@.len()) as int) * (row_value(
                    cs.b@[k]@,
                    z,
                    cs.b@[k]@.len(),
                ) as int),
                row_value(cs.c@[k]@, z, cs.c@[k]@.len()) as int,
            ));
        } else {
            assert((ea[k] as int) * 0 == 0);
        }
    }
    assert(pointwise(ea, eb, ec, size));
    let h = quotient_of(size, ea, eb, ec, vinv);
    assert(h == quotient_coefficients(cs, size));
    assert(division_law(size, ea, eb, ec, vinv, t));
    assert(interpolation_law(size, ea, t));
    assert(interpolation_law(size, eb, t));
    assert(interpolation_law(size, ec, t));
    // the values on the domain against the evaluations of the variables
    let start_a = Seq::new(n, |j: int| instance_start(cs, u, j));
    let zeros = Seq::new(n, |j: int| 0nat);
    lemma_exchange(cs.a@, u, z, start_a, ni, size, n);
    lemma_exchange(cs.b@, u, z, zeros, 0, size, n);
    lemma_exchange(cs.c@, u, z, zeros, 0, size, n);
    assert(ints(after_rows(start_a, cs.a@, u, n, rows)) =~= a_values(cs, size, t));
    assert(ints(after_rows(zeros, cs.b@, u, n, rows)) =~= b_values(cs, size, t));
    assert(ints(after_rows(zeros, cs.c@, u, n, rows)) =~= c_values(cs, size, t));
    let az = sdot(a_values(cs, size, t), z, n);
    let bz = sdot(b_values(cs, size, t), z, n);
    let cz = sdot(c_values(cs, size, t), z, n);
    let pa = poly_at(ifft_values(size, ea), t, size);
    let pb = poly_at(ifft_values(size, eb), t, size);
    let pc = poly_at(ifft_values(size, ec), t, size);
    assert(cong(pa, az));
    assert(cong(pb, bz));
    assert(cong(pc, cz));
    lemma_cong_mul(pa, az, pb, bz);
    lemma_cong_mul(-1, -1, pc, cz);
    lemma_cong_add(pa * pb, az * bz, -1 * pc, -1 * cz);
    let hv = poly_at(h, t, (size - 1) as nat);
    let zt = vanishing_at(size, t) as int;
    assert(hv * zt == zt * hv) by (nonlinear_arith);
}

} // verus!
