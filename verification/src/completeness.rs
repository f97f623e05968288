use vstd::prelude::*;
use crate::data_structures::ProvingKeyCommonView;
use crate::data_structures::VerifyingKeyView;
use crate::domain::vanishing_at;
use crate::error::Error;
use crate::field::fr_add;
use crate::field::fr_inv;
use crate::field::fr_mul;
use crate::field::fr_pow;
use crate::field::scalar_values;
use crate::field::shorter;
use crate::data_structures::ProofWithLink;
use crate::data_structures::ProvingKeyWithLink;
use crate::g1::G1Point;
use crate::g1::g1_identity;
use crate::g1::g1_views;
use crate::link::complete::col_row;
use crate::link::complete::img;
use crate::link::complete::lemma_subspace_accepts;
use crate::link::matrix::CoeffPos;
use crate::link::matrix::col_within;
use crate::link::snark::is_key_pair;
use crate::verification::link_outcome;
use crate::g1::g1_lincomb;
use crate::g1::g1_neg;
use crate::g1::g1_scale;
use crate::g1::g1_sum;
use crate::g2::g2_lincomb;
use crate::g2::g2_neg;
use crate::g2::g2_scale;
use crate::g2::g2_sum;
use crate::generator::ToxicWaste;
use crate::generator::combined;
use crate::generator::h_scalar;
use crate::generator::inverses_hold;
use crate::generator::is_proving_key_common;
use crate::generator::link_columns;
use crate::generator::is_verifying_key;
use crate::generator::qap_a;
use crate::generator::qap_b;
use crate::generator::qap_c;
use crate::model::Reading;
use crate::model::cong;
use crate::model::is_model;
use crate::model::lemma_cong_add;
use crate::model::lemma_cong_mul;
use crate::model::lemma_fr_add;
use crate::model::lemma_fr_mul;
use crate::model::lemma_lin_scaled;
use crate::model::lemma_lincomb_g1;
use crate::model::lemma_lincomb_g2;
use crate::model::lemma_sdot_ext;
use crate::model::lemma_sdot_linear;
use crate::model::lemma_sdot_split;
use crate::model::lin;
use crate::model::pair_dot;
use crate::model::sdot;
use crate::pairing::g2_prepared;
use crate::domain::lemma_domain_size;
use crate::quotient::is_domain_model;
use crate::quotient::lemma_quotient;
use crate::quotient::powers;
use crate::quotient::satisfied;
use crate::r1cs_to_qap::coset_inverse_holds;
use crate::r1cs_to_qap::domain_of;
use crate::r1cs_to_qap::quotient_coefficients;
use crate::prover::coeff_g1;
use crate::prover::coeff_g2;
use crate::prover::committed_witnesses;
use crate::prover::created_proof;
use crate::prover::proof_a;
use crate::prover::proof_b;
use crate::prover::proof_b_g1;
use crate::prover::proof_c;
use crate::prover::query_assignment;
use crate::prover::uncommitted_witnesses;
use crate::r1cs::ConstraintSystem;
use crate::verification::full_commitment;
use crate::verification::inputs_sum;
use crate::verification::prepared;
use crate::verification::prepared_inputs;
use crate::verification::proof_outcome;
use crate::verification::witness_commitment;

verus! {

/// For each variable, the value at `t` of its polynomial of the first
/// matrix.
pub open spec fn a_values(cs: ConstraintSystem, size: nat, t: nat) -> Seq<int> {
    Seq::new(cs.num_variables(), |j: int| qap_a(cs, size, t, j) as int)
}

/// For each variable, the value at `t` of its polynomial of the second
/// matrix.
pub open spec fn b_values(cs: ConstraintSystem, size: nat, t: nat) -> Seq<int> {
    Seq::new(cs.num_variables(), |j: int| qap_b(cs, size, t, j) as int)
}

/// For each variable, the value at `t` of its polynomial of the third
/// matrix.
pub open spec fn c_values(cs: ConstraintSystem, size: nat, t: nat) -> Seq<int> {
    Seq::new(cs.num_variables(), |j: int| qap_c(cs, size, t, j) as int)
}

/// Whether `h` holds the coefficients of the quotient of an assigned
/// constraint system, as far as the point `t` shows: the values at `t` of
/// the first two matrices' polynomials under the assignment, multiplied,
/// less that of the third's, are the value of the vanishing polynomial
/// times the value at `t` of the polynomial with the coefficients `h`, of a
/// degree below the domain's size less one.
pub open spec fn quotient_holds(cs: ConstraintSystem, size: nat, t: nat, h: Seq<nat>) -> bool {
    let z = cs.full_assignment();
    let n = cs.num_variables();
    cong(
        sdot(a_values(cs, size, t), z, n) * sdot(b_values(cs, size, t), z, n) - sdot(
            c_values(cs, size, t),
            z,
            n,
        ),
        (vanishing_at(size, t) as int) * sdot(powers(t, (size - 1) as nat), h, (size - 1) as nat),
    )
}

proof fn lemma_cong_scale(c: int, a: int, b: int)
    requires
        cong(a, b),
    ensures
        cong(c * a, c * b),
{
    lemma_cong_mul(c, c, a, b);
}

proof fn lemma_cong_neg(a: int, b: int)
    requires
        cong(a, b),
    ensures
        cong(-a, -b),
{
    lemma_cong_mul(-1, -1, a, b);
    assert(-1 * a == -a);
    assert(-1 * b == -b);
}

/// A number that adds up to zero with another is its negative.
proof fn lemma_cong_inverse(n: int, a: int, b: int)
    requires
        cong(n + a, 0),
        cong(a, b),
    ensures
        cong(n, -b),
{
    lemma_cong_neg(a, b);
    lemma_cong_add(n + a, 0, -a, -b);
}

/// In a model, a point taken as many times as a scalar says reads as the
/// reading of the point times the scalar.
proof fn lemma_scale_g1(l1: Reading, l2: Reading, lp: Reading, p: Seq<u8>, s: nat, c: int, u: int)
    requires
        is_model(l1, l2, lp),
        cong(l1(p), c * u),
    ensures
        cong(l1(g1_scale(p, s)), c * (u * (s as int))),
{
    assert(cong(l1(g1_scale(p, s)), l1(p) * (s as int)));
    lemma_cong_mul(l1(p), c * u, s as int, s as int);
    assert(c * u * (s as int) == c * (u * (s as int))) by (nonlinear_arith);
}

proof fn lemma_scale_g2(l1: Reading, l2: Reading, lp: Reading, p: Seq<u8>, s: nat, c: int, u: int)
    requires
        is_model(l1, l2, lp),
        cong(l2(p), c * u),
    ensures
        cong(l2(g2_scale(p, s)), c * (u * (s as int))),
{
    assert(cong(l2(g2_scale(p, s)), l2(p) * (s as int)));
    lemma_cong_mul(l2(p), c * u, s as int, s as int);
    assert(c * u * (s as int) == c * (u * (s as int))) by (nonlinear_arith);
}

/// In a model, a generator taken as many times as a scalar says reads as
/// the reading of the generator times the scalar.
proof fn lemma_base_g1(l1: Reading, l2: Reading, lp: Reading, g: Seq<u8>, s: nat)
    requires
        is_model(l1, l2, lp),
    ensures
        cong(l1(g1_scale(g, s)), l1(g) * (s as int)),
{
}

proof fn lemma_base_g2(l1: Reading, l2: Reading, lp: Reading, g: Seq<u8>, s: nat)
    requires
        is_model(l1, l2, lp),
    ensures
        cong(l2(g2_scale(g, s)), l2(g) * (s as int)),
{
}

/// In a model, the sum that makes `a` and `b` of a proof reads as `c`
/// times: what `initial` stands for, the first number of the query, the
/// rest of the query multiplied into the assignment, and what the key's
/// element stands for.
proof fn lemma_coeff_g1(
    l1: Reading,
    l2: Reading,
    lp: Reading,
    initial: Seq<u8>,
    query: Seq<Seq<u8>>,
    param: Seq<u8>,
    asg: Seq<nat>,
    c: int,
    init_val: int,
    u: Seq<int>,
    param_val: int,
)
    requires
        is_model(l1, l2, lp),
        query.len() >= 1,
        asg.len() == query.len() - 1,
        u.len() == query.len(),
        cong(l1(initial), c * init_val),
        forall|j: int| 0 <= j < query.len() ==> cong(l1(#[trigger] query[j]), c * u[j]),
        cong(l1(param), c * param_val),
    ensures
        cong(
            l1(coeff_g1(initial, query, param, asg)),
            c * (init_val + u[0] + sdot(u.skip(1), asg, asg.len()) + param_val),
        ),
{
    let n = asg.len();
    let rest = query.skip(1);
    let lc = g1_lincomb(rest, asg, n);
    assert(shorter((query.len() - 1) as nat, asg.len()) == n);
    lemma_lincomb_g1(l1, l2, lp, rest, asg, n);
    assert forall|j: int| 0 <= j < n implies cong(l1(#[trigger] rest[j]), c * u.skip(1)[j]) by {
        assert(rest[j] == query[j + 1]);
    }
    lemma_lin_scaled(l1, rest, asg, c, u.skip(1), n);
    let sd = sdot(u.skip(1), asg, n);
    let s1 = g1_sum(initial, query[0]);
    let s2 = g1_sum(s1, lc);
    assert(cong(l1(s1), l1(initial) + l1(query[0])));
    lemma_cong_add(l1(initial), c * init_val, l1(query[0]), c * u[0]);
    assert(cong(l1(s2), l1(s1) + l1(lc)));
    lemma_cong_add(l1(s1), c * init_val + c * u[0], l1(lc), c * sd);
    assert(cong(l1(g1_sum(s2, param)), l1(s2) + l1(param)));
    lemma_cong_add(l1(s2), c * init_val + c * u[0] + c * sd, l1(param), c * param_val);
    let u0 = u[0];
    assert(c * init_val + c * u0 + c * sd + c * param_val == c * (init_val + u0 + sd + param_val))
        by (nonlinear_arith);
}

proof fn lemma_coeff_g2(
    l1: Reading,
    l2: Reading,
    lp: Reading,
    initial: Seq<u8>,
    query: Seq<Seq<u8>>,
    param: Seq<u8>,
    asg: Seq<nat>,
    c: int,
    init_val: int,
    u: Seq<int>,
    param_val: int,
)
    requires
        is_model(l1, l2, lp),
        query.len() >= 1,
        asg.len() == query.len() - 1,
        u.len() == query.len(),
        cong(l2(initial), c * init_val),
        forall|j: int| 0 <= j < query.len() ==> cong(l2(#[trigger] query[j]), c * u[j]),
        cong(l2(param), c * param_val),
    ensures
        cong(
            l2(coeff_g2(initial, query, param, asg)),
            c * (init_val + u[0] + sdot(u.skip(1), asg, asg.len()) + param_val),
        ),
{
    let n = asg.len();
    let rest = query.skip(1);
    let lc = g2_lincomb(rest, asg, n);
    assert(shorter((query.len() - 1) as nat, asg.len()) == n);
    lemma_lincomb_g2(l1, l2, lp, rest, asg, n);
    assert forall|j: int| 0 <= j < n implies cong(l2(#[trigger] rest[j]), c * u.skip(1)[j]) by {
        assert(rest[j] == query[j + 1]);
    }
    lemma_lin_scaled(l2, rest, asg, c, u.skip(1), n);
    let sd = sdot(u.skip(1), asg, n);
    let s1 = g2_sum(initial, query[0]);
    let s2 = g2_sum(s1, lc);
    assert(cong(l2(s1), l2(initial) + l2(query[0])));
    lemma_cong_add(l2(initial), c * init_val, l2(query[0]), c * u[0]);
    assert(cong(l2(s2), l2(s1) + l2(lc)));
    lemma_cong_add(l2(s1), c * init_val + c * u[0], l2(lc), c * sd);
    assert(cong(l2(g2_sum(s2, param)), l2(s2) + l2(param)));
    lemma_cong_add(l2(s2), c * init_val + c * u[0] + c * sd, l2(param), c * param_val);
    let u0 = u[0];
    assert(c * init_val + c * u0 + c * sd + c * param_val == c * (init_val + u0 + sd + param_val))
        by (nonlinear_arith);
}

/// With the constant one in front, the sum over all variables is the
/// first number and the sum over the others.
proof fn lemma_sdot_one(u: Seq<int>, z: Seq<nat>, n: nat)
    requires
        1 <= n,
        n <= u.len(),
        n <= z.len(),
        z[0] == 1,
    ensures
        sdot(u, z, n) == u[0] + sdot(u.skip(1), z.skip(1), (n - 1) as nat),
    decreases n,
{
    if n > 1 {
        lemma_sdot_one(u, z, (n - 1) as nat);
    } else {
        assert(sdot(u, z, 0) == 0);
        assert(u[0] * 1 == u[0]);
    }
}

/// What the setting of the completeness of the argument consists of: a
/// model, a well-formed and assigned constraint system whose first
/// variable has the value one, and the keys that some secret scalars with
/// inverses of `gamma` and `delta`, a point and two generators give for it.
pub open spec fn is_setting(
    l1: Reading,
    l2: Reading,
    lp: Reading,
    cs: ConstraintSystem,
    w: ToxicWaste,
    t: nat,
    g1: Seq<u8>,
    g2: Seq<u8>,
    size: nat,
    vk: VerifyingKeyView,
    common: ProvingKeyCommonView,
) -> bool {
    &&& is_model(l1, l2, lp)
    &&& cs.well_formed()
    &&& cs.assigned()
    &&& cs.instance_assignment@[0]@ == 1
    &&& size >= 1
    &&& inverses_hold(w)
    &&& is_verifying_key(cs, w, t, g1, g2, size, vk)
    &&& is_proving_key_common(cs, w, t, g1, g2, size, common)
}

/// The assignment that the queries are multiplied into is the full
/// assignment without the constant one.
proof fn lemma_query_assignment(cs: ConstraintSystem)
    requires
        cs.well_formed(),
        cs.assigned(),
    ensures
        query_assignment(cs) == cs.full_assignment().skip(1),
        query_assignment(cs).len() == cs.num_variables() - 1,
        cs.full_assignment().len() == cs.num_variables(),
{
    assert(query_assignment(cs) =~= cs.full_assignment().skip(1));
}

proof fn lemma_reading_a(
    l1: Reading,
    l2: Reading,
    lp: Reading,
    cs: ConstraintSystem,
    w: ToxicWaste,
    t: nat,
    g1: Seq<u8>,
    g2: Seq<u8>,
    size: nat,
    vk: VerifyingKeyView,
    common: ProvingKeyCommonView,
    r: nat,
)
    requires
        is_setting(l1, l2, lp, cs, w, t, g1, g2, size, vk, common),
    ensures
        cong(
            l1(proof_a(cs, common, vk, r)),
            l1(g1) * ((w.delta@ as int) * (r as int) + sdot(
                a_values(cs, size, t),
                cs.full_assignment(),
                cs.num_variables(),
            ) + (w.alpha@ as int)),
        ),
{
    let g = l1(g1);
    let z = cs.full_assignment();
    let n = cs.num_variables();
    let u = a_values(cs, size, t);
    lemma_query_assignment(cs);
    lemma_base_g1(l1, l2, lp, g1, w.delta@);
    lemma_scale_g1(l1, l2, lp, common.delta_g1, r, g, w.delta@ as int);
    lemma_base_g1(l1, l2, lp, g1, w.alpha@);
    assert forall|j: int| 0 <= j < common.a_query.len() implies cong(
        l1(#[trigger] common.a_query[j]),
        g * u[j],
    ) by {
        lemma_base_g1(l1, l2, lp, g1, qap_a(cs, size, t, j));
    }
    lemma_coeff_g1(
        l1,
        l2,
        lp,
        g1_scale(common.delta_g1, r),
        common.a_query,
        vk.alpha_g1,
        query_assignment(cs),
        g,
        (w.delta@ as int) * (r as int),
        u,
        w.alpha@ as int,
    );
    lemma_sdot_one(u, z, n);
}

proof fn lemma_reading_b1(
    l1: Reading,
    l2: Reading,
    lp: Reading,
    cs: ConstraintSystem,
    w: ToxicWaste,
    t: nat,
    g1: Seq<u8>,
    g2: Seq<u8>,
    size: nat,
    vk: VerifyingKeyView,
    common: ProvingKeyCommonView,
    r: nat,
    s: nat,
)
    requires
        is_setting(l1, l2, lp, cs, w, t, g1, g2, size, vk, common),
    ensures
        cong(
            l1(proof_b_g1(cs, common, r, s)) * (r as int),
            l1(g1) * ((w.delta@ as int) * (s as int) + sdot(
                b_values(cs, size, t),
                cs.full_assignment(),
                cs.num_variables(),
            ) + (w.beta@ as int)) * (r as int),
        ),
{
    let g = l1(g1);
    let z = cs.full_assignment();
    let n = cs.num_variables();
    let u = b_values(cs, size, t);
    if r != 0 {
        lemma_query_assignment(cs);
        lemma_base_g1(l1, l2, lp, g1, w.delta@);
        lemma_scale_g1(l1, l2, lp, common.delta_g1, s, g, w.delta@ as int);
        lemma_base_g1(l1, l2, lp, g1, w.beta@);
        assert forall|j: int| 0 <= j < common.b_g1_query.len() implies cong(
            l1(#[trigger] common.b_g1_query[j]),
            g * u[j],
        ) by {
            lemma_base_g1(l1, l2, lp, g1, qap_b(cs, size, t, j));
        }
        lemma_coeff_g1(
            l1,
            l2,
            lp,
            g1_scale(common.delta_g1, s),
            common.b_g1_query,
            common.beta_g1,
            query_assignment(cs),
            g,
            (w.delta@ as int) * (s as int),
            u,
            w.beta@ as int,
        );
        lemma_sdot_one(u, z, n);
        lemma_cong_mul(
            l1(proof_b_g1(cs, common, r, s)),
            g * ((w.delta@ as int) * (s as int) + sdot(u, z, n) + (w.beta@ as int)),
            r as int,
            r as int,
        );
    } else {
        let x = l1(proof_b_g1(cs, common, r, s));
        let y = g * ((w.delta@ as int) * (s as int) + sdot(u, z, n) + (w.beta@ as int));
        assert(x * 0 == 0);
        assert(y * 0 == 0);
    }
}

proof fn lemma_reading_b2(
    l1: Reading,
    l2: Reading,
    lp: Reading,
    cs: ConstraintSystem,
    w: ToxicWaste,
    t: nat,
    g1: Seq<u8>,
    g2: Seq<u8>,
    size: nat,
    vk: VerifyingKeyView,
    common: ProvingKeyCommonView,
    s: nat,
)
    requires
        is_setting(l1, l2, lp, cs, w, t, g1, g2, size, vk, common),
    ensures
        cong(
            l2(proof_b(cs, common, vk, s)),
            l2(g2) * ((w.delta@ as int) * (s as int) + sdot(
                b_values(cs, size, t),
                cs.full_assignment(),
                cs.num_variables(),
            ) + (w.beta@ as int)),
        ),
{
    let g = l2(g2);
    let z = cs.full_assignment();
    let n = cs.num_variables();
    let u = b_values(cs, size, t);
    lemma_query_assignment(cs);
    lemma_base_g2(l1, l2, lp, g2, w.delta@);
    lemma_scale_g2(l1, l2, lp, vk.delta_g2, s, g, w.delta@ as int);
    lemma_base_g2(l1, l2, lp, g2, w.beta@);
    assert forall|j: int| 0 <= j < common.b_g2_query.len() implies cong(
        l2(#[trigger] common.b_g2_query[j]),
        g * u[j],
    ) by {
        lemma_base_g2(l1, l2, lp, g2, qap_b(cs, size, t, j));
    }
    lemma_coeff_g2(
        l1,
        l2,
        lp,
        g2_scale(vk.delta_g2, s),
        common.b_g2_query,
        vk.beta_g2,
        query_assignment(cs),
        g,
        (w.delta@ as int) * (s as int),
        u,
        w.beta@ as int,
    );
    lemma_sdot_one(u, z, n);
}

/// What `a` of a proof stands for, but for the generator: `delta` times
/// `r`, the first matrix under the assignment, and `alpha`.
pub open spec fn a_exponent(cs: ConstraintSystem, w: ToxicWaste, t: nat, size: nat, r: nat) -> int {
    (w.delta@ as int) * (r as int) + sdot(
        a_values(cs, size, t),
        cs.full_assignment(),
        cs.num_variables(),
    ) + (w.alpha@ as int)
}

/// What `b` of a proof stands for, but for the generator: `delta` times
/// `s`, the second matrix under the assignment, and `beta`.
pub open spec fn b_exponent(cs: ConstraintSystem, w: ToxicWaste, t: nat, size: nat, s: nat) -> int {
    (w.delta@ as int) * (s as int) + sdot(
        b_values(cs, size, t),
        cs.full_assignment(),
        cs.num_variables(),
    ) + (w.beta@ as int)
}

/// The value at `t` of the polynomial with the coefficients `h`, as far as
/// the query for the quotient reaches.
pub open spec fn h_value(t: nat, size: nat, h: Seq<nat>) -> int {
    sdot(powers(t, (size - 1) as nat), h, (size - 1) as nat)
}

/// What `c` of a proof stands for, but for the generator.
pub open spec fn c_exponent(
    cs: ConstraintSystem,
    w: ToxicWaste,
    t: nat,
    size: nat,
    r: nat,
    s: nat,
    v: nat,
    h: Seq<nat>,
) -> int {
    let di = fr_inv(w.delta@) as int;
    a_exponent(cs, w, t, size, r) * (s as int) + b_exponent(cs, w, t, size, s) * (r as int) - (
    w.delta@ as int) * (r as int) * (s as int) + (vanishing_at(size, t) as int) * di * h_value(
        t,
        size,
        h,
    ) - (w.eta@ as int) * di * (v as int)
}

proof fn lemma_reading_h(
    l1: Reading,
    l2: Reading,
    lp: Reading,
    cs: ConstraintSystem,
    w: ToxicWaste,
    t: nat,
    g1: Seq<u8>,
    g2: Seq<u8>,
    size: nat,
    vk: VerifyingKeyView,
    common: ProvingKeyCommonView,
    h: Seq<nat>,
)
    requires
        is_setting(l1, l2, lp, cs, w, t, g1, g2, size, vk, common),
        h.len() >= size - 1,
    ensures
        cong(
            l1(g1_lincomb(common.h_query, h, shorter(common.h_query.len(), h.len()))),
            l1(g1) * ((vanishing_at(size, t) as int) * (fr_inv(w.delta@) as int) * h_value(
                t,
                size,
                h,
            )),
        ),
{
    let g = l1(g1);
    let zt = vanishing_at(size, t) as int;
    let di = fr_inv(w.delta@) as int;
    let n = (size - 1) as nat;
    let c = g * (zt * di);
    let u = powers(t, n);
    assert(shorter(common.h_query.len(), h.len()) == n);
    lemma_lincomb_g1(l1, l2, lp, common.h_query, h, n);
    assert forall|i: int| 0 <= i < n implies cong(l1(#[trigger] common.h_query[i]), c * u[i]) by {
        let pw = fr_pow(t, i as nat);
        let first = fr_mul(vanishing_at(size, t), fr_inv(w.delta@));
        lemma_base_g1(l1, l2, lp, g1, h_scalar(size, t, w.delta@, i as nat));
        lemma_fr_mul(first, pw);
        lemma_fr_mul(vanishing_at(size, t), fr_inv(w.delta@));
        lemma_cong_mul(first as int, zt * di, pw as int, pw as int);
        lemma_cong_scale(g, h_scalar(size, t, w.delta@, i as nat) as int, zt * di * (pw as int));
        let pwi = pw as int;
        assert(g * (zt * di * pwi) == g * (zt * di) * pwi) by (nonlinear_arith);
    }
    lemma_lin_scaled(l1, common.h_query, h, c, u, n);
    let hv = h_value(t, size, h);
    assert(g * (zt * di) * hv == g * (zt * di * hv)) by (nonlinear_arith);
}

proof fn lemma_reading_c(
    l1: Reading,
    l2: Reading,
    lp: Reading,
    cs: ConstraintSystem,
    w: ToxicWaste,
    t: nat,
    g1: Seq<u8>,
    g2: Seq<u8>,
    size: nat,
    vk: VerifyingKeyView,
    common: ProvingKeyCommonView,
    r: nat,
    s: nat,
    v: nat,
    h: Seq<nat>,
)
    requires
        is_setting(l1, l2, lp, cs, w, t, g1, g2, size, vk, common),
        h.len() >= size - 1,
    ensures
        cong(
            l1(proof_c(cs, common, vk, r, s, v, h)),
            l1(g1) * c_exponent(cs, w, t, size, r, s, v, h),
        ),
{
    let g = l1(g1);
    let de = w.delta@ as int;
    let et = w.eta@ as int;
    let di = fr_inv(w.delta@) as int;
    let zt = vanishing_at(size, t) as int;
    let (ri, si, vi) = (r as int, s as int, v as int);
    let ra = a_exponent(cs, w, t, size, r);
    let rb = b_exponent(cs, w, t, size, s);
    let hv = h_value(t, size, h);
    // the six terms
    let pa = proof_a(cs, common, vk, r);
    let s_a = g1_scale(pa, s);
    lemma_reading_a(l1, l2, lp, cs, w, t, g1, g2, size, vk, common, r);
    lemma_scale_g1(l1, l2, lp, pa, s, g, ra);
    let pb = proof_b_g1(cs, common, r, s);
    let r_b = g1_scale(pb, r);
    lemma_reading_b1(l1, l2, lp, cs, w, t, g1, g2, size, vk, common, r, s);
    assert(cong(l1(r_b), l1(pb) * ri));
    assert(g * rb * ri == g * (rb * ri)) by (nonlinear_arith);
    let r_delta = g1_scale(common.delta_g1, r);
    let r_s_delta = g1_scale(r_delta, s);
    lemma_base_g1(l1, l2, lp, g1, w.delta@);
    lemma_scale_g1(l1, l2, lp, common.delta_g1, r, g, de);
    lemma_scale_g1(l1, l2, lp, r_delta, s, g, de * ri);
    assert(cong(l1(g1_neg(r_s_delta)) + l1(r_s_delta), 0));
    lemma_cong_inverse(l1(g1_neg(r_s_delta)), l1(r_s_delta), g * (de * ri * si));
    let unc = uncommitted_witnesses(cs, vk);
    let l_aux = g1_lincomb(common.l_query, unc, shorter(common.l_query.len(), unc.len()));
    assert(l_aux == g1_identity());
    let h_acc = g1_lincomb(common.h_query, h, shorter(common.h_query.len(), h.len()));
    lemma_reading_h(l1, l2, lp, cs, w, t, g1, g2, size, vk, common, h);
    let v_eta = g1_scale(common.eta_delta_inv_g1, v);
    lemma_base_g1(l1, l2, lp, g1, fr_mul(w.eta@, fr_inv(w.delta@)));
    lemma_fr_mul(w.eta@, fr_inv(w.delta@));
    lemma_cong_scale(g, fr_mul(w.eta@, fr_inv(w.delta@)) as int, et * di);
    lemma_scale_g1(l1, l2, lp, common.eta_delta_inv_g1, v, g, et * di);
    assert(cong(l1(g1_neg(v_eta)) + l1(v_eta), 0));
    lemma_cong_inverse(l1(g1_neg(v_eta)), l1(v_eta), g * (et * di * vi));
    // the five sums
    let t1 = g1_sum(s_a, r_b);
    let t2 = g1_sum(t1, g1_neg(r_s_delta));
    let t3 = g1_sum(t2, l_aux);
    let t4 = g1_sum(t3, h_acc);
    let t5 = g1_sum(t4, g1_neg(v_eta));
    assert(proof_c(cs, common, vk, r, s, v, h) == t5);
    let e1 = g * (ra * si) + g * (rb * ri);
    let e2 = e1 + (-(g * (de * ri * si)));
    let e4 = e2 + 0 + g * (zt * di * hv);
    let e5 = e4 + (-(g * (et * di * vi)));
    assert(cong(l1(t1), l1(s_a) + l1(r_b)));
    lemma_cong_add(l1(s_a), g * (ra * si), l1(r_b), g * (rb * ri));
    assert(cong(l1(t2), l1(t1) + l1(g1_neg(r_s_delta))));
    lemma_cong_add(l1(t1), e1, l1(g1_neg(r_s_delta)), -(g * (de * ri * si)));
    assert(cong(l1(t3), l1(t2) + l1(l_aux)));
    lemma_cong_add(l1(t2), e2, l1(l_aux), 0);
    assert(cong(l1(t4), l1(t3) + l1(h_acc)));
    lemma_cong_add(l1(t3), e2 + 0, l1(h_acc), g * (zt * di * hv));
    assert(cong(l1(t5), l1(t4) + l1(g1_neg(v_eta))));
    lemma_cong_add(l1(t4), e4, l1(g1_neg(v_eta)), -(g * (et * di * vi)));
    assert(e5 == g * (ra * si + rb * ri - de * ri * si + zt * di * hv - et * di * vi))
        by (nonlinear_arith)
        requires
            e5 == g * (ra * si) + g * (rb * ri) + (-(g * (de * ri * si))) + 0 + g * (zt * di * hv)
                + (-(g * (et * di * vi))),
    ;
}

/// For each variable, `beta` times its first value, `alpha` times its
/// second, and its third.
pub open spec fn abc_values(cs: ConstraintSystem, w: ToxicWaste, t: nat, size: nat) -> Seq<int> {
    Seq::new(
        cs.num_variables(),
        |j: int|
            (w.beta@ as int) * a_values(cs, size, t)[j] + (w.alpha@ as int) * b_values(
                cs,
                size,
                t,
            )[j] + c_values(cs, size, t)[j],
    )
}

/// What the full commitment stands for, but for the generator: the three
/// matrices under the assignment, combined and divided by `gamma`, and
/// `eta` divided by `gamma` times `v`.
pub open spec fn d_exponent(cs: ConstraintSystem, w: ToxicWaste, t: nat, size: nat, v: nat) -> int {
    let z = cs.full_assignment();
    let n = cs.num_variables();
    let gi = fr_inv(w.gamma@) as int;
    gi * ((w.beta@ as int) * sdot(a_values(cs, size, t), z, n) + (w.alpha@ as int) * sdot(
        b_values(cs, size, t),
        z,
        n,
    ) + sdot(c_values(cs, size, t), z, n)) + (w.eta@ as int) * gi * (v as int)
}

proof fn lemma_gamma_abc(
    l1: Reading,
    l2: Reading,
    lp: Reading,
    cs: ConstraintSystem,
    w: ToxicWaste,
    t: nat,
    g1: Seq<u8>,
    g2: Seq<u8>,
    size: nat,
    vk: VerifyingKeyView,
    common: ProvingKeyCommonView,
)
    requires
        is_setting(l1, l2, lp, cs, w, t, g1, g2, size, vk, common),
    ensures
        forall|j: int|
            0 <= j < cs.num_variables() ==> cong(
                l1(#[trigger] vk.gamma_abc_g1[j]),
                l1(g1) * (fr_inv(w.gamma@) as int) * abc_values(cs, w, t, size)[j],
            ),
{
    let g = l1(g1);
    let gi = fr_inv(w.gamma@) as int;
    let (al, be) = (w.alpha@ as int, w.beta@ as int);
    assert forall|j: int| 0 <= j < cs.num_variables() implies cong(
        l1(#[trigger] vk.gamma_abc_g1[j]),
        g * gi * abc_values(cs, w, t, size)[j],
    ) by {
        let (a, b, c) = (qap_a(cs, size, t, j), qap_b(cs, size, t, j), qap_c(cs, size, t, j));
        let comb = combined(w.alpha@, w.beta@, a, b, c);
        let u = abc_values(cs, w, t, size)[j];
        assert(u == be * (a as int) + al * (b as int) + (c as int));
        lemma_base_g1(l1, l2, lp, g1, fr_mul(comb, fr_inv(w.gamma@)));
        lemma_fr_mul(comb, fr_inv(w.gamma@));
        lemma_fr_mul(w.beta@, a);
        lemma_fr_mul(w.alpha@, b);
        let first = fr_add(fr_mul(w.beta@, a), fr_mul(w.alpha@, b));
        lemma_fr_add(fr_mul(w.beta@, a), fr_mul(w.alpha@, b));
        lemma_cong_add(
            fr_mul(w.beta@, a) as int,
            be * (a as int),
            fr_mul(w.alpha@, b) as int,
            al * (b as int),
        );
        lemma_fr_add(first, c);
        lemma_cong_add(first as int, be * (a as int) + al * (b as int), c as int, c as int);
        assert(cong(comb as int, u));
        lemma_cong_mul(comb as int, u, gi, gi);
        lemma_cong_scale(g, fr_mul(comb, fr_inv(w.gamma@)) as int, u * gi);
        assert(g * (u * gi) == g * gi * u) by (nonlinear_arith);
    }
}

proof fn lemma_inputs_sum(
    l: Reading,
    l2: Reading,
    lp: Reading,
    ga: Seq<Seq<u8>>,
    inputs: Seq<nat>,
    z: Seq<nat>,
    c: int,
    u: Seq<int>,
    n: nat,
)
    requires
        is_model(l, l2, lp),
        n <= inputs.len(),
        n + 1 <= ga.len(),
        n + 1 <= z.len(),
        z[0] == 1,
        forall|m: int| 1 <= m <= n ==> z[m] == inputs[m - 1],
        forall|j: int| 0 <= j <= n ==> cong(l(#[trigger] ga[j]), c * u[j]),
    ensures
        cong(l(inputs_sum(ga, inputs, n)), c * sdot(u, z, n + 1)),
    decreases n,
{
    if n > 0 {
        let m = (n - 1) as nat;
        lemma_inputs_sum(l, l2, lp, ga, inputs, z, c, u, m);
        let prev = inputs_sum(ga, inputs, m);
        let term = g1_scale(ga[n as int], inputs[n - 1]);
        let zz = z[n as int] as int;
        assert(cong(l(g1_sum(prev, term)), l(prev) + l(term)));
        assert(cong(l(term), l(ga[n as int]) * (inputs[n - 1] as int)));
        assert(cong(l(ga[n as int]), c * u[n as int]));
        lemma_cong_mul(l(ga[n as int]), c * u[n as int], zz, zz);
        lemma_cong_add(l(prev), c * sdot(u, z, n), l(term), c * u[n as int] * zz);
        let (sd, un) = (sdot(u, z, n), u[n as int]);
        assert(c * sd + c * un * zz == c * (sd + un * zz)) by (nonlinear_arith);
    } else {
        assert(sdot(u, z, 0) == 0);
        assert(sdot(u, z, 1) == u[0] * 1);
        assert(cong(l(ga[0]), c * u[0]));
    }
}

proof fn lemma_reading_d(
    l1: Reading,
    l2: Reading,
    lp: Reading,
    cs: ConstraintSystem,
    w: ToxicWaste,
    t: nat,
    g1: Seq<u8>,
    g2: Seq<u8>,
    size: nat,
    vk: VerifyingKeyView,
    common: ProvingKeyCommonView,
    v: nat,
)
    requires
        is_setting(l1, l2, lp, cs, w, t, g1, g2, size, vk, common),
    ensures
        cong(
            l1(
                full_commitment(
                    vk.gamma_abc_g1,
                    scalar_values(cs.instance_assignment@.skip(1)),
                    witness_commitment(
                        vk,
                        (cs.num_instance_variables - 1) as nat,
                        committed_witnesses(cs, vk),
                        v,
                    ),
                ),
            ),
            l1(g1) * d_exponent(cs, w, t, size, v),
        ),
{
    let g = l1(g1);
    let gi = fr_inv(w.gamma@) as int;
    let et = w.eta@ as int;
    let vi = v as int;
    let c = g * gi;
    let z = cs.full_assignment();
    let n = cs.num_variables();
    let ni = cs.num_instance_variables as nat;
    let nw = cs.num_witness_variables as nat;
    let u = abc_values(cs, w, t, size);
    let ga = vk.gamma_abc_g1;
    let inputs = scalar_values(cs.instance_assignment@.skip(1));
    lemma_gamma_abc(l1, l2, lp, cs, w, t, g1, g2, size, vk, common);
    // the part of the public inputs
    let prep = prepared_inputs(ga, inputs);
    assert(inputs.len() == ni - 1);
    assert(z.len() == n);
    assert(z[0] == 1);
    assert forall|m: int| 1 <= m <= ni - 1 implies z[m] == inputs[m - 1] by {}
    if inputs.len() > 2 {
        let ones = seq![1nat] + inputs;
        lemma_lincomb_g1(l1, l2, lp, ga, ones, ni);
        lemma_lin_scaled(l1, ga, ones, c, u, ni);
        lemma_sdot_ext(u, ones, u, z, ni);
    } else {
        lemma_inputs_sum(l1, l2, lp, ga, inputs, z, c, u, (ni - 1) as nat);
    }
    assert(cong(l1(prep), c * sdot(u, z, ni)));
    // the part of the witnesses
    let committed = committed_witnesses(cs, vk);
    assert(committed =~= z.subrange(ni as int, n as int));
    let sub = ga.subrange(ni as int, n as int);
    let lc = g1_lincomb(sub, committed, nw);
    lemma_lincomb_g1(l1, l2, lp, sub, committed, nw);
    let usub = u.subrange(ni as int, n as int);
    assert forall|j: int| 0 <= j < nw implies cong(l1(#[trigger] sub[j]), c * usub[j]) by {
        assert(sub[j] == ga[ni + j]);
    }
    lemma_lin_scaled(l1, sub, committed, c, usub, nw);
    let blind = g1_scale(vk.eta_gamma_inv_g1, v);
    lemma_base_g1(l1, l2, lp, g1, fr_mul(w.eta@, fr_inv(w.gamma@)));
    lemma_fr_mul(w.eta@, fr_inv(w.gamma@));
    lemma_cong_scale(g, fr_mul(w.eta@, fr_inv(w.gamma@)) as int, et * gi);
    lemma_scale_g1(l1, l2, lp, vk.eta_gamma_inv_g1, v, g, et * gi);
    let d = g1_sum(lc, blind);
    assert(d == witness_commitment(vk, (ni - 1) as nat, committed, v));
    assert(cong(l1(d), l1(lc) + l1(blind)));
    lemma_cong_add(l1(lc), c * sdot(usub, committed, nw), l1(blind), g * (et * gi * vi));
    let full = g1_sum(prep, d);
    assert(cong(l1(full), l1(prep) + l1(d)));
    lemma_cong_add(
        l1(prep),
        c * sdot(u, z, ni),
        l1(d),
        c * sdot(usub, committed, nw) + g * (et * gi * vi),
    );
    lemma_sdot_split(u, z, ni, n);
    let (s1, s2) = (sdot(u, z, ni), sdot(usub, committed, nw));
    assert(sdot(u, z, n) == s1 + s2);
    let (al, be) = (w.alpha@ as int, w.beta@ as int);
    lemma_sdot_linear(
        be,
        al,
        a_values(cs, size, t),
        b_values(cs, size, t),
        c_values(cs, size, t),
        u,
        z,
        n,
    );
    let lincomb = be * sdot(a_values(cs, size, t), z, n) + al * sdot(b_values(cs, size, t), z, n)
        + sdot(c_values(cs, size, t), z, n);
    assert(g * gi * s1 + (g * gi * s2 + g * (et * gi * vi)) == g * (gi * (s1 + s2) + et * gi * vi))
        by (nonlinear_arith);
}

/// The pairing equation in the exponent: with `delta` and `gamma` times
/// their inverses one and the quotient in place, the products of what the
/// three pairs of a verification stand for add up to `alpha` times `beta`,
/// each times the reading of its generator.
proof fn lemma_pairing_equation(
    g: int,
    k: int,
    al: int,
    be: int,
    ga: int,
    de: int,
    et: int,
    gi: int,
    di: int,
    az: int,
    bz: int,
    cz: int,
    zt: int,
    hv: int,
    r: int,
    s: int,
    v: int,
)
    requires
        cong(de * di, 1),
        cong(ga * gi, 1),
        cong(az * bz - cz, zt * hv),
    ensures
        ({
            let ra = de * r + az + al;
            let rb = de * s + bz + be;
            let rc = ra * s + rb * r - de * r * s + zt * di * hv - et * di * v;
            let rd = gi * (be * az + al * bz + cz) + et * gi * v;
            cong(
                (g * ra) * (k * rb) + (g * rc) * (-(k * de)) + (g * rd) * (-(k * ga)),
                (g * al) * (k * be),
            )
        }),
{
    let ra = de * r + az + al;
    let rb = de * s + bz + be;
    let rc = ra * s + rb * r - de * r * s + zt * di * hv - et * di * v;
    let rd = gi * (be * az + al * bz + cz) + et * gi * v;
    let x = (ra * s + rb * r - de * r * s) * de;
    let y = zt * hv - et * v;
    let w = be * az + al * bz + cz + et * v;
    let dd = de * di;
    let gg = ga * gi;
    let m1 = zt * hv;
    let m2 = et * v;
    let p = ra * s + rb * r - de * r * s;
    assert(zt * di * hv == di * m1) by (nonlinear_arith)
        requires
            m1 == zt * hv,
    ;
    assert(et * di * v == di * m2) by (nonlinear_arith)
        requires
            m2 == et * v,
    ;
    assert(di * m1 - di * m2 == di * y) by (nonlinear_arith)
        requires
            y == m1 - m2,
    ;
    assert(rc == p + di * y);
    assert((p + di * y) * de == p * de + dd * y) by (nonlinear_arith)
        requires
            dd == de * di,
    ;
    assert(rc * de == x + dd * y);
    let tt = be * az + al * bz + cz;
    assert(et * gi * v == gi * m2) by (nonlinear_arith)
        requires
            m2 == et * v,
    ;
    assert(gi * tt + gi * m2 == gi * w) by (nonlinear_arith)
        requires
            w == tt + m2,
    ;
    assert(rd == gi * w);
    assert((gi * w) * ga == gg * w) by (nonlinear_arith)
        requires
            gg == ga * gi,
    ;
    assert(rd * ga == gg * w);
    lemma_cong_mul(dd, 1, y, y);
    lemma_cong_add(x, x, dd * y, 1 * y);
    lemma_cong_mul(gg, 1, w, w);
    assert(cong(rc * de, x + y));
    assert(cong(rd * ga, w));
    let inner = ra * rb - rc * de - rd * ga;
    lemma_cong_neg(rc * de, x + y);
    lemma_cong_neg(rd * ga, w);
    lemma_cong_add(ra * rb, ra * rb, -(rc * de), -(x + y));
    lemma_cong_add(ra * rb + (-(rc * de)), ra * rb + (-(x + y)), -(rd * ga), -w);
    let q = az * bz - cz;
    let ap = az + al;
    let bp = bz + be;
    assert(ra * rb - x == ap * bp) by (nonlinear_arith)
        requires
            ra == de * r + ap,
            rb == de * s + bp,
            x == (ra * s + rb * r - de * r * s) * de,
    ;
    assert(ap * bp == az * bz + az * be + al * bz + al * be) by (nonlinear_arith)
        requires
            ap == az + al,
            bp == bz + be,
    ;
    assert(be * az == az * be) by (nonlinear_arith);
    assert(ra * rb + (-(x + y)) + (-w) == al * be + q - zt * hv);
    lemma_cong_add(al * be, al * be, q, zt * hv);
    lemma_cong_add(al * be + q, al * be + zt * hv, -(zt * hv), -(zt * hv));
    assert(cong(inner, al * be));
    lemma_cong_scale(g * k, inner, al * be);
    let gk = g * k;
    let (ab, cd, dg) = (ra * rb, rc * de, rd * ga);
    assert((g * ra) * (k * rb) == gk * ab) by (nonlinear_arith)
        requires
            gk == g * k,
            ab == ra * rb,
    ;
    assert((g * rc) * (-(k * de)) == -(gk * cd)) by (nonlinear_arith)
        requires
            gk == g * k,
            cd == rc * de,
    ;
    assert((g * rd) * (-(k * ga)) == -(gk * dg)) by (nonlinear_arith)
        requires
            gk == g * k,
            dg == rd * ga,
    ;
    assert(gk * ab + (-(gk * cd)) + (-(gk * dg)) == gk * inner) by (nonlinear_arith)
        requires
            inner == ab - cd - dg,
    ;
    assert(g * k * (al * be) == (g * al) * (k * be)) by (nonlinear_arith);
}

/// In every model of the pairing groups: for a well-formed constraint
/// system with an assignment whose first variable is one, keys that a setup
/// gives for it, and coefficients `h` for which the quotient holds at the
/// point of the setup, the proof that proving makes with any blinding
/// scalars `r`, `s` and `v` verifies against the prepared key and the
/// public inputs of the assignment.
pub(crate) proof fn lemma_verifies(
    l1: Reading,
    l2: Reading,
    lp: Reading,
    cs: ConstraintSystem,
    w: ToxicWaste,
    t: nat,
    g1: Seq<u8>,
    g2: Seq<u8>,
    size: nat,
    vk: VerifyingKeyView,
    common: ProvingKeyCommonView,
    r: nat,
    s: nat,
    v: nat,
    h: Seq<nat>,
)
    requires
        is_setting(l1, l2, lp, cs, w, t, g1, g2, size, vk, common),
        h.len() >= size - 1,
        quotient_holds(cs, size, t, h),
    ensures
        proof_outcome(
            prepared(vk),
            created_proof(cs, common, vk, r, s, v, h),
            scalar_values(cs.instance_assignment@.skip(1)),
        ) == Ok::<bool, Error>(true),
{
    let g = l1(g1);
    let k = l2(g2);
    let (al, be, ga, de, et) = (
        w.alpha@ as int,
        w.beta@ as int,
        w.gamma@ as int,
        w.delta@ as int,
        w.eta@ as int,
    );
    let gi = fr_inv(w.gamma@) as int;
    let di = fr_inv(w.delta@) as int;
    let z = cs.full_assignment();
    let n = cs.num_variables();
    let az = sdot(a_values(cs, size, t), z, n);
    let bz = sdot(b_values(cs, size, t), z, n);
    let cz = sdot(c_values(cs, size, t), z, n);
    let zt = vanishing_at(size, t) as int;
    let hv = h_value(t, size, h);
    let (ri, si, vi) = (r as int, s as int, v as int);
    let pvk = prepared(vk);
    let proof = created_proof(cs, common, vk, r, s, v, h);
    let inputs = scalar_values(cs.instance_assignment@.skip(1));
    let full = full_commitment(vk.gamma_abc_g1, inputs, proof.d);
    // what the elements of the proof stand for
    lemma_reading_a(l1, l2, lp, cs, w, t, g1, g2, size, vk, common, r);
    lemma_reading_b2(l1, l2, lp, cs, w, t, g1, g2, size, vk, common, s);
    lemma_reading_c(l1, l2, lp, cs, w, t, g1, g2, size, vk, common, r, s, v, h);
    lemma_reading_d(l1, l2, lp, cs, w, t, g1, g2, size, vk, common, v);
    let ra = de * ri + az + al;
    let rb = de * si + bz + be;
    let rc = ra * si + rb * ri - de * ri * si + zt * di * hv - et * di * vi;
    let rd = gi * (be * az + al * bz + cz) + et * gi * vi;
    assert(cong(l1(proof.a), g * ra));
    assert(cong(l2(proof.b), k * rb));
    assert(cong(l1(proof.c), g * rc));
    assert(cong(l1(full), g * rd));
    // what the elements of the key stand for
    let q0 = g2_prepared(proof.b);
    let q1 = pvk.delta_g2_neg_pc;
    let q2 = pvk.gamma_g2_neg_pc;
    assert(cong(lp(q0), l2(proof.b)));
    lemma_base_g2(l1, l2, lp, g2, w.delta@);
    assert(cong(lp(q1), l2(g2_neg(vk.delta_g2))));
    assert(cong(l2(g2_neg(vk.delta_g2)) + l2(vk.delta_g2), 0));
    lemma_cong_inverse(l2(g2_neg(vk.delta_g2)), l2(vk.delta_g2), k * de);
    lemma_base_g2(l1, l2, lp, g2, w.gamma@);
    assert(cong(lp(q2), l2(g2_neg(vk.gamma_g2))));
    assert(cong(l2(g2_neg(vk.gamma_g2)) + l2(vk.gamma_g2), 0));
    lemma_cong_inverse(l2(g2_neg(vk.gamma_g2)), l2(vk.gamma_g2), k * ga);
    lemma_base_g1(l1, l2, lp, g1, w.alpha@);
    lemma_base_g2(l1, l2, lp, g2, w.beta@);
    lemma_cong_mul(l1(vk.alpha_g1), g * al, l2(vk.beta_g2), k * be);
    // the three pairs
    let ps = seq![proof.a, proof.c, full];
    let qs = seq![q0, q1, q2];
    lemma_cong_mul(l1(proof.a), g * ra, lp(q0), k * rb);
    lemma_cong_mul(l1(proof.c), g * rc, lp(q1), -(k * de));
    lemma_cong_mul(l1(full), g * rd, lp(q2), -(k * ga));
    lemma_cong_add(
        l1(proof.a) * lp(q0),
        (g * ra) * (k * rb),
        l1(proof.c) * lp(q1),
        (g * rc) * (-(k * de)),
    );
    lemma_cong_add(
        l1(proof.a) * lp(q0) + l1(proof.c) * lp(q1),
        (g * ra) * (k * rb) + (g * rc) * (-(k * de)),
        l1(full) * lp(q2),
        (g * rd) * (-(k * ga)),
    );
    assert(pair_dot(l1, lp, ps, qs, 3) == l1(proof.a) * lp(q0) + l1(proof.c) * lp(q1) + l1(full)
        * lp(q2)) by {
        reveal_with_fuel(pair_dot, 4);
    }
    // the equation
    lemma_fr_mul(w.delta@, fr_inv(w.delta@));
    lemma_fr_mul(w.gamma@, fr_inv(w.gamma@));
    lemma_pairing_equation(g, k, al, be, ga, de, et, gi, di, az, bz, cz, zt, hv, ri, si, vi);
    assert(cong(pair_dot(l1, lp, ps, qs, ps.len()), l1(vk.alpha_g1) * l2(vk.beta_g2)));
    assert(ps.len() == qs.len());
    assert(inputs.len() + 1 <= pvk.vk.gamma_abc_g1.len());
}

/// A sum over bases depends on the first `n` bases and scalars only.
proof fn lemma_lin_ext(l: Reading, bases: Seq<Seq<u8>>, x: Seq<nat>, bases2: Seq<Seq<u8>>, x2: Seq<nat>, n: nat)
    requires
        forall|j: int| 0 <= j < n ==> bases[j] == bases2[j] && x[j] == x2[j],
    ensures
        lin(l, bases, x, n) == lin(l, bases2, x2, n),
    decreases n,
{
    if n > 0 {
        lemma_lin_ext(l, bases, x, bases2, x2, (n - 1) as nat);
    }
}

/// The columns of the matrix of the link: a base and a key element for
/// each witness, a base alone for the blinding scalar of the link, and the
/// key's element alone for the blinding scalar of the proof's commitment.
proof fn lemma_link_columns(bases: Seq<G1Point>, tail: Seq<G1Point>, eta: G1Point)
    requires
        tail.len() + 1 == bases.len(),
        bases.len() <= usize::MAX,
    ensures
        link_columns(bases, tail, eta).len() == bases.len() + 1,
        forall|c: int|
            0 <= c < tail.len() ==> #[trigger] link_columns(bases, tail, eta)[c] == seq![
                CoeffPos { val: bases[c], pos: 0 },
                CoeffPos { val: tail[c], pos: 1 },
            ],
        link_columns(bases, tail, eta)[tail.len() as int] == seq![
            CoeffPos { val: bases[tail.len() as int], pos: 0 },
        ],
        link_columns(bases, tail, eta)[tail.len() as int + 1] == seq![CoeffPos { val: eta, pos: 1 }],
{
    let cols = link_columns(bases, tail, eta);
    let nw = tail.len();
    assert forall|c: int| 0 <= c < nw implies #[trigger] cols[c] == seq![
        CoeffPos { val: bases[c], pos: 0 },
        CoeffPos { val: tail[c], pos: 1 },
    ] by {
        assert(cols[c] =~= seq![
            CoeffPos { val: bases[c], pos: 0 },
            CoeffPos { val: tail[c], pos: 1 },
        ]);
    }
    assert(cols[nw as int] =~= seq![CoeffPos { val: bases[nw as int], pos: 0 }]);
    assert(cols[nw as int + 1] =~= seq![CoeffPos { val: eta, pos: 1 }]);
}

/// The first two rows of the image under the matrix of the link, over the
/// columns of the witnesses: the bases times the scalars, and the key's
/// elements times the scalars.
proof fn lemma_link_image(l1: Reading, bases: Seq<G1Point>, tail: Seq<G1Point>, eta: G1Point, x: Seq<nat>, m: nat)
    requires
        tail.len() + 1 == bases.len(),
        bases.len() <= usize::MAX,
        m <= tail.len(),
    ensures
        img(l1, link_columns(bases, tail, eta), x, 0, m) == lin(l1, g1_views(bases), x, m),
        img(l1, link_columns(bases, tail, eta), x, 1, m) == lin(l1, g1_views(tail), x, m),
    decreases m,
{
    let cols = link_columns(bases, tail, eta);
    if m > 0 {
        let c = (m - 1) as int;
        lemma_link_image(l1, bases, tail, eta, x, (m - 1) as nat);
        lemma_link_columns(bases, tail, eta);
        let col = cols[c];
        assert(col == seq![
            CoeffPos { val: bases[c], pos: 0 },
            CoeffPos { val: tail[c], pos: 1 },
        ]);
        assert(col_row(l1, col, 0, 2) == l1(bases[c]@)) by {
            reveal_with_fuel(col_row, 3);
        }
        assert(col_row(l1, col, 1, 2) == l1(tail[c]@)) by {
            reveal_with_fuel(col_row, 3);
        }
        let xx = x[c] as int;
        assert(xx * l1(bases[c]@) == l1(bases[c]@) * xx) by (nonlinear_arith);
        assert(xx * l1(tail[c]@) == l1(tail[c]@) * xx) by (nonlinear_arith);
    }
}

/// In every model of the pairing groups: for a setting in which proofs
/// verify, keys of the link that some secret scalars give for the matrix of
/// the link over one base more than there are witnesses, and a proof with
/// the commitment `link_d` to the witnesses under the bases and the proof
/// `link_pi` that proving makes from the witnesses and the two blinding
/// scalars, verifying with the link gives true.
pub(crate) proof fn lemma_link_verifies(
    l1: Reading,
    l2: Reading,
    lp: Reading,
    cs: ConstraintSystem,
    w: ToxicWaste,
    t: nat,
    g1: Seq<u8>,
    g2: Seq<u8>,
    size: nat,
    key: ProvingKeyWithLink,
    k: Seq<nat>,
    a: nat,
    r: nat,
    s: nat,
    v: nat,
    link_v: nat,
    h: Seq<nat>,
    proof: ProofWithLink,
)
    requires
        is_setting(l1, l2, lp, cs, w, t, g1, g2, size, key.vk.groth16_vk@, key.common@),
        h.len() >= size - 1,
        quotient_holds(cs, size, t, h),
        key.vk.link_pp.l == 2,
        k.len() == 2,
        key.vk.link_bases@.len() == cs.num_witness_variables + 1,
        is_key_pair(
            key.vk.link_pp,
            link_columns(
                key.vk.link_bases@,
                key.vk.groth16_vk.gamma_abc_g1@.skip(cs.num_instance_variables as int),
                key.vk.groth16_vk.eta_gamma_inv_g1,
            ),
            k,
            a,
            key.link_ek,
            key.vk.link_vk,
        ),
        proof.groth16_proof@ == created_proof(cs, key.common@, key.vk.groth16_vk@, r, s, v, h),
        proof.link_d@ == g1_lincomb(
            g1_views(key.vk.link_bases@),
            scalar_values(cs.witness_assignment@).push(link_v),
            shorter(key.vk.link_bases@.len(), cs.witness_assignment@.len() + 1),
        ),
        proof.link_pi@ == g1_lincomb(
            g1_views(key.link_ek.p@),
            scalar_values(cs.witness_assignment@).push(link_v).push(v),
            cs.witness_assignment@.len() + 2,
        ),
    ensures
        link_outcome(
            prepared(key.vk.groth16_vk@),
            key.vk,
            proof,
            scalar_values(cs.instance_assignment@.skip(1)),
        ) == Ok::<bool, Error>(true),
{
    let vk = key.vk.groth16_vk@;
    lemma_verifies(l1, l2, lp, cs, w, t, g1, g2, size, vk, key.common@, r, s, v, h);
    let ni = cs.num_instance_variables as nat;
    let nw = cs.num_witness_variables as nat;
    let n = cs.num_variables();
    let bases = key.vk.link_bases@;
    let tail = key.vk.groth16_vk.gamma_abc_g1@.skip(ni as int);
    let eta = key.vk.groth16_vk.eta_gamma_inv_g1;
    let cols = link_columns(bases, tail, eta);
    let wv = scalar_values(cs.witness_assignment@);
    let x = wv.push(link_v).push(v);
    let y = seq![proof.link_d, proof.groth16_proof.d];
    assert(vk.gamma_abc_g1.len() == n);
    assert(tail.len() == nw);
    lemma_link_columns(bases, tail, eta);
    lemma_link_image(l1, bases, tail, eta, x, nw);
    // the first row: the commitment under the bases of the link
    let last = cols[nw as int];
    let blind = cols[nw as int + 1];
    assert(col_row(l1, last, 0, 1) == l1(bases[nw as int]@) && col_row(l1, last, 1, 1) == 0) by {
        reveal_with_fuel(col_row, 2);
    }
    assert(col_row(l1, blind, 0, 1) == 0 && col_row(l1, blind, 1, 1) == l1(eta@)) by {
        reveal_with_fuel(col_row, 2);
    }
    let lv = link_v as int;
    let vi = v as int;
    assert(img(l1, cols, x, 0, nw + 2) == img(l1, cols, x, 0, nw) + lv * l1(bases[nw as int]@) + vi
        * 0) by {
        reveal_with_fuel(img, 3);
    }
    assert(img(l1, cols, x, 1, nw + 2) == img(l1, cols, x, 1, nw) + lv * 0 + vi * l1(eta@)) by {
        reveal_with_fuel(img, 3);
    }
    assert(lv * l1(bases[nw as int]@) == l1(bases[nw as int]@) * lv) by (nonlinear_arith);
    assert(vi * l1(eta@) == l1(eta@) * vi) by (nonlinear_arith);
    lemma_lincomb_g1(l1, l2, lp, g1_views(bases), wv.push(link_v), nw + 1);
    lemma_lin_ext(l1, g1_views(bases), wv.push(link_v), g1_views(bases), x, nw + 1);
    assert(x[nw as int] == link_v);
    assert(g1_views(bases)[nw as int] == bases[nw as int]@);
    assert(lin(l1, g1_views(bases), x, nw + 1) == lin(l1, g1_views(bases), x, nw) + l1(
        g1_views(bases)[nw as int],
    ) * lv);
    assert(cols.len() == nw + 2);
    assert(vi * 0 == 0);
    assert(img(l1, cols, x, 0, cols.len()) == lin(l1, g1_views(bases), x, nw + 1));
    assert(shorter(bases.len(), cs.witness_assignment@.len() + 1) == nw + 1);
    assert(y[0]@ == g1_lincomb(g1_views(bases), wv.push(link_v), nw + 1));
    assert(cong(l1(y[0]@), img(l1, cols, x, 0, cols.len())));
    // the second row: the proof's own commitment
    let sub = vk.gamma_abc_g1.subrange(ni as int, n as int);
    assert(sub =~= g1_views(tail));
    assert(committed_witnesses(cs, vk) =~= wv);
    let lc = g1_lincomb(sub, wv, nw);
    lemma_lincomb_g1(l1, l2, lp, sub, wv, nw);
    lemma_lin_ext(l1, sub, wv, g1_views(tail), x, nw);
    let scaled = g1_scale(eta@, v);
    assert(cong(l1(scaled), l1(eta@) * vi));
    assert(proof.groth16_proof.d@ == g1_sum(lc, scaled));
    assert(cong(l1(g1_sum(lc, scaled)), l1(lc) + l1(scaled)));
    lemma_cong_add(l1(lc), lin(l1, g1_views(tail), x, nw), l1(scaled), l1(eta@) * vi);
    assert(lv * 0 == 0);
    assert(img(l1, cols, x, 1, cols.len()) == lin(l1, g1_views(tail), x, nw) + l1(eta@) * vi);
    assert(y[1]@ == g1_sum(lc, scaled));
    assert(cong(l1(y[1]@), img(l1, cols, x, 1, cols.len())));
    // the argument of the link
    assert forall|c: int| 0 <= c < cols.len() implies col_within(#[trigger] cols[c], 2) by {
        if c < nw {
            assert(cols[c] == seq![
                CoeffPos { val: bases[c], pos: 0 },
                CoeffPos { val: tail[c], pos: 1 },
            ]);
        }
    }
    lemma_subspace_accepts(
        l1,
        l2,
        lp,
        key.vk.link_pp,
        cols,
        k,
        a,
        key.link_ek,
        key.vk.link_vk,
        x,
        y,
        proof.link_pi,
    );
}

/// Completeness. In every model of the pairing groups and of the transforms
/// of the domain: for a well-formed constraint system with an assignment
/// that satisfies every constraint and whose first variable is one, and
/// keys that a setup gives for it, the proof that proving makes with any
/// blinding scalars `r`, `s` and `v` verifies against the prepared key and
/// the public inputs of the assignment.
pub proof fn lemma_complete(
    l1: Reading,
    l2: Reading,
    lp: Reading,
    cs: ConstraintSystem,
    w: ToxicWaste,
    t: nat,
    g1: Seq<u8>,
    g2: Seq<u8>,
    size: nat,
    vk: VerifyingKeyView,
    common: ProvingKeyCommonView,
    r: nat,
    s: nat,
    v: nat,
)
    requires
        is_setting(l1, l2, lp, cs, w, t, g1, g2, size, vk, common),
        domain_of(cs) == Some(size),
        is_domain_model(size),
        coset_inverse_holds(size),
        satisfied(cs),
    ensures
        proof_outcome(
            prepared(vk),
            created_proof(cs, common, vk, r, s, v, quotient_coefficients(cs, size)),
            scalar_values(cs.instance_assignment@.skip(1)),
        ) == Ok::<bool, Error>(true),
{
    lemma_domain_size((cs.num_constraints + cs.num_instance_variables) as nat);
    lemma_quotient(cs, size, t);
    lemma_verifies(
        l1,
        l2,
        lp,
        cs,
        w,
        t,
        g1,
        g2,
        size,
        vk,
        common,
        r,
        s,
        v,
        quotient_coefficients(cs, size),
    );
}

/// Completeness with a link. In every model of the pairing groups and of
/// the transforms of the domain: for a well-formed constraint system with
/// an assignment that satisfies every constraint and whose first variable
/// is one, keys that a setup gives for it, keys of the link that some
/// secret scalars give for the matrix of the link over one base more than
/// there are witnesses, and a proof with the commitment `link_d` to the
/// witnesses under the bases and the proof `link_pi` that proving makes
/// from the witnesses and the two blinding scalars, verifying with the link
/// gives true.
pub proof fn lemma_link_complete(
    l1: Reading,
    l2: Reading,
    lp: Reading,
    cs: ConstraintSystem,
    w: ToxicWaste,
    t: nat,
    g1: Seq<u8>,
    g2: Seq<u8>,
    size: nat,
    key: ProvingKeyWithLink,
    k: Seq<nat>,
    a: nat,
    r: nat,
    s: nat,
    v: nat,
    link_v: nat,
    proof: ProofWithLink,
)
    requires
        is_setting(l1, l2, lp, cs, w, t, g1, g2, size, key.vk.groth16_vk@, key.common@),
        domain_of(cs) == Some(size),
        is_domain_model(size),
        coset_inverse_holds(size),
        satisfied(cs),
        key.vk.link_pp.l == 2,
        k.len() == 2,
        key.vk.link_bases@.len() == cs.num_witness_variables + 1,
        is_key_pair(
            key.vk.link_pp,
            link_columns(
                key.vk.link_bases@,
                key.vk.groth16_vk.gamma_abc_g1@.skip(cs.num_instance_variables as int),
                key.vk.groth16_vk.eta_gamma_inv_g1,
            ),
            k,
            a,
            key.link_ek,
            key.vk.link_vk,
        ),
        proof.groth16_proof@ == created_proof(
            cs,
            key.common@,
            key.vk.groth16_vk@,
            r,
            s,
            v,
            quotient_coefficients(cs, size),
        ),
        proof.link_d@ == g1_lincomb(
            g1_views(key.vk.link_bases@),
            scalar_values(cs.witness_assignment@).push(link_v),
            shorter(key.vk.link_bases@.len(), cs.witness_assignment@.len() + 1),
        ),
        proof.link_pi@ == g1_lincomb(
            g1_views(key.link_ek.p@),
            scalar_values(cs.witness_assignment@).push(link_v).push(v),
            cs.witness_assignment@.len() + 2,
        ),
    ensures
        link_outcome(
            prepared(key.vk.groth16_vk@),
            key.vk,
            proof,
            scalar_values(cs.instance_assignment@.skip(1)),
        ) == Ok::<bool, Error>(true),
{
    lemma_domain_size((cs.num_constraints + cs.num_instance_variables) as nat);
    lemma_quotient(cs, size, t);
    lemma_link_verifies(
        l1,
        l2,
        lp,
        cs,
        w,
        t,
        g1,
        g2,
        size,
        key,
        k,
        a,
        r,
        s,
        v,
        link_v,
        quotient_coefficients(cs, size),
        proof,
    );
}

} // verus!
