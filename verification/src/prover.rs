use vstd::prelude::*;
use crate::data_structures::PreparedVerifyingKeyView;
use crate::data_structures::Proof;
use crate::data_structures::ProofView;
use crate::data_structures::ProofWithLink;
use crate::data_structures::ProvingKey;
use crate::data_structures::ProvingKeyCommon;
use crate::data_structures::ProvingKeyCommonView;
use crate::data_structures::ProvingKeyWithLink;
use crate::data_structures::VerifyingKey;
use crate::data_structures::VerifyingKeyView;
use crate::error::Error;
use crate::field::Scalar;
use crate::field::scalar_rand;
use crate::field::scalar_values;
use crate::field::shorter;
use crate::g1::G1Point;
use crate::g1::g1_add;
use crate::g1::g1_identity;
use crate::g1::g1_lincomb;
use crate::g1::g1_msm;
use crate::g1::g1_mul;
use crate::g1::g1_neg;
use crate::g1::g1_scale;
use crate::g1::g1_sum;
use crate::g1::g1_views;
use crate::g1::g1_zero;
use crate::g2::G2Point;
use crate::g2::g2_add;
use crate::g2::g2_lincomb;
use crate::g2::g2_msm;
use crate::g2::g2_mul;
use crate::g2::g2_scale;
use crate::g2::g2_sum;
use crate::g2::g2_views;
use crate::link::snark::PESubspaceSnark;
use crate::link::snark::SubspaceSnark;
use crate::r1cs::ConstraintSystem;
use crate::r1cs_to_qap::coset_inverse_holds;
use crate::r1cs_to_qap::coset_is_apart;
use crate::r1cs_to_qap::domain_of;
use crate::r1cs_to_qap::quotient_coefficients;
use crate::r1cs_to_qap::witness_map;
use crate::verification::proof_outcome;
use crate::verification::witness_commitment;
use crate::verification::witness_opens;
use ark_std::rand::rngs::StdRng;

verus! {

/// `initial`, the first element of the query, the rest of the query
/// multiplied into the assignment, and the key's element, added up in this
/// order.
pub open spec fn coeff_g1(initial: Seq<u8>, query: Seq<Seq<u8>>, param: Seq<u8>, assignment: Seq<nat>) -> Seq<
    u8,
> {
    g1_sum(
        g1_sum(
            g1_sum(initial, query[0]),
            g1_lincomb(
                query.skip(1),
                assignment,
                shorter((query.len() - 1) as nat, assignment.len()),
            ),
        ),
        param,
    )
}

/// The same sum in the second group.
pub open spec fn coeff_g2(initial: Seq<u8>, query: Seq<Seq<u8>>, param: Seq<u8>, assignment: Seq<nat>) -> Seq<
    u8,
> {
    g2_sum(
        g2_sum(
            g2_sum(initial, query[0]),
            g2_lincomb(
                query.skip(1),
                assignment,
                shorter((query.len() - 1) as nat, assignment.len()),
            ),
        ),
        param,
    )
}

/// The values of the variables that the queries are multiplied into: all
/// but the constant one.
pub open spec fn query_assignment(cs: ConstraintSystem) -> Seq<nat> {
    scalar_values(cs.instance_assignment@.skip(1) + cs.witness_assignment@)
}

/// The number of witness variables that a key commits to: those that its
/// `gamma_abc_g1` has an element for.
pub open spec fn committed_count(cs: ConstraintSystem, vk: VerifyingKeyView) -> nat {
    (vk.gamma_abc_g1.len() - cs.num_instance_variables) as nat
}

/// The values of the witness variables that a key commits to.
pub open spec fn committed_witnesses(cs: ConstraintSystem, vk: VerifyingKeyView) -> Seq<nat> {
    scalar_values(cs.witness_assignment@.subrange(0, committed_count(cs, vk) as int))
}

/// The values of the witness variables that a key does not commit to.
pub open spec fn uncommitted_witnesses(cs: ConstraintSystem, vk: VerifyingKeyView) -> Seq<nat> {
    scalar_values(
        cs.witness_assignment@.subrange(
            committed_count(cs, vk) as int,
            cs.witness_assignment@.len() as int,
        ),
    )
}

/// The element `a` of a proof: `delta_g1` taken `r` times, the query for
/// the first matrix multiplied into the assignment, and `alpha_g1`.
pub open spec fn proof_a(cs: ConstraintSystem, common: ProvingKeyCommonView, vk: VerifyingKeyView, r: nat) -> Seq<
    u8,
> {
    coeff_g1(g1_scale(common.delta_g1, r), common.a_query, vk.alpha_g1, query_assignment(cs))
}

/// The counterpart of `b` in the first group, which only enters `c`: it is
/// left out, as the neutral element, where `r` is zero.
pub open spec fn proof_b_g1(cs: ConstraintSystem, common: ProvingKeyCommonView, r: nat, s: nat) -> Seq<
    u8,
> {
    if r != 0 {
        coeff_g1(
            g1_scale(common.delta_g1, s),
            common.b_g1_query,
            common.beta_g1,
            query_assignment(cs),
        )
    } else {
        g1_identity()
    }
}

/// The element `b` of a proof: `delta_g2` taken `s` times, the query for
/// the second matrix multiplied into the assignment, and `beta_g2`.
pub open spec fn proof_b(cs: ConstraintSystem, common: ProvingKeyCommonView, vk: VerifyingKeyView, s: nat) -> Seq<
    u8,
> {
    coeff_g2(g2_scale(vk.delta_g2, s), common.b_g2_query, vk.beta_g2, query_assignment(cs))
}

/// The element `c` of a proof: `s` times `a`, `r` times the counterpart of
/// `b`, less `delta_g1` taken `r` and then `s` times, the witnesses that
/// are not committed to, the quotient `h`, less `eta_delta_inv_g1` taken
/// `v` times.
pub open spec fn proof_c(
    cs: ConstraintSystem,
    common: ProvingKeyCommonView,
    vk: VerifyingKeyView,
    r: nat,
    s: nat,
    v: nat,
    h: Seq<nat>,
) -> Seq<u8> {
    let s_a = g1_scale(proof_a(cs, common, vk, r), s);
    let r_b = g1_scale(proof_b_g1(cs, common, r, s), r);
    let r_s_delta = g1_scale(g1_scale(common.delta_g1, r), s);
    let l_aux = g1_lincomb(
        common.l_query,
        uncommitted_witnesses(cs, vk),
        shorter(common.l_query.len(), uncommitted_witnesses(cs, vk).len()),
    );
    let h_acc = g1_lincomb(common.h_query, h, shorter(common.h_query.len(), h.len()));
    let v_eta = g1_scale(common.eta_delta_inv_g1, v);
    g1_sum(
        g1_sum(g1_sum(g1_sum(g1_sum(s_a, r_b), g1_neg(r_s_delta)), l_aux), h_acc),
        g1_neg(v_eta),
    )
}

/// The proof for an assigned constraint system with the quotient `h`, the
/// blinding scalars `r` and `s` and the commitment's blinding scalar `v`.
pub open spec fn created_proof(
    cs: ConstraintSystem,
    common: ProvingKeyCommonView,
    vk: VerifyingKeyView,
    r: nat,
    s: nat,
    v: nat,
    h: Seq<nat>,
) -> ProofView {
    ProofView {
        a: proof_a(cs, common, vk, r),
        b: proof_b(cs, common, vk, s),
        c: proof_c(cs, common, vk, r, s, v, h),
        d: witness_commitment(
            vk,
            (cs.num_instance_variables - 1) as nat,
            committed_witnesses(cs, vk),
            v,
        ),
    }
}

/// Whether a key has the shape that proving for a constraint system needs:
/// each of the three queries for the assignment has a first element, and
/// `gamma_abc_g1` has an element for each instance variable and for no more
/// than the witness variables besides.
pub open spec fn key_fits(cs: ConstraintSystem, common: ProvingKeyCommonView, vk: VerifyingKeyView) -> bool {
    &&& common.a_query.len() >= 1
    &&& common.b_g1_query.len() >= 1
    &&& common.b_g2_query.len() >= 1
    &&& cs.num_instance_variables <= vk.gamma_abc_g1.len()
    &&& vk.gamma_abc_g1.len() <= cs.num_instance_variables + cs.num_witness_variables
}

/// Whether proving succeeds for a constraint system: it holds a value for
/// each of its variables, it has a domain, and the vanishing polynomial of
/// the domain has an inverse on the coset.
pub open spec fn provable(cs: ConstraintSystem) -> bool {
    cs.assigned() && domain_of(cs).is_some() && coset_is_apart(domain_of(cs).unwrap())
}

/// The error that proving ends with where it does not succeed.
pub open spec fn proving_error(cs: ConstraintSystem) -> Error {
    if !cs.assigned() {
        Error::AssignmentMissing
    } else if domain_of(cs).is_none() {
        Error::PolynomialDegreeTooLarge
    } else {
        Error::UnexpectedIdentity
    }
}

/// A proof with its commitment replaced by the commitment to the witnesses
/// `w` with the blinding scalar `v`, under a key whose first `1 + count`
/// elements belong to the instance.
pub open spec fn with_commitment(pf: ProofView, vk: VerifyingKeyView, count: nat, w: Seq<nat>, v: nat) -> ProofView {
    ProofView { a: pf.a, b: pf.b, c: pf.c, d: witness_commitment(vk, count, w, v) }
}

/// The commitment that proving computes is the one that is computed
/// afterwards from the committed witnesses and the same blinding scalar:
/// put into any proof with the same other elements, it gives the proof that
/// proving gives, and every verification ends for the one as for the other.
pub proof fn lemma_deferred_commitment(
    cs: ConstraintSystem,
    common: ProvingKeyCommonView,
    vk: VerifyingKeyView,
    r: nat,
    s: nat,
    v: nat,
    h: Seq<nat>,
    pf: ProofView,
    pvk: PreparedVerifyingKeyView,
    inputs: Seq<nat>,
)
    requires
        cs.num_instance_variables >= 1,
        pf.a == created_proof(cs, common, vk, r, s, v, h).a,
        pf.b == created_proof(cs, common, vk, r, s, v, h).b,
        pf.c == created_proof(cs, common, vk, r, s, v, h).c,
    ensures
        with_commitment(
            pf,
            vk,
            (cs.num_instance_variables - 1) as nat,
            committed_witnesses(cs, vk),
            v,
        ) == created_proof(cs, common, vk, r, s, v, h),
        proof_outcome(
            pvk,
            with_commitment(
                pf,
                vk,
                (cs.num_instance_variables - 1) as nat,
                committed_witnesses(cs, vk),
                v,
            ),
            inputs,
        ) == proof_outcome(pvk, created_proof(cs, common, vk, r, s, v, h), inputs),
{
}

/// The commitment of a proof that proving gives opens to the committed
/// witnesses and the blinding scalar that it was made with, and to no
/// others than those that give the same commitment.
pub proof fn lemma_commitment_opens(
    cs: ConstraintSystem,
    common: ProvingKeyCommonView,
    vk: VerifyingKeyView,
    r: nat,
    s: nat,
    v: nat,
    h: Seq<nat>,
    w2: Seq<nat>,
    v2: nat,
)
    requires
        cs.well_formed(),
        cs.assigned(),
        key_fits(cs, common, vk),
    ensures
        witness_opens(
            vk,
            created_proof(cs, common, vk, r, s, v, h).d,
            (cs.num_instance_variables - 1) as nat,
            committed_witnesses(cs, vk),
            v,
        ),
        witness_opens(
            vk,
            created_proof(cs, common, vk, r, s, v, h).d,
            (cs.num_instance_variables - 1) as nat,
            w2,
            v2,
        ) ==> witness_commitment(vk, (cs.num_instance_variables - 1) as nat, w2, v2)
            == witness_commitment(
            vk,
            (cs.num_instance_variables - 1) as nat,
            committed_witnesses(cs, vk),
            v,
        ),
{
}

/// `initial`, the first element of the query, the rest of the query
/// multiplied into the assignment, and the key's element.
fn calculate_coeff_g1(initial: G1Point, query: &[G1Point], vk_param: G1Point, assignment: &[Scalar]) -> (res:
    G1Point)
    requires
        query@.len() >= 1,
    ensures
        res@ == coeff_g1(initial@, g1_views(query@), vk_param@, scalar_values(assignment@)),
{
    let el = query[0];
    let rest = vstd::slice::slice_subrange(query, 1, query.len());
    assert(g1_views(rest@) =~= g1_views(query@).skip(1));
    let acc = g1_msm(rest, assignment);
    let mut res = g1_add(&initial, &el);
    res = g1_add(&res, &acc);
    res = g1_add(&res, &vk_param);
    res
}

/// The same sum in the second group.
fn calculate_coeff_g2(initial: G2Point, query: &[G2Point], vk_param: G2Point, assignment: &[Scalar]) -> (res:
    G2Point)
    requires
        query@.len() >= 1,
    ensures
        res@ == coeff_g2(initial@, g2_views(query@), vk_param@, scalar_values(assignment@)),
{
    let el = query[0];
    let rest = vstd::slice::slice_subrange(query, 1, query.len());
    assert(g2_views(rest@) =~= g2_views(query@).skip(1));
    let acc = g2_msm(rest, assignment);
    let mut res = g2_add(&initial, &el);
    res = g2_add(&res, &acc);
    res = g2_add(&res, &vk_param);
    res
}

/// One sequence of scalars followed by another.
fn concat(first: &[Scalar], second: &[Scalar]) -> (r: Vec<Scalar>)
    ensures
        r@ == first@ + second@,
{
    let mut r: Vec<Scalar> = Vec::new();
    let n: usize = first.len();
    let mut i: usize = 0;
    while i < n
        invariant
            i <= n,
            n == first@.len(),
            r@ == first@.subrange(0, i as int),
        decreases n - i,
    {
        r.push(first[i]);
        assert(r@ =~= first@.subrange(0, i + 1));
        i = i + 1;
    }
    let m: usize = second.len();
    let mut j: usize = 0;
    while j < m
        invariant
            j <= m,
            m == second@.len(),
            r@ == first@ + second@.subrange(0, j as int),
        decreases m - j,
    {
        r.push(second[j]);
        assert(r@ =~= first@ + second@.subrange(0, j + 1));
        j = j + 1;
    }
    assert(r@ =~= first@ + second@);
    r
}

/// Creates a proof for an assigned constraint system with the blinding
/// scalars `r` and `s`, and the blinding scalar `v` of its commitment.
pub fn create_proof(
    cs: &ConstraintSystem,
    pk_common: &ProvingKeyCommon,
    vk: &VerifyingKey,
    r: Scalar,
    s: Scalar,
    v: Scalar,
) -> (res: Result<Proof, Error>)
    requires
        cs.well_formed(),
        key_fits(*cs, pk_common@, vk@),
    ensures
        res.is_ok() == provable(*cs),
        res.is_ok() ==> coset_inverse_holds(domain_of(*cs).unwrap()),
        res.is_ok() ==> res.unwrap()@ == created_proof(
            *cs,
            pk_common@,
            vk@,
            r@,
            s@,
            v@,
            quotient_coefficients(*cs, domain_of(*cs).unwrap()),
        ),
        res.is_err() ==> res.unwrap_err() == proving_error(*cs),
{
    if cs.instance_assignment.len() != cs.num_instance_variables
        || cs.witness_assignment.len() != cs.num_witness_variables {
        return Err(Error::AssignmentMissing);
    }
    let h = match witness_map(cs) {
        Ok(h) => h,
        Err(e) => {
            return Err(e);
        },
    };
    let h_acc = g1_msm(pk_common.h_query.as_slice(), h.as_slice());

    let num_inputs: usize = cs.instance_assignment.len();
    let num_witnesses: usize = cs.witness_assignment.len();
    let num_committed: usize = vk.gamma_abc_g1.len() - num_inputs;
    let aux_assignment = cs.witness_assignment.as_slice();
    let committed_witnesses = vstd::slice::slice_subrange(aux_assignment, 0, num_committed);
    let uncommitted_witnesses = vstd::slice::slice_subrange(
        aux_assignment,
        num_committed,
        num_witnesses,
    );
    let l_aux_acc = g1_msm(pk_common.l_query.as_slice(), uncommitted_witnesses);

    let r_g1 = g1_mul(&pk_common.delta_g1, &r);
    let r_s_delta_g1 = g1_mul(&r_g1, &s);
    let v_eta_delta_inv = g1_mul(&pk_common.eta_delta_inv_g1, &v);

    let input_assignment = vstd::slice::slice_subrange(
        cs.instance_assignment.as_slice(),
        1,
        num_inputs,
    );
    assert(input_assignment@ =~= cs.instance_assignment@.skip(1));
    let assignment = concat(input_assignment, aux_assignment);

    let g_a = calculate_coeff_g1(
        r_g1,
        pk_common.a_query.as_slice(),
        vk.alpha_g1,
        assignment.as_slice(),
    );
    let s_g_a = g1_mul(&g_a, &s);

    let g1_b = if !r.is_zero() {
        let s_g1 = g1_mul(&pk_common.delta_g1, &s);
        calculate_coeff_g1(
            s_g1,
            pk_common.b_g1_query.as_slice(),
            pk_common.beta_g1,
            assignment.as_slice(),
        )
    } else {
        g1_zero()
    };

    let s_g2 = g2_mul(&vk.delta_g2, &s);
    let g2_b = calculate_coeff_g2(
        s_g2,
        pk_common.b_g2_query.as_slice(),
        vk.beta_g2,
        assignment.as_slice(),
    );
    let r_g1_b = g1_mul(&g1_b, &r);

    let mut g_c = s_g_a;
    g_c = g1_add(&g_c, &r_g1_b);
    g_c = g_c.minus(&r_s_delta_g1);
    g_c = g1_add(&g_c, &l_aux_acc);
    g_c = g1_add(&g_c, &h_acc);
    g_c = g_c.minus(&v_eta_delta_inv);

    let gamma_abc_inputs_source = vstd::slice::slice_subrange(
        vk.gamma_abc_g1.as_slice(),
        num_inputs,
        num_inputs + num_committed,
    );
    assert(g1_views(gamma_abc_inputs_source@) =~= vk@.gamma_abc_g1.subrange(
        num_inputs as int,
        num_inputs + num_committed,
    ));
    let gamma_abc_inputs_acc = g1_msm(gamma_abc_inputs_source, committed_witnesses);
    let v_eta_gamma_inv = g1_mul(&vk.eta_gamma_inv_g1, &v);
    let g_d = g1_add(&gamma_abc_inputs_acc, &v_eta_gamma_inv);

    Ok(Proof { a: g_a, b: g2_b, c: g_c, d: g_d })
}

/// Replaces the commitment of a proof by the commitment to the given
/// witnesses with the blinding scalar `v`, which has to be the one that the
/// proof was created with.
pub fn create_d(
    witnesses: Vec<Scalar>,
    public_input: Vec<Scalar>,
    vk: &VerifyingKey,
    v: Scalar,
    pf: &Proof,
) -> (res: Result<Proof, Error>)
    requires
        public_input@.len() + 1 + witnesses@.len() <= vk@.gamma_abc_g1.len(),
    ensures
        res.is_ok(),
        res.unwrap()@ == with_commitment(
            pf@,
            vk@,
            public_input@.len(),
            scalar_values(witnesses@),
            v@,
        ),
{
    let total: usize = vk.gamma_abc_g1.len();
    assert(vk@.gamma_abc_g1.len() == total);
    let start: usize = public_input.len() + 1;
    let gamma_abc_inputs_source = vstd::slice::slice_subrange(
        vk.gamma_abc_g1.as_slice(),
        start,
        start + witnesses.len(),
    );
    assert(g1_views(gamma_abc_inputs_source@) =~= vk@.gamma_abc_g1.subrange(
        start as int,
        start + witnesses@.len(),
    ));
    let gamma_abc_inputs_acc = g1_msm(gamma_abc_inputs_source, witnesses.as_slice());
    let v_eta_gamma_inv = g1_mul(&vk.eta_gamma_inv_g1, &v);
    let g_d = g1_add(&gamma_abc_inputs_acc, &v_eta_gamma_inv);
    Ok(Proof { a: pf.a, b: pf.b, c: pf.c, d: g_d })
}

/// Creates a proof with blinding scalars drawn from `rng`.
pub fn create_random_proof(cs: &ConstraintSystem, v: Scalar, pk: &ProvingKey, rng: &mut StdRng) -> (res:
    Result<Proof, Error>)
    requires
        cs.well_formed(),
        key_fits(*cs, pk.common@, pk.vk@),
    ensures
        res.is_ok() == provable(*cs),
        res.is_ok() ==> exists|r: nat, s: nat|
            res.unwrap()@ == created_proof(
                *cs,
                pk.common@,
                pk.vk@,
                r,
                s,
                v@,
                quotient_coefficients(*cs, domain_of(*cs).unwrap()),
            ),
        res.is_err() ==> res.unwrap_err() == proving_error(*cs),
{
    let r = scalar_rand(rng);
    let s = scalar_rand(rng);
    create_proof(cs, &pk.common, &pk.vk, r, s, v)
}

/// Whether the key of the link has one column for each of the witnesses,
/// for `link_v` and for `v`.
pub open spec fn link_fits(pk: ProvingKeyWithLink, witnesses: nat) -> bool {
    &&& pk.vk.link_pp.t == witnesses + 2
    &&& pk.link_ek.p@.len() == witnesses + 2
}

/// Creates a proof with blinding scalars drawn from `rng`, the commitment
/// `link_d` to the given witnesses under the bases of the link with the
/// blinding scalar `link_v`, and the proof `link_pi` that `link_d` and the
/// proof's own commitment open to the same witnesses.
pub fn create_random_proof_with_link(
    cs: &ConstraintSystem,
    v: Scalar,
    link_v: Scalar,
    pk: &ProvingKeyWithLink,
    witnesses: &[Scalar],
    rng: &mut StdRng,
) -> (res: Result<ProofWithLink, Error>)
    requires
        cs.well_formed(),
        key_fits(*cs, pk.common@, pk.vk.groth16_vk@),
        link_fits(*pk, witnesses@.len()),
    ensures
        res.is_ok() == provable(*cs),
        res.is_ok() ==> exists|r: nat, s: nat|
            res.unwrap().groth16_proof@ == created_proof(
                *cs,
                pk.common@,
                pk.vk.groth16_vk@,
                r,
                s,
                v@,
                quotient_coefficients(*cs, domain_of(*cs).unwrap()),
            ),
        res.is_ok() ==> res.unwrap().link_d@ == g1_lincomb(
            g1_views(pk.vk.link_bases@),
            scalar_values(witnesses@).push(link_v@),
            shorter(pk.vk.link_bases@.len(), witnesses@.len() + 1),
        ),
        res.is_ok() ==> res.unwrap().link_pi@ == g1_lincomb(
            g1_views(pk.link_ek.p@),
            scalar_values(witnesses@).push(link_v@).push(v@),
            witnesses@.len() + 2,
        ),
        res.is_err() ==> res.unwrap_err() == proving_error(*cs),
{
    let r = scalar_rand(rng);
    let s = scalar_rand(rng);
    let proof = match create_proof(cs, &pk.common, &pk.vk.groth16_vk, r, s, v) {
        Ok(p) => p,
        Err(e) => {
            return Err(e);
        },
    };

    let mut w_with_link_v = concat(witnesses, &[]);
    w_with_link_v.push(link_v);
    assert(scalar_values(w_with_link_v@) =~= scalar_values(witnesses@).push(link_v@));
    let g_d_link = g1_msm(pk.vk.link_bases.as_slice(), w_with_link_v.as_slice());

    let mut ss_snark_witness = concat(witnesses, &[]);
    ss_snark_witness.push(link_v);
    ss_snark_witness.push(v);
    assert(scalar_values(ss_snark_witness@) =~= scalar_values(witnesses@).push(link_v@).push(v@));
    let link_pi = PESubspaceSnark::prove(&pk.vk.link_pp, &pk.link_ek, ss_snark_witness.as_slice());

    Ok(ProofWithLink { groth16_proof: proof, link_d: g_d_link, link_pi })
}

} // verus!
