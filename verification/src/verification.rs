use vstd::prelude::*;
use crate::data_structures::PreparedVerifyingKey;
use crate::data_structures::PreparedVerifyingKeyView;
use crate::data_structures::Proof;
use crate::data_structures::ProofView;
use crate::data_structures::ProofWithLink;
use crate::data_structures::VerifyingKey;
use crate::data_structures::VerifyingKeyView;
use crate::data_structures::VerifyingKeyWithLink;
use crate::error::Error;
use crate::field::Scalar;
use crate::field::scalar_values;
use crate::g1::G1Point;
use crate::g1::g1_add;
use crate::g1::g1_lincomb;
use crate::g1::g1_msm;
use crate::g1::g1_mul;
use crate::g1::g1_scale;
use crate::g1::g1_sum;
use crate::g1::g1_views;
use crate::g2::G2Point;
use crate::g2::g2_neg;
use crate::g2::g2_negate;
use crate::link::snark::PESubspaceSnark;
use crate::link::snark::SubspaceSnark;
use crate::link::snark::accepts;
use crate::pairing::G2Prepared;
use crate::pairing::final_exp;
use crate::pairing::final_exponentiation;
use crate::pairing::g2_prepare;
use crate::pairing::g2_prepared;
use crate::pairing::miller_value;
use crate::pairing::multi_miller_loop;
use crate::pairing::pairing;
use crate::pairing::pairing_value;
use crate::pairing::prepared_views;

verus! {

/// What a verifying key is prepared to: the key itself, the pairing of
/// `alpha_g1` and `beta_g2`, and the prepared inverses of `gamma_g2` and
/// `delta_g2`.
pub open spec fn prepared(vk: VerifyingKeyView) -> PreparedVerifyingKeyView {
    PreparedVerifyingKeyView {
        vk,
        alpha_g1_beta_g2: pairing_value(vk.alpha_g1, vk.beta_g2),
        gamma_g2_neg_pc: g2_prepared(g2_neg(vk.gamma_g2)),
        delta_g2_neg_pc: g2_prepared(g2_neg(vk.delta_g2)),
    }
}

/// The element of the key for the constant one, and the first `n` public
/// inputs times the elements that follow it, added up in their order.
pub open spec fn inputs_sum(gamma_abc: Seq<Seq<u8>>, inputs: Seq<nat>, n: nat) -> Seq<u8>
    decreases n,
{
    if n == 0 {
        gamma_abc[0]
    } else {
        g1_sum(inputs_sum(gamma_abc, inputs, (n - 1) as nat), g1_scale(gamma_abc[n as int], inputs[n - 1]))
    }
}

/// The part of the commitment that the public inputs make. Up to two inputs
/// are added to the element for the constant one, one by one; more are
/// multiplied into the key at once, with the constant one in front.
pub open spec fn prepared_inputs(gamma_abc: Seq<Seq<u8>>, inputs: Seq<nat>) -> Seq<u8> {
    if inputs.len() > 2 {
        g1_lincomb(gamma_abc, seq![1nat] + inputs, inputs.len() + 1)
    } else {
        inputs_sum(gamma_abc, inputs, inputs.len())
    }
}

/// The commitment that the pairing equation is checked with: the part of
/// the public inputs, and the proof's own commitment.
pub open spec fn full_commitment(gamma_abc: Seq<Seq<u8>>, inputs: Seq<nat>, d: Seq<u8>) -> Seq<u8> {
    g1_sum(prepared_inputs(gamma_abc, inputs), d)
}

/// The value that a proof's elements give against a prepared key: the
/// final exponentiation of the Miller loops of `a` with `b`, of `c` with the
/// inverse of `delta_g2`, and of `d` with the inverse of `gamma_g2`.
pub open spec fn groth16_value(
    pvk: PreparedVerifyingKeyView,
    a: Seq<u8>,
    b: Seq<u8>,
    c: Seq<u8>,
    d: Seq<u8>,
) -> Option<Seq<u8>> {
    final_exp(
        miller_value(seq![a, c, d], seq![g2_prepared(b), pvk.delta_g2_neg_pc, pvk.gamma_g2_neg_pc]),
    )
}

/// The outcome of the pairing check: an error where the final
/// exponentiation has no value, else whether the value is the key's pairing
/// of `alpha_g1` and `beta_g2`.
pub open spec fn groth16_outcome(
    pvk: PreparedVerifyingKeyView,
    a: Seq<u8>,
    b: Seq<u8>,
    c: Seq<u8>,
    d: Seq<u8>,
) -> Result<bool, Error> {
    match groth16_value(pvk, a, b, c, d) {
        Some(x) => Ok(x == pvk.alpha_g1_beta_g2),
        None => Err(Error::UnexpectedIdentity),
    }
}

/// The outcome of verifying a proof for the given public inputs.
pub open spec fn proof_outcome(pvk: PreparedVerifyingKeyView, proof: ProofView, inputs: Seq<nat>) -> Result<
    bool,
    Error,
> {
    if inputs.len() + 1 > pvk.vk.gamma_abc_g1.len() {
        Err(Error::MalformedVerifyingKey)
    } else {
        groth16_outcome(
            pvk,
            proof.a,
            proof.b,
            proof.c,
            full_commitment(pvk.vk.gamma_abc_g1, inputs, proof.d),
        )
    }
}

/// The commitment to the witnesses `w` with the blinding scalar `v` under a
/// verifying key whose first `1 + count` elements belong to the instance.
pub open spec fn witness_commitment(vk: VerifyingKeyView, count: nat, w: Seq<nat>, v: nat) -> Seq<u8> {
    g1_sum(
        g1_lincomb(
            vk.gamma_abc_g1.subrange(1 + count as int, 1 + count + w.len() as int),
            w,
            w.len(),
        ),
        g1_scale(vk.eta_gamma_inv_g1, v),
    )
}

/// The commitment to the witnesses `w` with the blinding scalar `link_v`
/// under the bases of the link.
pub open spec fn link_commitment(bases: Seq<Seq<u8>>, w: Seq<nat>, link_v: nat) -> Seq<u8> {
    g1_lincomb(bases, w.push(link_v), w.len() + 1)
}

/// Whether `d` opens to the witnesses `w` and `link_v` under bases of which
/// there are enough.
pub open spec fn link_opens(bases: Seq<Seq<u8>>, d: Seq<u8>, w: Seq<nat>, link_v: nat) -> bool {
    w.len() + 1 <= bases.len() && d == link_commitment(bases, w, link_v)
}

/// Whether `d` opens to the witnesses `w` and `v` under a verifying key
/// that has an element for each of them.
pub open spec fn witness_opens(vk: VerifyingKeyView, d: Seq<u8>, count: nat, w: Seq<nat>, v: nat) -> bool {
    count + w.len() + 1 <= vk.gamma_abc_g1.len() && d == witness_commitment(vk, count, w, v)
}

/// Prepares the verifying key `vk` for use in proof verification.
pub fn prepare_verifying_key(vk: &VerifyingKey) -> (pvk: PreparedVerifyingKey)
    ensures
        pvk@ == prepared(vk@),
        pvk.vk.gamma_abc_g1@ == vk.gamma_abc_g1@,
{
    let gamma_neg = g2_negate(&vk.gamma_g2);
    let delta_neg = g2_negate(&vk.delta_g2);
    PreparedVerifyingKey {
        vk: vk.duplicate(),
        alpha_g1_beta_g2: pairing(&vk.alpha_g1, &vk.beta_g2),
        gamma_g2_neg_pc: g2_prepare(&gamma_neg),
        delta_g2_neg_pc: g2_prepare(&delta_neg),
    }
}

/// The part of the commitment that the public inputs make, unless the key
/// has too few elements for them.
pub fn prepare_inputs(pvk: &PreparedVerifyingKey, public_inputs: &[Scalar]) -> (r: Result<
    G1Point,
    Error,
>)
    ensures
        r.is_ok() == (public_inputs@.len() + 1 <= pvk@.vk.gamma_abc_g1.len()),
        r.is_ok() ==> r.unwrap()@ == prepared_inputs(
            pvk@.vk.gamma_abc_g1,
            scalar_values(public_inputs@),
        ),
        r.is_err() ==> r.unwrap_err() == Error::MalformedVerifyingKey,
{
    let n: usize = public_inputs.len();
    if n >= pvk.vk.gamma_abc_g1.len() {
        return Err(Error::MalformedVerifyingKey);
    }
    if n > 2 {
        let mut inp: Vec<Scalar> = Vec::with_capacity(1 + n);
        inp.push(Scalar::one());
        let mut i: usize = 0;
        while i < n
            invariant
                i <= n,
                n == public_inputs@.len(),
                inp@.len() == i + 1,
                inp@[0]@ == 1,
                forall|j: int| 0 <= j < i ==> inp@[j + 1] == public_inputs@[j],
            decreases n - i,
        {
            inp.push(public_inputs[i]);
            i = i + 1;
        }
        assert(scalar_values(inp@) =~= seq![1nat] + scalar_values(public_inputs@));
        Ok(g1_msm(pvk.vk.gamma_abc_g1.as_slice(), inp.as_slice()))
    } else {
        let mut d = pvk.vk.gamma_abc_g1[0];
        let mut i: usize = 0;
        while i < n
            invariant
                i <= n,
                n == public_inputs@.len(),
                n < pvk.vk.gamma_abc_g1@.len(),
                d@ == inputs_sum(pvk@.vk.gamma_abc_g1, scalar_values(public_inputs@), i as nat),
            decreases n - i,
        {
            let term = g1_mul(&pvk.vk.gamma_abc_g1[i + 1], &public_inputs[i]);
            d = g1_add(&d, &term);
            i = i + 1;
        }
        Ok(d)
    }
}

/// The commitment that the pairing equation is checked with, unless the
/// key has too few elements for the public inputs.
pub fn calculate_d(pvk: &PreparedVerifyingKey, proof: &Proof, public_inputs: &[Scalar]) -> (r:
    Result<G1Point, Error>)
    ensures
        r.is_ok() == (public_inputs@.len() + 1 <= pvk@.vk.gamma_abc_g1.len()),
        r.is_ok() ==> r.unwrap()@ == full_commitment(
            pvk@.vk.gamma_abc_g1,
            scalar_values(public_inputs@),
            proof.d@,
        ),
        r.is_err() ==> r.unwrap_err() == Error::MalformedVerifyingKey,
{
    match prepare_inputs(pvk, public_inputs) {
        Ok(d) => Ok(g1_add(&d, &proof.d)),
        Err(e) => Err(e),
    }
}

/// Checks the pairing equation on the elements `a`, `b`, `c` of a proof
/// and the full commitment `d`.
pub fn verify_groth16_proof(
    pvk: &PreparedVerifyingKey,
    a: G1Point,
    b: G2Point,
    c: G1Point,
    d: G1Point,
) -> (r: Result<bool, Error>)
    ensures
        r == groth16_outcome(pvk@, a@, b@, c@, d@),
{
    let mut g1_elements: Vec<G1Point> = Vec::new();
    g1_elements.push(a);
    g1_elements.push(c);
    g1_elements.push(d);
    let mut g2_elements: Vec<G2Prepared> = Vec::new();
    g2_elements.push(g2_prepare(&b));
    g2_elements.push(pvk.delta_g2_neg_pc.duplicate());
    g2_elements.push(pvk.gamma_g2_neg_pc.duplicate());
    assert(g1_views(g1_elements@) =~= seq![a@, c@, d@]);
    assert(prepared_views(g2_elements@) =~= seq![
        g2_prepared(b@),
        pvk@.delta_g2_neg_pc,
        pvk@.gamma_g2_neg_pc,
    ]);
    let qap = multi_miller_loop(g1_elements.as_slice(), g2_elements.as_slice());
    match final_exponentiation(&qap) {
        Some(test) => Ok(test.same(&pvk.alpha_g1_beta_g2)),
        None => Err(Error::UnexpectedIdentity),
    }
}

/// Verifies a proof against the prepared verifying key `pvk` and the public
/// inputs.
pub fn verify_proof(pvk: &PreparedVerifyingKey, proof: &Proof, public_inputs: &[Scalar]) -> (r:
    Result<bool, Error>)
    ensures
        r == proof_outcome(pvk@, proof@, scalar_values(public_inputs@)),
{
    match calculate_d(pvk, proof, public_inputs) {
        Ok(d) => verify_groth16_proof(pvk, proof.a, proof.b, proof.c, d),
        Err(e) => Err(e),
    }
}

/// Whether the key of the link has the two rows that the two commitments
/// need.
pub open spec fn link_key_fits(vk: VerifyingKeyWithLink) -> bool {
    vk.link_pp.l == 2 && vk.link_vk.c@.len() >= 2
}

/// The outcome of verifying a proof with a link: an error where the key of
/// the link is out of shape or verifying the proof ends with one, else
/// whether the proof verifies and the argument of the link accepts `link_d`
/// and the proof's commitment.
pub open spec fn link_outcome(
    pvk: PreparedVerifyingKeyView,
    vk: VerifyingKeyWithLink,
    proof: ProofWithLink,
    inputs: Seq<nat>,
) -> Result<bool, Error> {
    if !link_key_fits(vk) {
        Err(Error::MalformedVerifyingKey)
    } else {
        match proof_outcome(pvk, proof.groth16_proof@, inputs) {
            Ok(proof_verified) => Ok(
                proof_verified && accepts(
                    vk.link_vk,
                    seq![proof.link_d, proof.groth16_proof.d],
                    proof.link_pi,
                ),
            ),
            Err(e) => Err(e),
        }
    }
}

/// Verifies a proof and, with the key of the link, that its commitment and
/// `link_d` open to the same values.
pub fn verify_proof_with_link(
    pvk: &PreparedVerifyingKey,
    vk: &VerifyingKeyWithLink,
    proof: &ProofWithLink,
    public_inputs: &[Scalar],
) -> (r: Result<bool, Error>)
    ensures
        r == link_outcome(pvk@, *vk, *proof, scalar_values(public_inputs@)),
{
    if vk.link_pp.l != 2 || vk.link_vk.c.len() < 2 {
        return Err(Error::MalformedVerifyingKey);
    }
    let proof_verified = match verify_proof(pvk, &proof.groth16_proof, public_inputs) {
        Ok(b) => b,
        Err(e) => {
            return Err(e);
        },
    };
    let mut commitments: Vec<G1Point> = Vec::new();
    commitments.push(proof.link_d);
    commitments.push(proof.groth16_proof.d);
    assert(commitments@ =~= seq![proof.link_d, proof.groth16_proof.d]);
    let link_verified = PESubspaceSnark::verify(
        &vk.link_pp,
        &vk.link_vk,
        commitments.as_slice(),
        &proof.link_pi,
    );
    Ok(proof_verified && link_verified)
}

/// Checks that `link_d` opens to the given witnesses and `link_v` under the
/// bases of the link. For the prover alone: a verifier knows neither.
pub fn verify_link_commitment(
    cp_link_bases: &[G1Point],
    link_d: &G1Point,
    witnesses_expected_in_commitment: &[Scalar],
    link_v: &Scalar,
) -> (r: Result<bool, Error>)
    ensures
        r == (if link_opens(
            g1_views(cp_link_bases@),
            link_d@,
            scalar_values(witnesses_expected_in_commitment@),
            link_v@,
        ) {
            Ok::<bool, Error>(true)
        } else {
            Err(Error::MalformedVerifyingKey)
        }),
{
    let n: usize = witnesses_expected_in_commitment.len();
    if n >= cp_link_bases.len() {
        return Err(Error::MalformedVerifyingKey);
    }
    let mut committed: Vec<Scalar> = Vec::new();
    let mut i: usize = 0;
    while i < n
        invariant
            i <= n,
            n == witnesses_expected_in_commitment@.len(),
            committed@.len() == i,
            forall|j: int| 0 <= j < i ==> committed@[j] == witnesses_expected_in_commitment@[j],
        decreases n - i,
    {
        committed.push(witnesses_expected_in_commitment[i]);
        i = i + 1;
    }
    committed.push(*link_v);
    assert(scalar_values(committed@) =~= scalar_values(witnesses_expected_in_commitment@).push(
        link_v@,
    ));
    let d = g1_msm(cp_link_bases, committed.as_slice());
    if !link_d.same(&d) {
        return Err(Error::MalformedVerifyingKey);
    }
    Ok(true)
}

/// Checks that the commitment `proof.d` opens to the given witnesses and
/// `v`. For the prover alone: a verifier knows neither.
pub fn verify_witness_commitment(
    vk: &VerifyingKey,
    proof: &Proof,
    public_inputs_count: usize,
    witnesses_expected_in_commitment: &[Scalar],
    v: &Scalar,
) -> (r: Result<bool, Error>)
    ensures
        r == (if witness_opens(
            vk@,
            proof.d@,
            public_inputs_count as nat,
            scalar_values(witnesses_expected_in_commitment@),
            v@,
        ) {
            Ok::<bool, Error>(true)
        } else {
            Err(Error::MalformedVerifyingKey)
        }),
{
    let n: usize = witnesses_expected_in_commitment.len();
    let total: usize = vk.gamma_abc_g1.len();
    if public_inputs_count >= total || n >= total - public_inputs_count {
        return Err(Error::MalformedVerifyingKey);
    }
    let start: usize = 1 + public_inputs_count;
    let bases = vstd::slice::slice_subrange(vk.gamma_abc_g1.as_slice(), start, start + n);
    assert(g1_views(bases@) =~= vk@.gamma_abc_g1.subrange(start as int, start + n));
    let msm = g1_msm(bases, witnesses_expected_in_commitment);
    let blind = g1_mul(&vk.eta_gamma_inv_g1, v);
    let d = g1_add(&msm, &blind);
    if !proof.d.same(&d) {
        return Err(Error::MalformedVerifyingKey);
    }
    Ok(true)
}

/// Checks that both commitments of a proof with a link open to the given
/// witnesses, each with its blinding scalar. For the prover alone.
pub fn verify_commitments(
    vk: &VerifyingKeyWithLink,
    proof: &ProofWithLink,
    public_inputs_count: usize,
    witnesses_expected_in_commitment: &[Scalar],
    v: &Scalar,
    link_v: &Scalar,
) -> (r: Result<bool, Error>)
    ensures
        r == (if link_opens(
            g1_views(vk.link_bases@),
            proof.link_d@,
            scalar_values(witnesses_expected_in_commitment@),
            link_v@,
        ) && witness_opens(
            vk.groth16_vk@,
            proof.groth16_proof.d@,
            public_inputs_count as nat,
            scalar_values(witnesses_expected_in_commitment@),
            v@,
        ) {
            Ok::<bool, Error>(true)
        } else {
            Err(Error::MalformedVerifyingKey)
        }),
{
    match verify_link_commitment(
        vk.link_bases.as_slice(),
        &proof.link_d,
        witnesses_expected_in_commitment,
        link_v,
    ) {
        Ok(_) => verify_witness_commitment(
            &vk.groth16_vk,
            &proof.groth16_proof,
            public_inputs_count,
            witnesses_expected_in_commitment,
            v,
        ),
        Err(e) => Err(e),
    }
}

} // verus!
