use vstd::prelude::*;
use crate::g1::G1Point;
use crate::g1::g1_views;
use crate::g2::G2Point;
use crate::g2::g2_views;
use crate::link::snark::EK;
use crate::link::snark::PP;
use crate::link::snark::VK;
use crate::pairing::G2Prepared;
use crate::pairing::TargetElem;

verus! {

/// A proof: three elements of the argument proper, and the commitment `d`
/// to the committed witnesses.
#[derive(Clone, Copy, Debug, PartialEq, Eq)]
pub struct Proof {
    pub a: G1Point,
    pub b: G2Point,
    pub c: G1Point,
    pub d: G1Point,
}

/// The encodings of the elements of a proof.
pub struct ProofView {
    pub a: Seq<u8>,
    pub b: Seq<u8>,
    pub c: Seq<u8>,
    pub d: Seq<u8>,
}

impl View for Proof {
    type V = ProofView;

    open spec fn view(&self) -> ProofView {
        ProofView { a: self.a@, b: self.b@, c: self.c@, d: self.d@ }
    }
}

/// A proof with the commitment to the same witnesses under the bases of the
/// link, and the proof that the two commitments open to the same values.
#[derive(Clone, Copy, Debug, PartialEq, Eq)]
pub struct ProofWithLink {
    pub groth16_proof: Proof,
    pub link_d: G1Point,
    pub link_pi: G1Point,
}

/// The key that verifies proofs of one circuit.
#[derive(Clone, Debug, PartialEq, Eq)]
pub struct VerifyingKey {
    pub alpha_g1: G1Point,
    pub beta_g2: G2Point,
    pub gamma_g2: G2Point,
    pub delta_g2: G2Point,
    /// One element for the constant one, one for each further instance
    /// variable, and one for each committed witness variable.
    pub gamma_abc_g1: Vec<G1Point>,
    pub eta_gamma_inv_g1: G1Point,
}

/// The encodings of the elements of a verifying key.
pub struct VerifyingKeyView {
    pub alpha_g1: Seq<u8>,
    pub beta_g2: Seq<u8>,
    pub gamma_g2: Seq<u8>,
    pub delta_g2: Seq<u8>,
    pub gamma_abc_g1: Seq<Seq<u8>>,
    pub eta_gamma_inv_g1: Seq<u8>,
}

impl View for VerifyingKey {
    type V = VerifyingKeyView;

    open spec fn view(&self) -> VerifyingKeyView {
        VerifyingKeyView {
            alpha_g1: self.alpha_g1@,
            beta_g2: self.beta_g2@,
            gamma_g2: self.gamma_g2@,
            delta_g2: self.delta_g2@,
            gamma_abc_g1: g1_views(self.gamma_abc_g1@),
            eta_gamma_inv_g1: self.eta_gamma_inv_g1@,
        }
    }
}

impl VerifyingKey {
    /// A copy of the key.
    pub fn duplicate(&self) -> (r: VerifyingKey)
        ensures
            r@ == self@,
            r.gamma_abc_g1@ == self.gamma_abc_g1@,
    {
        let gamma_abc_g1 = self.gamma_abc_g1.clone();
        assert(gamma_abc_g1@ =~= self.gamma_abc_g1@);
        VerifyingKey {
            alpha_g1: self.alpha_g1,
            beta_g2: self.beta_g2,
            gamma_g2: self.gamma_g2,
            delta_g2: self.delta_g2,
            gamma_abc_g1,
            eta_gamma_inv_g1: self.eta_gamma_inv_g1,
        }
    }
}

/// A verifying key with what a verification computes from it alone.
#[derive(Clone, Debug)]
pub struct PreparedVerifyingKey {
    pub vk: VerifyingKey,
    /// The pairing of `alpha_g1` and `beta_g2`.
    pub alpha_g1_beta_g2: TargetElem,
    /// The inverse of `gamma_g2`, prepared for the Miller loop.
    pub gamma_g2_neg_pc: G2Prepared,
    /// The inverse of `delta_g2`, prepared for the Miller loop.
    pub delta_g2_neg_pc: G2Prepared,
}

/// The encodings of the elements of a prepared verifying key.
pub struct PreparedVerifyingKeyView {
    pub vk: VerifyingKeyView,
    pub alpha_g1_beta_g2: Seq<u8>,
    pub gamma_g2_neg_pc: Seq<u8>,
    pub delta_g2_neg_pc: Seq<u8>,
}

impl View for PreparedVerifyingKey {
    type V = PreparedVerifyingKeyView;

    open spec fn view(&self) -> PreparedVerifyingKeyView {
        PreparedVerifyingKeyView {
            vk: self.vk@,
            alpha_g1_beta_g2: self.alpha_g1_beta_g2@,
            gamma_g2_neg_pc: self.gamma_g2_neg_pc@,
            delta_g2_neg_pc: self.delta_g2_neg_pc@,
        }
    }
}

/// The part of the proving key that proofs with and without a link share:
/// three elements, and the tables that the prover multiplies the assignment
/// and the quotient polynomial into.
#[derive(Clone, Debug, PartialEq, Eq)]
pub struct ProvingKeyCommon {
    pub beta_g1: G1Point,
    pub delta_g1: G1Point,
    pub eta_delta_inv_g1: G1Point,
    pub a_query: Vec<G1Point>,
    pub b_g1_query: Vec<G1Point>,
    pub b_g2_query: Vec<G2Point>,
    pub h_query: Vec<G1Point>,
    pub l_query: Vec<G1Point>,
}

/// The encodings of the elements of the common part of a proving key.
pub struct ProvingKeyCommonView {
    pub beta_g1: Seq<u8>,
    pub delta_g1: Seq<u8>,
    pub eta_delta_inv_g1: Seq<u8>,
    pub a_query: Seq<Seq<u8>>,
    pub b_g1_query: Seq<Seq<u8>>,
    pub b_g2_query: Seq<Seq<u8>>,
    pub h_query: Seq<Seq<u8>>,
    pub l_query: Seq<Seq<u8>>,
}

impl View for ProvingKeyCommon {
    type V = ProvingKeyCommonView;

    open spec fn view(&self) -> ProvingKeyCommonView {
        ProvingKeyCommonView {
            beta_g1: self.beta_g1@,
            delta_g1: self.delta_g1@,
            eta_delta_inv_g1: self.eta_delta_inv_g1@,
            a_query: g1_views(self.a_query@),
            b_g1_query: g1_views(self.b_g1_query@),
            b_g2_query: g2_views(self.b_g2_query@),
            h_query: g1_views(self.h_query@),
            l_query: g1_views(self.l_query@),
        }
    }
}

/// The key that proves statements of one circuit.
#[derive(Clone, Debug, PartialEq, Eq)]
pub struct ProvingKey {
    pub vk: VerifyingKey,
    pub common: ProvingKeyCommon,
}

/// A verifying key with the key of the link: its parameters, the bases of
/// the commitment held elsewhere, and the verifier's key of the argument.
#[derive(Clone, Debug, PartialEq, Eq)]
pub struct VerifyingKeyWithLink {
    pub groth16_vk: VerifyingKey,
    pub link_pp: PP<G1Point, G2Point>,
    pub link_bases: Vec<G1Point>,
    pub link_vk: VK<G2Point>,
}

/// A proving key with the prover's key of the link.
#[derive(Clone, Debug, PartialEq, Eq)]
pub struct ProvingKeyWithLink {
    pub vk: VerifyingKeyWithLink,
    pub common: ProvingKeyCommon,
    pub link_ek: EK<G1Point>,
}

} // verus!
