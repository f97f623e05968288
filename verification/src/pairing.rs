use vstd::prelude::*;
use crate::g1::G1Point;
use crate::g1::g1_views;
use crate::g2::G2Point;
use ark_bls12_377::Bls12_377;
use ark_bls12_377::Fq12;
use ark_bls12_377::G1Affine;
use ark_bls12_377::G2Affine;
use ark_ec::pairing::MillerLoopOutput;
use ark_ec::pairing::Pairing;
use ark_serialize::CanonicalDeserialize;
use ark_serialize::CanonicalSerialize;

verus! {

/// The encoding of the form of an encoded point of the second group that
/// the Miller loop reads.
pub uninterp spec fn g2_prepared(q: Seq<u8>) -> Seq<u8>;

/// The encoding of the pairing of two encoded points.
pub uninterp spec fn pairing_value(p: Seq<u8>, q: Seq<u8>) -> Seq<u8>;

/// The encoding of the product of the Miller loops of the pairs that two
/// sequences of equal length make: encoded points of the first group, and
/// encoded prepared points of the second.
pub uninterp spec fn miller_value(ps: Seq<Seq<u8>>, qs: Seq<Seq<u8>>) -> Seq<u8>;

/// The encoding of the final exponentiation of an encoded Miller loop
/// value, if it has one.
pub uninterp spec fn final_exp(f: Seq<u8>) -> Option<Seq<u8>>;

/// The encoding of the one of the target field: the least significant
/// byte of its first coefficient is one, all others are zero.
pub open spec fn target_one() -> Seq<u8> {
    Seq::new(576, |i: int| if i == 0 { 1u8 } else { 0u8 })
}

/// The encodings of a sequence of prepared points.
pub open spec fn prepared_views(s: Seq<G2Prepared>) -> Seq<Seq<u8>> {
    Seq::new(s.len(), |i: int| s[i]@)
}

/// A point of the second group in the form that the Miller loop reads.
#[derive(Clone, Debug)]
pub struct G2Prepared {
    pub(crate) bytes: Vec<u8>,
}

impl View for G2Prepared {
    type V = Seq<u8>;

    closed spec fn view(&self) -> Seq<u8> {
        self.bytes@
    }
}

impl G2Prepared {
    /// A copy of the prepared point.
    pub fn duplicate(&self) -> (r: G2Prepared)
        ensures
            r@ == self@,
    {
        let bytes = self.bytes.clone();
        assert(bytes@ =~= self.bytes@);
        G2Prepared { bytes }
    }
}

/// The value of a product of Miller loops, before the final exponentiation.
#[derive(Clone, Copy, Debug)]
pub struct MillerOutput {
    pub(crate) bytes: [u8; 576],
}

impl View for MillerOutput {
    type V = Seq<u8>;

    closed spec fn view(&self) -> Seq<u8> {
        self.bytes@
    }
}

/// An element of the target field, held in its canonical encoding.
#[derive(Clone, Copy, Debug, PartialEq, Eq)]
pub struct TargetElem {
    pub(crate) bytes: [u8; 576],
}

impl View for TargetElem {
    type V = Seq<u8>;

    closed spec fn view(&self) -> Seq<u8> {
        self.bytes@
    }
}

impl TargetElem {
    /// The canonical encoding of the element.
    pub fn to_bytes(&self) -> (r: [u8; 576])
        ensures
            r@ == self@,
    {
        self.bytes
    }

    /// The one of the target field.
    pub fn one() -> (r: TargetElem)
        ensures
            r@ == target_one(),
    {
        let mut bytes = [0u8; 576];
        bytes.set(0, 1);
        assert(bytes@ =~= target_one());
        TargetElem { bytes }
    }

    /// Whether two values are the same element.
    pub fn same(&self, other: &TargetElem) -> (r: bool)
        ensures
            r == (self@ == other@),
    {
        let mut i: usize = 0;
        while i < 576
            invariant
                i <= 576,
                forall|j: int| 0 <= j < i ==> self.bytes@[j] == other.bytes@[j],
            decreases 576 - i,
        {
            if self.bytes[i] != other.bytes[i] {
                return false;
            }
            i = i + 1;
        }
        assert(self.bytes@ =~= other.bytes@);
        true
    }
}

/// `G2Prepared::from` a point of the second group, in the encoding that
/// `g2_prepared` names for the encoding of the point.
#[verifier::external_body]
pub(crate) fn g2_prepare(q: &G2Point) -> (r: G2Prepared)
    ensures
        r@ == g2_prepared(q@),
{
    let x = G2Affine::deserialize_uncompressed_unchecked(&q.bytes[..]).unwrap();
    let mut out = Vec::new();
    <Bls12_377 as Pairing>::G2Prepared::from(x).serialize_uncompressed(&mut out).unwrap();
    G2Prepared { bytes: out }
}

/// `Pairing::pairing` of BLS12-377: the element that `pairing_value` names
/// for the encodings of the two points.
#[verifier::external_body]
pub(crate) fn pairing(p: &G1Point, q: &G2Point) -> (r: TargetElem)
    ensures
        r@ == pairing_value(p@, q@),
{
    let x = G1Affine::deserialize_uncompressed_unchecked(&p.bytes[..]).unwrap();
    let y = G2Affine::deserialize_uncompressed_unchecked(&q.bytes[..]).unwrap();
    let mut out = [0u8; 576];
    Bls12_377::pairing(x, y).0.serialize_uncompressed(&mut out[..]).unwrap();
    TargetElem { bytes: out }
}

/// `Pairing::multi_miller_loop` of BLS12-377, which takes as many points of
/// the one group as of the other: the value that `miller_value` names for
/// their encodings.
#[verifier::external_body]
pub(crate) fn multi_miller_loop(ps: &[G1Point], qs: &[G2Prepared]) -> (r: MillerOutput)
    requires
        ps@.len() == qs@.len(),
    ensures
        r@ == miller_value(g1_views(ps@), prepared_views(qs@)),
{
    let xs = ps.iter().map(
        |p| G1Affine::deserialize_uncompressed_unchecked(&p.bytes[..]).unwrap(),
    );
    let ys = qs.iter().map(
        |q|
            <Bls12_377 as Pairing>::G2Prepared::deserialize_uncompressed_unchecked(
                &q.bytes[..],
            ).unwrap(),
    );
    let mut out = [0u8; 576];
    Bls12_377::multi_miller_loop(xs, ys).0.serialize_uncompressed(&mut out[..]).unwrap();
    MillerOutput { bytes: out }
}

/// `Pairing::final_exponentiation` of BLS12-377: nothing where the Miller
/// loop value has no inverse, else the element that `final_exp` names for
/// its encoding.
#[verifier::external_body]
pub(crate) fn final_exponentiation(f: &MillerOutput) -> (r: Option<TargetElem>)
    ensures
        r.is_some() == final_exp(f@).is_some(),
        r.is_some() ==> r.unwrap()@ == final_exp(f@).unwrap(),
{
    let x = Fq12::deserialize_uncompressed_unchecked(&f.bytes[..]).unwrap();
    let y = Bls12_377::final_exponentiation(MillerLoopOutput(x))?;
    let mut out = [0u8; 576];
    y.0.serialize_uncompressed(&mut out[..]).unwrap();
    Some(TargetElem { bytes: out })
}

} // verus!
