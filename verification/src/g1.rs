use vstd::prelude::*;
use crate::field::Scalar;
use crate::field::scalar_values;
use crate::field::shorter;
use ark_bls12_377::Fr;
use ark_bls12_377::G1Affine;
use ark_bls12_377::G1Projective;
use ark_ec::AffineRepr;
use ark_ec::VariableBaseMSM;
use ark_ec::scalar_mul::fixed_base::FixedBase;
use ark_ff::BigInt;
use ark_ff::UniformRand;
use ark_serialize::CanonicalDeserialize;
use ark_serialize::CanonicalSerialize;
use ark_std::rand::rngs::StdRng;

verus! {

/// The canonical encoding of the point that `bytes` decode to, if they
/// decode to a point of the first pairing group.
pub uninterp spec fn g1_decoded(bytes: Seq<u8>) -> Option<Seq<u8>>;

/// The encoding of the sum of two encoded points.
pub uninterp spec fn g1_sum(a: Seq<u8>, b: Seq<u8>) -> Seq<u8>;

/// The encoding of the inverse of an encoded point.
pub uninterp spec fn g1_neg(a: Seq<u8>) -> Seq<u8>;

/// The encoding of an encoded point taken `s` times.
pub uninterp spec fn g1_scale(p: Seq<u8>, s: nat) -> Seq<u8>;

/// The table of multiples of an encoded point that fixed-base
/// multiplication with the given window reads.
pub uninterp spec fn g1_table(scalar_size: nat, window: nat, g: Seq<u8>) -> Seq<Seq<Seq<u8>>>;

/// The encoding of the neutral element: both coordinates zero, and the
/// flag for the point at infinity in the last byte.
pub open spec fn g1_identity() -> Seq<u8> {
    Seq::new(96, |i: int| if i == 95 { 0x40u8 } else { 0u8 })
}

/// The encoding of the fixed generator of the group.
pub const G1_GENERATOR: [u8; 96] = [
    239, 233, 27, 178, 110, 177, 185, 234, 78, 57, 205, 255, 18, 21, 72, 213,
    92, 203, 55, 189, 200, 130, 130, 24, 187, 65, 157, 170, 44, 30, 149, 133,
    84, 255, 135, 191, 37, 98, 252, 200, 103, 10, 116, 254, 222, 72, 136, 0,
    166, 142, 156, 85, 85, 222, 130, 253, 26, 89, 169, 52, 54, 61, 254, 194,
    5, 35, 184, 79, 212, 42, 24, 109, 217, 82, 62, 202, 72, 179, 127, 189,
    196, 238, 175, 48, 93, 79, 103, 31, 255, 46, 16, 197, 105, 74, 145, 129,
];

/// The sum of the first `n` products of a scalar and its base, added up
/// from the neutral element in the order of the indices.
pub open spec fn g1_lincomb(bases: Seq<Seq<u8>>, scalars: Seq<nat>, n: nat) -> Seq<u8>
    decreases n,
{
    if n == 0 {
        g1_identity()
    } else {
        g1_sum(
            g1_lincomb(bases, scalars, (n - 1) as nat),
            g1_scale(bases[n - 1], scalars[n - 1]),
        )
    }
}

/// The encodings of a sequence of points.
pub open spec fn g1_views(s: Seq<G1Point>) -> Seq<Seq<u8>> {
    Seq::new(s.len(), |i: int| s[i]@)
}

/// A point of the first pairing group, held in its canonical uncompressed
/// encoding.
#[derive(Clone, Copy, Debug, PartialEq, Eq)]
pub struct G1Point {
    pub(crate) bytes: [u8; 96],
}

impl View for G1Point {
    type V = Seq<u8>;

    closed spec fn view(&self) -> Seq<u8> {
        self.bytes@
    }
}

impl G1Point {
    #[verifier::type_invariant]
    spec fn canonical(self) -> bool {
        g1_decoded(self.bytes@) == Some(self.bytes@)
    }

    /// The point that `bytes` decode to, if they decode to one.
    pub fn from_bytes(bytes: &[u8]) -> (r: Option<G1Point>)
        ensures
            r.is_some() == g1_decoded(bytes@).is_some(),
            r.is_some() ==> r.unwrap()@ == g1_decoded(bytes@).unwrap(),
    {
        g1_decode(bytes)
    }

    /// The canonical encoding of the point.
    pub fn to_bytes(&self) -> (r: [u8; 96])
        ensures
            r@ == self@,
            g1_decoded(self@) == Some(self@),
    {
        proof {
            use_type_invariant(self);
        }
        self.bytes
    }

    /// The neutral element.
    pub fn zero() -> (r: G1Point)
        ensures
            r@ == g1_identity(),
    {
        g1_zero()
    }

    /// The fixed generator of the group.
    pub fn generator() -> (r: G1Point)
        ensures
            r@ == G1_GENERATOR@,
    {
        g1_generator()
    }

    /// Whether two values are the same point.
    pub fn same(&self, other: &G1Point) -> (r: bool)
        ensures
            r == (self@ == other@),
    {
        let mut i: usize = 0;
        while i < 96
            invariant
                i <= 96,
                forall|j: int| 0 <= j < i ==> self.bytes@[j] == other.bytes@[j],
            decreases 96 - i,
        {
            if self.bytes[i] != other.bytes[i] {
                return false;
            }
            i = i + 1;
        }
        assert(self.bytes@ =~= other.bytes@);
        true
    }

    /// The difference of two points.
    pub fn minus(&self, other: &G1Point) -> (r: G1Point)
        ensures
            r@ == g1_sum(self@, g1_neg(other@)),
    {
        let n = g1_negate(other);
        g1_add(self, &n)
    }
}

/// `G1Affine::deserialize_uncompressed`, with the point it gives encoded
/// again (`serialize_uncompressed`): nothing where the bytes are no point
/// of the group, else the encoding that `g1_decoded` names for the bytes.
#[verifier::external_body]
pub(crate) fn g1_decode(bytes: &[u8]) -> (r: Option<G1Point>)
    ensures
        r.is_some() == g1_decoded(bytes@).is_some(),
        r.is_some() ==> r.unwrap()@ == g1_decoded(bytes@).unwrap(),
{
    let p = G1Affine::deserialize_uncompressed(bytes).ok()?;
    let mut out = [0u8; 96];
    p.serialize_uncompressed(&mut out[..]).ok()?;
    Some(G1Point { bytes: out })
}

/// `G1Affine::zero`: the point at infinity, whose encoding is all zero but
/// for the infinity flag.
#[verifier::external_body]
pub(crate) fn g1_zero() -> (r: G1Point)
    ensures
        r@ == g1_identity(),
{
    let mut out = [0u8; 96];
    G1Affine::zero().serialize_uncompressed(&mut out[..]).unwrap();
    G1Point { bytes: out }
}

/// `G1Affine::generator`: the fixed generator of the group, whose
/// encoding is `G1_GENERATOR`.
#[verifier::external_body]
pub(crate) fn g1_generator() -> (r: G1Point)
    ensures
        r@ == G1_GENERATOR@,
{
    let mut out = [0u8; 96];
    G1Affine::generator().serialize_uncompressed(&mut out[..]).unwrap();
    G1Point { bytes: out }
}

/// `UniformRand::rand` for `G1Projective`: some point of the group, drawn
/// from the generator of randomness.
#[verifier::external_body]
pub(crate) fn g1_rand(rng: &mut StdRng) -> (r: G1Point) {
    let mut out = [0u8; 96];
    G1Projective::rand(rng).serialize_uncompressed(&mut out[..]).unwrap();
    G1Point { bytes: out }
}

/// The group's addition, `Add` of `G1Affine`: the point that `g1_sum` names
/// for the encodings of the two.
#[verifier::external_body]
pub(crate) fn g1_add(a: &G1Point, b: &G1Point) -> (r: G1Point)
    ensures
        r@ == g1_sum(a@, b@),
{
    let x = G1Affine::deserialize_uncompressed_unchecked(&a.bytes[..]).unwrap();
    let y = G1Affine::deserialize_uncompressed_unchecked(&b.bytes[..]).unwrap();
    let mut out = [0u8; 96];
    (x + y).serialize_uncompressed(&mut out[..]).unwrap();
    G1Point { bytes: out }
}

/// The group's inverse, `Neg` of `G1Affine`: the point that `g1_neg` names
/// for the encoding of the argument.
#[verifier::external_body]
pub(crate) fn g1_negate(a: &G1Point) -> (r: G1Point)
    ensures
        r@ == g1_neg(a@),
{
    let x = G1Affine::deserialize_uncompressed_unchecked(&a.bytes[..]).unwrap();
    let mut out = [0u8; 96];
    (-x).serialize_uncompressed(&mut out[..]).unwrap();
    G1Point { bytes: out }
}

/// `AffineRepr::mul_bigint`: the point taken as many times as the scalar
/// says, which `g1_scale` names for the encoding and the scalar.
#[verifier::external_body]
pub(crate) fn g1_mul(p: &G1Point, s: &Scalar) -> (r: G1Point)
    ensures
        r@ == g1_scale(p@, s@),
{
    let x = G1Affine::deserialize_uncompressed_unchecked(&p.bytes[..]).unwrap();
    let k = BigInt([s.l0, s.l1, s.l2, s.l3]);
    let mut out = [0u8; 96];
    x.mul_bigint(k).serialize_uncompressed(&mut out[..]).unwrap();
    G1Point { bytes: out }
}

/// `VariableBaseMSM::msm_bigint`: the inner product of the scalars and the
/// bases, over as many of them as the shorter of the two has; the same
/// point as their products added up one by one from the neutral element.
#[verifier::external_body]
pub(crate) fn g1_msm(bases: &[G1Point], scalars: &[Scalar]) -> (r: G1Point)
    ensures
        r@ == g1_lincomb(
            g1_views(bases@),
            scalar_values(scalars@),
            shorter(bases@.len(), scalars@.len()),
        ),
{
    let bs: Vec<G1Affine> = bases.iter().map(
        |b| G1Affine::deserialize_uncompressed_unchecked(&b.bytes[..]).unwrap(),
    ).collect();
    let ks: Vec<BigInt<4>> = scalars.iter().map(|s| BigInt([s.l0, s.l1, s.l2, s.l3])).collect();
    let mut out = [0u8; 96];
    G1Projective::msm_bigint(&bs, &ks).serialize_uncompressed(&mut out[..]).unwrap();
    G1Point { bytes: out }
}

/// A table of multiples of one point, for fixed-base multiplication.
pub struct G1Table {
    pub(crate) rows: Vec<Vec<G1Point>>,
}

impl View for G1Table {
    type V = Seq<Seq<Seq<u8>>>;

    closed spec fn view(&self) -> Seq<Seq<Seq<u8>>> {
        Seq::new(self.rows@.len(), |i: int| g1_views(self.rows@[i]@))
    }
}

/// `FixedBase::get_window_table` for the first group: one row of multiples
/// of the point for each window of the scalar, which `g1_table` names for
/// the scalar size, the window and the encoding of the point.
#[verifier::external_body]
pub(crate) fn g1_window_table(scalar_size: usize, window: usize, g: &G1Point) -> (t: G1Table)
    requires
        1 <= window < usize::BITS,
        1 <= scalar_size,
        scalar_size + window <= usize::MAX,
    ensures
        t@ == g1_table(scalar_size as nat, window as nat, g@),
{
    let x = G1Affine::deserialize_uncompressed_unchecked(&g.bytes[..]).unwrap();
    let t = FixedBase::get_window_table::<G1Projective>(scalar_size, window, x.into_group());
    let enc = |p: &G1Affine| {
        let mut out = [0u8; 96];
        p.serialize_uncompressed(&mut out[..]).unwrap();
        G1Point { bytes: out }
    };
    G1Table { rows: t.iter().map(|row| row.iter().map(enc).collect()).collect() }
}

/// `FixedBase::msm` for the first group: with the table of a point, made
/// for the same window and a scalar size that covers the scalar field, the
/// point taken as many times as each scalar says.
#[verifier::external_body]
pub(crate) fn g1_fixed_msm(scalar_size: usize, window: usize, table: &G1Table, v: &[Scalar]) -> (r:
    Vec<G1Point>)
    requires
        1 <= window < usize::BITS,
        253 <= scalar_size,
        scalar_size + window <= usize::MAX,
        exists|g: Seq<u8>| table@ == #[trigger] g1_table(scalar_size as nat, window as nat, g),
    ensures
        r@.len() == v@.len(),
        forall|g: Seq<u8>, i: int|
            table@ == #[trigger] g1_table(scalar_size as nat, window as nat, g) && 0 <= i < v@.len()
                ==> (#[trigger] r@[i])@ == g1_scale(g, v@[i]@),
{
    let dec = |p: &G1Point| G1Affine::deserialize_uncompressed_unchecked(&p.bytes[..]).unwrap();
    let t: Vec<Vec<G1Affine>> = table.rows.iter().map(|row| row.iter().map(dec).collect()).collect();
    let ks: Vec<Fr> = v.iter().map(|s| Fr::from(BigInt([s.l0, s.l1, s.l2, s.l3]))).collect();
    let enc = |p: &G1Projective| {
        let mut out = [0u8; 96];
        p.serialize_uncompressed(&mut out[..]).unwrap();
        G1Point { bytes: out }
    };
    FixedBase::msm::<G1Projective>(scalar_size, window, &t, &ks).iter().map(enc).collect()
}

} // verus!
