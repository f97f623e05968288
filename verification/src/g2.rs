use vstd::prelude::*;
use crate::field::Scalar;
use crate::field::scalar_values;
use crate::field::shorter;
use ark_bls12_377::Fr;
use ark_bls12_377::G2Affine;
use ark_bls12_377::G2Projective;
use ark_ec::AffineRepr;
use ark_ec::VariableBaseMSM;
use ark_ec::scalar_mul::fixed_base::FixedBase;
use ark_ff::BigInt;
use ark_ff::UniformRand;
use ark_serialize::CanonicalDeserialize;
use ark_serialize::CanonicalSerialize;
use ark_std::rand::rngs::StdRng;

verus! {

/// The canonical encoding of the point that `bytes` decode to, if they
/// decode to a point of the second pairing group.
pub uninterp spec fn g2_decoded(bytes: Seq<u8>) -> Option<Seq<u8>>;

/// The encoding of the sum of two encoded points.
pub uninterp spec fn g2_sum(a: Seq<u8>, b: Seq<u8>) -> Seq<u8>;

/// The encoding of the inverse of an encoded point.
pub uninterp spec fn g2_neg(a: Seq<u8>) -> Seq<u8>;

/// The encoding of an encoded point taken `s` times.
pub uninterp spec fn g2_scale(p: Seq<u8>, s: nat) -> Seq<u8>;

/// The table of multiples of an encoded point that fixed-base
/// multiplication with the given window reads.
pub uninterp spec fn g2_table(scalar_size: nat, window: nat, g: Seq<u8>) -> Seq<Seq<Seq<u8>>>;

/// The encoding of the neutral element: both coordinates zero, and the
/// flag for the point at infinity in the last byte.
pub open spec fn g2_identity() -> Seq<u8> {
    Seq::new(192, |i: int| if i == 191 { 0x40u8 } else { 0u8 })
}

/// The encoding of the fixed generator of the group.
pub const G2_GENERATOR: [u8; 192] = [
    150, 81, 0, 124, 143, 228, 227, 116, 2, 84, 83, 187, 82, 159, 136, 113,
    155, 107, 219, 87, 245, 1, 165, 126, 49, 80, 62, 32, 113, 240, 101, 197,
    1, 29, 132, 163, 162, 48, 150, 200, 254, 133, 199, 113, 190, 128, 132, 1,
    254, 106, 161, 110, 250, 254, 107, 178, 230, 111, 247, 191, 132, 153, 248, 92,
    222, 201, 153, 7, 206, 62, 34, 231, 203, 206, 81, 102, 238, 119, 39, 83,
    213, 64, 177, 177, 81, 90, 220, 112, 49, 64, 0, 231, 64, 96, 234, 0,
    223, 77, 253, 9, 68, 9, 148, 240, 46, 124, 140, 109, 136, 136, 207, 242,
    4, 210, 50, 248, 130, 194, 88, 228, 88, 154, 180, 116, 114, 237, 3, 222,
    180, 239, 178, 203, 107, 115, 96, 217, 123, 111, 68, 93, 102, 13, 105, 0,
    147, 143, 235, 133, 209, 205, 161, 217, 11, 39, 82, 94, 63, 184, 121, 66,
    194, 4, 227, 206, 26, 176, 99, 36, 241, 27, 89, 61, 172, 17, 239, 97,
    170, 112, 26, 21, 163, 157, 84, 158, 24, 85, 131, 210, 159, 22, 248, 128,
];

/// The sum of the first `n` products of a scalar and its base, added up
/// from the neutral element in the order of the indices.
pub open spec fn g2_lincomb(bases: Seq<Seq<u8>>, scalars: Seq<nat>, n: nat) -> Seq<u8>
    decreases n,
{
    if n == 0 {
        g2_identity()
    } else {
        g2_sum(
            g2_lincomb(bases, scalars, (n - 1) as nat),
            g2_scale(bases[n - 1], scalars[n - 1]),
        )
    }
}

/// The encodings of a sequence of points.
pub open spec fn g2_views(s: Seq<G2Point>) -> Seq<Seq<u8>> {
    Seq::new(s.len(), |i: int| s[i]@)
}

/// A point of the second pairing group, held in its canonical uncompressed
/// encoding.
#[derive(Clone, Copy, Debug, PartialEq, Eq)]
pub struct G2Point {
    pub(crate) bytes: [u8; 192],
}

impl View for G2Point {
    type V = Seq<u8>;

    closed spec fn view(&self) -> Seq<u8> {
        self.bytes@
    }
}

impl G2Point {
    #[verifier::type_invariant]
    spec fn canonical(self) -> bool {
        g2_decoded(self.bytes@) == Some(self.bytes@)
    }

    /// The point that `bytes` decode to, if they decode to one.
    pub fn from_bytes(bytes: &[u8]) -> (r: Option<G2Point>)
        ensures
            r.is_some() == g2_decoded(bytes@).is_some(),
            r.is_some() ==> r.unwrap()@ == g2_decoded(bytes@).unwrap(),
    {
        g2_decode(bytes)
    }

    /// The canonical encoding of the point.
    pub fn to_bytes(&self) -> (r: [u8; 192])
        ensures
            r@ == self@,
            g2_decoded(self@) == Some(self@),
    {
        proof {
            use_type_invariant(self);
        }
        self.bytes
    }

    /// The neutral element.
    pub fn zero() -> (r: G2Point)
        ensures
            r@ == g2_identity(),
    {
        g2_zero()
    }

    /// The fixed generator of the group.
    pub fn generator() -> (r: G2Point)
        ensures
            r@ == G2_GENERATOR@,
    {
        g2_generator()
    }

    /// Whether two values are the same point.
    pub fn same(&self, other: &G2Point) -> (r: bool)
        ensures
            r == (self@ == other@),
    {
        let mut i: usize = 0;
        while i < 192
            invariant
                i <= 192,
                forall|j: int| 0 <= j < i ==> self.bytes@[j] == other.bytes@[j],
            decreases 192 - i,
        {
            if self.bytes[i] != other.bytes[i] {
                return false;
            }
            i = i + 1;
        }
        assert(self.bytes@ =~= other.bytes@);
        true
    }
}

/// `G2Affine::deserialize_uncompressed`, with the point it gives encoded
/// again (`serialize_uncompressed`): nothing where the bytes are no point
/// of the group, else the encoding that `g2_decoded` names for the bytes.
#[verifier::external_body]
pub(crate) fn g2_decode(bytes: &[u8]) -> (r: Option<G2Point>)
    ensures
        r.is_some() == g2_decoded(bytes@).is_some(),
        r.is_some() ==> r.unwrap()@ == g2_decoded(bytes@).unwrap(),
{
    let p = G2Affine::deserialize_uncompressed(bytes).ok()?;
    let mut out = [0u8; 192];
    p.serialize_uncompressed(&mut out[..]).ok()?;
    Some(G2Point { bytes: out })
}

/// `G2Affine::zero`: the point at infinity, whose encoding is all zero but
/// for the infinity flag.
#[verifier::external_body]
pub(crate) fn g2_zero() -> (r: G2Point)
    ensures
        r@ == g2_identity(),
{
    let mut out = [0u8; 192];
    G2Affine::zero().serialize_uncompressed(&mut out[..]).unwrap();
    G2Point { bytes: out }
}

/// `G2Affine::generator`: the fixed generator of the group, whose
/// encoding is `G2_GENERATOR`.
#[verifier::external_body]
pub(crate) fn g2_generator() -> (r: G2Point)
    ensures
        r@ == G2_GENERATOR@,
{
    let mut out = [0u8; 192];
    G2Affine::generator().serialize_uncompressed(&mut out[..]).unwrap();
    G2Point { bytes: out }
}

/// `UniformRand::rand` for `G2Projective`: some point of the group, drawn
/// from the generator of randomness.
#[verifier::external_body]
pub(crate) fn g2_rand(rng: &mut StdRng) -> (r: G2Point) {
    let mut out = [0u8; 192];
    G2Projective::rand(rng).serialize_uncompressed(&mut out[..]).unwrap();
    G2Point { bytes: out }
}

/// The group's addition, `Add` of `G2Affine`: the point that `g2_sum` names
/// for the encodings of the two.
#[verifier::external_body]
pub(crate) fn g2_add(a: &G2Point, b: &G2Point) -> (r: G2Point)
    ensures
        r@ == g2_sum(a@, b@),
{
    let x = G2Affine::deserialize_uncompressed_unchecked(&a.bytes[..]).unwrap();
    let y = G2Affine::deserialize_uncompressed_unchecked(&b.bytes[..]).unwrap();
    let mut out = [0u8; 192];
    (x + y).serialize_uncompressed(&mut out[..]).unwrap();
    G2Point { bytes: out }
}

/// The group's inverse, `Neg` of `G2Affine`: the point that `g2_neg` names
/// for the encoding of the argument.
#[verifier::external_body]
pub(crate) fn g2_negate(a: &G2Point) -> (r: G2Point)
    ensures
        r@ == g2_neg(a@),
{
    let x = G2Affine::deserialize_uncompressed_unchecked(&a.bytes[..]).unwrap();
    let mut out = [0u8; 192];
    (-x).serialize_uncompressed(&mut out[..]).unwrap();
    G2Point { bytes: out }
}

/// `AffineRepr::mul_bigint`: the point taken as many times as the scalar
/// says, which `g2_scale` names for the encoding and the scalar.
#[verifier::external_body]
pub(crate) fn g2_mul(p: &G2Point, s: &Scalar) -> (r: G2Point)
    ensures
        r@ == g2_scale(p@, s@),
{
    let x = G2Affine::deserialize_uncompressed_unchecked(&p.bytes[..]).unwrap();
    let k = BigInt([s.l0, s.l1, s.l2, s.l3]);
    let mut out = [0u8; 192];
    x.mul_bigint(k).serialize_uncompressed(&mut out[..]).unwrap();
    G2Point { bytes: out }
}

/// `VariableBaseMSM::msm_bigint`: the inner product of the scalars and the
/// bases, over as many of them as the shorter of the two has; the same
/// point as their products added up one by one from the neutral element.
#[verifier::external_body]
pub(crate) fn g2_msm(bases: &[G2Point], scalars: &[Scalar]) -> (r: G2Point)
    ensures
        r@ == g2_lincomb(
            g2_views(bases@),
            scalar_values(scalars@),
            shorter(bases@.len(), scalars@.len()),
        ),
{
    let bs: Vec<G2Affine> = bases.iter().map(
        |b| G2Affine::deserialize_uncompressed_unchecked(&b.bytes[..]).unwrap(),
    ).collect();
    let ks: Vec<BigInt<4>> = scalars.iter().map(|s| BigInt([s.l0, s.l1, s.l2, s.l3])).collect();
    let mut out = [0u8; 192];
    G2Projective::msm_bigint(&bs, &ks).serialize_uncompressed(&mut out[..]).unwrap();
    G2Point { bytes: out }
}

/// A table of multiples of one point, for fixed-base multiplication.
pub struct G2Table {
    pub(crate) rows: Vec<Vec<G2Point>>,
}

impl View for G2Table {
    type V = Seq<Seq<Seq<u8>>>;

    closed spec fn view(&self) -> Seq<Seq<Seq<u8>>> {
        Seq::new(self.rows@.len(), |i: int| g2_views(self.rows@[i]@))
    }
}

/// `FixedBase::get_window_table` for the second group: one row of multiples
/// of the point for each window of the scalar, which `g2_table` names for
/// the scalar size, the window and the encoding of the point.
#[verifier::external_body]
pub(crate) fn g2_window_table(scalar_size: usize, window: usize, g: &G2Point) -> (t: G2Table)
    requires
        1 <= window < usize::BITS,
        1 <= scalar_size,
        scalar_size + window <= usize::MAX,
    ensures
        t@ == g2_table(scalar_size as nat, window as nat, g@),
{
    let x = G2Affine::deserialize_uncompressed_unchecked(&g.bytes[..]).unwrap();
    let t = FixedBase::get_window_table::<G2Projective>(scalar_size, window, x.into_group());
    let enc = |p: &G2Affine| {
        let mut out = [0u8; 192];
        p.serialize_uncompressed(&mut out[..]).unwrap();
        G2Point { bytes: out }
    };
    G2Table { rows: t.iter().map(|row| row.iter().map(enc).collect()).collect() }
}

/// `FixedBase::msm` for the second group: with the table of a point, made
/// for the same window and a scalar size that covers the scalar field, the
/// point taken as many times as each scalar says.
#[verifier::external_body]
pub(crate) fn g2_fixed_msm(scalar_size: usize, window: usize, table: &G2Table, v: &[Scalar]) -> (r:
    Vec<G2Point>)
    requires
        1 <= window < usize::BITS,
        253 <= scalar_size,
        scalar_size + window <= usize::MAX,
        exists|g: Seq<u8>| table@ == #[trigger] g2_table(scalar_size as nat, window as nat, g),
    ensures
        r@.len() == v@.len(),
        forall|g: Seq<u8>, i: int|
            table@ == #[trigger] g2_table(scalar_size as nat, window as nat, g) && 0 <= i < v@.len()
                ==> (#[trigger] r@[i])@ == g2_scale(g, v@[i]@),
{
    let dec = |p: &G2Point| G2Affine::deserialize_uncompressed_unchecked(&p.bytes[..]).unwrap();
    let t: Vec<Vec<G2Affine>> = table.rows.iter().map(|row| row.iter().map(dec).collect()).collect();
    let ks: Vec<Fr> = v.iter().map(|s| Fr::from(BigInt([s.l0, s.l1, s.l2, s.l3]))).collect();
    let enc = |p: &G2Projective| {
        let mut out = [0u8; 192];
        p.serialize_uncompressed(&mut out[..]).unwrap();
        G2Point { bytes: out }
    };
    FixedBase::msm::<G2Projective>(scalar_size, window, &t, &ks).iter().map(enc).collect()
}

} // verus!
