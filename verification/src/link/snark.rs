use vstd::prelude::*;
use crate::field::Scalar;
use crate::field::fr_mul;
use crate::field::scalar_rand;
use crate::field::scalar_values;
use crate::g1::G1Point;
use crate::g1::g1_lincomb;
use crate::g1::g1_views;
use crate::g2::G2Point;
use crate::g2::g2_mul;
use crate::g2::g2_neg;
use crate::g2::g2_negate;
use crate::g2::g2_scale;
use crate::link::matrix::CoeffPos;
use crate::link::matrix::SparseLinAlgebra;
use crate::link::matrix::SparseMatrix;
use crate::link::matrix::col_within;
use crate::link::matrix::inner_product;
use crate::link::matrix::scalar_vector_mult;
use crate::link::matrix::sparse_sum;
use crate::pairing::G2Prepared;
use crate::pairing::TargetElem;
use crate::pairing::final_exp;
use crate::pairing::final_exponentiation;
use crate::pairing::g2_prepare;
use crate::pairing::g2_prepared;
use crate::pairing::miller_value;
use crate::pairing::multi_miller_loop;
use crate::pairing::target_one;
use ark_std::rand::rngs::StdRng;

verus! {

/// The public parameters of the argument: the dimensions of the matrix and
/// the generators of the two groups.
#[derive(Clone, Copy, Debug, PartialEq, Eq)]
pub struct PP<G1, G2> {
    /// The number of rows.
    pub l: usize,
    /// The number of columns.
    pub t: usize,
    pub g1: G1,
    pub g2: G2,
}

impl<G1: Copy, G2: Copy> PP<G1, G2> {
    pub fn new(l: usize, t: usize, g1: &G1, g2: &G2) -> (pp: PP<G1, G2>)
        ensures
            pp.l == l,
            pp.t == t,
            pp.g1 == *g1,
            pp.g2 == *g2,
    {
        PP { l, t, g1: *g1, g2: *g2 }
    }
}

/// The key that the prover holds: one masked image for each column.
#[derive(Clone, Debug, PartialEq, Eq)]
pub struct EK<G1> {
    pub p: Vec<G1>,
}

/// The key that the verifier holds: the masked secrets of the rows, and the
/// mask itself.
#[derive(Clone, Debug, PartialEq, Eq)]
pub struct VK<G2> {
    pub c: Vec<G2>,
    pub a: G2,
}

/// An argument that a public vector is the image of a secret one under a
/// public matrix.
pub trait SubspaceSnark {
    type KMtx;

    type InVec;

    type OutVec;

    type PP;

    type EK;

    type VK;

    type Proof;

    /// What `keygen` asks of the parameters and the matrix.
    spec fn keygen_ready(pp: &Self::PP, m: &Self::KMtx) -> bool;

    /// What `prove` asks of the parameters, the key and the secret vector.
    spec fn prove_ready(pp: &Self::PP, ek: &Self::EK, x: &[Self::InVec]) -> bool;

    /// What `verify` asks of the parameters, the key and the public vector.
    spec fn verify_ready(pp: &Self::PP, vk: &Self::VK, y: &[Self::OutVec]) -> bool;

    fn keygen(rng: &mut StdRng, pp: &Self::PP, m: Self::KMtx) -> (keys: (Self::EK, Self::VK))
        requires
            Self::keygen_ready(pp, &m),
    ;

    fn prove(pp: &Self::PP, ek: &Self::EK, x: &[Self::InVec]) -> (pi: Self::Proof)
        requires
            Self::prove_ready(pp, ek, x),
    ;

    fn verify(pp: &Self::PP, vk: &Self::VK, y: &[Self::OutVec], pi: &Self::Proof) -> (ok: bool)
        requires
            Self::verify_ready(pp, vk, y),
    ;
}

/// Whether `ek` and `vk` are the keys that the secret row scalars `k` and
/// the secret mask `a` give for the matrix with the columns `cols`: the
/// image of `k` under each column, and the generator of the second group
/// taken `a * k[i]` and `a` times.
pub open spec fn is_key_pair(
    pp: PP<G1Point, G2Point>,
    cols: Seq<Seq<CoeffPos<G1Point>>>,
    k: Seq<nat>,
    a: nat,
    ek: EK<G1Point>,
    vk: VK<G2Point>,
) -> bool {
    &&& ek.p@.len() == cols.len()
    &&& forall|c: int|
        0 <= c < cols.len() ==> (#[trigger] ek.p@[c])@ == sparse_sum(k, cols[c], cols[c].len())
    &&& vk.c@.len() == k.len()
    &&& forall|i: int|
        0 <= i < k.len() ==> (#[trigger] vk.c@[i])@ == g2_scale(pp.g2@, fr_mul(a, k[i]))
    &&& vk.a@ == g2_scale(pp.g2@, a)
}

/// The points of the first group that the verifier pairs: the public vector
/// and the proof.
pub open spec fn verify_lhs(y: Seq<G1Point>, pi: G1Point) -> Seq<Seq<u8>> {
    g1_views(y).push(pi@)
}

/// The prepared points of the second group that the verifier pairs: the
/// first `n` masked secrets and the inverse of the mask.
pub open spec fn verify_rhs(vk: VK<G2Point>, n: nat) -> Seq<Seq<u8>> {
    Seq::new(n, |i: int| g2_prepared(vk.c@[i]@)).push(g2_prepared(g2_neg(vk.a@)))
}

/// Whether the product of the pairings of the public vector with the masked
/// secrets and of the proof with the inverse of the mask is one.
pub open spec fn accepts(vk: VK<G2Point>, y: Seq<G1Point>, pi: G1Point) -> bool {
    final_exp(miller_value(verify_lhs(y, pi), verify_rhs(vk, y.len()))) == Some(target_one())
}

/// Every scalar of `v` times the generator of the second group.
fn vec_to_g2(pp: &PP<G1Point, G2Point>, v: &Vec<Scalar>) -> (res: Vec<G2Point>)
    ensures
        res@.len() == v@.len(),
        forall|i: int| 0 <= i < v@.len() ==> (#[trigger] res@[i])@ == g2_scale(pp.g2@, v@[i]@),
{
    let mut res: Vec<G2Point> = Vec::new();
    let n: usize = v.len();
    let mut i: usize = 0;
    while i < n
        invariant
            i <= n,
            n == v@.len(),
            res@.len() == i,
            forall|j: int| 0 <= j < i ==> (#[trigger] res@[j])@ == g2_scale(pp.g2@, v@[j]@),
        decreases n - i,
    {
        res.push(g2_mul(&pp.g2, &v[i]));
        i = i + 1;
    }
    res
}

/// The argument over the pairing groups of BLS12-377.
pub struct PESubspaceSnark {}

impl PESubspaceSnark {
    /// The keys for the matrix `m` that the secret row scalars `k` and the
    /// secret mask `a` give.
    pub fn keygen_from(
        pp: &PP<G1Point, G2Point>,
        m: &SparseMatrix<G1Point>,
        k: &Vec<Scalar>,
        a: &Scalar,
    ) -> (keys: (EK<G1Point>, VK<G2Point>))
        requires
            m.nc == m.columns().len(),
            forall|c: int| 0 <= c < m.columns().len() ==> col_within(#[trigger] m.columns()[c], k@.len()),
        ensures
            is_key_pair(*pp, m.columns(), scalar_values(k@), a@, keys.0, keys.1),
    {
        let p = SparseLinAlgebra::sparse_vector_matrix_mult(k, m, pp.t);
        let c = scalar_vector_mult(a, k.as_slice(), pp.l);
        let ek = EK { p };
        let vk = VK { c: vec_to_g2(pp, &c), a: g2_mul(&pp.g2, a) };
        (ek, vk)
    }
}

impl SubspaceSnark for PESubspaceSnark {
    type KMtx = SparseMatrix<G1Point>;

    type InVec = Scalar;

    type OutVec = G1Point;

    type PP = PP<G1Point, G2Point>;

    type EK = EK<G1Point>;

    type VK = VK<G2Point>;

    type Proof = G1Point;

    /// The matrix has as many columns as it says, and no entry below the
    /// last row that the parameters give.
    open spec fn keygen_ready(pp: &Self::PP, m: &Self::KMtx) -> bool {
        &&& m.nc == m.columns().len()
        &&& forall|c: int|
            0 <= c < m.columns().len() ==> col_within(#[trigger] m.columns()[c], pp.l as nat)
    }

    /// The secret vector has one scalar for each column, and the key one
    /// point.
    open spec fn prove_ready(pp: &Self::PP, ek: &Self::EK, x: &[Self::InVec]) -> bool {
        &&& pp.t == x@.len()
        &&& ek.p@.len() == x@.len()
    }

    /// The public vector has one point for each row, and the key at least
    /// as many.
    open spec fn verify_ready(pp: &Self::PP, vk: &Self::VK, y: &[Self::OutVec]) -> bool {
        &&& pp.l == y@.len()
        &&& y@.len() <= vk.c@.len()
    }

    /// Draws one secret scalar for each row and a secret mask, and gives
    /// the keys that they make for the matrix.
    fn keygen(rng: &mut StdRng, pp: &Self::PP, m: Self::KMtx) -> (keys: (Self::EK, Self::VK))
        ensures
            exists|k: Seq<nat>, a: nat| k.len() == pp.l && is_key_pair(*pp, m.columns(), k, a, keys.0, keys.1),
    {
        let mut k: Vec<Scalar> = Vec::with_capacity(pp.l);
        let mut i: usize = 0;
        while i < pp.l
            invariant
                i <= pp.l,
                k@.len() == i,
            decreases pp.l - i,
        {
            k.push(scalar_rand(rng));
            i = i + 1;
        }
        let a = scalar_rand(rng);
        let keys = Self::keygen_from(pp, &m, &k, &a);
        assert(scalar_values(k@).len() == pp.l);
        keys
    }

    /// The inner product of the secret vector with the key.
    fn prove(pp: &Self::PP, ek: &Self::EK, x: &[Self::InVec]) -> (pi: Self::Proof)
        ensures
            pi@ == g1_lincomb(g1_views(ek.p@), scalar_values(x@), x@.len()),
    {
        inner_product(x, ek.p.as_slice())
    }

    /// Whether the proof fits the public vector.
    fn verify(pp: &Self::PP, vk: &Self::VK, y: &[Self::OutVec], pi: &Self::Proof) -> (ok: bool)
        ensures
            ok == accepts(*vk, y@, *pi),
    {
        let mut g1_elements: Vec<G1Point> = Vec::new();
        let mut g2_elements: Vec<G2Prepared> = Vec::new();
        let n: usize = y.len();
        let mut i: usize = 0;
        while i < n
            invariant
                i <= n,
                n == y@.len(),
                n <= vk.c@.len(),
                g1_elements@.len() == i,
                g2_elements@.len() == i,
                forall|j: int| 0 <= j < i ==> g1_elements@[j] == y@[j],
                forall|j: int| 0 <= j < i ==> (#[trigger] g2_elements@[j])@ == g2_prepared(vk.c@[j]@),
            decreases n - i,
        {
            g1_elements.push(y[i]);
            g2_elements.push(g2_prepare(&vk.c[i]));
            i = i + 1;
        }
        g1_elements.push(*pi);
        let neg_a = g2_negate(&vk.a);
        g2_elements.push(g2_prepare(&neg_a));
        assert(g1_views(g1_elements@) =~= verify_lhs(y@, *pi));
        assert(crate::pairing::prepared_views(g2_elements@) =~= verify_rhs(*vk, y@.len()));
        let f = multi_miller_loop(g1_elements.as_slice(), g2_elements.as_slice());
        match final_exponentiation(&f) {
            Some(e) => TargetElem::one().same(&e),
            None => false,
        }
    }
}

} // verus!
