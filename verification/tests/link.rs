use ark_bls12_377::Fr;
use ark_bls12_377::G1Affine;
use ark_bls12_377::G1Projective;
use ark_ec::AffineRepr;
use ark_ec::CurveGroup;
use ark_ff::PrimeField;
use ark_ff::UniformRand;
use ark_ff::Zero;
use ark_serialize::CanonicalDeserialize;
use ark_serialize::CanonicalSerialize;
use ark_std::rand::rngs::StdRng;
use ark_std::rand::SeedableRng;
use legogroth16::field::Scalar;
use legogroth16::g1::G1Point;
use legogroth16::g2::G2Point;
use legogroth16::link::matrix::inner_product;
use legogroth16::link::matrix::scalar_vector_mult;
use legogroth16::link::matrix::SparseLinAlgebra;
use legogroth16::link::matrix::SparseMatrix;
use legogroth16::link::snark::PESubspaceSnark;
use legogroth16::link::snark::SubspaceSnark;
use legogroth16::link::snark::PP;

fn scalar(x: Fr) -> Scalar {
    Scalar::from_limbs(x.into_bigint().0).unwrap()
}

fn point(p: G1Affine) -> G1Point {
    let mut bytes = Vec::new();
    p.serialize_uncompressed(&mut bytes).unwrap();
    G1Point::from_bytes(&bytes).unwrap()
}

fn affine(p: &G1Point) -> G1Affine {
    G1Affine::deserialize_uncompressed(&p.to_bytes()[..]).unwrap()
}

fn multiple(n: u64) -> G1Affine {
    (G1Affine::generator() * Fr::from(n)).into_affine()
}

#[test]
fn sparse_matrix_keeps_entries_by_column_in_insertion_order() {
    let mut m: SparseMatrix<u64> = SparseMatrix::new(2, 3);
    assert_eq!(m.nr, 2);
    assert_eq!(m.nc, 3);
    assert!(m.get_col(0).is_empty() && m.get_col(1).is_empty() && m.get_col(2).is_empty());
    m.insert_val(1, 2, &7);
    m.insert_row_slice(0, 1, &[10, 20]);
    m.insert_val(0, 0, &5);
    let col0: Vec<(u64, usize)> = m.get_col(0).iter().map(|e| (e.val, e.pos)).collect();
    let col1: Vec<(u64, usize)> = m.get_col(1).iter().map(|e| (e.val, e.pos)).collect();
    let col2: Vec<(u64, usize)> = m.get_col(2).iter().map(|e| (e.val, e.pos)).collect();
    assert_eq!(col0, vec![(5, 0)]);
    assert_eq!(col1, vec![(10, 0)]);
    assert_eq!(col2, vec![(7, 1), (20, 0)]);
    assert_eq!(m.nr, 2);
    assert_eq!(m.nc, 3);
}

#[test]
fn scalar_vector_mult_multiplies_each_scalar() {
    let v = [Scalar::from_u64(2), Scalar::from_u64(4), Scalar::zero()];
    let r = scalar_vector_mult(&Scalar::from_u64(3), &v, 3);
    let limbs: Vec<[u64; 4]> = r.iter().map(|s| s.to_limbs()).collect();
    assert_eq!(limbs, vec![[6, 0, 0, 0], [12, 0, 0, 0], [0, 0, 0, 0]]);
    let minus_one = scalar(-Fr::from(1u64));
    let wrapped = scalar_vector_mult(&minus_one, &[minus_one], 1);
    assert_eq!(wrapped[0].to_limbs(), [1, 0, 0, 0]);
    assert!(scalar_vector_mult(&Scalar::one(), &[], 0).is_empty());
}

#[test]
fn inner_product_is_the_sum_of_the_products() {
    let v = [Scalar::from_u64(2), Scalar::from_u64(5)];
    let w = [point(multiple(3)), point(multiple(7))];
    // 2 * 3 + 5 * 7 = 41
    assert_eq!(affine(&inner_product(&v, &w)), multiple(41));
    assert!(inner_product(&[], &[]).same(&G1Point::zero()));
}

#[test]
fn sparse_inner_product_reads_the_scalar_of_each_row() {
    let mut m: SparseMatrix<G1Point> = SparseMatrix::new(3, 1);
    m.insert_val(2, 0, &point(multiple(4)));
    m.insert_val(0, 0, &point(multiple(1)));
    let v = vec![Scalar::from_u64(10), Scalar::from_u64(1000), Scalar::from_u64(3)];
    // 3 * 4 + 10 * 1 = 22
    let r = SparseLinAlgebra::sparse_inner_product(&v, m.get_col(0));
    assert_eq!(affine(&r), multiple(22));
}

#[test]
fn sparse_vector_matrix_mult_gives_one_point_for_each_column() {
    let mut m: SparseMatrix<G1Point> = SparseMatrix::new(2, 3);
    m.insert_row_slice(0, 0, &[point(multiple(1)), point(multiple(2))]);
    m.insert_row_slice(1, 1, &[point(multiple(5)), point(multiple(6))]);
    let v = vec![Scalar::from_u64(3), Scalar::from_u64(4)];
    let r = SparseLinAlgebra::sparse_vector_matrix_mult(&v, &m, 3);
    let got: Vec<G1Affine> = r.iter().map(affine).collect();
    // columns: (1, -), (2, 5), (-, 6) against (3, 4)
    assert_eq!(got, vec![multiple(3), multiple(26), multiple(24)]);
}

fn random_matrix(rng: &mut StdRng, rows: usize, cols: usize) -> (SparseMatrix<G1Point>, Vec<Vec<G1Affine>>) {
    let mut m = SparseMatrix::new(rows, cols);
    let mut dense = vec![vec![G1Affine::zero(); cols]; rows];
    for r in 0..rows {
        for c in 0..cols {
            if (r + c) % 3 != 0 {
                let p = G1Projective::rand(rng).into_affine();
                dense[r][c] = p;
                m.insert_val(r, c, &point(p));
            }
        }
    }
    (m, dense)
}

fn image(dense: &[Vec<G1Affine>], x: &[Fr]) -> Vec<G1Point> {
    dense
        .iter()
        .map(|row| {
            let mut acc = G1Projective::zero();
            for (p, s) in row.iter().zip(x) {
                acc += *p * *s;
            }
            point(acc.into_affine())
        })
        .collect()
}

#[test]
fn subspace_snark_accepts_the_image_of_the_secret_vector() {
    let mut rng = StdRng::seed_from_u64(7u64);
    let (rows, cols) = (3usize, 5usize);
    let pp = PP::new(rows, cols, &G1Point::generator(), &G2Point::generator());
    assert_eq!((pp.l, pp.t), (rows, cols));
    assert!(pp.g1.same(&G1Point::generator()) && pp.g2.same(&G2Point::generator()));
    let (m, dense) = random_matrix(&mut rng, rows, cols);
    let (ek, vk) = PESubspaceSnark::keygen(&mut rng, &pp, m);
    assert_eq!(ek.p.len(), cols);
    assert_eq!(vk.c.len(), rows);

    let x: Vec<Fr> = (0..cols).map(|_| Fr::rand(&mut rng)).collect();
    let xs: Vec<Scalar> = x.iter().map(|s| scalar(*s)).collect();
    let y = image(&dense, &x);
    let pi = PESubspaceSnark::prove(&pp, &ek, &xs);
    assert!(PESubspaceSnark::verify(&pp, &vk, &y, &pi));

    // another vector's image, another proof, or another key do not fit
    let mut other = x.clone();
    other[1] += Fr::from(1u64);
    assert!(!PESubspaceSnark::verify(&pp, &vk, &image(&dense, &other), &pi));
    let other_pi = PESubspaceSnark::prove(&pp, &ek, &[xs[1], xs[0], xs[2], xs[3], xs[4]]);
    assert!(!PESubspaceSnark::verify(&pp, &vk, &y, &other_pi));
    let mut swapped = y.clone();
    swapped.swap(0, 1);
    assert!(!PESubspaceSnark::verify(&pp, &vk, &swapped, &pi));
}

#[test]
fn subspace_snark_keys_are_those_of_the_given_secrets() {
    let mut rng = StdRng::seed_from_u64(11u64);
    let pp = PP::new(2, 2, &G1Point::generator(), &G2Point::generator());
    let (m, dense) = random_matrix(&mut rng, 2, 2);
    let k = vec![Scalar::from_u64(3), Scalar::from_u64(5)];
    let a = Scalar::from_u64(7);
    let (ek, vk) = PESubspaceSnark::keygen_from(&pp, &m, &k, &a);
    for c in 0..2 {
        let expected = dense[0][c] * Fr::from(3u64) + dense[1][c] * Fr::from(5u64);
        assert_eq!(affine(&ek.p[c]), expected.into_affine());
    }
    let g2 = ark_bls12_377::G2Affine::generator();
    let expect = |n: u64| {
        let mut bytes = Vec::new();
        (g2 * Fr::from(n)).into_affine().serialize_uncompressed(&mut bytes).unwrap();
        G2Point::from_bytes(&bytes).unwrap()
    };
    assert!(vk.c[0].same(&expect(21)));
    assert!(vk.c[1].same(&expect(35)));
    assert!(vk.a.same(&expect(7)));
}
