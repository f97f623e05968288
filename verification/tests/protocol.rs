use ark_bls12_377::Fr;
use ark_bls12_377::G1Affine;
use ark_bls12_377::G1Projective;
use ark_bls12_377::G2Affine;
use ark_ec::AffineRepr;
use ark_ec::CurveGroup;
use ark_ff::Field;
use ark_ff::PrimeField;
use ark_ff::UniformRand;
use ark_relations::r1cs::ConstraintSynthesizer;
use ark_relations::r1cs::ConstraintSystemRef;
use ark_relations::r1cs::LinearCombination;
use ark_relations::r1cs::OptimizationGoal;
use ark_relations::r1cs::SynthesisError;
use ark_relations::r1cs::SynthesisMode;
use ark_serialize::CanonicalDeserialize;
use ark_serialize::CanonicalSerialize;
use ark_std::rand::rngs::StdRng;
use ark_std::rand::SeedableRng;
use legogroth16::data_structures::Proof;
use legogroth16::data_structures::ProofWithLink;
use legogroth16::error::Error;
use legogroth16::field::Scalar;
use legogroth16::g1::G1Point;
use legogroth16::g2::G2Point;
use legogroth16::generator::derive_parameters;
use legogroth16::generator::generate_parameters;
use legogroth16::generator::generate_random_parameters;
use legogroth16::generator::generate_random_parameters_with_link;
use legogroth16::generator::ToxicWaste;
use legogroth16::prover::create_d;
use legogroth16::prover::create_proof;
use legogroth16::prover::create_random_proof;
use legogroth16::prover::create_random_proof_with_link;
use legogroth16::r1cs::ConstraintSystem;
use legogroth16::r1cs_to_qap::instance_map_with_evaluation;
use legogroth16::verification::calculate_d;
use legogroth16::verification::prepare_inputs;
use legogroth16::verification::prepare_verifying_key;
use legogroth16::verification::verify_commitments;
use legogroth16::verification::verify_groth16_proof;
use legogroth16::verification::verify_link_commitment;
use legogroth16::verification::verify_proof;
use legogroth16::verification::verify_proof_with_link;
use legogroth16::verification::verify_witness_commitment;

struct Product {
    a: Option<Fr>,
    b: Option<Fr>,
}

impl ConstraintSynthesizer<Fr> for Product {
    fn generate_constraints(self, cs: ConstraintSystemRef<Fr>) -> Result<(), SynthesisError> {
        let a = cs.new_witness_variable(|| self.a.ok_or(SynthesisError::AssignmentMissing))?;
        let b = cs.new_witness_variable(|| self.b.ok_or(SynthesisError::AssignmentMissing))?;
        let c = cs.new_input_variable(|| {
            Ok(self.a.ok_or(SynthesisError::AssignmentMissing)?
                * self.b.ok_or(SynthesisError::AssignmentMissing)?)
        })?;
        cs.enforce_constraint(
            LinearCombination::zero() + a,
            LinearCombination::zero() + b,
            LinearCombination::zero() + c,
        )?;
        Ok(())
    }
}

fn scalar(x: Fr) -> Scalar {
    Scalar::from_limbs(x.into_bigint().0).unwrap()
}

fn fr(s: &Scalar) -> Fr {
    Fr::from(ark_ff::BigInt(s.to_limbs()))
}

fn s(n: u64) -> Scalar {
    Scalar::from_u64(n)
}

fn point(p: G1Affine) -> G1Point {
    let mut bytes = Vec::new();
    p.serialize_uncompressed(&mut bytes).unwrap();
    G1Point::from_bytes(&bytes).unwrap()
}

fn affine(p: &G1Point) -> G1Affine {
    G1Affine::deserialize_uncompressed(&p.to_bytes()[..]).unwrap()
}

fn affine2(p: &G2Point) -> G2Affine {
    G2Affine::deserialize_uncompressed(&p.to_bytes()[..]).unwrap()
}

fn rows(m: &[Vec<(Fr, usize)>]) -> Vec<Vec<(Scalar, usize)>> {
    m.iter().map(|row| row.iter().map(|(coeff, index)| (scalar(*coeff), *index)).collect()).collect()
}

fn synthesize(circuit: Product) -> ConstraintSystem {
    let setup = circuit.a.is_none();
    let cs = ark_relations::r1cs::ConstraintSystem::<Fr>::new_ref();
    cs.set_optimization_goal(OptimizationGoal::Constraints);
    if setup {
        cs.set_mode(SynthesisMode::Setup);
    }
    circuit.generate_constraints(cs.clone()).unwrap();
    cs.finalize();
    let matrices = cs.to_matrices().unwrap();
    let inner = cs.borrow().unwrap();
    ConstraintSystem {
        num_instance_variables: cs.num_instance_variables(),
        num_witness_variables: cs.num_witness_variables(),
        num_constraints: cs.num_constraints(),
        a: rows(&matrices.a),
        b: rows(&matrices.b),
        c: rows(&matrices.c),
        instance_assignment: inner.instance_assignment.iter().map(|x| scalar(*x)).collect(),
        witness_assignment: inner.witness_assignment.iter().map(|x| scalar(*x)).collect(),
    }
}

fn shape() -> ConstraintSystem {
    synthesize(Product { a: None, b: None })
}

fn three_times_four() -> ConstraintSystem {
    synthesize(Product { a: Some(Fr::from(3u64)), b: Some(Fr::from(4u64)) })
}

fn waste() -> ToxicWaste {
    ToxicWaste { alpha: s(11), beta: s(13), gamma: s(17), delta: s(19), eta: s(23) }
}

fn bases(rng: &mut StdRng, n: usize) -> Vec<G1Point> {
    (0..n).map(|_| point(G1Projective::rand(rng).into_affine())).collect()
}

#[test]
fn three_times_four_verifies_against_twelve_only() {
    let mut rng = StdRng::seed_from_u64(1u64);
    let params = generate_random_parameters(&shape(), &mut rng).unwrap();
    let pvk = prepare_verifying_key(&params.vk);
    let proof = create_random_proof(&three_times_four(), s(99), &params, &mut rng).unwrap();
    assert!(verify_proof(&pvk, &proof, &[s(12)]).unwrap());
    assert!(!verify_proof(&pvk, &proof, &[s(13)]).unwrap());
}

#[test]
fn every_blinding_gives_a_proof_that_verifies() {
    let mut rng = StdRng::seed_from_u64(2u64);
    let params = generate_random_parameters(&shape(), &mut rng).unwrap();
    let pvk = prepare_verifying_key(&params.vk);
    let cs = three_times_four();
    for (r, sv, v) in [(0u64, 0u64, 0u64), (0, 5, 7), (5, 0, 7), (1, 1, 1), (u64::MAX, 3, 0)] {
        let proof = create_proof(&cs, &params.common, &params.vk, s(r), s(sv), s(v)).unwrap();
        assert!(verify_proof(&pvk, &proof, &[s(12)]).unwrap());
    }
    let minus_one = scalar(-Fr::from(1u64));
    let proof = create_proof(&cs, &params.common, &params.vk, minus_one, minus_one, minus_one).unwrap();
    assert!(verify_proof(&pvk, &proof, &[s(12)]).unwrap());
}

#[test]
fn proving_is_a_function_of_its_scalars() {
    let mut rng = StdRng::seed_from_u64(3u64);
    let params = generate_random_parameters(&shape(), &mut rng).unwrap();
    let cs = three_times_four();
    let one = create_proof(&cs, &params.common, &params.vk, s(5), s(6), s(7)).unwrap();
    let two = create_proof(&cs, &params.common, &params.vk, s(5), s(6), s(7)).unwrap();
    assert_eq!(one, two);
    let other = create_proof(&cs, &params.common, &params.vk, s(5), s(6), s(8)).unwrap();
    assert_eq!((one.a, one.b), (other.a, other.b));
    assert_ne!(one.c, other.c);
    assert_ne!(one.d, other.d);
}

#[test]
fn a_perturbed_proof_or_input_does_not_verify() {
    let mut rng = StdRng::seed_from_u64(4u64);
    let params = generate_random_parameters(&shape(), &mut rng).unwrap();
    let pvk = prepare_verifying_key(&params.vk);
    let proof = create_random_proof(&three_times_four(), s(99), &params, &mut rng).unwrap();
    assert!(verify_proof(&pvk, &proof, &[s(12)]).unwrap());
    let g1 = G1Point::generator();
    let shifted = |p: &G1Point| p.minus(&g1);
    let b = point_add_generator(&proof.b);
    assert!(!verify_proof(&pvk, &Proof { a: shifted(&proof.a), ..proof }, &[s(12)]).unwrap());
    assert!(!verify_proof(&pvk, &Proof { b, ..proof }, &[s(12)]).unwrap());
    assert!(!verify_proof(&pvk, &Proof { c: shifted(&proof.c), ..proof }, &[s(12)]).unwrap());
    assert!(!verify_proof(&pvk, &Proof { d: shifted(&proof.d), ..proof }, &[s(12)]).unwrap());
    assert!(!verify_proof(&pvk, &Proof { d: G1Point::zero(), ..proof }, &[s(12)]).unwrap());
    assert!(!verify_proof(&pvk, &proof, &[s(11)]).unwrap());
    assert!(!verify_proof(&pvk, &proof, &[]).unwrap());
}

fn point_add_generator(p: &G2Point) -> G2Point {
    let mut bytes = Vec::new();
    (affine2(p) + G2Affine::generator()).into_affine().serialize_uncompressed(&mut bytes).unwrap();
    G2Point::from_bytes(&bytes).unwrap()
}

#[test]
fn a_perturbed_link_does_not_verify() {
    let mut rng = StdRng::seed_from_u64(5u64);
    let link_bases = bases(&mut rng, 3);
    let params = generate_random_parameters_with_link(&shape(), &link_bases, &mut rng).unwrap();
    let pvk = prepare_verifying_key(&params.vk.groth16_vk);
    let proof = create_random_proof_with_link(
        &three_times_four(),
        s(99),
        s(77),
        &params,
        &[s(3), s(4)],
        &mut rng,
    )
    .unwrap();
    assert!(verify_proof_with_link(&pvk, &params.vk, &proof, &[s(12)]).unwrap());
    let g1 = G1Point::generator();
    let link_d = proof.link_d.minus(&g1);
    let link_pi = proof.link_pi.minus(&g1);
    let d = proof.groth16_proof.d.minus(&g1);
    assert!(!verify_proof_with_link(&pvk, &params.vk, &ProofWithLink { link_d, ..proof }, &[s(12)]).unwrap());
    assert!(!verify_proof_with_link(&pvk, &params.vk, &ProofWithLink { link_pi, ..proof }, &[s(12)]).unwrap());
    let groth16_proof = Proof { d, ..proof.groth16_proof };
    assert!(!verify_proof_with_link(&pvk, &params.vk, &ProofWithLink { groth16_proof, ..proof }, &[s(12)]).unwrap());
    assert!(!verify_proof_with_link(&pvk, &params.vk, &proof, &[s(13)]).unwrap());

    // a link made with other witnesses than the proof's own does not fit
    let other = create_random_proof_with_link(
        &three_times_four(),
        s(99),
        s(77),
        &params,
        &[s(3), s(5)],
        &mut rng,
    )
    .unwrap();
    assert!(verify_proof(&pvk, &other.groth16_proof, &[s(12)]).unwrap());
    assert!(!verify_proof_with_link(&pvk, &params.vk, &other, &[s(12)]).unwrap());
}

#[test]
fn a_link_key_of_the_wrong_shape_is_malformed() {
    let mut rng = StdRng::seed_from_u64(6u64);
    let link_bases = bases(&mut rng, 3);
    let params = generate_random_parameters_with_link(&shape(), &link_bases, &mut rng).unwrap();
    let pvk = prepare_verifying_key(&params.vk.groth16_vk);
    let proof = create_random_proof_with_link(
        &three_times_four(),
        s(99),
        s(77),
        &params,
        &[s(3), s(4)],
        &mut rng,
    )
    .unwrap();
    let mut short = params.vk.clone();
    short.link_vk.c.pop();
    assert_eq!(
        verify_proof_with_link(&pvk, &short, &proof, &[s(12)]),
        Err(Error::MalformedVerifyingKey)
    );
    let mut rows = params.vk.clone();
    rows.link_pp.l = 3;
    assert_eq!(
        verify_proof_with_link(&pvk, &rows, &proof, &[s(12)]),
        Err(Error::MalformedVerifyingKey)
    );
    assert_eq!(
        verify_proof_with_link(&pvk, &params.vk, &proof, &[s(12), s(1), s(1), s(1)]),
        Err(Error::MalformedVerifyingKey)
    );
}

#[test]
fn a_proof_fails_against_another_setup() {
    let mut rng = StdRng::seed_from_u64(7u64);
    let one = generate_random_parameters(&shape(), &mut rng).unwrap();
    let two = generate_random_parameters(&shape(), &mut rng).unwrap();
    let proof = create_random_proof(&three_times_four(), s(99), &one, &mut rng).unwrap();
    assert!(verify_proof(&prepare_verifying_key(&one.vk), &proof, &[s(12)]).unwrap());
    assert!(!verify_proof(&prepare_verifying_key(&two.vk), &proof, &[s(12)]).unwrap());
    assert!(!prepare_verifying_key(&one.vk)
        .alpha_g1_beta_g2
        .same(&prepare_verifying_key(&two.vk).alpha_g1_beta_g2));
}

#[test]
fn the_deferred_commitment_is_the_inline_one() {
    let mut rng = StdRng::seed_from_u64(8u64);
    let params = generate_random_parameters(&shape(), &mut rng).unwrap();
    let pvk = prepare_verifying_key(&params.vk);
    let cs = three_times_four();
    let inline = create_proof(&cs, &params.common, &params.vk, s(5), s(6), s(7)).unwrap();
    let stripped = Proof { d: G1Point::zero(), ..inline };
    assert!(!verify_proof(&pvk, &stripped, &[s(12)]).unwrap());
    let deferred = create_d(vec![s(3), s(4)], vec![s(12)], &params.vk, s(7), &stripped).unwrap();
    assert_eq!(deferred, inline);
    assert!(verify_proof(&pvk, &deferred, &[s(12)]).unwrap());
    // d = 3 * gamma_abc[2] + 4 * gamma_abc[3] + 7 * eta_gamma_inv
    let expected = affine(&params.vk.gamma_abc_g1[2]) * Fr::from(3u64)
        + affine(&params.vk.gamma_abc_g1[3]) * Fr::from(4u64)
        + affine(&params.vk.eta_gamma_inv_g1) * Fr::from(7u64);
    assert_eq!(affine(&deferred.d), expected.into_affine());
    let wrong = create_d(vec![s(3), s(4)], vec![s(12)], &params.vk, s(8), &stripped).unwrap();
    assert_ne!(wrong.d, inline.d);
    assert!(!verify_proof(&pvk, &wrong, &[s(12)]).unwrap());
}

#[test]
fn self_checks_reject_with_a_malformed_key_error() {
    let mut rng = StdRng::seed_from_u64(9u64);
    let link_bases = bases(&mut rng, 3);
    let params = generate_random_parameters_with_link(&shape(), &link_bases, &mut rng).unwrap();
    let (v, link_v) = (s(99), s(77));
    let proof = create_random_proof_with_link(
        &three_times_four(),
        v,
        link_v,
        &params,
        &[s(3), s(4)],
        &mut rng,
    )
    .unwrap();
    let vk = &params.vk;
    let malformed = Err(Error::MalformedVerifyingKey);
    assert_eq!(verify_commitments(vk, &proof, 1, &[s(3), s(4)], &v, &link_v), Ok(true));
    assert_eq!(verify_commitments(vk, &proof, 1, &[s(3), s(5)], &v, &link_v), malformed);
    assert_eq!(verify_commitments(vk, &proof, 1, &[s(3), s(4)], &s(98), &link_v), malformed);
    assert_eq!(verify_commitments(vk, &proof, 1, &[s(3), s(4)], &v, &s(78)), malformed);
    assert_eq!(verify_commitments(vk, &proof, 0, &[s(3), s(4)], &v, &link_v), malformed);
    assert_eq!(verify_commitments(vk, &proof, 1, &[s(3), s(4), s(0)], &v, &link_v), malformed);

    let d = &proof.groth16_proof;
    assert_eq!(verify_witness_commitment(&vk.groth16_vk, d, 1, &[s(3), s(4)], &v), Ok(true));
    assert_eq!(verify_witness_commitment(&vk.groth16_vk, d, 1, &[s(4), s(3)], &v), malformed);
    assert_eq!(verify_witness_commitment(&vk.groth16_vk, d, 1, &[s(3), s(4)], &s(0)), malformed);
    assert_eq!(verify_witness_commitment(&vk.groth16_vk, d, 2, &[s(3), s(4)], &v), malformed);
    assert_eq!(verify_witness_commitment(&vk.groth16_vk, d, 4, &[], &v), malformed);
    assert_eq!(verify_witness_commitment(&vk.groth16_vk, d, usize::MAX, &[s(3)], &v), malformed);

    assert_eq!(verify_link_commitment(&vk.link_bases, &proof.link_d, &[s(3), s(4)], &link_v), Ok(true));
    assert_eq!(verify_link_commitment(&vk.link_bases, &proof.link_d, &[s(3)], &link_v), malformed);
    assert_eq!(verify_link_commitment(&vk.link_bases, &proof.link_d, &[s(3), s(4), s(0)], &link_v), malformed);
    assert_eq!(verify_link_commitment(&vk.link_bases, &proof.groth16_proof.d, &[s(3), s(4)], &link_v), malformed);
    // link_d = 3 * B0 + 4 * B1 + 77 * B2
    let expected = affine(&link_bases[0]) * Fr::from(3u64)
        + affine(&link_bases[1]) * Fr::from(4u64)
        + affine(&link_bases[2]) * Fr::from(77u64);
    assert_eq!(affine(&proof.link_d), expected.into_affine());
}

#[test]
fn prepared_inputs_are_the_same_on_both_paths() {
    let mut rng = StdRng::seed_from_u64(10u64);
    let params = generate_random_parameters(&shape(), &mut rng).unwrap();
    let mut vk = params.vk.clone();
    vk.gamma_abc_g1.extend(bases(&mut rng, 2));
    let pvk = prepare_verifying_key(&vk);
    let g: Vec<G1Affine> = vk.gamma_abc_g1.iter().map(affine).collect();
    assert_eq!(g.len(), 6);
    let inputs = [s(2), s(3), s(5), s(7), s(11)];
    for n in 0..=5usize {
        let mut expected = g[0].into_group();
        for i in 0..n {
            expected += g[i + 1] * fr(&inputs[i]);
        }
        let got = prepare_inputs(&pvk, &inputs[..n]).unwrap();
        assert_eq!(affine(&got), expected.into_affine());
        let d = calculate_d(&pvk, &Proof {
            a: G1Point::zero(),
            b: G2Point::zero(),
            c: G1Point::zero(),
            d: G1Point::generator(),
        }, &inputs[..n]).unwrap();
        assert_eq!(affine(&d), (expected + G1Affine::generator()).into_affine());
    }
    let too_many = [s(1); 6];
    assert_eq!(prepare_inputs(&pvk, &too_many), Err(Error::MalformedVerifyingKey));
    assert_eq!(
        calculate_d(&pvk, &Proof {
            a: G1Point::zero(),
            b: G2Point::zero(),
            c: G1Point::zero(),
            d: G1Point::zero(),
        }, &too_many),
        Err(Error::MalformedVerifyingKey)
    );
}

#[test]
fn prepared_key_holds_the_pairing_of_alpha_and_beta() {
    let mut rng = StdRng::seed_from_u64(11u64);
    let params = generate_random_parameters(&shape(), &mut rng).unwrap();
    let pvk = prepare_verifying_key(&params.vk);
    assert_eq!(pvk.vk, params.vk);
    let expected = <ark_bls12_377::Bls12_377 as ark_ec::pairing::Pairing>::pairing(
        affine(&params.vk.alpha_g1),
        affine2(&params.vk.beta_g2),
    );
    let mut bytes = Vec::new();
    expected.0.serialize_uncompressed(&mut bytes).unwrap();
    assert_eq!(pvk.alpha_g1_beta_g2.to_bytes().to_vec(), bytes);
}

#[test]
fn the_pairing_check_takes_the_full_commitment() {
    let mut rng = StdRng::seed_from_u64(12u64);
    let params = generate_random_parameters(&shape(), &mut rng).unwrap();
    let pvk = prepare_verifying_key(&params.vk);
    let proof = create_random_proof(&three_times_four(), s(99), &params, &mut rng).unwrap();
    let d = calculate_d(&pvk, &proof, &[s(12)]).unwrap();
    assert_eq!(verify_groth16_proof(&pvk, proof.a, proof.b, proof.c, d), Ok(true));
    assert_eq!(verify_groth16_proof(&pvk, proof.a, proof.b, proof.c, proof.d), Ok(false));
    // with the identity everywhere the product of the pairings is one, not
    // the key's pairing
    let zero = G1Point::zero();
    assert_eq!(verify_groth16_proof(&pvk, zero, G2Point::zero(), zero, zero), Ok(false));
}

#[test]
fn setup_puts_the_secret_scalars_into_the_keys() {
    let cs = shape();
    let w = waste();
    let (g1, g2) = (G1Point::generator(), G2Point::generator());
    let t = s(123456789);
    let (pk, num_instance) = derive_parameters(&cs, &w, &t, &g1, &g2).unwrap();
    assert_eq!(num_instance, 2);
    let m = instance_map_with_evaluation(&cs, &t).unwrap();
    let (g, h) = (G1Affine::generator(), G2Affine::generator());
    let n = |x: u64| Fr::from(x);
    assert_eq!(affine(&pk.vk.alpha_g1), (g * n(11)).into_affine());
    assert_eq!(affine2(&pk.vk.beta_g2), (h * n(13)).into_affine());
    assert_eq!(affine2(&pk.vk.gamma_g2), (h * n(17)).into_affine());
    assert_eq!(affine2(&pk.vk.delta_g2), (h * n(19)).into_affine());
    assert_eq!(affine(&pk.common.beta_g1), (g * n(13)).into_affine());
    assert_eq!(affine(&pk.common.delta_g1), (g * n(19)).into_affine());
    let gamma_inv = n(17).inverse().unwrap();
    let delta_inv = n(19).inverse().unwrap();
    assert_eq!(affine(&pk.vk.eta_gamma_inv_g1), (g * (n(23) * gamma_inv)).into_affine());
    assert_eq!(affine(&pk.common.eta_delta_inv_g1), (g * (n(23) * delta_inv)).into_affine());
    assert_eq!(pk.vk.gamma_abc_g1.len(), 4);
    assert_eq!(pk.common.a_query.len(), 4);
    assert_eq!(pk.common.b_g1_query.len(), 4);
    assert_eq!(pk.common.b_g2_query.len(), 4);
    assert_eq!(pk.common.h_query.len(), m.domain_size - 1);
    assert!(pk.common.l_query.is_empty());
    for j in 0..4 {
        let (a, b, c) = (fr(&m.a[j]), fr(&m.b[j]), fr(&m.c[j]));
        assert_eq!(affine(&pk.common.a_query[j]), (g * a).into_affine());
        assert_eq!(affine(&pk.common.b_g1_query[j]), (g * b).into_affine());
        assert_eq!(affine2(&pk.common.b_g2_query[j]), (h * b).into_affine());
        let abc = (n(13) * a + n(11) * b + c) * gamma_inv;
        assert_eq!(affine(&pk.vk.gamma_abc_g1[j]), (g * abc).into_affine());
    }
    let tt = fr(&t);
    for i in 0..m.domain_size - 1 {
        let scalar = fr(&m.zt) * delta_inv * tt.pow([i as u64]);
        assert_eq!(affine(&pk.common.h_query[i]), (g * scalar).into_affine());
    }
}

#[test]
fn setup_fails_on_a_scalar_without_inverse() {
    let cs = shape();
    let (g1, g2) = (G1Point::generator(), G2Point::generator());
    let no_gamma = ToxicWaste { gamma: s(0), ..waste() };
    let no_delta = ToxicWaste { delta: s(0), ..waste() };
    assert_eq!(derive_parameters(&cs, &no_gamma, &s(5), &g1, &g2).unwrap_err(), Error::UnexpectedIdentity);
    assert_eq!(derive_parameters(&cs, &no_delta, &s(5), &g1, &g2).unwrap_err(), Error::UnexpectedIdentity);
    let mut rng = StdRng::seed_from_u64(13u64);
    assert_eq!(
        generate_parameters(&cs, s(1), s(2), s(0), s(4), s(5), &mut rng).unwrap_err(),
        Error::UnexpectedIdentity
    );
    assert!(generate_parameters(&cs, s(0), s(0), s(3), s(4), s(0), &mut rng).is_ok());
}

#[test]
fn setup_fails_on_a_circuit_that_is_too_large() {
    let cs = ConstraintSystem { num_instance_variables: (1usize << 47) + 1, ..shape() };
    let (g1, g2) = (G1Point::generator(), G2Point::generator());
    assert_eq!(
        derive_parameters(&cs, &waste(), &s(5), &g1, &g2).unwrap_err(),
        Error::PolynomialDegreeTooLarge
    );
    let mut rng = StdRng::seed_from_u64(14u64);
    assert_eq!(generate_random_parameters(&cs, &mut rng).unwrap_err(), Error::PolynomialDegreeTooLarge);
    let none = ToxicWaste { gamma: s(0), ..waste() };
    assert_eq!(
        derive_parameters(&cs, &none, &s(5), &g1, &g2).unwrap_err(),
        Error::PolynomialDegreeTooLarge
    );
}

#[test]
fn proving_without_an_assignment_reports_it_missing() {
    let mut rng = StdRng::seed_from_u64(15u64);
    let params = generate_random_parameters(&shape(), &mut rng).unwrap();
    assert_eq!(
        create_proof(&shape(), &params.common, &params.vk, s(1), s(2), s(3)).unwrap_err(),
        Error::AssignmentMissing
    );
    assert_eq!(
        create_random_proof(&shape(), s(3), &params, &mut rng).unwrap_err(),
        Error::AssignmentMissing
    );
    assert_eq!(Error::AssignmentMissing.message(), "an assignment for a variable could not be computed");
    assert_eq!(Error::MalformedVerifyingKey.message(), "malformed verifying key");
    assert_eq!(Error::UnexpectedIdentity.message(), "encountered an identity element");
    assert_eq!(Error::PolynomialDegreeTooLarge.message(), "polynomial degree is too large");
}

#[test]
fn setup_with_link_keeps_the_bases_and_the_generators() {
    let mut rng = StdRng::seed_from_u64(16u64);
    let link_bases = bases(&mut rng, 4);
    let params = generate_random_parameters_with_link(&shape(), &link_bases, &mut rng).unwrap();
    assert_eq!(params.vk.link_bases, link_bases);
    assert_eq!((params.vk.link_pp.l, params.vk.link_pp.t), (2, 5));
    assert!(params.vk.link_pp.g1.same(&G1Point::generator()));
    assert!(params.vk.link_pp.g2.same(&G2Point::generator()));
    assert_eq!(params.link_ek.p.len(), 5);
    assert_eq!(params.vk.link_vk.c.len(), 2);
    // the column between the witnesses' and the last has no entry in the
    // second row, and the third base none in the first: an empty column
    // has the neutral element as its image
    assert!(!params.link_ek.p[2].same(&G1Point::zero()));
    assert!(!params.link_ek.p[3].same(&G1Point::zero()));
    assert!(params.link_ek.p[4].same(&G1Point::zero()));
}
