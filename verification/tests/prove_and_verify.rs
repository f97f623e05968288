use ark_bls12_377::Fr;
use ark_bls12_377::G1Projective;
use ark_ff::PrimeField;
use ark_ff::UniformRand;
use ark_relations::r1cs::ConstraintSynthesizer;
use ark_relations::r1cs::ConstraintSystemRef;
use ark_relations::r1cs::LinearCombination;
use ark_relations::r1cs::OptimizationGoal;
use ark_relations::r1cs::SynthesisError;
use ark_relations::r1cs::SynthesisMode;
use ark_serialize::CanonicalSerialize;
use ark_std::rand::rngs::StdRng;
use ark_std::rand::SeedableRng;
use core::ops::MulAssign;
use legogroth16::field::Scalar;
use legogroth16::g1::G1Point;
use legogroth16::create_d;
use legogroth16::create_random_proof;
use legogroth16::create_random_proof_with_link;
use legogroth16::generate_random_parameters;
use legogroth16::generate_random_parameters_with_link;
use legogroth16::prepare_verifying_key;
use legogroth16::r1cs::ConstraintSystem;
use legogroth16::verify_commitments;
use legogroth16::verify_proof;
use legogroth16::verify_proof_with_link;
use legogroth16::verify_witness_commitment;

struct MySillyCircuit {
    a: Option<Fr>,
    b: Option<Fr>,
}

impl ConstraintSynthesizer<Fr> for MySillyCircuit {
    fn generate_constraints(self, cs: ConstraintSystemRef<Fr>) -> Result<(), SynthesisError> {
        let a = cs.new_witness_variable(|| self.a.ok_or(SynthesisError::AssignmentMissing))?;
        let b = cs.new_witness_variable(|| self.b.ok_or(SynthesisError::AssignmentMissing))?;
        let c = cs.new_input_variable(|| {
            let mut a = self.a.ok_or(SynthesisError::AssignmentMissing)?;
            let b = self.b.ok_or(SynthesisError::AssignmentMissing)?;

            a.mul_assign(&b);
            Ok(a)
        })?;

        for _ in 0..6 {
            cs.enforce_constraint(
                LinearCombination::zero() + a,
                LinearCombination::zero() + b,
                LinearCombination::zero() + c,
            )?;
        }

        Ok(())
    }
}

fn scalar(x: Fr) -> Scalar {
    Scalar::from_limbs(x.into_bigint().0).unwrap()
}

fn rows(m: &[Vec<(Fr, usize)>]) -> Vec<Vec<(Scalar, usize)>> {
    m.iter().map(|row| row.iter().map(|(coeff, index)| (scalar(*coeff), *index)).collect()).collect()
}

fn synthesize(circuit: MySillyCircuit, setup: bool) -> ConstraintSystem {
    let cs = ark_relations::r1cs::ConstraintSystem::<Fr>::new_ref();
    cs.set_optimization_goal(OptimizationGoal::Constraints);
    if setup {
        cs.set_mode(SynthesisMode::Setup);
    }
    circuit.generate_constraints(cs.clone()).unwrap();
    if !setup {
        assert!(cs.is_satisfied().unwrap());
    }
    cs.finalize();
    let matrices = cs.to_matrices().unwrap();
    let inner = cs.borrow().unwrap();
    ConstraintSystem {
        num_instance_variables: cs.num_instance_variables(),
        num_witness_variables: cs.num_witness_variables(),
        num_constraints: cs.num_constraints(),
        a: rows(&matrices.a),
        b: rows(&matrices.b),
        c: rows(&matrices.c),
        instance_assignment: inner.instance_assignment.iter().map(|x| scalar(*x)).collect(),
        witness_assignment: inner.witness_assignment.iter().map(|x| scalar(*x)).collect(),
    }
}

fn random_point(rng: &mut StdRng) -> G1Point {
    let mut bytes = Vec::new();
    G1Projective::rand(rng).serialize_uncompressed(&mut bytes).unwrap();
    G1Point::from_bytes(&bytes).unwrap()
}

#[test]
fn prove_and_verify() {
    let mut rng = StdRng::seed_from_u64(0u64);

    let pedersen_bases = (0..3).map(|_| random_point(&mut rng)).collect::<Vec<_>>();

    let params = generate_random_parameters(
        &synthesize(MySillyCircuit { a: None, b: None }, true),
        &mut rng,
    )
    .unwrap();

    let params_with_link = generate_random_parameters_with_link(
        &synthesize(MySillyCircuit { a: None, b: None }, true),
        &pedersen_bases,
        &mut rng,
    )
    .unwrap();

    let pvk = prepare_verifying_key(&params.vk);
    let pvk_with_link = prepare_verifying_key(&params_with_link.vk.groth16_vk);

    for _ in 0..1 {
        let a = Fr::rand(&mut rng);
        let b = Fr::rand(&mut rng);
        let mut c = a;
        c.mul_assign(&b);

        let v = scalar(Fr::rand(&mut rng));
        let link_v = scalar(Fr::rand(&mut rng));
        let proof = create_random_proof(
            &synthesize(MySillyCircuit { a: Some(a), b: Some(b) }, false),
            v,
            &params,
            &mut rng,
        )
        .unwrap();

        let proof_link = create_random_proof_with_link(
            &synthesize(MySillyCircuit { a: Some(a), b: Some(b) }, false),
            v,
            link_v,
            &params_with_link,
            &[scalar(a), scalar(b)],
            &mut rng,
        )
        .unwrap();
        let (a, b, c) = (scalar(a), scalar(b), scalar(c));

        assert!(verify_commitments(&params_with_link.vk, &proof_link, 1, &[a, b], &v, &link_v).unwrap());
        assert!(verify_commitments(&params_with_link.vk, &proof_link, 1, &[a], &v, &link_v).is_err());
        assert!(verify_commitments(&params_with_link.vk, &proof_link, 1, &[c], &a, &link_v).is_err());

        assert!(verify_witness_commitment(&params.vk, &proof, 1, &[a, b], &v).unwrap());
        assert!(verify_witness_commitment(&params.vk, &proof, 1, &[a], &v).is_err());
        assert!(verify_witness_commitment(&params.vk, &proof, 1, &[c], &a).is_err());

        assert!(verify_proof(&pvk, &proof, &[c]).unwrap());
        assert!(verify_proof_with_link(&pvk_with_link, &params_with_link.vk, &proof_link, &[c]).unwrap());
        assert!(!verify_proof(&pvk_with_link, &proof, &[c]).unwrap());
    }
}

#[test]
fn d_prove_and_verify() {
    let mut rng = StdRng::seed_from_u64(0u64);

    let params = generate_random_parameters(
        &synthesize(MySillyCircuit { a: None, b: None }, true),
        &mut rng,
    )
    .unwrap();

    let pvk = prepare_verifying_key(&params.vk);

    for _ in 0..1 {
        let a = Fr::rand(&mut rng);
        let b = Fr::rand(&mut rng);
        let mut c = a;
        c.mul_assign(&b);

        let v = scalar(Fr::rand(&mut rng));
        let proof = create_random_proof(
            &synthesize(MySillyCircuit { a: Some(a), b: Some(b) }, false),
            v,
            &params,
            &mut rng,
        )
        .unwrap();

        let (a, b, c) = (scalar(a), scalar(b), scalar(c));
        let proof = create_d(vec![a, b], vec![c], &params.vk, v, &proof).unwrap();

        assert!(verify_witness_commitment(&params.vk, &proof, 1, &[a, b], &v).unwrap());
        assert!(verify_witness_commitment(&params.vk, &proof, 1, &[a], &v).is_err());
        assert!(verify_witness_commitment(&params.vk, &proof, 1, &[c], &a).is_err());

        assert!(verify_proof(&pvk, &proof, &[c]).unwrap());
    }
}
