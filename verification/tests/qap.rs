use ark_bls12_377::Fr;
use ark_ff::Field;
use ark_ff::PrimeField;
use ark_ff::Zero;
use ark_poly::EvaluationDomain;
use ark_poly::GeneralEvaluationDomain;
use legogroth16::domain::evaluate_vanishing;
use legogroth16::domain::field_generator;
use legogroth16::error::Error;
use legogroth16::field::Scalar;
use legogroth16::r1cs::evaluate_constraint;
use legogroth16::r1cs::ConstraintSystem;
use legogroth16::r1cs_to_qap::instance_map_with_evaluation;
use legogroth16::r1cs_to_qap::witness_map;

fn scalar(x: Fr) -> Scalar {
    Scalar::from_limbs(x.into_bigint().0).unwrap()
}

fn fr(s: &Scalar) -> Fr {
    Fr::from(ark_ff::BigInt(s.to_limbs()))
}

fn s(n: u64) -> Scalar {
    Scalar::from_u64(n)
}

// variables: 0 the constant one, 1 the product c, 2 and 3 the factors a, b;
// constraints: a * b = c, and (a + 2) * (3 b) = 3 c + 6 b.
fn product_system(a: u64, b: u64, c: u64) -> ConstraintSystem {
    ConstraintSystem {
        num_instance_variables: 2,
        num_witness_variables: 2,
        num_constraints: 2,
        a: vec![vec![(s(1), 2)], vec![(s(1), 2), (s(2), 0)]],
        b: vec![vec![(s(1), 3)], vec![(s(3), 3)]],
        c: vec![vec![(s(1), 1)], vec![(s(3), 1), (s(6), 3)]],
        instance_assignment: vec![s(1), s(c)],
        witness_assignment: vec![s(a), s(b)],
    }
}

#[test]
fn vanishing_polynomial_and_generator_are_those_of_the_domain() {
    assert_eq!(fr(&field_generator()), <Fr as ark_ff::FftField>::GENERATOR);
    assert_eq!(field_generator().to_limbs(), [22, 0, 0, 0]);
    for size in [1usize, 2, 8, 1 << 10] {
        let domain = GeneralEvaluationDomain::<Fr>::new(size).unwrap();
        for tau in [Fr::from(0u64), Fr::from(1u64), Fr::from(22u64), -Fr::from(5u64)] {
            assert_eq!(
                fr(&evaluate_vanishing(size, &scalar(tau))),
                domain.evaluate_vanishing_polynomial(tau)
            );
        }
    }
    // 3^2 - 1 = 8
    assert_eq!(evaluate_vanishing(2, &s(3)).to_limbs(), [8, 0, 0, 0]);
    // the polynomial vanishes at one, which is in every domain
    assert!(evaluate_vanishing(8, &s(1)).is_zero());
}

#[test]
fn evaluate_constraint_sums_coefficients_times_values() {
    let z = vec![s(1), s(5), s(7)];
    // 2 * 1 + 3 * 5 = 17
    assert_eq!(evaluate_constraint(&vec![(s(2), 0), (s(3), 1)], &z).to_limbs(), [17, 0, 0, 0]);
    // 4 * 7 + 1 * 7 = 35
    assert_eq!(evaluate_constraint(&vec![(s(4), 2), (s(1), 2)], &z).to_limbs(), [35, 0, 0, 0]);
    assert!(evaluate_constraint(&vec![], &z).is_zero());
}

#[test]
fn instance_map_weighs_each_row_by_its_lagrange_coefficient() {
    let cs = product_system(3, 4, 12);
    let t = Fr::from(123456789u64);
    let m = instance_map_with_evaluation(&cs, &scalar(t)).unwrap();
    // two constraints and two instance variables: a domain of four
    assert_eq!(m.domain_size, 4);
    assert_eq!(m.qap_num_variables, 3);
    let domain = GeneralEvaluationDomain::<Fr>::new(4).unwrap();
    let u = domain.evaluate_all_lagrange_coefficients(t);
    assert_eq!(fr(&m.zt), t.pow([4u64]) - Fr::from(1u64));
    let a: Vec<Fr> = m.a.iter().map(fr).collect();
    let b: Vec<Fr> = m.b.iter().map(fr).collect();
    let c: Vec<Fr> = m.c.iter().map(fr).collect();
    assert_eq!(a, vec![u[2] + u[1] * Fr::from(2u64), u[3], u[0] + u[1], Fr::zero()]);
    assert_eq!(b, vec![Fr::zero(), Fr::zero(), Fr::zero(), u[0] + u[1] * Fr::from(3u64)]);
    assert_eq!(
        c,
        vec![Fr::zero(), u[0] + u[1] * Fr::from(3u64), Fr::zero(), u[1] * Fr::from(6u64)]
    );
}

#[test]
fn witness_map_gives_the_quotient_of_a_satisfied_system() {
    let cs = product_system(3, 4, 12);
    let h: Vec<Fr> = witness_map(&cs).unwrap().iter().map(fr).collect();
    assert_eq!(h.len(), 4);
    let t = Fr::from(987654321u64);
    let m = instance_map_with_evaluation(&cs, &scalar(t)).unwrap();
    let z: Vec<Fr> = cs.instance_assignment.iter().chain(cs.witness_assignment.iter()).map(fr).collect();
    let dot = |v: &Vec<Scalar>| -> Fr { v.iter().zip(&z).map(|(x, y)| fr(x) * y).sum() };
    let mut h_at_t = Fr::zero();
    for (i, coeff) in h.iter().enumerate() {
        h_at_t += *coeff * t.pow([i as u64]);
    }
    // A(t) * B(t) - C(t) = h(t) * Z(t)
    assert_eq!(dot(&m.a) * dot(&m.b) - dot(&m.c), h_at_t * fr(&m.zt));
    // the quotient has a degree below the domain's size less one
    assert!(h[3].is_zero());
}

#[test]
fn maps_report_a_domain_that_the_field_does_not_have() {
    let cs = ConstraintSystem {
        num_instance_variables: (1usize << 47) + 1,
        num_witness_variables: 0,
        num_constraints: 0,
        a: vec![],
        b: vec![],
        c: vec![],
        instance_assignment: vec![],
        witness_assignment: vec![],
    };
    assert_eq!(
        instance_map_with_evaluation(&cs, &s(5)).unwrap_err(),
        Error::PolynomialDegreeTooLarge
    );
    let fits = ConstraintSystem { num_instance_variables: 1, instance_assignment: vec![s(1)], ..cs };
    assert_eq!(instance_map_with_evaluation(&fits, &s(5)).unwrap().domain_size, 1);
    assert_eq!(witness_map(&fits).unwrap().len(), 1);
}
