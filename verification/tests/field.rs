use ark_bls12_377::Fr;
use ark_ff::PrimeField;
use legogroth16::field::Scalar;

#[test]
fn scalar_from_u64_round_trips_through_limbs() {
    let s = Scalar::from_u64(12);
    assert_eq!(s.to_limbs(), [12, 0, 0, 0]);
    assert!(!s.is_zero());
    assert!(Scalar::zero().is_zero());
    assert_eq!(Scalar::one().to_limbs(), [1, 0, 0, 0]);
}

#[test]
fn scalar_from_limbs_rejects_the_modulus() {
    let m = [0x0a11800000000001u64, 0x59aa76fed0000001, 0x60b44d1e5c37b001, 0x12ab655e9a2ca556];
    assert!(Scalar::from_limbs(m).is_none());
    let below = [0x0a11800000000000u64, 0x59aa76fed0000001, 0x60b44d1e5c37b001, 0x12ab655e9a2ca556];
    assert_eq!(Scalar::from_limbs(below).unwrap().to_limbs(), below);
    assert!(Scalar::from_limbs([u64::MAX; 4]).is_none());
    assert!(Scalar::from_limbs([0, 0, 0, 0x12ab655e9a2ca557]).is_none());
    assert!(Scalar::from_limbs([u64::MAX, u64::MAX, u64::MAX, 0x12ab655e9a2ca555]).is_some());
}

#[test]
fn scalar_modulus_is_that_of_the_field() {
    assert_eq!(
        Fr::MODULUS.0,
        [0x0a11800000000001u64, 0x59aa76fed0000001, 0x60b44d1e5c37b001, 0x12ab655e9a2ca556]
    );
    assert_eq!(Fr::MODULUS_BIT_SIZE as usize, legogroth16::generator::SCALAR_BITS);
}

#[test]
fn scalar_same_tells_scalars_apart() {
    let a = Scalar::from_limbs([1, 2, 3, 4]).unwrap();
    let b = Scalar::from_limbs([1, 2, 3, 4]).unwrap();
    let c = Scalar::from_limbs([1, 2, 3, 5]).unwrap();
    assert!(a.same(&b));
    assert!(!a.same(&c));
    assert!(!Scalar::from_u64(1).same(&Scalar::from_limbs([0, 1, 0, 0]).unwrap()));
}
