use ark_bls12_377::G1Affine;
use ark_bls12_377::G2Affine;
use ark_ec::AffineRepr;
use ark_ff::One;
use ark_serialize::CanonicalSerialize;
use legogroth16::g1::G1Point;
use legogroth16::g1::G1_GENERATOR;
use legogroth16::g2::G2Point;
use legogroth16::g2::G2_GENERATOR;
use legogroth16::pairing::TargetElem;

fn encode<T: CanonicalSerialize>(x: &T) -> Vec<u8> {
    let mut bytes = Vec::new();
    x.serialize_uncompressed(&mut bytes).unwrap();
    bytes
}

#[test]
fn g1_identity_has_the_stated_encoding() {
    let mut expected = [0u8; 96];
    expected[95] = 0x40;
    assert_eq!(G1Point::zero().to_bytes(), expected);
    assert_eq!(encode(&G1Affine::zero()), expected.to_vec());
}

#[test]
fn g2_identity_has_the_stated_encoding() {
    let mut expected = [0u8; 192];
    expected[191] = 0x40;
    assert_eq!(G2Point::zero().to_bytes(), expected);
    assert_eq!(encode(&G2Affine::zero()), expected.to_vec());
}

#[test]
fn generators_have_the_stated_encodings() {
    assert_eq!(G1Point::generator().to_bytes(), G1_GENERATOR);
    assert_eq!(encode(&G1Affine::generator()), G1_GENERATOR.to_vec());
    assert_eq!(G2Point::generator().to_bytes(), G2_GENERATOR);
    assert_eq!(encode(&G2Affine::generator()), G2_GENERATOR.to_vec());
}

#[test]
fn target_one_has_the_stated_encoding() {
    let mut expected = [0u8; 576];
    expected[0] = 1;
    assert_eq!(TargetElem::one().to_bytes(), expected);
    assert_eq!(encode(&ark_bls12_377::Fq12::one()), expected.to_vec());
    assert!(TargetElem::one().same(&TargetElem::one()));
}

#[test]
fn g1_from_bytes_accepts_points_and_rejects_noise() {
    let bytes = encode(&G1Affine::generator());
    let g = G1Point::from_bytes(&bytes).unwrap();
    assert_eq!(g.to_bytes().to_vec(), bytes);
    assert!(G1Point::from_bytes(&[1u8; 96]).is_none());
    assert!(G1Point::from_bytes(&bytes[..95]).is_none());
    assert!(G1Point::from_bytes(&[]).is_none());
}

#[test]
fn g1_from_bytes_gives_the_canonical_encoding() {
    // The infinity flag with other bits set in the coordinates still reads
    // as the point at infinity, which is held in its own encoding.
    let mut sloppy = [0u8; 96];
    sloppy[0] = 7;
    sloppy[95] = 0x40;
    let p = G1Point::from_bytes(&sloppy).unwrap();
    assert!(p.same(&G1Point::zero()));
    assert_eq!(p.to_bytes(), G1Point::zero().to_bytes());
}

#[test]
fn g2_from_bytes_accepts_points_and_rejects_noise() {
    let bytes = encode(&G2Affine::generator());
    let g = G2Point::from_bytes(&bytes).unwrap();
    assert_eq!(g.to_bytes().to_vec(), bytes);
    assert!(g.same(&G2Point::generator()));
    assert!(!g.same(&G2Point::zero()));
    assert!(G2Point::from_bytes(&[1u8; 192]).is_none());
    assert!(G2Point::from_bytes(&bytes[..100]).is_none());
}

#[test]
fn g1_minus_itself_is_the_identity() {
    let g = G1Point::generator();
    assert!(g.minus(&g).same(&G1Point::zero()));
    assert!(g.minus(&G1Point::zero()).same(&g));
    assert!(!g.same(&G1Point::zero()));
    let doubled = encode(&(G1Affine::generator() + G1Affine::generator()));
    let neg = G1Point::zero().minus(&g);
    assert_eq!(g.minus(&neg).to_bytes().to_vec(), doubled);
}
