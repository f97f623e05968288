//! A pairing-based zero-knowledge argument in the Groth16 family over
//! BLS12-377, whose proofs carry a commitment to the witness that can be
//! linked to a Pedersen commitment held elsewhere.
pub mod completeness;
pub mod data_structures;
pub mod domain;
pub mod error;
pub mod field;
pub mod g1;
pub mod g2;
pub mod generator;
pub mod link;
pub mod model;
pub mod pairing;
pub mod prover;
pub mod quotient;
pub mod r1cs;
pub mod r1cs_to_qap;
pub mod verification;
pub mod window;

pub use data_structures::PreparedVerifyingKey;
pub use data_structures::Proof;
pub use data_structures::ProofWithLink;
pub use data_structures::ProvingKey;
pub use data_structures::ProvingKeyCommon;
pub use data_structures::ProvingKeyWithLink;
pub use data_structures::VerifyingKey;
pub use data_structures::VerifyingKeyWithLink;
pub use error::Error;
pub use generator::generate_parameters;
pub use generator::generate_random_parameters;
pub use generator::generate_random_parameters_with_link;
pub use prover::create_d;
pub use prover::create_proof;
pub use prover::create_random_proof;
pub use prover::create_random_proof_with_link;
pub use verification::calculate_d;
pub use verification::prepare_inputs;
pub use verification::prepare_verifying_key;
pub use verification::verify_commitments;
pub use verification::verify_groth16_proof;
pub use verification::verify_link_commitment;
pub use verification::verify_proof;
pub use verification::verify_proof_with_link;
pub use verification::verify_witness_commitment;
