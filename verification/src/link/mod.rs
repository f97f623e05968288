//! The argument that two commitments under different bases open to the same
//! values, and the sparse matrices that its keys are made from.
pub mod complete;
pub mod matrix;
pub mod snark;

pub use matrix::inner_product;
pub use matrix::scalar_vector_mult;
pub use matrix::CoeffPos;
pub use matrix::SparseLinAlgebra;
pub use matrix::SparseMatrix;
pub use snark::PESubspaceSnark;
pub use snark::SubspaceSnark;
pub use snark::EK;
pub use snark::PP;
pub use snark::VK;
