use vstd::prelude::*;

verus! {

/// Why a setup, a proof or a verification could not be carried out.
#[derive(Clone, Copy, Debug, PartialEq, Eq, Structural)]
pub enum Error {
    /// The circuit needs a larger evaluation domain than the scalar field offers.
    PolynomialDegreeTooLarge,
    /// A scalar or point that has to be invertible was zero or the identity.
    UnexpectedIdentity,
    /// The circuit asked for a value of the assignment that was not supplied.
    AssignmentMissing,
    /// The key's dimensions do not fit the inputs, or a commitment does not
    /// open to the claimed values.
    MalformedVerifyingKey,
}

impl Error {
    /// A short description of the error.
    pub fn message(&self) -> (r: &'static str)
        ensures
            r@ == match *self {
                Error::PolynomialDegreeTooLarge => "polynomial degree is too large"@,
                Error::UnexpectedIdentity => "encountered an identity element"@,
                Error::AssignmentMissing => "an assignment for a variable could not be computed"@,
                Error::MalformedVerifyingKey => "malformed verifying key"@,
            },
    {
        match self {
            Error::PolynomialDegreeTooLarge => "polynomial degree is too large",
            Error::UnexpectedIdentity => "encountered an identity element",
            Error::AssignmentMissing => "an assignment for a variable could not be computed",
            Error::MalformedVerifyingKey => "malformed verifying key",
        }
    }
}

} // verus!
