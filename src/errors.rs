use vstd::prelude::*;

verus! {

/// Every way in which building, flattening, proving or verifying can fail.
#[derive(Debug, Clone)]
pub enum SigmaProofError {
    /// A scalar expression holds an uninstantiated variable.
    UninstantiatedScalar,
    /// A point expression holds an uninstantiated variable.
    UninstantiatedPoint,
    /// Fewer scalars were given than the record declares.
    InsufficientScalars,
    /// Fewer points were given than the record declares.
    InsufficientPoints,
    /// More scalars were given than the record declares.
    TooManyScalars { expected: usize, actual: usize },
    /// A named field could not be rebuilt.
    FieldDeserializationFailed { field: String },
    /// At least one verification equation does not hold.
    EquationCheckFailed,
    /// `psi` and `f` disagree on the number of points they return.
    PsiOutputLengthMismatch,
    /// The proof length is not a multiple of 32 bytes.
    TranscriptFinalizationFailed,
    /// The proof is too short, or holds an invalid point or scalar encoding.
    TranscriptError,
    /// Scalar values are out of range.
    InvalidScalarValues,
}

pub type SigmaProofResult<T> = Result<T, SigmaProofError>;

} // verus!
