use vstd::prelude::*;

verus! {

/// The ways an operation of this library can fail.
#[derive(Debug, Clone, Copy, PartialEq, Eq, Structural)]
pub enum MatError {
    /// The shapes of the operands do not fit the operation.
    DimensionMismatch,
    /// A destination view overlaps a source view of the same operation.
    AliasingViolation,
    /// A sparse pattern is structurally degenerate (an empty row or column).
    SingularPattern,
    /// A pivot vanished with no admissible alternative.
    NumericallySingular,
    /// An iterative eigenvalue method ran out of iterations.
    EigenNonConvergence,
    /// A matrix's pattern has an entry outside the analysed pattern.
    PatternMismatch,
    /// Index arithmetic overflowed or an allocation failed.
    ResourceExhausted,
}

impl MatError {
    pub open spec fn text(self) -> Seq<char> {
        match self {
            MatError::DimensionMismatch => "dimension mismatch"@,
            MatError::AliasingViolation => "aliasing violation"@,
            MatError::SingularPattern => "structurally singular pattern"@,
            MatError::NumericallySingular => "numerically singular matrix"@,
            MatError::EigenNonConvergence => "eigenvalue iteration did not converge"@,
            MatError::PatternMismatch => "pattern not covered by the symbolic analysis"@,
            MatError::ResourceExhausted => "index overflow or allocation failure"@,
        }
    }

    /// A short human-readable description of the error.
    pub fn message(&self) -> (r: String)
        ensures
            r@ == self.text(),
    {
        match self {
            MatError::DimensionMismatch => String::from_str("dimension mismatch"),
            MatError::AliasingViolation => String::from_str("aliasing violation"),
            MatError::SingularPattern => String::from_str("structurally singular pattern"),
            MatError::NumericallySingular => String::from_str("numerically singular matrix"),
            MatError::EigenNonConvergence => String::from_str("eigenvalue iteration did not converge"),
            MatError::PatternMismatch => String::from_str("pattern not covered by the symbolic analysis"),
            MatError::ResourceExhausted => String::from_str("index overflow or allocation failure"),
        }
    }
}

} // verus!
