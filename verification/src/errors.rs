//! The error taxonomy of the classifier core. All variants report caller or
//! data errors; none is transient, none is recovered internally.

use vstd::prelude::*;

verus! {

/// Why loading or comparing entities failed.
#[derive(Clone, Copy, PartialEq, Eq, Structural, Debug)]
pub enum ClassifierError {
    /// A raw record is missing the reserved name field, or a facet value
    /// failed numeric parsing.
    MalformedRecord,
    /// Normalization was attempted on an all-zero facet vector.
    ZeroMagnitudeVector,
    /// A comparison referenced a facet key absent from one side: entities
    /// with non-identical facet schemas cannot be compared.
    FacetKeyMismatch,
}

impl ClassifierError {
    /// A short human-readable label for the error.
    pub fn describe(&self) -> (r: &'static str)
        ensures
            *self == ClassifierError::MalformedRecord ==> r@ == "malformed record"@,
            *self == ClassifierError::ZeroMagnitudeVector ==> r@ == "zero magnitude vector"@,
            *self == ClassifierError::FacetKeyMismatch ==> r@ == "facet key mismatch"@,
    {
        match self {
            ClassifierError::MalformedRecord => "malformed record",
            ClassifierError::ZeroMagnitudeVector => "zero magnitude vector",
            ClassifierError::FacetKeyMismatch => "facet key mismatch",
        }
    }
}

} // verus!
