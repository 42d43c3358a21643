use vstd::prelude::*;

verus! {

/// Error taxonomy of the registry core.
///
/// `ValidationError` reports a missing or malformed required field,
/// `ConstraintViolation` a broken uniqueness rule, `NotFound` an id that does
/// not resolve, `Unauthorized` a failed credential or token check, and
/// `InternalError` an unexpected storage failure (here: id space exhausted).
#[derive(Clone, Copy, PartialEq, Eq, Structural, Debug)]
pub enum RegistryError {
    ValidationError,
    ConstraintViolation,
    NotFound,
    Unauthorized,
    InternalError,
}

impl RegistryError {
    /// A short human-readable description, for boundary layers that render
    /// errors; the library itself never formats.
    pub fn message(&self) -> (r: &'static str)
        ensures
            r@ == match *self {
                RegistryError::ValidationError => "validation error"@,
                RegistryError::ConstraintViolation => "constraint violation"@,
                RegistryError::NotFound => "not found"@,
                RegistryError::Unauthorized => "unauthorized"@,
                RegistryError::InternalError => "internal error"@,
            },
    {
        match *self {
            RegistryError::ValidationError => "validation error",
            RegistryError::ConstraintViolation => "constraint violation",
            RegistryError::NotFound => "not found",
            RegistryError::Unauthorized => "unauthorized",
            RegistryError::InternalError => "internal error",
        }
    }
}

} // verus!
