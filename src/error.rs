use vstd::prelude::*;

verus! {

/// Why a customer's fields were refused.
#[derive(Debug)]
pub enum ValidationError {
    /// The name is shorter than 2 or longer than 200 characters.
    InvalidName,
    /// The email is not empty and lacks an `@`, a `.`, or length.
    InvalidEmail,
    /// The tax validator refused the raw tax number, for the reason given.
    InvalidTaxNumber(String),
}

/// Why a directory operation failed.
#[derive(Debug)]
pub enum ServiceError {
    /// The request's fields were refused; nothing was changed.
    BadRequest(ValidationError),
    /// No record has the requested id; nothing was changed.
    NotFound,
    /// The directory already holds a record with the id being inserted.
    Conflict,
    /// The directory could not complete the operation (no identifier left, or
    /// stored records that break the directory's rules).
    Internal,
    /// The operation is not supported yet.
    Unimplemented,
}

pub type ServiceResult<T> = Result<T, ServiceError>;

impl ValidationError {
    /// A human-readable reason.
    pub fn message(&self) -> (r: String)
        ensures
            self matches ValidationError::InvalidName ==> r@
                == "the name must be between 2 and 200 characters long"@,
            self matches ValidationError::InvalidEmail ==> r@
                == "the email must hold an @ and a dot and be longer than 5 characters"@,
            self matches ValidationError::InvalidTaxNumber(m) ==> r@ == m@,
    {
        match self {
            ValidationError::InvalidName => String::from_str(
                "the name must be between 2 and 200 characters long",
            ),
            ValidationError::InvalidEmail => String::from_str(
                "the email must hold an @ and a dot and be longer than 5 characters",
            ),
            ValidationError::InvalidTaxNumber(m) => m.clone(),
        }
    }
}

} // verus!
