//! The error that a failed validation reports.

use vstd::prelude::*;

verus! {

/// Why an operation failed.
#[derive(Clone, Debug, PartialEq, Eq)]
pub enum HolochainError {
    /// A failure described by its message.
    ErrorGeneric(String),
}

impl View for HolochainError {
    type V = Seq<char>;

    /// The message.
    open spec fn view(&self) -> Seq<char> {
        match self {
            HolochainError::ErrorGeneric(message) => message@,
        }
    }
}

impl HolochainError {
    /// The message, as it is shown to a reader.
    pub fn to_string(&self) -> (r: String)
        ensures
            r@ == self@,
    {
        match self {
            HolochainError::ErrorGeneric(message) => message.clone(),
        }
    }
}

} // verus!
