//! Errors of the domain rules.

use vstd::prelude::*;
use vstd::string::StringExecFns;

verus! {

/// Why a domain operation was refused.
#[derive(Debug, Clone, PartialEq, Eq)]
pub enum DomainError {
    Validation(String),
    AlreadyExists,
    AlreadyAssigned,
}

pub type DomainResult<T> = Result<T, DomainError>;

/// The message that describes a domain error.
pub open spec fn domain_failure_message(e: DomainError) -> Seq<char> {
    match e {
        DomainError::Validation(m) => "validation error: "@ + m@,
        DomainError::AlreadyExists => "entity already exists"@,
        DomainError::AlreadyAssigned => "role already assigned to membership"@,
    }
}

impl DomainError {
    /// The human-readable description of the error.
    pub fn message(&self) -> (r: String)
        ensures
            r@ == domain_failure_message(*self),
    {
        match self {
            DomainError::Validation(m) => {
                let mut s = "validation error: ".to_owned();
                s.append(m.as_str());
                s
            },
            DomainError::AlreadyExists => "entity already exists".to_owned(),
            DomainError::AlreadyAssigned => "role already assigned to membership".to_owned(),
        }
    }
}

} // verus!
