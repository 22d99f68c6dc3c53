//! Users: their e-mail address, their settings, and the hashing of their
//! passwords.

use vstd::prelude::*;
use crate::domain::errors::{DomainError, DomainResult};
use crate::validation::{
    email_error, email_error_message, is_valid_email, lemma_normalized_idempotent,
    lemma_normalized_validates_alike, lemma_valid_email_has_at, normalized, validate_email,
};

verus! {

/// A valid e-mail address in normalised form.
#[derive(Debug, PartialEq, Eq)]
pub struct Email(String);

impl Clone for Email {
    fn clone(&self) -> (r: Self)
        ensures
            r@ == self@,
    {
        proof {
            use_type_invariant(self);
        }
        Email(self.0.clone())
    }
}

impl Email {
    #[verifier::type_invariant]
    spec fn valid_and_normalized(self) -> bool {
        is_valid_email(self.0@) && normalized(self.0@) == self.0@
    }

    /// Validates and normalises a raw address; an invalid one is refused
    /// with the message of the first rule that it breaks.
    pub fn new(raw: &str) -> (r: DomainResult<Self>)
        ensures
            match r {
                Ok(e) => is_valid_email(raw@) && e@ == normalized(raw@),
                Err(DomainError::Validation(m)) => email_error(raw@) matches Some(err)
                    && m@ == email_error_message(err),
                Err(_) => false,
            },
    {
        match validate_email(raw) {
            Err(e) => Err(DomainError::Validation(e.message())),
            Ok(validated) => {
                let s = validated.normalize();
                proof {
                    lemma_valid_email_has_at(raw@);
                    lemma_normalized_validates_alike(raw@);
                    lemma_normalized_idempotent(raw@);
                }
                Ok(Self(s))
            },
        }
    }

    /// The normalised address.
    #[inline]
    pub fn as_str(&self) -> (r: &str)
        ensures
            r@ == self@,
            is_valid_email(r@),
            normalized(r@) == r@,
    {
        proof {
            use_type_invariant(self);
        }
        self.0.as_str()
    }
}

impl View for Email {
    type V = Seq<char>;

    closed spec fn view(&self) -> Seq<char> {
        self.0@
    }
}

#[derive(Debug, Clone, PartialEq, Eq, Structural)]
pub enum Language {
    En,
    Es,
}

impl Default for Language {
    fn default() -> (r: Self)
        ensures
            r == Language::En,
    {
        Language::En
    }
}

#[derive(Debug, Clone, PartialEq, Eq, Structural)]
pub struct UserSettings {
    pub two_factor_enabled: bool,
    pub preferred_language: Language,
}

impl Default for UserSettings {
    /// Two-factor authentication off, English.
    fn default() -> (r: Self)
        ensures
            r == (UserSettings { two_factor_enabled: false, preferred_language: Language::En }),
    {
        UserSettings { two_factor_enabled: false, preferred_language: Language::default() }
    }
}

/// A stored password hash (a PHC string).
#[derive(Debug, Clone, PartialEq, Eq)]
pub struct HashedPassword(pub String);

/// Hashing of passwords, owned by the domain and implemented by the
/// infrastructure; the application receives it as a dependency.
pub trait PasswordHasher: Send + Sync {
    /// Hashes a plaintext password; fails when the hashing algorithm fails.
    fn hash(&self, plaintext: &str) -> DomainResult<HashedPassword>;

    /// Verifies a plaintext password against a stored hash; fails when the
    /// verification itself fails.
    fn verify(&self, plaintext: &str, hash: &HashedPassword) -> DomainResult<bool>;
}

} // verus!
