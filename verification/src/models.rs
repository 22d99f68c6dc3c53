//! Rows of the database and the rules around them; the queries themselves
//! run in the server.

use vstd::prelude::*;
use time::OffsetDateTime;

verus! {

/// A stored user.
#[derive(Debug, Clone)]
pub struct UserModel {
    pub id: String,
    pub name: String,
    pub email: String,
    pub password_hash: String,
    pub created_at: OffsetDateTime,
    pub updated_at: OffsetDateTime,
}

/// A user to be stored (the password already hashed).
#[derive(Debug)]
pub struct NewUser {
    pub email: String,
    pub name: String,
    pub pasword: String,
}

/// A stored team.
#[derive(Debug, Clone)]
pub struct TeamModel {
    pub id: String,
    pub name: String,
    pub slug: String,
    pub logo: String,
    pub created_at: OffsetDateTime,
    pub owner_id: String,
}

/// A team to be stored.
#[derive(Debug)]
pub struct NewTeam {
    pub name: String,
    pub logo: String,
    pub owner_id: String,
}

/// The revocation list of session tokens (by token id).
pub struct TokenRevocation;

impl UserModel {
    /// The hash that the supplied password is verified against: the user's
    /// own, or the dummy hash when no user has the address, so that a
    /// missing user costs as long as a wrong password.
    pub fn hash_to_check<'a>(found: &'a Option<UserModel>, dummy: &'a str) -> (r: &'a str)
        ensures
            match found {
                Some(user) => r@ == user.password_hash@,
                None => r@ == dummy@,
            },
    {
        match found {
            Some(user) => user.password_hash.as_str(),
            None => dummy,
        }
    }

    /// What an authentication comes to, from the user found by address and
    /// the verification of the password against the hash of
    /// [`hash_to_check`](Self::hash_to_check): no user, or a wrong password,
    /// gives `None`; a verification error counts only when the user exists.
    pub fn authentication_outcome<E>(
        found: Option<UserModel>,
        verified: Result<bool, E>,
    ) -> (r: Result<Option<UserModel>, E>)
        ensures
            match found {
                None => r == Ok::<Option<UserModel>, E>(None),
                Some(user) => match verified {
                    Ok(true) => r == Ok::<Option<UserModel>, E>(Some(user)),
                    Ok(false) => r == Ok::<Option<UserModel>, E>(None),
                    Err(e) => r == Err::<Option<UserModel>, E>(e),
                },
            },
    {
        match found {
            None => Ok(None),
            Some(user) => match verified {
                Ok(valid) => {
                    if valid {
                        Ok(Some(user))
                    } else {
                        Ok(None)
                    }
                },
                Err(e) => Err(e),
            },
        }
    }
}

} // verus!
