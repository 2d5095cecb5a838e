use vstd::prelude::*;

use crate::error::{Error, ErrorCode};

verus! {

/// Relies on `chrono::Utc::now` and `DateTime::timestamp_micros`: the time now,
/// in microseconds since the Unix epoch. Nothing is known of the value.
#[verifier::external_body]
pub(crate) fn now_micros() -> (r: i64) {
    chrono::Utc::now().timestamp_micros()
}

/// A type whose values can be checked before they are written.
pub trait Validable {
    /// Whether the value may be written.
    spec fn is_valid(&self) -> bool;

    /// Succeeds exactly on a valid value; otherwise fails with `EINVALID`.
    fn validate(&self) -> (r: Result<(), Error>)
        ensures
            r.is_ok() == self.is_valid(),
            r.is_err() ==> r->Err_0.code == ErrorCode::EINVALID,
    ;
}

/// A user. `id` is zero until the store assigns one; the two times are in
/// microseconds since the Unix epoch and are set by the store, not the caller.
#[derive(Clone, Debug, PartialEq)]
pub struct User {
    pub id: i64,
    pub created_at: i64,
    pub updated_at: i64,
    pub name: String,
    pub email: String,
    pub password: Option<String>,
}

/// Whether an optional password is absent or non-empty.
pub open spec fn password_ok(password: Option<String>) -> bool {
    password.is_some() ==> password->0@.len() > 0
}

/// Whether `u` may be written back as a user that the store already holds:
/// valid, and with an assigned id.
pub open spec fn stored_valid(u: User) -> bool {
    u.id != 0 && u.is_valid()
}

impl User {
    /// A user with no id, empty name and email, no password, and both times
    /// set to now.
    pub fn new() -> (r: User)
        ensures
            r.id == 0,
            r.name@.len() == 0,
            r.email@.len() == 0,
            r.password.is_none(),
            r.created_at == r.updated_at,
    {
        let now = now_micros();
        User {
            id: 0,
            created_at: now,
            updated_at: now,
            name: String::new(),
            email: String::new(),
            password: None,
        }
    }

    /// A copy of this user.
    pub fn duplicate(&self) -> (r: User)
        ensures
            r == *self,
    {
        let password = match &self.password {
            Some(p) => Some(p.clone()),
            None => None,
        };
        User {
            id: self.id,
            created_at: self.created_at,
            updated_at: self.updated_at,
            name: self.name.clone(),
            email: self.email.clone(),
            password,
        }
    }
}

impl User {
    /// Validates a user that the store already holds: its id must be assigned,
    /// and it must be valid. Fails with `EINVALID` otherwise.
    pub fn validate_stored(&self) -> (r: Result<(), Error>)
        ensures
            r.is_ok() == stored_valid(*self),
            r.is_err() ==> r->Err_0.code == ErrorCode::EINVALID,
    {
        if self.id == 0 {
            return Err(Error::with_text(ErrorCode::EINVALID, "id is required"));
        }
        self.validate()
    }
}

impl Validable for User {
    /// A name and an email are required; a password, where given, is not empty.
    open spec fn is_valid(&self) -> bool {
        &&& self.name@.len() > 0
        &&& self.email@.len() > 0
        &&& password_ok(self.password)
    }

    fn validate(&self) -> (r: Result<(), Error>) {
        if self.name.as_str().is_empty() {
            return Err(Error::with_text(ErrorCode::EINVALID, "name is required"));
        }
        if self.email.as_str().is_empty() {
            return Err(Error::with_text(ErrorCode::EINVALID, "email is required"));
        }
        if let Some(p) = &self.password {
            if p.as_str().is_empty() {
                return Err(
                    Error::with_text(ErrorCode::EINVALID, "password cannot be empty if provided"),
                );
            }
        }
        Ok(())
    }
}

} // verus!
