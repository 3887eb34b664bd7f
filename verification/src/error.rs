//! The domain error taxonomy: absence, conflicts, rejected tokens and
//! codes, and propagated internal failures, each with the HTTP status and
//! message its callers answer with.

use vstd::prelude::*;

verus! {

/// A domain failure.
#[derive(Debug)]
pub enum Error {
    /// The requested user record is absent.
    UserNotFound,
    /// A user with the same unique email already exists.
    UserWithEmailAlreadyExists,
    /// The verification code record is absent.
    VerificationCodeNotFound,
    /// The verification code exists but its window has passed.
    VerificationCodeExpired,
    /// The presented code does not match the stored one.
    WrongVerificationCode,
    /// An update whose existence precondition on the primary key was not
    /// met: the record was absent (perhaps deleted concurrently).
    ConditionFailed,
    /// A presented token whose signature did not verify under the current
    /// key, nor under the retained previous key.
    InvalidSignature,
    /// A token whose signature verified but whose payload could not be
    /// decoded into the expected claims.
    InvalidToken,
    /// A presented token that could not even be parsed structurally.
    MalformedToken,
    /// A store, transport or crypto-primitive failure, propagated uncaught.
    InternalServerError(String),
    /// A custom failure: status code, public message, internal detail.
    Custom(u16, String, String),
}

impl Error {
    /// The HTTP status code and public message for this failure.
    pub fn as_json(&self) -> (r: (u16, String))
        ensures
            r.0 == match self {
                Error::UserNotFound => 404u16,
                Error::UserWithEmailAlreadyExists => 409u16,
                Error::VerificationCodeNotFound => 404u16,
                Error::VerificationCodeExpired => 410u16,
                Error::WrongVerificationCode => 400u16,
                Error::ConditionFailed => 409u16,
                Error::InvalidSignature => 401u16,
                Error::InvalidToken => 401u16,
                Error::MalformedToken => 400u16,
                Error::InternalServerError(_) => 500u16,
                Error::Custom(status, _, _) => *status,
            },
            self matches Error::Custom(_, msg, _) ==> r.1@ == msg@,
    {
        match self {
            Error::UserNotFound => (404, String::from_str("user not found")),
            Error::UserWithEmailAlreadyExists => (
                409,
                String::from_str("user with this email already exists"),
            ),
            Error::VerificationCodeNotFound => (
                404,
                String::from_str("verification-code not found"),
            ),
            Error::VerificationCodeExpired => (
                410,
                String::from_str("the verification-code has expired"),
            ),
            Error::WrongVerificationCode => (400, String::from_str("wrong verification code")),
            Error::ConditionFailed => (
                409,
                String::from_str("the record to update does not exist"),
            ),
            Error::InvalidSignature => (401, String::from_str("invalid token signature")),
            Error::InvalidToken => (401, String::from_str("invalid token")),
            Error::MalformedToken => (400, String::from_str("malformed token")),
            Error::InternalServerError(_) => (
                500,
                String::from_str(
                    "internal server error. We are working on resolving the problem",
                ),
            ),
            Error::Custom(status, msg, _) => (*status, msg.clone()),
        }
    }

    /// The public message alone.
    pub fn message(&self) -> (r: String)
        ensures
            self matches Error::Custom(_, msg, _) ==> r@ == msg@,
    {
        let (_, msg): (u16, String) = self.as_json();
        msg
    }
}

} // verus!
