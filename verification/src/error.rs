//! Outcomes other than success, grouped as the service reports them.

use vstd::prelude::*;

verus! {

/// Why a credential was not accepted.
#[derive(Debug, Clone, Copy, PartialEq, Eq, Structural)]
pub enum AuthError {
    /// The token is not a well-formed signed token.
    Malformed,
    /// The token was not signed with this service's secret.
    SignatureInvalid,
    /// The token's expiry lies before the current time.
    Expired,
    /// The token was revoked before its natural expiry.
    Revoked,
    /// The token names a user that no longer exists.
    UserNotFound,
    /// No user of that name exists, or the password does not match.
    InvalidCredentials,
}

/// What a request looked for and did not find.
#[derive(Debug, Clone, Copy, PartialEq, Eq, Structural)]
pub enum Missing {
    Task,
    User,
}

/// A failure of the machinery under the service, never of the request.
#[derive(Debug, Clone, Copy, PartialEq, Eq, Structural)]
pub enum Fault {
    /// The shared store did not carry out a command.
    StoreUnavailable,
    /// A stored record could not be read back as what it should be.
    CorruptRecord,
    /// A token could not be signed.
    Signing,
    /// A password could not be hashed or a stored hash could not be checked.
    Hashing,
    /// The clock is outside the range in which tokens can be dated.
    Clock,
    /// A reply did not answer the command that was asked.
    Protocol,
}

/// Every way in which a request can fail.
#[derive(Debug, Clone, Copy, PartialEq, Eq, Structural)]
pub enum ServiceError {
    Auth(AuthError),
    NotFound(Missing),
    /// The username is already taken.
    Conflict,
    Infrastructure(Fault),
    /// The request names neither a token nor a username with a password.
    BadRequest,
}

/// What is said to the caller of a credential that was not accepted.
pub open spec fn auth_message_of(e: AuthError) -> Seq<char> {
    match e {
        AuthError::Malformed => "Invalid JWT: malformed token"@,
        AuthError::SignatureInvalid => "Invalid JWT: signature does not match"@,
        AuthError::Expired => "Invalid JWT: token has expired"@,
        AuthError::Revoked => "JWT has been revoked"@,
        AuthError::UserNotFound => "User not found"@,
        AuthError::InvalidCredentials => "Invalid username or password"@,
    }
}

/// What is said to the caller of a fault of the machinery.
pub open spec fn fault_message_of(f: Fault) -> Seq<char> {
    match f {
        Fault::StoreUnavailable => "Store unavailable"@,
        Fault::CorruptRecord => "Stored record is unreadable"@,
        Fault::Signing => "Token could not be signed"@,
        Fault::Hashing => "Password could not be hashed or checked"@,
        Fault::Clock => "Clock is out of range"@,
        Fault::Protocol => "Unexpected reply from the store"@,
    }
}

impl ServiceError {
    /// The message with which the failure is reported.
    pub open spec fn message_of(self) -> Seq<char> {
        match self {
            ServiceError::Auth(e) => auth_message_of(e),
            ServiceError::NotFound(Missing::Task) => "Task not found"@,
            ServiceError::NotFound(Missing::User) => "User not found"@,
            ServiceError::Conflict => "Username already exists"@,
            ServiceError::Infrastructure(f) => fault_message_of(f),
            ServiceError::BadRequest => "Must provide either JWT or username/password"@,
        }
    }

    /// The message with which the failure is reported.
    pub fn message(&self) -> (text: String)
        ensures
            text@ == self.message_of(),
    {
        let text = match self {
            ServiceError::Auth(AuthError::Malformed) => "Invalid JWT: malformed token",
            ServiceError::Auth(AuthError::SignatureInvalid) => "Invalid JWT: signature does not match",
            ServiceError::Auth(AuthError::Expired) => "Invalid JWT: token has expired",
            ServiceError::Auth(AuthError::Revoked) => "JWT has been revoked",
            ServiceError::Auth(AuthError::UserNotFound) => "User not found",
            ServiceError::Auth(AuthError::InvalidCredentials) => "Invalid username or password",
            ServiceError::NotFound(Missing::Task) => "Task not found",
            ServiceError::NotFound(Missing::User) => "User not found",
            ServiceError::Conflict => "Username already exists",
            ServiceError::Infrastructure(Fault::StoreUnavailable) => "Store unavailable",
            ServiceError::Infrastructure(Fault::CorruptRecord) => "Stored record is unreadable",
            ServiceError::Infrastructure(Fault::Signing) => "Token could not be signed",
            ServiceError::Infrastructure(Fault::Hashing) => "Password could not be hashed or checked",
            ServiceError::Infrastructure(Fault::Clock) => "Clock is out of range",
            ServiceError::Infrastructure(Fault::Protocol) => "Unexpected reply from the store",
            ServiceError::BadRequest => "Must provide either JWT or username/password",
        };
        text.to_owned()
    }

    /// The status code under which the failure is reported.
    pub open spec fn status_of(self) -> u16 {
        match self {
            ServiceError::Auth(_) => 401,
            ServiceError::NotFound(_) => 404,
            ServiceError::Conflict => 409,
            ServiceError::Infrastructure(_) => 500,
            ServiceError::BadRequest => 400,
        }
    }

    /// The status code under which the failure is reported.
    pub fn status(&self) -> (code: u16)
        ensures
            code == self.status_of(),
    {
        match self {
            ServiceError::Auth(_) => 401,
            ServiceError::NotFound(_) => 404,
            ServiceError::Conflict => 409,
            ServiceError::Infrastructure(_) => 500,
            ServiceError::BadRequest => 400,
        }
    }
}

} // verus!
