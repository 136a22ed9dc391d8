//! Issuing and checking signed, time-bounded session tokens.
//!
//! The authority is stateless: it owns a secret and is told the time. Whether
//! a token has been revoked is decided elsewhere, before the token is trusted.

use crate::clock::unix_now;
use crate::error::{AuthError, Fault};
use vstd::prelude::*;

verus! {

/// Seconds for which an issued token stays valid.
pub const TOKEN_LIFETIME: i64 = 3600;

/// What a token states: who it was issued to, when, and until when.
#[derive(Debug, Clone, PartialEq, Eq)]
pub struct Claims {
    pub sub: String,
    pub iat: i64,
    pub exp: i64,
}

/// Mathematical value of [`Claims`].
pub ghost struct ClaimsView {
    pub sub: Seq<char>,
    pub iat: i64,
    pub exp: i64,
}

impl View for Claims {
    type V = ClaimsView;

    open spec fn view(&self) -> ClaimsView {
        ClaimsView { sub: self.sub@, iat: self.iat, exp: self.exp }
    }
}

#[verifier::external_type_specification]
#[verifier::external_body]
pub struct ExSigningError(jsonwebtoken::errors::Error);

/// The token that signing the claims `{sub, exp, iat}` with `secret` yields,
/// or `None` where signing fails.
pub uninterp spec fn signed_token(secret: Seq<char>, sub: Seq<char>, iat: i64, exp: i64) -> Option<
    Seq<char>,
>;

/// What decoding `token` against `secret` yields when expiry is left aside:
/// the claims it carries, or why it carries none.
pub uninterp spec fn token_content(secret: Seq<char>, token: Seq<char>) -> Result<
    ClaimsView,
    AuthError,
>;

/// Signs the claims `{sub, exp, iat}` with `jsonwebtoken::encode`, under the
/// default header (HS256) and a key made of the secret's bytes.
///
/// The result depends on the arguments alone; the contract gives it its name.
#[verifier::external_body]
fn sign_claims(secret: &str, sub: &str, iat: i64, exp: i64) -> (r: Result<
    String,
    jsonwebtoken::errors::Error,
>)
    ensures
        match r {
            Ok(t) => signed_token(secret@, sub@, iat, exp) == Some(t@),
            Err(_) => signed_token(secret@, sub@, iat, exp) is None,
        },
{
    let mut claims = serde_json::Map::new();
    claims.insert("sub".to_owned(), serde_json::Value::from(sub));
    claims.insert("exp".to_owned(), serde_json::Value::from(exp));
    claims.insert("iat".to_owned(), serde_json::Value::from(iat));
    let key = jsonwebtoken::EncodingKey::from_secret(secret.as_bytes());
    jsonwebtoken::encode(&jsonwebtoken::Header::default(), &claims, &key)
}

/// Decodes a token with `jsonwebtoken::decode`, under the default validation
/// (HS256, signature checked, `exp` required) but with the crate's own expiry
/// check switched off, so that the result depends on the arguments alone.
///
/// A signature that does not match is reported as `SignatureInvalid`; every
/// other failure, and claims without a textual `sub` or integral `iat` and
/// `exp`, as `Malformed`.
#[verifier::external_body]
fn decode_claims(secret: &str, token: &str) -> (r: Result<Claims, AuthError>)
    ensures
        match r {
            Ok(c) => token_content(secret@, token@) == Ok::<ClaimsView, AuthError>(c@),
            Err(e) => token_content(secret@, token@) == Err::<ClaimsView, AuthError>(e) && (e
                == AuthError::Malformed || e == AuthError::SignatureInvalid),
        },
{
    let mut rules = jsonwebtoken::Validation::default();
    rules.validate_exp = false;
    let key = jsonwebtoken::DecodingKey::from_secret(secret.as_bytes());
    match jsonwebtoken::decode::<serde_json::Value>(token, &key, &rules) {
        Ok(d) => match (d.claims["sub"].as_str(), d.claims["iat"].as_i64(), d.claims["exp"].as_i64()) {
            (Some(sub), Some(iat), Some(exp)) => Ok(Claims { sub: sub.to_owned(), iat, exp }),
            _ => Err(AuthError::Malformed),
        },
        Err(e) => match e.kind() {
            jsonwebtoken::errors::ErrorKind::InvalidSignature => Err(AuthError::SignatureInvalid),
            _ => Err(AuthError::Malformed),
        },
    }
}

/// The token issued to `subject` at `now`: dated `now`, valid for
/// [`TOKEN_LIFETIME`] seconds.
pub open spec fn issued(secret: Seq<char>, subject: Seq<char>, now: i64) -> Option<Seq<char>>
    recommends
        now + TOKEN_LIFETIME <= i64::MAX,
{
    signed_token(secret, subject, now, (now + TOKEN_LIFETIME) as i64)
}

/// The verdict on a token at `now`, given what decoding it yielded: a token
/// that carries claims is accepted unless its expiry lies before `now`.
pub open spec fn verdict(content: Result<ClaimsView, AuthError>, now: i64) -> Result<
    ClaimsView,
    AuthError,
> {
    match content {
        Ok(claims) => if claims.exp < now {
            Err(AuthError::Expired)
        } else {
            Ok(claims)
        },
        Err(e) => Err(e),
    }
}

/// Whether tokens can be dated at `now` without leaving the range of
/// timestamps.
pub open spec fn datable(now: i64) -> bool {
    now + TOKEN_LIFETIME <= i64::MAX
}

/// Issues and verifies tokens under one secret.
pub struct TokenAuthority {
    secret: String,
}

impl View for TokenAuthority {
    type V = Seq<char>;

    /// The secret under which tokens are signed.
    closed spec fn view(&self) -> Seq<char> {
        self.secret@
    }
}

/// Mathematical value of the outcome of issuing a token.
pub open spec fn issue_outcome(r: Result<String, Fault>) -> Result<Seq<char>, Fault> {
    match r {
        Ok(t) => Ok(t@),
        Err(e) => Err(e),
    }
}

/// Mathematical value of the outcome of verifying a token.
pub open spec fn verify_outcome(r: Result<Claims, AuthError>) -> Result<ClaimsView, AuthError> {
    match r {
        Ok(c) => Ok(c@),
        Err(e) => Err(e),
    }
}

/// The outcome of issuing a token to `subject` when the clock shows `now`:
/// the token issued at `now`, a failure of the signer, or, where no token
/// can be dated at `now`, a failure of the clock.
pub open spec fn issuing_at(secret: Seq<char>, subject: Seq<char>, now: i64) -> Result<
    Seq<char>,
    Fault,
> {
    if !datable(now) {
        Err(Fault::Clock)
    } else {
        match issued(secret, subject, now) {
            Some(t) => Ok(t),
            None => Err(Fault::Signing),
        }
    }
}

impl TokenAuthority {
    /// The authority that signs and verifies with `secret`.
    pub fn new(secret: String) -> (authority: Self)
        ensures
            authority@ == secret@,
    {
        TokenAuthority { secret }
    }

    /// Issues a token to `subject`, dated `now`. Fails where no token can be
    /// dated at `now`, and where the signer fails.
    pub fn issue_at(&self, subject: &str, now: i64) -> (r: Result<String, Fault>)
        ensures
            issue_outcome(r) == issuing_at(self@, subject@, now),
    {
        if now > i64::MAX - TOKEN_LIFETIME {
            return Err(Fault::Clock);
        }
        match sign_claims(self.secret.as_str(), subject, now, now + TOKEN_LIFETIME) {
            Ok(t) => Ok(t),
            Err(_) => Err(Fault::Signing),
        }
    }

    /// Issues a token to `subject`, dated by the clock: whatever time the
    /// clock shows, the outcome is that of [`issuing_at`] at that time.
    pub fn issue(&self, subject: &str) -> (r: Result<String, Fault>)
        ensures
            exists|now: i64| issue_outcome(r) == #[trigger] issuing_at(self@, subject@, now),
    {
        let now = unix_now();
        self.issue_at(subject, now)
    }

    /// Decides whether `token` is acceptable at `now`: it must carry claims
    /// signed with this authority's secret and must not have expired.
    /// Revocation is not consulted.
    pub fn verify_at(&self, token: &str, now: i64) -> (r: Result<Claims, AuthError>)
        ensures
            verify_outcome(r) == verdict(token_content(self@, token@), now),
    {
        match decode_claims(self.secret.as_str(), token) {
            Ok(claims) => {
                if claims.exp < now {
                    Err(AuthError::Expired)
                } else {
                    Ok(claims)
                }
            },
            Err(e) => Err(e),
        }
    }

    /// Decides whether `token` is acceptable at the time the clock shows:
    /// whatever that time is, the outcome is the verdict at that time.
    pub fn verify(&self, token: &str) -> (r: Result<Claims, AuthError>)
        ensures
            exists|now: i64| verify_outcome(r) == #[trigger] verdict(token_content(self@, token@), now),
    {
        let now = unix_now();
        self.verify_at(token, now)
    }
}

} // verus!
