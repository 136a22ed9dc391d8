//! Password hashes, made and checked with bcrypt.

use crate::error::Fault;
use vstd::prelude::*;

verus! {

#[verifier::external_type_specification]
#[verifier::external_body]
pub struct ExHashError(bcrypt::BcryptError);

/// Whether `password` matches the bcrypt hash `hash`; `None` where `hash` is
/// no bcrypt hash at all.
pub uninterp spec fn password_check(password: Seq<char>, hash: Seq<char>) -> Option<bool>;

/// Hashes a password with `bcrypt::hash` at the crate's default cost.
///
/// The salt is random, so the hash itself is not determined by the password.
/// What is claimed is that the hash matches the password it was made from:
/// `bcrypt::verify` hashes the password again under the salt and cost that
/// the hash records, and compares.
#[verifier::external_body]
fn bcrypt_hash(password: &str) -> (r: Result<String, bcrypt::BcryptError>)
    ensures
        r matches Ok(h) ==> password_check(password@, h@) == Some(true),
{
    bcrypt::hash(password, bcrypt::DEFAULT_COST)
}

/// Checks a password against a hash with `bcrypt::verify`, whose result
/// depends on the two arguments alone; the contract gives it its name.
#[verifier::external_body]
fn bcrypt_verify(password: &str, hash: &str) -> (r: Result<bool, bcrypt::BcryptError>)
    ensures
        match r {
            Ok(b) => password_check(password@, hash@) == Some(b),
            Err(_) => password_check(password@, hash@) is None,
        },
{
    bcrypt::verify(password, hash)
}

/// Hashes `password` for storage. Whatever hash comes back matches the
/// password; a failure of the hasher is reported as `Fault::Hashing`.
pub fn hash_password(password: &str) -> (r: Result<String, Fault>)
    ensures
        match r {
            Ok(h) => password_check(password@, h@) == Some(true),
            Err(e) => e == Fault::Hashing,
        },
{
    match bcrypt_hash(password) {
        Ok(h) => Ok(h),
        Err(_) => Err(Fault::Hashing),
    }
}

/// Tells whether `password` matches the stored `hash`; a stored value that is
/// no bcrypt hash is reported as `Fault::Hashing`.
pub fn password_matches(password: &str, hash: &str) -> (r: Result<bool, Fault>)
    ensures
        match password_check(password@, hash@) {
            Some(b) => r == Ok::<bool, Fault>(b),
            None => r == Err::<bool, Fault>(Fault::Hashing),
        },
{
    match bcrypt_verify(password, hash) {
        Ok(b) => Ok(b),
        Err(_) => Err(Fault::Hashing),
    }
}

} // verus!
