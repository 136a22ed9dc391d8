use tasklist_core::error::{AuthError, Fault};
use tasklist_core::revocation::revocation_ttl;
use tasklist_core::token::{TokenAuthority, TOKEN_LIFETIME};

#[test]
fn issued_token_verifies_with_its_claims() {
    let authority = TokenAuthority::new("s3cret".to_owned());
    let token = authority.issue_at("alice", 1_700_000_000).unwrap();
    let claims = authority.verify_at(&token, 1_700_000_100).unwrap();
    assert_eq!(claims.sub, "alice");
    assert_eq!(claims.iat, 1_700_000_000);
    assert_eq!(claims.exp, 1_700_000_000 + TOKEN_LIFETIME);
}

#[test]
fn token_is_accepted_until_its_expiry_and_not_after() {
    let authority = TokenAuthority::new("s3cret".to_owned());
    let token = authority.issue_at("alice", 1_000).unwrap();
    assert!(authority.verify_at(&token, 4_600).is_ok());
    assert_eq!(authority.verify_at(&token, 4_601), Err(AuthError::Expired));
}

#[test]
fn token_signed_with_another_secret_is_rejected() {
    let ours = TokenAuthority::new("s3cret".to_owned());
    let theirs = TokenAuthority::new("other".to_owned());
    let token = theirs.issue_at("alice", 1_000).unwrap();
    assert_eq!(ours.verify_at(&token, 1_000), Err(AuthError::SignatureInvalid));
}

#[test]
fn text_that_is_no_token_is_malformed() {
    let authority = TokenAuthority::new("s3cret".to_owned());
    assert_eq!(authority.verify_at("not a token", 0), Err(AuthError::Malformed));
    assert_eq!(authority.verify_at("", 0), Err(AuthError::Malformed));
}

#[test]
fn issuing_is_a_function_of_secret_subject_and_time() {
    let authority = TokenAuthority::new("s3cret".to_owned());
    let a = authority.issue_at("alice", 42).unwrap();
    let b = authority.issue_at("alice", 42).unwrap();
    let c = authority.issue_at("alice", 43).unwrap();
    let d = authority.issue_at("bob", 42).unwrap();
    assert_eq!(a, b);
    assert_ne!(a, c);
    assert_ne!(a, d);
}

#[test]
fn clock_dated_token_verifies_now() {
    let authority = TokenAuthority::new("s3cret".to_owned());
    let token: Result<String, Fault> = authority.issue("carol");
    let claims = authority.verify(&token.unwrap()).unwrap();
    assert_eq!(claims.sub, "carol");
    assert_eq!(claims.exp - claims.iat, TOKEN_LIFETIME);
}

#[test]
fn revocation_entry_lives_as_long_as_the_token() {
    assert_eq!(revocation_ttl(4_600, 1_000), Some(3_600));
    assert_eq!(revocation_ttl(1_001, 1_000), Some(1));
    assert_eq!(revocation_ttl(1_000, 1_000), None);
    assert_eq!(revocation_ttl(999, 1_000), None);
    assert_eq!(revocation_ttl(i64::MAX, i64::MIN), Some(u64::MAX));
}
