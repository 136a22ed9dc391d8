//! The revocation ledger: which tokens are no longer to be trusted.
//!
//! A revoked token is remembered in the shared store under a key of its own,
//! and only until the moment it would have expired by itself, so the ledger
//! never grows without bound. The ledger is consulted before any token is
//! trusted.

use crate::keys::{revocation_key, revocation_key_of};
use crate::store::{Command, CommandView, StoreModel};
use vstd::prelude::*;

verus! {

/// Seconds for which a revocation entry made at `now` has to be kept for a
/// token that expires at `expires_at`; `None` when the token is already dead.
pub open spec fn remaining_lifetime(expires_at: int, now: int) -> Option<int> {
    if expires_at - now > 0 {
        Some(expires_at - now)
    } else {
        None
    }
}

/// Computes the time to live of a revocation entry.
///
/// The difference of two timestamps may exceed `i64`, but always fits `u64`.
pub fn revocation_ttl(expires_at: i64, now: i64) -> (ttl: Option<u64>)
    ensures
        match remaining_lifetime(expires_at as int, now as int) {
            Some(d) => ttl == Some(d as u64) && 0 < d <= u64::MAX,
            None => ttl is None,
        },
{
    if expires_at > now {
        let wide: i128 = expires_at as i128 - now as i128;
        Some(wide as u64)
    } else {
        None
    }
}

/// Whether `token` counts as revoked at `now`.
pub open spec fn is_revoked(store: StoreModel, token: Seq<char>, now: int) -> bool {
    store.holds(revocation_key_of(token), now)
}

/// The command that revokes `token`, if any is needed.
pub open spec fn revocation_of(token: Seq<char>, expires_at: int, now: int) -> Option<CommandView> {
    match remaining_lifetime(expires_at, now) {
        Some(d) => Some(CommandView::SaveExpiring { key: revocation_key_of(token), ttl: d as u64 }),
        None => None,
    }
}

/// The question to the store whether `token` is revoked.
pub fn check(token: &str) -> (command: Command)
    ensures
        command@ == (CommandView::Exists { key: revocation_key_of(token@) }),
{
    Command::Exists { key: revocation_key(token) }
}

/// The command that revokes `token` at `now`: an entry that the store drops
/// when the token, which expires at `expires_at`, would have expired. A
/// token that is already dead needs no entry, and gets none.
pub fn revoke(token: &str, expires_at: i64, now: i64) -> (command: Option<Command>)
    ensures
        match command {
            Some(c) => revocation_of(token@, expires_at as int, now as int) == Some(c@),
            None => revocation_of(token@, expires_at as int, now as int) is None,
        },
{
    match revocation_ttl(expires_at, now) {
        Some(ttl) => Some(Command::SaveExpiring { key: revocation_key(token), ttl }),
        None => None,
    }
}

/// A revocation lasts exactly as long as the token would have: from the
/// moment it is made, the token counts as revoked at every time before its
/// expiry and at none from its expiry on.
pub proof fn law_revocation_lasts_as_long_as_the_token(
    store: StoreModel,
    token: Seq<char>,
    expires_at: i64,
    now: i64,
    later: int,
)
    requires
        now < expires_at,
        now <= later,
    ensures
        revocation_of(token, expires_at as int, now as int) matches Some(command) && (is_revoked(
            store.after(command, now as int),
            token,
            later,
        ) <==> later < expires_at),
{
}

/// A token that has expired is not entered in the ledger.
pub proof fn law_dead_token_needs_no_revocation(token: Seq<char>, expires_at: i64, now: i64)
    requires
        expires_at <= now,
    ensures
        revocation_of(token, expires_at as int, now as int) is None,
{
}

} // verus!
