//! Names of the entries that the service keeps in the shared store.
//!
//! Every kind of entry has a prefix of its own, so entries of different kinds
//! never meet, and a task's key ends in an identifier of fixed width, so the
//! tasks of different owners never meet either.

use crate::ident::{id_text, ID_TEXT_LEN};
use vstd::prelude::*;
use vstd::string::*;

verus! {

/// Key of the record of the user `username`.
pub open spec fn user_key_of(username: Seq<char>) -> Seq<char> {
    "user:"@ + username
}

/// Key of the revocation entry of `token`.
pub open spec fn revocation_key_of(token: Seq<char>) -> Seq<char> {
    "blacklist:"@ + token
}

/// Key of the task of `owner` whose identifier is written `id`.
pub open spec fn task_key_of(owner: Seq<char>, id: Seq<char>) -> Seq<char> {
    "task:"@ + owner + ":"@ + id
}

/// Key of the set of `owner`'s task identifiers.
pub open spec fn index_key_of(owner: Seq<char>) -> Seq<char> {
    "task_ids:"@ + owner
}

/// Name of the channel on which `owner`'s change events are published.
pub open spec fn channel_of(owner: Seq<char>) -> Seq<char> {
    "notifications:"@ + owner
}

pub fn user_key(username: &str) -> (key: String)
    ensures
        key@ == user_key_of(username@),
{
    let mut key = String::from_str("user:");
    key.append(username);
    key
}

pub fn revocation_key(token: &str) -> (key: String)
    ensures
        key@ == revocation_key_of(token@),
{
    let mut key = String::from_str("blacklist:");
    key.append(token);
    key
}

pub fn task_key(owner: &str, id: &str) -> (key: String)
    ensures
        key@ == task_key_of(owner@, id@),
{
    let mut key = String::from_str("task:");
    key.append(owner);
    key.append(":");
    key.append(id);
    key
}

pub fn index_key(owner: &str) -> (key: String)
    ensures
        key@ == index_key_of(owner@),
{
    let mut key = String::from_str("task_ids:");
    key.append(owner);
    key
}

pub fn channel(owner: &str) -> (name: String)
    ensures
        name@ == channel_of(owner@),
{
    let mut name = String::from_str("notifications:");
    name.append(owner);
    name
}

/// Keys of different kinds are different keys, whatever they name.
pub proof fn lemma_kinds_apart(a: Seq<char>, b: Seq<char>, c: Seq<char>)
    ensures
        user_key_of(a) != revocation_key_of(b),
        user_key_of(a) != task_key_of(b, c),
        user_key_of(a) != index_key_of(b),
        revocation_key_of(a) != task_key_of(b, c),
        revocation_key_of(a) != index_key_of(b),
        task_key_of(a, c) != index_key_of(b),
{
    reveal_strlit("user:");
    reveal_strlit("blacklist:");
    reveal_strlit("task:");
    reveal_strlit(":");
    reveal_strlit("task_ids:");
    assert(user_key_of(a)[0] == 'u');
    assert(revocation_key_of(b)[0] == 'b');
    assert(revocation_key_of(a)[0] == 'b');
    assert(task_key_of(b, c)[0] == 't');
    assert(index_key_of(b)[0] == 't');
    assert(task_key_of(a, c)[4] == ':');
    assert(index_key_of(b)[4] == '_');
}

/// A key names its subject: equal keys of one kind name the same thing.
pub proof fn lemma_key_names_subject(a: Seq<char>, b: Seq<char>)
    ensures
        user_key_of(a) == user_key_of(b) ==> a == b,
        revocation_key_of(a) == revocation_key_of(b) ==> a == b,
        index_key_of(a) == index_key_of(b) ==> a == b,
        channel_of(a) == channel_of(b) ==> a == b,
{
    lemma_prefix_cancels("user:"@, a, b);
    lemma_prefix_cancels("blacklist:"@, a, b);
    lemma_prefix_cancels("task_ids:"@, a, b);
    lemma_prefix_cancels("notifications:"@, a, b);
}

/// Two texts that follow the same prefix are equal when the wholes are.
pub proof fn lemma_prefix_cancels(p: Seq<char>, a: Seq<char>, b: Seq<char>)
    ensures
        p + a == p + b ==> a == b,
{
    if p + a == p + b {
        assert((p + a).len() == p.len() + a.len());
        assert((p + b).len() == p.len() + b.len());
        assert forall|i: int| 0 <= i < a.len() implies a[i] == b[i] by {
            assert((p + a)[p.len() + i] == a[i]);
            assert((p + b)[p.len() + i] == b[i]);
        }
        assert(a =~= b);
    }
}

/// Task keys keep owners apart: where the identifiers have the same width,
/// equal keys have the same owner and the same identifier.
pub proof fn lemma_task_key_names_owner(
    owner_a: Seq<char>,
    id_a: Seq<char>,
    owner_b: Seq<char>,
    id_b: Seq<char>,
)
    requires
        id_a.len() == id_b.len(),
        task_key_of(owner_a, id_a) == task_key_of(owner_b, id_b),
    ensures
        owner_a == owner_b,
        id_a == id_b,
{
    reveal_strlit("task:");
    reveal_strlit(":");
    let ka = task_key_of(owner_a, id_a);
    let kb = task_key_of(owner_b, id_b);
    assert(ka.len() == 5 + owner_a.len() + 1 + id_a.len());
    assert(kb.len() == 5 + owner_b.len() + 1 + id_b.len());
    assert(owner_a.len() == owner_b.len());
    assert forall|i: int| 0 <= i < owner_a.len() implies owner_a[i] == owner_b[i] by {
        assert(ka[5 + i] == owner_a[i]);
        assert(kb[5 + i] == owner_b[i]);
    }
    assert(owner_a =~= owner_b);
    assert forall|i: int| 0 <= i < id_a.len() implies id_a[i] == id_b[i] by {
        assert(ka[5 + owner_a.len() + 1 + i] == id_a[i]);
        assert(kb[5 + owner_b.len() + 1 + i] == id_b[i]);
    }
    assert(id_a =~= id_b);
}

/// The tasks of one owner have different keys where their identifiers are
/// written differently.
pub proof fn lemma_task_key_names_task(owner: Seq<char>, a: Seq<char>, b: Seq<char>)
    ensures
        task_key_of(owner, a) == task_key_of(owner, b) ==> a == b,
{
    lemma_prefix_cancels("task:"@ + owner + ":"@, a, b);
}

/// The tasks of different owners live under different keys.
pub proof fn lemma_owners_apart(owner_a: Seq<char>, id_a: u128, owner_b: Seq<char>, id_b: u128)
    requires
        owner_a != owner_b,
    ensures
        task_key_of(owner_a, id_text(id_a)) != task_key_of(owner_b, id_text(id_b)),
{
    assert(id_text(id_a).len() == ID_TEXT_LEN);
    assert(id_text(id_b).len() == ID_TEXT_LEN);
    if task_key_of(owner_a, id_text(id_a)) == task_key_of(owner_b, id_text(id_b)) {
        lemma_task_key_names_owner(owner_a, id_text(id_a), owner_b, id_text(id_b));
    }
}

} // verus!
