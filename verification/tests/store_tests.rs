use tasklist_core::bus;
use tasklist_core::error::Fault;
use tasklist_core::ident::{fresh_task_id, task_id_text};
use tasklist_core::keys::{channel, index_key, revocation_key, task_key, user_key};
use tasklist_core::memory::MemoryStore;
use tasklist_core::password::{hash_password, password_matches};
use tasklist_core::revocation;
use tasklist_core::store::{Command, Reply};
use tasklist_core::table::Table;
use tasklist_core::task::{ChangeEvent, Task, User};

fn task(id: u128) -> Task {
    Task { id, category: "c".to_owned(), text: "t".to_owned(), completed: false, due: None }
}

#[test]
fn keys_follow_the_scheme() {
    assert_eq!(user_key("alice"), "user:alice");
    assert_eq!(revocation_key("abc.def.ghi"), "blacklist:abc.def.ghi");
    assert_eq!(task_key("alice", "1234"), "task:alice:1234");
    assert_eq!(index_key("alice"), "task_ids:alice");
    assert_eq!(channel("alice"), "notifications:alice");
    assert_eq!(user_key(""), "user:");
}

#[test]
fn identifier_is_written_as_a_hyphenated_uuid() {
    assert_eq!(
        task_id_text(0xa1a2a3a4b1b2c1c2d1d2d3d4d5d6d7d8),
        "a1a2a3a4-b1b2-c1c2-d1d2-d3d4d5d6d7d8"
    );
    assert_eq!(task_id_text(0), "00000000-0000-0000-0000-000000000000");
    assert_eq!(task_id_text(u128::MAX), "ffffffff-ffff-ffff-ffff-ffffffffffff");
    assert_eq!(task_id_text(0x0123456789abcdef0123456789abcdef), "01234567-89ab-cdef-0123-456789abcdef");
}

#[test]
fn fresh_identifiers_differ_and_have_the_fixed_width() {
    let a = fresh_task_id();
    let b = fresh_task_id();
    assert_ne!(a, b);
    assert_eq!(task_id_text(a).len(), 36);
    assert_eq!((a >> 76) & 0xf, 4);
}

#[test]
fn hash_matches_its_password_and_no_other() {
    let hash = hash_password("hunter2").unwrap();
    assert_ne!(hash, "hunter2");
    assert_eq!(password_matches("hunter2", &hash), Ok(true));
    assert_eq!(password_matches("hunter3", &hash), Ok(false));
    assert_eq!(password_matches("hunter2", "no hash at all"), Err(Fault::Hashing));
}

#[test]
fn known_bcrypt_hash_is_checked() {
    let hash = "$2a$04$UuTkLRZZ6QofpDOlMz32MuuxEHA43WOemOYHPz6.SjsVsyO1tDU96";
    assert_eq!(password_matches("password", hash), Ok(true));
    assert_eq!(password_matches("Password", hash), Ok(false));
}

#[test]
fn ledger_asks_and_revokes_under_the_token_key() {
    assert_eq!(revocation::check("tok"), Command::Exists { key: "blacklist:tok".to_owned() });
    assert_eq!(
        revocation::revoke("tok", 4_600, 1_000),
        Some(Command::SaveExpiring { key: "blacklist:tok".to_owned(), ttl: 3_600 })
    );
    assert_eq!(revocation::revoke("tok", 1_000, 1_000), None);
    assert_eq!(revocation::revoke("tok", 10, 1_000), None);
}

#[test]
fn bus_publishes_on_the_owner_channel() {
    assert_eq!(
        bus::publish("alice", ChangeEvent::Deleted(5)),
        Command::Publish { channel: "notifications:alice".to_owned(), event: ChangeEvent::Deleted(5) }
    );
    assert_eq!(bus::subscription("alice"), "notifications:alice");
}

#[test]
fn table_keeps_the_latest_value_under_a_key() {
    let mut table: Table<u32> = Table::new();
    let a = "a".to_owned();
    let b = "b".to_owned();
    assert_eq!(table.get(&a), None);
    table.put(a.clone(), 1);
    table.put(b.clone(), 2);
    table.put(a.clone(), 3);
    assert_eq!(table.get(&a), Some(&3));
    assert_eq!(table.get(&b), Some(&2));
    table.remove(&a);
    assert_eq!(table.get(&a), None);
    assert_eq!(table.get(&b), Some(&2));
    table.remove(&a);
    assert_eq!(table.get(&b), Some(&2));
}

#[test]
fn store_reads_back_what_was_written() {
    let mut store = MemoryStore::new();
    let key = "task:alice:x".to_owned();
    assert_eq!(store.execute(Command::Exists { key: key.clone() }, 0), Reply::Found(false));
    assert_eq!(store.execute(Command::LoadTask { key: key.clone() }, 0), Reply::Task(None));
    assert_eq!(store.execute(Command::SaveTask { key: key.clone(), task: task(1) }, 0), Reply::Done);
    assert_eq!(store.execute(Command::Exists { key: key.clone() }, 0), Reply::Found(true));
    assert_eq!(store.execute(Command::LoadTask { key: key.clone() }, 0), Reply::Task(Some(task(1))));
    assert_eq!(
        store.execute(Command::LoadUser { key: key.clone() }, 0),
        Reply::Broken(Fault::CorruptRecord)
    );
    assert_eq!(store.execute(Command::SaveTask { key: key.clone(), task: task(2) }, 0), Reply::Done);
    assert_eq!(store.execute(Command::LoadTask { key: key.clone() }, 0), Reply::Task(Some(task(2))));
    assert_eq!(store.execute(Command::Remove { key: key.clone() }, 0), Reply::Done);
    assert_eq!(store.execute(Command::LoadTask { key }, 0), Reply::Task(None));
}

#[test]
fn store_keeps_user_records() {
    let mut store = MemoryStore::new();
    let key = "user:alice".to_owned();
    let user = User { username: "alice".to_owned(), password_hash: "h".to_owned() };
    assert_eq!(store.execute(Command::LoadUser { key: key.clone() }, 0), Reply::User(None));
    store.execute(Command::SaveUser { key: key.clone(), user: user.clone() }, 0);
    assert_eq!(store.execute(Command::LoadUser { key: key.clone() }, 0), Reply::User(Some(user.clone())));
    assert_eq!(user.duplicate(), user);
    assert_eq!(store.execute(Command::LoadTask { key }, 0), Reply::Broken(Fault::CorruptRecord));
}

#[test]
fn marker_lapses_after_its_time_to_live() {
    let mut store = MemoryStore::new();
    let key = "blacklist:tok".to_owned();
    store.execute(Command::SaveExpiring { key: key.clone(), ttl: 10 }, 100);
    assert!(store.holds(&key, 100));
    assert!(store.holds(&key, 109));
    assert!(!store.holds(&key, 110));
    assert_eq!(store.execute(Command::Exists { key: key.clone() }, 109), Reply::Found(true));
    assert_eq!(store.execute(Command::Exists { key: key.clone() }, 110), Reply::Found(false));
    assert_eq!(store.execute(Command::LoadTask { key: key.clone() }, 110), Reply::Task(None));
    assert_eq!(
        store.execute(Command::LoadTask { key: key.clone() }, 105),
        Reply::Broken(Fault::CorruptRecord)
    );
    store.execute(Command::SaveExpiring { key: key.clone(), ttl: u64::MAX }, i64::MAX);
    assert!(store.holds(&key, i64::MAX));
}

#[test]
fn set_members_come_oldest_first_without_repeats() {
    let mut store = MemoryStore::new();
    let key = "task_ids:alice".to_owned();
    assert_eq!(store.execute(Command::Members { key: key.clone() }, 0), Reply::Members(vec![]));
    for member in ["a", "b", "a", "c"] {
        let command = Command::AddMember { key: key.clone(), member: member.to_owned() };
        assert_eq!(store.execute(command, 0), Reply::Done);
    }
    assert_eq!(store.members(&key), vec!["a".to_owned(), "b".to_owned(), "c".to_owned()]);
    store.execute(Command::RemoveMember { key: key.clone(), member: "b".to_owned() }, 0);
    store.execute(Command::RemoveMember { key: key.clone(), member: "z".to_owned() }, 0);
    assert_eq!(
        store.execute(Command::Members { key: key.clone() }, 0),
        Reply::Members(vec!["a".to_owned(), "c".to_owned()])
    );
    assert_eq!(store.members(&"task_ids:bob".to_owned()), Vec::<String>::new());
}

#[test]
fn publications_are_kept_in_order() {
    let mut store = MemoryStore::new();
    store.execute(bus::publish("alice", ChangeEvent::Created(task(1))), 0);
    store.execute(bus::publish("bob", ChangeEvent::Deleted(2)), 0);
    assert_eq!(store.published_count(), 2);
    assert_eq!(store.publication(0).unwrap(), (&"notifications:alice".to_owned(), &ChangeEvent::Created(task(1))));
    assert_eq!(store.publication(1).unwrap(), (&"notifications:bob".to_owned(), &ChangeEvent::Deleted(2)));
    assert_eq!(store.publication(2), None);
}

#[test]
fn store_answers_local_commands_as_a_breach_of_protocol() {
    let mut store = MemoryStore::new();
    assert_eq!(store.execute(Command::FreshId, 0), Reply::Broken(Fault::Protocol));
    assert_eq!(
        store.execute(Command::HashPassword { password: "pw".to_owned() }, 0),
        Reply::Broken(Fault::Protocol)
    );
    assert!(Command::FreshId.is_local());
    assert!(!Command::Members { key: "k".to_owned() }.is_local());
}
