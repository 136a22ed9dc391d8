//! What the service asks of the shared store, and what the store answers.
//!
//! The service performs no input or output. It hands out one [`Command`] at a
//! time; the caller carries it out and hands back a [`Reply`]. The meaning of
//! the commands is fixed here by a model of the store, [`StoreModel`], against
//! which the service's behaviour is stated.

use crate::error::Fault;
use crate::task::{ChangeEvent, ChangeEventView, Task, TaskView, User, UserView};
use vstd::prelude::*;

verus! {

/// One operation for the caller to carry out.
#[derive(Debug, Clone, PartialEq, Eq)]
pub enum Command {
    /// Is there an entry under `key`?
    Exists { key: String },
    /// Read the user record under `key`.
    LoadUser { key: String },
    /// Read the task record under `key`.
    LoadTask { key: String },
    /// Write a user record under `key`.
    SaveUser { key: String, user: User },
    /// Write a task record under `key`.
    SaveTask { key: String, task: Task },
    /// Write a marker under `key` that the store drops after `ttl` seconds.
    SaveExpiring { key: String, ttl: u64 },
    /// Remove the entry under `key`.
    Remove { key: String },
    /// Add `member` to the set under `key`.
    AddMember { key: String, member: String },
    /// Remove `member` from the set under `key`.
    RemoveMember { key: String, member: String },
    /// List the members of the set under `key`.
    Members { key: String },
    /// Publish `event` on `channel`.
    Publish { channel: String, event: ChangeEvent },
    /// Hash a password for storage. Needs no store.
    HashPassword { password: String },
    /// Draw a fresh task identifier. Needs no store.
    FreshId,
}

/// Mathematical value of a [`Command`].
pub ghost enum CommandView {
    Exists { key: Seq<char> },
    LoadUser { key: Seq<char> },
    LoadTask { key: Seq<char> },
    SaveUser { key: Seq<char>, user: UserView },
    SaveTask { key: Seq<char>, task: TaskView },
    SaveExpiring { key: Seq<char>, ttl: u64 },
    Remove { key: Seq<char> },
    AddMember { key: Seq<char>, member: Seq<char> },
    RemoveMember { key: Seq<char>, member: Seq<char> },
    Members { key: Seq<char> },
    Publish { channel: Seq<char>, event: ChangeEventView },
    HashPassword { password: Seq<char> },
    FreshId,
}

impl View for Command {
    type V = CommandView;

    open spec fn view(&self) -> CommandView {
        match self {
            Command::Exists { key } => CommandView::Exists { key: key@ },
            Command::LoadUser { key } => CommandView::LoadUser { key: key@ },
            Command::LoadTask { key } => CommandView::LoadTask { key: key@ },
            Command::SaveUser { key, user } => CommandView::SaveUser { key: key@, user: user@ },
            Command::SaveTask { key, task } => CommandView::SaveTask { key: key@, task: task@ },
            Command::SaveExpiring { key, ttl } => CommandView::SaveExpiring { key: key@, ttl: *ttl },
            Command::Remove { key } => CommandView::Remove { key: key@ },
            Command::AddMember { key, member } => CommandView::AddMember {
                key: key@,
                member: member@,
            },
            Command::RemoveMember { key, member } => CommandView::RemoveMember {
                key: key@,
                member: member@,
            },
            Command::Members { key } => CommandView::Members { key: key@ },
            Command::Publish { channel, event } => CommandView::Publish {
                channel: channel@,
                event: event@,
            },
            Command::HashPassword { password } => CommandView::HashPassword { password: password@ },
            Command::FreshId => CommandView::FreshId,
        }
    }
}

impl CommandView {
    /// Whether the command is answered without the store.
    pub open spec fn is_local(self) -> bool {
        self is HashPassword || self is FreshId
    }
}

impl Command {
    /// Whether the command is answered without the store.
    pub fn is_local(&self) -> (local: bool)
        ensures
            local == self@.is_local(),
    {
        match self {
            Command::HashPassword { .. } => true,
            Command::FreshId => true,
            _ => false,
        }
    }
}

/// The views of a list of texts.
pub open spec fn texts_of(v: Seq<String>) -> Seq<Seq<char>> {
    v.map_values(|s: String| s@)
}

/// The views of a list of tasks.
pub open spec fn tasks_of(v: Seq<Task>) -> Seq<TaskView> {
    v.map_values(|t: Task| t@)
}

/// The answer to one command.
#[derive(Debug, Clone, PartialEq, Eq)]
pub enum Reply {
    /// Answer to `Exists`.
    Found(bool),
    /// Answer to `LoadUser`: the record, if there is one.
    User(Option<User>),
    /// Answer to `LoadTask`: the record, if there is one.
    Task(Option<Task>),
    /// Answer to `Members`, in no particular order.
    Members(Vec<String>),
    /// Answer to every command that only writes.
    Done,
    /// Answer to `HashPassword`.
    Hashed(String),
    /// Answer to `FreshId`.
    Id(u128),
    /// The command could not be carried out.
    Broken(Fault),
}

/// Mathematical value of a [`Reply`].
pub ghost enum ReplyView {
    Found(bool),
    User(Option<UserView>),
    Task(Option<TaskView>),
    Members(Seq<Seq<char>>),
    Done,
    Hashed(Seq<char>),
    Id(u128),
    Broken(Fault),
}

impl View for Reply {
    type V = ReplyView;

    open spec fn view(&self) -> ReplyView {
        match self {
            Reply::Found(b) => ReplyView::Found(*b),
            Reply::User(u) => ReplyView::User(
                match u {
                    Some(u) => Some(u@),
                    None => None,
                },
            ),
            Reply::Task(t) => ReplyView::Task(
                match t {
                    Some(t) => Some(t@),
                    None => None,
                },
            ),
            Reply::Members(m) => ReplyView::Members(texts_of(m@)),
            Reply::Done => ReplyView::Done,
            Reply::Hashed(h) => ReplyView::Hashed(h@),
            Reply::Id(id) => ReplyView::Id(*id),
            Reply::Broken(f) => ReplyView::Broken(*f),
        }
    }
}

/// What the store holds under one key.
pub ghost enum Record {
    User(UserView),
    Task(TaskView),
    /// A marker that is gone from the instant `until` on.
    Marker { until: int },
}

/// The members other than `member`, in their order.
pub open spec fn others(members: Seq<Seq<char>>, member: Seq<char>) -> Seq<Seq<char>> {
    members.filter(|m: Seq<char>| m != member)
}

/// Taking a member out of a list with one more text at its end.
pub proof fn lemma_others_push(members: Seq<Seq<char>>, last: Seq<char>, member: Seq<char>)
    ensures
        others(members.push(last), member) == if last != member {
            others(members, member).push(last)
        } else {
            others(members, member)
        },
        others(Seq::empty(), member) == Seq::<Seq<char>>::empty(),
{
    reveal(Seq::filter);
    assert(members.push(last).drop_last() =~= members);
}

/// Taking a member out leaves none of it behind and adds nothing.
pub proof fn lemma_others(members: Seq<Seq<char>>, member: Seq<char>)
    ensures
        !others(members, member).contains(member),
        forall|m: Seq<char>| #[trigger]
            others(members, member).contains(m) ==> members.contains(m),
        forall|m: Seq<char>| #[trigger]
            members.contains(m) && m != member ==> others(members, member).contains(m),
    decreases members.len(),
{
    if members.len() == 0 {
        lemma_others_push(members, member, member);
        assert(members =~= Seq::<Seq<char>>::empty());
    } else {
        let front = members.drop_last();
        let last = members.last();
        let rest = others(front, member);
        assert(members =~= front.push(last));
        lemma_others_push(front, last, member);
        lemma_others(front, member);
        let all = others(members, member);
        if all.contains(member) {
            let i = choose|i: int| 0 <= i < all.len() && all[i] == member;
            if i < rest.len() {
                assert(rest[i] == member);
            }
        }
        assert forall|m: Seq<char>| all.contains(m) implies members.contains(m) by {
            let i = choose|i: int| 0 <= i < all.len() && all[i] == m;
            if i < rest.len() {
                assert(rest[i] == m);
                assert(rest.contains(m));
                let k = choose|k: int| 0 <= k < front.len() && front[k] == m;
                assert(members[k] == m);
            } else {
                assert(members[members.len() - 1] == m);
            }
        }
        assert forall|m: Seq<char>| members.contains(m) && m != member implies all.contains(
            m,
        ) by {
            let i = choose|i: int| 0 <= i < members.len() && members[i] == m;
            if i < front.len() {
                assert(front[i] == m);
                assert(rest.contains(m));
                let k = choose|k: int| 0 <= k < rest.len() && rest[k] == m;
                assert(all[k] == m);
            } else {
                assert(all[all.len() - 1] == m);
            }
        }
    }
}

/// A store that never fails: entries by key, sets by key, and everything
/// that was ever published, in order.
pub ghost struct StoreModel {
    pub records: Map<Seq<char>, Record>,
    pub sets: Map<Seq<char>, Seq<Seq<char>>>,
    pub published: Seq<(Seq<char>, ChangeEventView)>,
}

impl StoreModel {
    /// The store with nothing in it.
    pub open spec fn empty() -> StoreModel {
        StoreModel { records: Map::empty(), sets: Map::empty(), published: Seq::empty() }
    }

    /// Whether there is an entry under `key` at `now`: markers lapse, records
    /// stay until removed.
    pub open spec fn holds(self, key: Seq<char>, now: int) -> bool {
        self.records.contains_key(key) && match self.records[key] {
            Record::Marker { until } => now < until,
            _ => true,
        }
    }

    /// The members of the set under `key`, oldest first; a set that was never
    /// written to has none.
    pub open spec fn members(self, key: Seq<char>) -> Seq<Seq<char>> {
        if self.sets.contains_key(key) {
            self.sets[key]
        } else {
            Seq::empty()
        }
    }

    /// The task record under `key`, if one is there.
    pub open spec fn task_at(self, key: Seq<char>) -> Option<TaskView> {
        if self.records.contains_key(key) {
            match self.records[key] {
                Record::Task(t) => Some(t),
                _ => None,
            }
        } else {
            None
        }
    }

    /// What the store answers to `command` at `now`.
    pub open spec fn answer(self, command: CommandView, now: int) -> ReplyView {
        match command {
            CommandView::Exists { key } => ReplyView::Found(self.holds(key, now)),
            CommandView::LoadUser { key } => if !self.holds(key, now) {
                ReplyView::User(None)
            } else {
                match self.records[key] {
                    Record::User(u) => ReplyView::User(Some(u)),
                    _ => ReplyView::Broken(Fault::CorruptRecord),
                }
            },
            CommandView::LoadTask { key } => if !self.holds(key, now) {
                ReplyView::Task(None)
            } else {
                match self.records[key] {
                    Record::Task(t) => ReplyView::Task(Some(t)),
                    _ => ReplyView::Broken(Fault::CorruptRecord),
                }
            },
            CommandView::Members { key } => ReplyView::Members(self.members(key)),
            CommandView::HashPassword { .. } => ReplyView::Broken(Fault::Protocol),
            CommandView::FreshId => ReplyView::Broken(Fault::Protocol),
            _ => ReplyView::Done,
        }
    }

    /// The store after it has carried out `command` at `now`.
    pub open spec fn after(self, command: CommandView, now: int) -> StoreModel {
        match command {
            CommandView::SaveUser { key, user } => StoreModel {
                records: self.records.insert(key, Record::User(user)),
                ..self
            },
            CommandView::SaveTask { key, task } => StoreModel {
                records: self.records.insert(key, Record::Task(task)),
                ..self
            },
            CommandView::SaveExpiring { key, ttl } => StoreModel {
                records: self.records.insert(key, Record::Marker { until: now + ttl }),
                ..self
            },
            CommandView::Remove { key } => StoreModel { records: self.records.remove(key), ..self },
            CommandView::AddMember { key, member } => if self.members(key).contains(member) {
                self
            } else {
                StoreModel { sets: self.sets.insert(key, self.members(key).push(member)), ..self }
            },
            CommandView::RemoveMember { key, member } => StoreModel {
                sets: self.sets.insert(key, others(self.members(key), member)),
                ..self
            },
            CommandView::Publish { channel, event } => StoreModel {
                published: self.published.push((channel, event)),
                ..self
            },
            _ => self,
        }
    }
}

} // verus!
