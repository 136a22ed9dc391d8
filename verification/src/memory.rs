//! A store that lives in memory and behaves as the model says.
//!
//! [`MemoryStore`] carries out the service's commands on tables of its own.
//! Its mathematical value is a [`StoreModel`], and every command changes and
//! answers it exactly as the model does. [`play`] serves a whole request on
//! it.

use crate::error::{Fault, ServiceError};
use crate::run::{distance, lemma_resume_gets_closer, phase, run, Chance};
use crate::session::{opened_at, outcome_of, Request, Response, Session, Step, StepView};
use crate::store::{lemma_others_push, others, texts_of, Command, Record, Reply, StoreModel};
use crate::table::Table;
use crate::task::{ChangeEvent, ChangeEventView, Task, User};
use crate::token::TokenAuthority;
use vstd::prelude::*;

verus! {

/// What the store keeps under one key.
pub enum Entry {
    User(User),
    Task(Task),
    /// A marker that is gone from the instant `until` on.
    Marker { until: i128 },
}

impl View for Entry {
    type V = Record;

    open spec fn view(&self) -> Record {
        match self {
            Entry::User(u) => Record::User(u@),
            Entry::Task(t) => Record::Task(t@),
            Entry::Marker { until } => Record::Marker { until: *until as int },
        }
    }
}

/// The views of a list of publications.
pub open spec fn publications_of(v: Seq<(String, ChangeEvent)>) -> Seq<(Seq<char>, ChangeEventView)> {
    v.map_values(|p: (String, ChangeEvent)| (p.0@, p.1@))
}

/// A copy of a list of texts.
fn copy_texts(texts: &Vec<String>) -> (copy: Vec<String>)
    ensures
        texts_of(copy@) == texts_of(texts@),
{
    let mut copy: Vec<String> = Vec::new();
    let mut i: usize = 0;
    while i < texts.len()
        invariant
            i <= texts.len(),
            copy@.len() == i,
            forall|j: int| 0 <= j < i ==> (#[trigger] copy@[j])@ == texts@[j]@,
        decreases texts.len() - i,
    {
        copy.push(texts[i].clone());
        i = i + 1;
    }
    assert(texts_of(copy@) =~= texts_of(texts@));
    copy
}

/// Whether `text` is among `texts`.
fn has_text(texts: &Vec<String>, text: &String) -> (found: bool)
    ensures
        found == texts_of(texts@).contains(text@),
{
    let mut i: usize = 0;
    while i < texts.len()
        invariant
            i <= texts.len(),
            forall|j: int| 0 <= j < i ==> (#[trigger] texts_of(texts@)[j]) != text@,
        decreases texts.len() - i,
    {
        if texts[i] == *text {
            assert(texts_of(texts@)[i as int] == text@);
            return true;
        }
        i = i + 1;
    }
    false
}

/// The texts of `texts` other than `text`, in their order.
fn texts_without(texts: &Vec<String>, text: &String) -> (rest: Vec<String>)
    ensures
        texts_of(rest@) == others(texts_of(texts@), text@),
{
    let ghost all = texts_of(texts@);
    let mut rest: Vec<String> = Vec::new();
    let mut i: usize = 0;
    proof {
        lemma_others_push(Seq::empty(), text@, text@);
        assert(all.take(0) =~= Seq::<Seq<char>>::empty());
        assert(texts_of(rest@) =~= Seq::<Seq<char>>::empty());
    }
    while i < texts.len()
        invariant
            i <= texts.len(),
            all == texts_of(texts@),
            texts_of(rest@) == others(all.take(i as int), text@),
        decreases texts.len() - i,
    {
        let ghost so_far = texts_of(rest@);
        proof {
            lemma_others_push(all.take(i as int), texts@[i as int]@, text@);
            assert(all.take(i + 1) =~= all.take(i as int).push(texts@[i as int]@));
        }
        if texts[i] != *text {
            rest.push(texts[i].clone());
            assert(texts_of(rest@) =~= so_far.push(texts@[i as int]@));
        }
        i = i + 1;
    }
    assert(all.take(texts.len() as int) =~= all);
    rest
}

/// A store in memory.
pub struct MemoryStore {
    records: Table<Entry>,
    sets: Table<Vec<String>>,
    published: Vec<(String, ChangeEvent)>,
}

impl View for MemoryStore {
    type V = StoreModel;

    closed spec fn view(&self) -> StoreModel {
        StoreModel {
            records: self.records.map().map_values(|e: Entry| e@),
            sets: self.sets.map().map_values(|v: Vec<String>| texts_of(v@)),
            published: publications_of(self.published@),
        }
    }
}

impl MemoryStore {
    /// The store with nothing in it.
    pub fn new() -> (store: Self)
        ensures
            store@ == StoreModel::empty(),
    {
        let store = MemoryStore { records: Table::new(), sets: Table::new(), published: Vec::new() };
        proof {
            assert(store@.records =~= Map::<Seq<char>, Record>::empty());
            assert(store@.sets =~= Map::<Seq<char>, Seq<Seq<char>>>::empty());
            assert(store@.published =~= Seq::<(Seq<char>, ChangeEventView)>::empty());
        }
        store
    }

    /// Whether there is an entry under `key` at `now`.
    pub fn holds(&self, key: &String, now: i64) -> (live: bool)
        ensures
            live == self@.holds(key@, now as int),
    {
        match self.records.get(key) {
            Some(Entry::Marker { until }) => (now as i128) < *until,
            Some(_) => true,
            None => false,
        }
    }

    /// The members of the set under `key`, oldest first.
    pub fn members(&self, key: &String) -> (members: Vec<String>)
        ensures
            texts_of(members@) == self@.members(key@),
    {
        match self.sets.get(key) {
            Some(texts) => copy_texts(texts),
            None => {
                let none: Vec<String> = Vec::new();
                assert(texts_of(none@) =~= Seq::<Seq<char>>::empty());
                none
            },
        }
    }

    /// How many events have been published so far.
    pub fn published_count(&self) -> (n: usize)
        ensures
            n == self@.published.len(),
    {
        self.published.len()
    }

    /// The `i`-th publication, counted from 0: the channel and the event.
    /// There is none where fewer events have been published.
    pub fn publication(&self, i: usize) -> (p: Option<(&String, &ChangeEvent)>)
        ensures
            match p {
                Some(p) => i < self@.published.len() && (p.0@, p.1@) == self@.published[i as int],
                None => i >= self@.published.len(),
            },
    {
        if i < self.published.len() {
            Some((&self.published[i].0, &self.published[i].1))
        } else {
            None
        }
    }

    /// Carries out one command at `now` and answers it. A command that is
    /// not for the store is answered as a breach of protocol.
    pub fn execute(&mut self, command: Command, now: i64) -> (reply: Reply)
        ensures
            reply@ == old(self)@.answer(command@, now as int),
            final(self)@ == old(self)@.after(command@, now as int),
    {
        match command {
            Command::Exists { key } => Reply::Found(self.holds(&key, now)),
            Command::LoadUser { key } => {
                if !self.holds(&key, now) {
                    Reply::User(None)
                } else {
                    match self.records.get(&key) {
                        Some(Entry::User(user)) => Reply::User(Some(user.duplicate())),
                        _ => Reply::Broken(Fault::CorruptRecord),
                    }
                }
            },
            Command::LoadTask { key } => {
                if !self.holds(&key, now) {
                    Reply::Task(None)
                } else {
                    match self.records.get(&key) {
                        Some(Entry::Task(task)) => Reply::Task(Some(task.duplicate())),
                        _ => Reply::Broken(Fault::CorruptRecord),
                    }
                }
            },
            Command::SaveUser { key, user } => {
                self.records.put(key, Entry::User(user));
                assert(self@.records =~= old(self)@.records.insert(key@, Record::User(user@)));
                Reply::Done
            },
            Command::SaveTask { key, task } => {
                self.records.put(key, Entry::Task(task));
                assert(self@.records =~= old(self)@.records.insert(key@, Record::Task(task@)));
                Reply::Done
            },
            Command::SaveExpiring { key, ttl } => {
                let until: i128 = now as i128 + ttl as i128;
                self.records.put(key, Entry::Marker { until });
                assert(self@.records =~= old(self)@.records.insert(
                    key@,
                    Record::Marker { until: now + ttl },
                ));
                Reply::Done
            },
            Command::Remove { key } => {
                self.records.remove(&key);
                assert(self@.records =~= old(self)@.records.remove(key@));
                Reply::Done
            },
            Command::AddMember { key, member } => {
                let mut members = self.members(&key);
                if !has_text(&members, &member) {
                    let ghost before = texts_of(members@);
                    members.push(member);
                    assert(texts_of(members@) =~= before.push(member@));
                    self.sets.put(key, members);
                    assert(self@.sets =~= old(self)@.sets.insert(key@, before.push(member@)));
                }
                Reply::Done
            },
            Command::RemoveMember { key, member } => {
                let members = self.members(&key);
                let rest = texts_without(&members, &member);
                self.sets.put(key, rest);
                assert(self@.sets =~= old(self)@.sets.insert(
                    key@,
                    others(old(self)@.members(key@), member@),
                ));
                Reply::Done
            },
            Command::Members { key } => Reply::Members(self.members(&key)),
            Command::Publish { channel, event } => {
                self.published.push((channel, event));
                assert(self@.published =~= old(self)@.published.push((channel@, event@)));
                Reply::Done
            },
            Command::HashPassword { .. } => Reply::Broken(Fault::Protocol),
            Command::FreshId => Reply::Broken(Fault::Protocol),
        }
    }
}

/// What is given to a request in place of chance: the identifier to use
/// where one is drawn, and the hash to use where a password is hashed.
pub struct Lot {
    pub id: u128,
    pub hash: Option<String>,
}

impl View for Lot {
    type V = Chance;

    open spec fn view(&self) -> Chance {
        Chance {
            id: self.id,
            hash: match self.hash {
                Some(h) => Some(h@),
                None => None,
            },
        }
    }
}

impl Lot {
    /// The answer to a command that needs no store.
    pub fn answer(&self, command: &Command) -> (reply: Reply)
        ensures
            reply@ == self@.answer(command@),
    {
        match command {
            Command::HashPassword { .. } => match &self.hash {
                Some(hash) => Reply::Hashed(hash.clone()),
                None => Reply::Broken(Fault::Hashing),
            },
            Command::FreshId => Reply::Id(self.id),
            _ => Reply::Broken(Fault::Protocol),
        }
    }
}

/// Serves `request`, arriving at `now`, on `store`: asks the store what the
/// session asks, takes from `lot` what is left to chance, and returns the
/// request's outcome. The store is left, and the request answered, exactly
/// as the model's run says. At a time at which no token can be dated the
/// request fails for the clock and the store is left alone.
pub fn play(
    store: &mut MemoryStore,
    authority: TokenAuthority,
    now: i64,
    request: Request,
    lot: &Lot,
) -> (outcome: Result<Response, ServiceError>)
    ensures
        (final(store)@, outcome_of(outcome)) == run(
            opened_at(authority@, now, request@),
            old(store)@,
            lot@,
        ),
{
    let ghost goal = run(opened_at(authority@, now, request@), store@, lot@);
    let mut step = Session::start(authority, now, request);
    loop
        invariant
            step@ matches StepView::Ask(s, _) ==> s.now == now,
            run(step@, store@, lot@) == goal,
        ensures
            step is Finish,
            run(step@, store@, lot@) == goal,
        decreases phase(step@), distance(step@),
    {
        match step {
            Step::Finish(outcome) => {
                step = Step::Finish(outcome);
                break ;
            },
            Step::Ask(session, command) => {
                let ghost before = StepView::Ask(session@, command@);
                let reply = if command.is_local() {
                    lot.answer(&command)
                } else {
                    store.execute(command, now)
                };
                proof {
                    lemma_resume_gets_closer(before, reply@);
                }
                step = session.resume(reply);
            },
        }
    }
    match step {
        Step::Finish(outcome) => outcome,
        Step::Ask(_, _) => Err(ServiceError::Infrastructure(Fault::Protocol)),
    }
}

} // verus!
