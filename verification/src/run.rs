//! What a request amounts to when its commands are carried out by the store.
//!
//! [`run`] plays a session against the [`StoreModel`]: every command asked is
//! answered as the model answers it and changes the model as it says, until
//! the request is over. [`asked`] lists the commands of the same run, in
//! order. What is left to chance, the hash of a password and the identifier
//! of a new task, is a parameter.

use crate::error::{Fault, ServiceError};
use crate::session::{resume_of, start_of, RequestView, ResponseView, StageView, StepView};
use crate::store::{CommandView, ReplyView, StoreModel};
use vstd::prelude::*;

verus! {

/// What a run leaves to chance: the identifier that is drawn where one is
/// needed, and the hash that is made of a password, if the hasher works.
pub ghost struct Chance {
    pub id: u128,
    pub hash: Option<Seq<char>>,
}

impl Chance {
    /// The answer to a command that needs no store.
    pub open spec fn answer(self, command: CommandView) -> ReplyView {
        match command {
            CommandView::HashPassword { .. } => match self.hash {
                Some(hash) => ReplyView::Hashed(hash),
                None => ReplyView::Broken(Fault::Hashing),
            },
            CommandView::FreshId => ReplyView::Id(self.id),
            _ => ReplyView::Broken(Fault::Protocol),
        }
    }
}

/// A request's outcome.
pub type Outcome = Result<ResponseView, ServiceError>;

/// How far a step is from the end, in the large: a request that has yet to
/// learn how many tasks it will read is further than any that knows.
pub open spec fn phase(step: StepView) -> nat {
    match step {
        StepView::Finish(_) => 0,
        StepView::Ask(s, _) => match s.stage {
            StageView::Gate { .. } => 3,
            StageView::ListIndex { .. } => 2,
            _ => 1,
        },
    }
}

/// How many commands a step may still ask within its phase.
pub open spec fn distance(step: StepView) -> nat {
    match step {
        StepView::Finish(_) => 0,
        StepView::Ask(s, _) => match s.stage {
            StageView::Listing { ids, at, .. } => if at < ids.len() {
                (ids.len() - at) as nat
            } else {
                0
            },
            StageView::RegisterChecked { .. } => 4,
            StageView::RegisterHashed { .. } => 3,
            StageView::CreateId { .. } => 4,
            StageView::CreateSaved { .. } => 3,
            StageView::DeleteFound { .. } => 4,
            StageView::DeleteRemoved { .. } => 3,
            StageView::UpdateLoaded { .. } => 3,
            StageView::Last { .. } => 1,
            _ => 2,
        },
    }
}

/// Every reply brings a session closer to its end.
pub proof fn lemma_resume_gets_closer(step: StepView, reply: ReplyView)
    requires
        step is Ask,
    ensures
        ({
            let next = resume_of(step->Ask_0, reply);
            phase(next) < phase(step) || (phase(next) == phase(step) && distance(next) < distance(
                step,
            ))
        }),
{
}

/// The reply that a step's command gets: from chance where it needs no
/// store, from the store otherwise.
pub open spec fn reply_to(command: CommandView, store: StoreModel, chance: Chance, now: int)
    -> ReplyView {
    if command.is_local() {
        chance.answer(command)
    } else {
        store.answer(command, now)
    }
}

/// The store at the end of the run that begins with `step`, and the
/// request's outcome.
pub open spec fn run(step: StepView, store: StoreModel, chance: Chance) -> (StoreModel, Outcome)
    decreases phase(step), distance(step),
{
    match step {
        StepView::Finish(outcome) => (store, outcome),
        StepView::Ask(s, command) => {
            let reply = reply_to(command, store, chance, s.now as int);
            run(resume_of(s, reply), store.after(command, s.now as int), chance)
        },
    }
}

/// The commands asked in the run that begins with `step`, in order.
pub open spec fn asked(step: StepView, store: StoreModel, chance: Chance) -> Seq<CommandView>
    decreases phase(step), distance(step),
{
    match step {
        StepView::Finish(_) => Seq::empty(),
        StepView::Ask(s, command) => {
            let reply = reply_to(command, store, chance, s.now as int);
            seq![command] + asked(
                resume_of(s, reply),
                store.after(command, s.now as int),
                chance,
            )
        },
    }
}

/// The store after `request`, arriving at `now`, has been served, and the
/// request's outcome.
pub open spec fn serve(
    secret: Seq<char>,
    now: i64,
    request: RequestView,
    store: StoreModel,
    chance: Chance,
) -> (StoreModel, Outcome) {
    run(start_of(secret, now, request), store, chance)
}

/// The commands asked while `request`, arriving at `now`, is served.
pub open spec fn commands(
    secret: Seq<char>,
    now: i64,
    request: RequestView,
    store: StoreModel,
    chance: Chance,
) -> Seq<CommandView> {
    asked(start_of(secret, now, request), store, chance)
}

} // verus!
