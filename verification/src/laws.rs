//! What holds of every request, proved from the transitions of the sessions
//! and the model of the store.

use crate::error::{AuthError, Fault, Missing, ServiceError};
use crate::ident::id_text;
use crate::keys::{
    channel_of, index_key_of, lemma_key_names_subject, lemma_kinds_apart, lemma_owners_apart,
    lemma_task_key_names_task, revocation_key_of, task_key_of, user_key_of,
};
use crate::password::password_check;
use crate::revocation::remaining_lifetime;
use crate::run::{asked, commands, distance, phase, reply_to, run, serve, Chance, Outcome};
use crate::session::{
    admitted, listing, resume_of, start_of, PlanView, RequestView, ResponseView, SessionView,
    StageView, StepView,
};
use crate::store::{lemma_others, others, CommandView, Record, ReplyView, StoreModel};
use crate::task::{merged, task_from, ChangeEventView, TaskFieldsView, TaskPatchView, TaskView};
use crate::token::{issued, token_content, verdict, ClaimsView};
use vstd::prelude::*;

verus! {

/// The token that a request presents, if it presents one. A login that
/// carries a token is judged by the token alone.
pub open spec fn token_of(request: RequestView) -> Option<Seq<char>> {
    match request {
        RequestView::Register { .. } => None,
        RequestView::Login { jwt, .. } => jwt,
        RequestView::Logout { jwt } => Some(jwt),
        RequestView::ListTasks { jwt } => Some(jwt),
        RequestView::CreateTask { jwt, .. } => Some(jwt),
        RequestView::GetTask { jwt, .. } => Some(jwt),
        RequestView::UpdateTask { jwt, .. } => Some(jwt),
        RequestView::DeleteTask { jwt, .. } => Some(jwt),
        RequestView::Connect { jwt } => Some(jwt),
    }
}

/// The judgement on a presented token at `now`: a token with a live
/// revocation entry is revoked, whatever it says; any other is judged by the
/// token authority.
pub open spec fn bearer(secret: Seq<char>, token: Seq<char>, store: StoreModel, now: i64) -> Result<
    ClaimsView,
    AuthError,
> {
    if store.holds(revocation_key_of(token), now as int) {
        Err(AuthError::Revoked)
    } else {
        verdict(token_content(secret, token), now)
    }
}

/// A request whose token is not accepted fails with the reason for which it
/// is not, and leaves the store as it was. In particular a revoked token is
/// refused as revoked even where the token authority alone would accept it.
pub proof fn law_unaccepted_token_is_refused(
    secret: Seq<char>,
    now: i64,
    request: RequestView,
    store: StoreModel,
    chance: Chance,
)
    requires
        token_of(request) matches Some(token) && bearer(secret, token, store, now) is Err,
    ensures
        serve(secret, now, request, store, chance) == (
            store,
            Err::<ResponseView, ServiceError>(
                ServiceError::Auth(bearer(secret, token_of(request).unwrap(), store, now)->Err_0),
            ),
        ),
{
    reveal_with_fuel(run, 3);
}

/// A revoked token fails every request that is gated by a token with
/// `Revoked`, whether or not the token would otherwise be acceptable.
pub proof fn law_revoked_token_is_refused(
    secret: Seq<char>,
    now: i64,
    request: RequestView,
    store: StoreModel,
    chance: Chance,
)
    requires
        token_of(request) matches Some(token) && store.holds(
            revocation_key_of(token),
            now as int,
        ),
    ensures
        serve(secret, now, request, store, chance) == (
            store,
            Err::<ResponseView, ServiceError>(ServiceError::Auth(AuthError::Revoked)),
        ),
{
    law_unaccepted_token_is_refused(secret, now, request, store, chance);
}

/// Reading, updating or deleting a task that is not there fails with
/// `NotFound`, whoever asks, and leaves the store as it was.
pub proof fn law_absent_task_is_not_found(
    secret: Seq<char>,
    now: i64,
    jwt: Seq<char>,
    id: u128,
    patch: TaskPatchView,
    store: StoreModel,
    chance: Chance,
)
    requires
        bearer(secret, jwt, store, now) matches Ok(claims) && !store.holds(
            task_key_of(claims.sub, id_text(id)),
            now as int,
        ),
    ensures
        serve(secret, now, RequestView::GetTask { jwt, id }, store, chance) == (
            store,
            Err::<ResponseView, ServiceError>(ServiceError::NotFound(Missing::Task)),
        ),
        serve(secret, now, RequestView::UpdateTask { jwt, id, patch }, store, chance) == (
            store,
            Err::<ResponseView, ServiceError>(ServiceError::NotFound(Missing::Task)),
        ),
        serve(secret, now, RequestView::DeleteTask { jwt, id }, store, chance) == (
            store,
            Err::<ResponseView, ServiceError>(ServiceError::NotFound(Missing::Task)),
        ),
{
    reveal_with_fuel(run, 4);
}

/// A login by token is good for one use. Where it succeeds, presenting the
/// same token again fails with `Revoked` at any later time before the token's
/// own expiry.
pub proof fn law_token_login_is_single_use(
    secret: Seq<char>,
    first: i64,
    second: i64,
    token: Seq<char>,
    username: Option<Seq<char>>,
    password: Option<Seq<char>>,
    store: StoreModel,
    chance: Chance,
)
    requires
        first <= second,
        serve(
            secret,
            first,
            RequestView::Login { username, password, jwt: Some(token) },
            store,
            chance,
        ).1 is Ok,
        token_content(secret, token) matches Ok(claims) && second < claims.exp,
    ensures
        ({
            let request = RequestView::Login { username, password, jwt: Some(token) };
            let after = serve(secret, first, request, store, chance).0;
            serve(secret, second, request, after, chance) == (
                after,
                Err::<ResponseView, ServiceError>(ServiceError::Auth(AuthError::Revoked)),
            )
        }),
{
    reveal_with_fuel(run, 5);
    let request = RequestView::Login { username, password, jwt: Some(token) };
    let claims = token_content(secret, token)->Ok_0;
    let after = serve(secret, first, request, store, chance).0;
    let d = claims.exp - first;
    assert(remaining_lifetime(claims.exp as int, first as int) == Some(d));
    assert(after.holds(revocation_key_of(token), second as int));
    law_revoked_token_is_refused(secret, second, request, after, chance);
}

/// Logging out revokes the token: after a logout that succeeded, every
/// request that presents the token fails with `Revoked` at any later time
/// before the token's own expiry.
pub proof fn law_logout_revokes(
    secret: Seq<char>,
    first: i64,
    second: i64,
    token: Seq<char>,
    request: RequestView,
    store: StoreModel,
    chance: Chance,
)
    requires
        first <= second,
        serve(secret, first, RequestView::Logout { jwt: token }, store, chance).1 is Ok,
        token_content(secret, token) matches Ok(claims) && second < claims.exp,
        token_of(request) == Some(token),
    ensures
        ({
            let after = serve(secret, first, RequestView::Logout { jwt: token }, store, chance).0;
            serve(secret, second, request, after, chance) == (
                after,
                Err::<ResponseView, ServiceError>(ServiceError::Auth(AuthError::Revoked)),
            )
        }),
{
    reveal_with_fuel(run, 4);
    let claims = token_content(secret, token)->Ok_0;
    let after = serve(secret, first, RequestView::Logout { jwt: token }, store, chance).0;
    let d = claims.exp - first;
    assert(remaining_lifetime(claims.exp as int, first as int) == Some(d));
    assert(after.holds(revocation_key_of(token), second as int));
    law_revoked_token_is_refused(secret, second, request, after, chance);
}

/// Whoever registers can log in: after a registration that found the name
/// free, a login with the same name and password succeeds, and the token it
/// returns is the one issued to that name.
///
/// This holds where the hasher and the signer work: the hash made of the
/// password matches it, and tokens for the name can be signed.
pub proof fn law_register_then_login(
    secret: Seq<char>,
    first: i64,
    second: i64,
    username: Seq<char>,
    password: Seq<char>,
    store: StoreModel,
    chance: Chance,
)
    requires
        !store.holds(user_key_of(username), first as int),
        chance.hash matches Some(hash) && password_check(password, hash) == Some(true),
        issued(secret, username, first) is Some,
        issued(secret, username, second) is Some,
    ensures
        ({
            let (after, registered) = serve(
                secret,
                first,
                RequestView::Register { username, password },
                store,
                chance,
            );
            let login = RequestView::Login {
                username: Some(username),
                password: Some(password),
                jwt: None,
            };
            &&& registered == Ok::<ResponseView, ServiceError>(
                ResponseView::Registered { jwt: issued(secret, username, first).unwrap() },
            )
            &&& serve(secret, second, login, after, chance) == (
                after,
                Ok::<ResponseView, ServiceError>(
                    ResponseView::LoggedIn {
                        jwt: issued(secret, username, second).unwrap(),
                        username,
                    },
                ),
            )
        }),
{
    reveal_with_fuel(run, 5);
}

/// A name that is taken cannot be registered again.
pub proof fn law_taken_name_is_a_conflict(
    secret: Seq<char>,
    now: i64,
    username: Seq<char>,
    password: Seq<char>,
    store: StoreModel,
    chance: Chance,
)
    requires
        store.holds(user_key_of(username), now as int),
    ensures
        serve(secret, now, RequestView::Register { username, password }, store, chance) == (
            store,
            Err::<ResponseView, ServiceError>(ServiceError::Conflict),
        ),
{
    reveal_with_fuel(run, 3);
}

/// Creating a task writes its record, enters it in the owner's index and
/// then publishes exactly one event, on the owner's channel; nothing else is
/// asked of the store. The owner is the subject of the token and nothing
/// else.
pub proof fn law_create_publishes_once(
    secret: Seq<char>,
    now: i64,
    jwt: Seq<char>,
    fields: TaskFieldsView,
    store: StoreModel,
    chance: Chance,
)
    requires
        bearer(secret, jwt, store, now) is Ok,
    ensures
        ({
            let owner = bearer(secret, jwt, store, now)->Ok_0.sub;
            let task = task_from(chance.id, fields);
            let key = task_key_of(owner, id_text(chance.id));
            let event = ChangeEventView::Created(task);
            let request = RequestView::CreateTask { jwt, fields };
            let (after, outcome) = serve(secret, now, request, store, chance);
            &&& outcome == Ok::<ResponseView, ServiceError>(ResponseView::Created(task))
            &&& commands(secret, now, request, store, chance) == seq![
                CommandView::Exists { key: revocation_key_of(jwt) },
                CommandView::FreshId,
                CommandView::SaveTask { key, task },
                CommandView::AddMember { key: index_key_of(owner), member: id_text(chance.id) },
                CommandView::Publish { channel: channel_of(owner), event },
            ]
            &&& after.published == store.published.push((channel_of(owner), event))
            &&& after.records == store.records.insert(key, Record::Task(task))
            &&& after.sets == if store.members(index_key_of(owner)).contains(id_text(chance.id)) {
                store.sets
            } else {
                store.sets.insert(
                    index_key_of(owner),
                    store.members(index_key_of(owner)).push(id_text(chance.id)),
                )
            }
            &&& after.task_at(key) == Some(task)
            &&& after.members(index_key_of(owner)).contains(id_text(chance.id))
        }),
{
    reveal_with_fuel(run, 7);
    reveal_with_fuel(asked, 7);
    let owner = bearer(secret, jwt, store, now)->Ok_0.sub;
    let task = task_from(chance.id, fields);
    let key = task_key_of(owner, id_text(chance.id));
    let event = ChangeEventView::Created(task);
    let request = RequestView::CreateTask { jwt, fields };
    let expected = seq![
        CommandView::Exists { key: revocation_key_of(jwt) },
        CommandView::FreshId,
        CommandView::SaveTask { key, task },
        CommandView::AddMember { key: index_key_of(owner), member: id_text(chance.id) },
        CommandView::Publish { channel: channel_of(owner), event },
    ];
    assert(commands(secret, now, request, store, chance) =~= expected);
    let members = store.members(index_key_of(owner));
    assert(members.push(id_text(chance.id)).last() == id_text(chance.id));
}

/// Updating a task that is there writes the merged record under the same
/// key and then publishes exactly one event, on the owner's channel; the
/// record returned is the stored one with the named fields replaced.
pub proof fn law_update_publishes_once(
    secret: Seq<char>,
    now: i64,
    jwt: Seq<char>,
    id: u128,
    patch: TaskPatchView,
    store: StoreModel,
    chance: Chance,
)
    requires
        bearer(secret, jwt, store, now) matches Ok(claims) && store.task_at(
            task_key_of(claims.sub, id_text(id)),
        ) is Some,
    ensures
        ({
            let owner = bearer(secret, jwt, store, now)->Ok_0.sub;
            let key = task_key_of(owner, id_text(id));
            let task = merged(store.task_at(key).unwrap(), patch);
            let event = ChangeEventView::Updated(task);
            let request = RequestView::UpdateTask { jwt, id, patch };
            let (after, outcome) = serve(secret, now, request, store, chance);
            &&& outcome == Ok::<ResponseView, ServiceError>(ResponseView::Updated(task))
            &&& commands(secret, now, request, store, chance) == seq![
                CommandView::Exists { key: revocation_key_of(jwt) },
                CommandView::LoadTask { key },
                CommandView::SaveTask { key, task },
                CommandView::Publish { channel: channel_of(owner), event },
            ]
            &&& after.published == store.published.push((channel_of(owner), event))
            &&& after.records == store.records.insert(key, Record::Task(task))
            &&& after.task_at(key) == Some(task)
            &&& after.sets == store.sets
        }),
{
    reveal_with_fuel(run, 6);
    reveal_with_fuel(asked, 6);
    let owner = bearer(secret, jwt, store, now)->Ok_0.sub;
    let key = task_key_of(owner, id_text(id));
    let task = merged(store.task_at(key).unwrap(), patch);
    let event = ChangeEventView::Updated(task);
    let request = RequestView::UpdateTask { jwt, id, patch };
    let expected = seq![
        CommandView::Exists { key: revocation_key_of(jwt) },
        CommandView::LoadTask { key },
        CommandView::SaveTask { key, task },
        CommandView::Publish { channel: channel_of(owner), event },
    ];
    assert(commands(secret, now, request, store, chance) =~= expected);
}

/// Deleting a task that is there removes its record, takes it out of the
/// owner's index and then publishes exactly one event, on the owner's
/// channel.
pub proof fn law_delete_publishes_once(
    secret: Seq<char>,
    now: i64,
    jwt: Seq<char>,
    id: u128,
    store: StoreModel,
    chance: Chance,
)
    requires
        bearer(secret, jwt, store, now) matches Ok(claims) && store.holds(
            task_key_of(claims.sub, id_text(id)),
            now as int,
        ),
    ensures
        ({
            let owner = bearer(secret, jwt, store, now)->Ok_0.sub;
            let key = task_key_of(owner, id_text(id));
            let event = ChangeEventView::Deleted(id);
            let request = RequestView::DeleteTask { jwt, id };
            let (after, outcome) = serve(secret, now, request, store, chance);
            &&& outcome == Ok::<ResponseView, ServiceError>(ResponseView::Deleted(id))
            &&& commands(secret, now, request, store, chance) == seq![
                CommandView::Exists { key: revocation_key_of(jwt) },
                CommandView::Exists { key },
                CommandView::Remove { key },
                CommandView::RemoveMember { key: index_key_of(owner), member: id_text(id) },
                CommandView::Publish { channel: channel_of(owner), event },
            ]
            &&& after.published == store.published.push((channel_of(owner), event))
            &&& after.records == store.records.remove(key)
            &&& after.sets == store.sets.insert(
                index_key_of(owner),
                others(store.members(index_key_of(owner)), id_text(id)),
            )
            &&& after.task_at(key) is None
            &&& !after.members(index_key_of(owner)).contains(id_text(id))
        }),
{
    reveal_with_fuel(run, 7);
    reveal_with_fuel(asked, 7);
    let owner = bearer(secret, jwt, store, now)->Ok_0.sub;
    let key = task_key_of(owner, id_text(id));
    let event = ChangeEventView::Deleted(id);
    let request = RequestView::DeleteTask { jwt, id };
    let expected = seq![
        CommandView::Exists { key: revocation_key_of(jwt) },
        CommandView::Exists { key },
        CommandView::Remove { key },
        CommandView::RemoveMember { key: index_key_of(owner), member: id_text(id) },
        CommandView::Publish { channel: channel_of(owner), event },
    ];
    assert(commands(secret, now, request, store, chance) =~= expected);
    lemma_others(store.members(index_key_of(owner)), id_text(id));
}

/// The tasks that a listing gathers when it reads the records filed under
/// `ids[at..]` for `owner` and adds them to `found`: a member without a
/// record is passed over, and one whose record is no task spoils the whole
/// listing (`None`).
pub open spec fn gathered(
    store: StoreModel,
    owner: Seq<char>,
    ids: Seq<Seq<char>>,
    at: int,
    found: Seq<TaskView>,
    now: int,
) -> Option<Seq<TaskView>>
    decreases ids.len() - at,
{
    if 0 <= at < ids.len() {
        match store.answer(CommandView::LoadTask { key: task_key_of(owner, ids[at]) }, now) {
            ReplyView::Task(Some(task)) => gathered(
                store,
                owner,
                ids,
                at + 1,
                found.push(task),
                now,
            ),
            ReplyView::Task(None) => gathered(store, owner, ids, at + 1, found, now),
            _ => None,
        }
    } else {
        Some(found)
    }
}

/// The outcome of a listing that gathered `tasks`.
pub open spec fn listed(tasks: Option<Seq<TaskView>>) -> Outcome {
    match tasks {
        Some(tasks) => Ok(ResponseView::Tasks(tasks)),
        None => Err(ServiceError::Infrastructure(Fault::CorruptRecord)),
    }
}

/// A listing in progress ends with what it gathers, and writes nothing.
pub proof fn lemma_listing_gathers(
    s: SessionView,
    owner: Seq<char>,
    ids: Seq<Seq<char>>,
    at: int,
    found: Seq<TaskView>,
    store: StoreModel,
    chance: Chance,
)
    requires
        0 <= at,
    ensures
        run(listing(s, owner, ids, at, found), store, chance) == (
            store,
            listed(gathered(store, owner, ids, at, found, s.now as int)),
        ),
    decreases ids.len() - at,
{
    reveal_with_fuel(run, 2);
    if at < ids.len() {
        let command = CommandView::LoadTask { key: task_key_of(owner, ids[at]) };
        let here = s.at(StageView::Listing { owner, ids, at, found });
        assert(listing(s, owner, ids, at, found) == StepView::Ask(here, command));
        let reply = reply_to(command, store, chance, s.now as int);
        assert(store.after(command, s.now as int) == store);
        match reply {
            ReplyView::Task(Some(task)) => {
                assert(resume_of(here, reply) == listing(
                    here,
                    owner,
                    ids,
                    at + 1,
                    found.push(task),
                ));
                assert(listing(here, owner, ids, at + 1, found.push(task)) == listing(
                    s,
                    owner,
                    ids,
                    at + 1,
                    found.push(task),
                ));
                lemma_listing_gathers(s, owner, ids, at + 1, found.push(task), store, chance);
            },
            ReplyView::Task(None) => {
                assert(resume_of(here, reply) == listing(here, owner, ids, at + 1, found));
                assert(listing(here, owner, ids, at + 1, found) == listing(
                    s,
                    owner,
                    ids,
                    at + 1,
                    found,
                ));
                lemma_listing_gathers(s, owner, ids, at + 1, found, store, chance);
            },
            _ => {},
        }
    }
}

/// What a listing gathers begins with what it had, holds every task filed
/// under a member it reads, and holds nothing else.
pub proof fn lemma_gathered_is_what_is_filed(
    store: StoreModel,
    owner: Seq<char>,
    ids: Seq<Seq<char>>,
    at: int,
    found: Seq<TaskView>,
    now: int,
)
    requires
        0 <= at,
        gathered(store, owner, ids, at, found, now) is Some,
    ensures
        ({
            let all = gathered(store, owner, ids, at, found, now).unwrap();
            &&& found.len() <= all.len()
            &&& forall|j: int| 0 <= j < found.len() ==> all[j] == found[j]
            &&& forall|i: int|
                at <= i < ids.len() && store.holds(task_key_of(owner, ids[i]), now) ==> all.contains(
                    #[trigger] store.task_at(task_key_of(owner, ids[i])).unwrap(),
                )
            &&& forall|j: int|
                found.len() <= j < all.len() ==> exists|i: int|
                    at <= i < ids.len() && #[trigger] store.task_at(task_key_of(owner, ids[i]))
                        == Some(#[trigger] all[j])
        }),
    decreases ids.len() - at,
{
    let all = gathered(store, owner, ids, at, found, now).unwrap();
    if at < ids.len() {
        let key = task_key_of(owner, ids[at]);
        let reply = store.answer(CommandView::LoadTask { key }, now);
        match reply {
            ReplyView::Task(Some(task)) => {
                let more = found.push(task);
                lemma_gathered_is_what_is_filed(store, owner, ids, at + 1, more, now);
                assert(all[found.len() as int] == more[found.len() as int]);
                assert forall|j: int| 0 <= j < found.len() implies all[j] == found[j] by {
                    assert(more[j] == found[j]);
                }
                assert forall|i: int|
                    at <= i < ids.len() && store.holds(
                        task_key_of(owner, ids[i]),
                        now,
                    ) implies all.contains(
                    #[trigger] store.task_at(task_key_of(owner, ids[i])).unwrap(),
                ) by {
                    if i == at {
                        assert(all[found.len() as int] == task);
                    }
                }
                assert forall|j: int| found.len() <= j < all.len() implies exists|i: int|
                    at <= i < ids.len() && #[trigger] store.task_at(task_key_of(owner, ids[i]))
                        == Some(#[trigger] all[j]) by {
                    if j == found.len() {
                        assert(store.task_at(task_key_of(owner, ids[at])) == Some(all[j]));
                    } else {
                        let i = choose|i: int|
                            at + 1 <= i < ids.len() && #[trigger] store.task_at(
                                task_key_of(owner, ids[i]),
                            ) == Some(all[j]);
                        assert(at <= i < ids.len());
                    }
                }
            },
            ReplyView::Task(None) => {
                lemma_gathered_is_what_is_filed(store, owner, ids, at + 1, found, now);
                assert forall|j: int| found.len() <= j < all.len() implies exists|i: int|
                    at <= i < ids.len() && #[trigger] store.task_at(task_key_of(owner, ids[i]))
                        == Some(#[trigger] all[j]) by {
                    let i = choose|i: int|
                        at + 1 <= i < ids.len() && #[trigger] store.task_at(
                            task_key_of(owner, ids[i]),
                        ) == Some(all[j]);
                    assert(at <= i < ids.len());
                }
            },
            _ => {},
        }
    }
}

/// Listing reads the owner's index and then the record of each member; it
/// returns the tasks it finds, in the index's order, and writes nothing.
pub proof fn law_list_reads_the_index(
    secret: Seq<char>,
    now: i64,
    jwt: Seq<char>,
    store: StoreModel,
    chance: Chance,
)
    requires
        bearer(secret, jwt, store, now) is Ok,
    ensures
        ({
            let owner = bearer(secret, jwt, store, now)->Ok_0.sub;
            let ids = store.members(index_key_of(owner));
            serve(secret, now, RequestView::ListTasks { jwt }, store, chance) == (
                store,
                listed(gathered(store, owner, ids, 0, Seq::empty(), now as int)),
            )
        }),
{
    reveal_with_fuel(run, 3);
    let claims = bearer(secret, jwt, store, now)->Ok_0;
    let owner = claims.sub;
    let ids = store.members(index_key_of(owner));
    let s0 = SessionView { secret, now, stage: StageView::Gate { token: jwt, plan: PlanView::List } };
    let s1 = s0.at(StageView::ListIndex { owner });
    assert(listing(s1, owner, ids, 0, Seq::empty()) == listing(s0, owner, ids, 0, Seq::empty()));
    lemma_listing_gathers(s0, owner, ids, 0, Seq::empty(), store, chance);
    lemma_listing_gathers(s1, owner, ids, 0, Seq::empty(), store, chance);
}

/// A task that was created is listed: whenever its owner's tasks are listed
/// on the store as the creation left it, the list holds the task. Where the
/// owner had no task before, the list holds exactly that one.
pub proof fn law_created_task_is_listed(
    secret: Seq<char>,
    now: i64,
    jwt: Seq<char>,
    fields: TaskFieldsView,
    later: i64,
    other_jwt: Seq<char>,
    store: StoreModel,
    chance: Chance,
)
    requires
        bearer(secret, jwt, store, now) is Ok,
        ({
            let after = serve(
                secret,
                now,
                RequestView::CreateTask { jwt, fields },
                store,
                chance,
            ).0;
            bearer(secret, other_jwt, after, later) matches Ok(claims) && claims.sub == bearer(
                secret,
                jwt,
                store,
                now,
            )->Ok_0.sub
        }),
    ensures
        ({
            let owner = bearer(secret, jwt, store, now)->Ok_0.sub;
            let task = task_from(chance.id, fields);
            let after = serve(
                secret,
                now,
                RequestView::CreateTask { jwt, fields },
                store,
                chance,
            ).0;
            let list = serve(
                secret,
                later,
                RequestView::ListTasks { jwt: other_jwt },
                after,
                chance,
            );
            &&& list.0 == after
            &&& list.1 matches Ok(ResponseView::Tasks(tasks)) ==> tasks.contains(task)
            &&& store.members(index_key_of(owner)).len() == 0 ==> list.1 == Ok::<
                ResponseView,
                ServiceError,
            >(ResponseView::Tasks(seq![task]))
        }),
{
    let owner = bearer(secret, jwt, store, now)->Ok_0.sub;
    let task = task_from(chance.id, fields);
    let member = id_text(chance.id);
    let key = task_key_of(owner, member);
    let after = serve(secret, now, RequestView::CreateTask { jwt, fields }, store, chance).0;
    law_create_publishes_once(secret, now, jwt, fields, store, chance);
    law_list_reads_the_index(secret, later, other_jwt, after, chance);
    let ids = after.members(index_key_of(owner));
    let got = gathered(after, owner, ids, 0, Seq::empty(), later as int);
    let i = choose|i: int| 0 <= i < ids.len() && ids[i] == member;
    assert(after.holds(key, later as int));
    if got is Some {
        lemma_gathered_is_what_is_filed(after, owner, ids, 0, Seq::empty(), later as int);
        assert(after.task_at(task_key_of(owner, ids[i])).unwrap() == task);
    }
    if store.members(index_key_of(owner)).len() == 0 {
        reveal_with_fuel(run, 7);
        assert(store.members(index_key_of(owner)) =~= Seq::<Seq<char>>::empty());
        assert(ids =~= seq![member]);
        reveal_with_fuel(gathered, 3);
        assert(Seq::<TaskView>::empty().push(task) =~= seq![task]);
    }
}

/// Whether every task that `owner`'s index leads to is filed under its own
/// identifier.
pub open spec fn filed(store: StoreModel, owner: Seq<char>) -> bool {
    forall|i: int|
        0 <= i < store.members(index_key_of(owner)).len() ==> (#[trigger] store.task_at(
            task_key_of(owner, store.members(index_key_of(owner))[i]),
        ) matches Some(task) ==> store.members(index_key_of(owner))[i] == id_text(task.id))
}

/// A task that was deleted is listed no more: whenever its owner's tasks
/// are listed on the store as the deletion left it, no task of the list has
/// the deleted identifier. This is stated of stores whose tasks are filed
/// under their own identifiers.
pub proof fn law_deleted_task_is_not_listed(
    secret: Seq<char>,
    now: i64,
    jwt: Seq<char>,
    id: u128,
    later: i64,
    other_jwt: Seq<char>,
    store: StoreModel,
    chance: Chance,
)
    requires
        bearer(secret, jwt, store, now) matches Ok(claims) && store.holds(
            task_key_of(claims.sub, id_text(id)),
            now as int,
        ) && filed(store, claims.sub),
        ({
            let after = serve(secret, now, RequestView::DeleteTask { jwt, id }, store, chance).0;
            bearer(secret, other_jwt, after, later) matches Ok(claims) && claims.sub == bearer(
                secret,
                jwt,
                store,
                now,
            )->Ok_0.sub
        }),
    ensures
        ({
            let after = serve(secret, now, RequestView::DeleteTask { jwt, id }, store, chance).0;
            let list = serve(
                secret,
                later,
                RequestView::ListTasks { jwt: other_jwt },
                after,
                chance,
            );
            &&& list.0 == after
            &&& list.1 matches Ok(ResponseView::Tasks(tasks)) ==> forall|j: int|
                0 <= j < tasks.len() ==> (#[trigger] tasks[j]).id != id
        }),
{
    let owner = bearer(secret, jwt, store, now)->Ok_0.sub;
    let member = id_text(id);
    let key = task_key_of(owner, member);
    let after = serve(secret, now, RequestView::DeleteTask { jwt, id }, store, chance).0;
    law_delete_publishes_once(secret, now, jwt, id, store, chance);
    law_list_reads_the_index(secret, later, other_jwt, after, chance);
    let before_ids = store.members(index_key_of(owner));
    let ids = after.members(index_key_of(owner));
    assert(ids == others(before_ids, member));
    lemma_others(before_ids, member);
    assert(after.records == store.records.remove(key));
    let got = gathered(after, owner, ids, 0, Seq::empty(), later as int);
    if got is Some {
        let tasks = got.unwrap();
        lemma_gathered_is_what_is_filed(after, owner, ids, 0, Seq::empty(), later as int);
        assert forall|j: int| 0 <= j < tasks.len() implies (#[trigger] tasks[j]).id != id by {
            let i = choose|i: int|
                0 <= i < ids.len() && #[trigger] after.task_at(task_key_of(owner, ids[i])) == Some(
                    tasks[j],
                );
            assert(ids.contains(ids[i]));
            let k = choose|k: int| 0 <= k < before_ids.len() && before_ids[k] == ids[i];
            assert(store.task_at(task_key_of(owner, before_ids[k])) == Some(tasks[j]));
            assert(before_ids[k] == id_text(tasks[j].id));
        }
    }
}

/// Whether a command stays within what belongs to `owner`: the owner's task
/// records, index and channel. Drawing an identifier touches nothing.
pub open spec fn within(command: CommandView, owner: Seq<char>) -> bool {
    match command {
        CommandView::Exists { key } => exists|m: Seq<char>| key == task_key_of(owner, m),
        CommandView::LoadTask { key } => exists|m: Seq<char>| key == task_key_of(owner, m),
        CommandView::SaveTask { key, .. } => exists|m: Seq<char>| key == task_key_of(owner, m),
        CommandView::Remove { key } => exists|m: Seq<char>| key == task_key_of(owner, m),
        CommandView::AddMember { key, .. } => key == index_key_of(owner),
        CommandView::RemoveMember { key, .. } => key == index_key_of(owner),
        CommandView::Members { key } => key == index_key_of(owner),
        CommandView::Publish { channel, .. } => channel == channel_of(owner),
        CommandView::FreshId => true,
        _ => false,
    }
}

/// Whether a step acts for `owner` and no one else: it is the end, or it
/// asks a command within what belongs to `owner` from a stage that remembers
/// `owner` as the one it acts for, or that has only an answer left to give.
pub open spec fn acts_for(step: StepView, owner: Seq<char>) -> bool {
    match step {
        StepView::Finish(_) => true,
        StepView::Ask(s, command) => within(command, owner) && match s.stage {
            StageView::ListIndex { owner: o } => o == owner,
            StageView::Listing { owner: o, .. } => o == owner,
            StageView::CreateId { owner: o, .. } => o == owner,
            StageView::CreateSaved { owner: o, .. } => o == owner,
            StageView::CreateIndexed { owner: o, .. } => o == owner,
            StageView::UpdateLoaded { owner: o, .. } => o == owner,
            StageView::UpdateSaved { owner: o, .. } => o == owner,
            StageView::DeleteFound { owner: o, .. } => o == owner,
            StageView::DeleteRemoved { owner: o, .. } => o == owner,
            StageView::DeleteUnindexed { owner: o, .. } => o == owner,
            StageView::GetLoaded => true,
            StageView::Last { .. } => true,
            _ => false,
        },
    }
}

/// Whether a plan works on tasks.
pub open spec fn on_tasks(plan: PlanView) -> bool {
    plan is List || plan is Create || plan is Get || plan is Update || plan is Delete
}

/// Once a token is accepted, the request acts for the token's subject: the
/// owner is taken from the verified claims and from nothing the client
/// supplied.
pub proof fn law_owner_is_the_subject(
    s: SessionView,
    token: Seq<char>,
    claims: ClaimsView,
    plan: PlanView,
)
    requires
        on_tasks(plan),
    ensures
        acts_for(admitted(s, token, claims, plan), claims.sub),
{
    let owner = claims.sub;
    match plan {
        PlanView::Get(id) => {
            assert(task_key_of(owner, id_text(id)) == task_key_of(owner, id_text(id)));
        },
        PlanView::Update(id, _) => {
            assert(task_key_of(owner, id_text(id)) == task_key_of(owner, id_text(id)));
        },
        PlanView::Delete(id) => {
            assert(task_key_of(owner, id_text(id)) == task_key_of(owner, id_text(id)));
        },
        _ => {},
    }
}

/// A request never changes whom it acts for, whatever the store replies.
pub proof fn law_owner_never_changes(s: SessionView, command: CommandView, reply: ReplyView, owner: Seq<char>)
    requires
        acts_for(StepView::Ask(s, command), owner),
    ensures
        acts_for(resume_of(s, reply), owner),
{
    match (s.stage, reply) {
        (StageView::Listing { ids, at, .. }, ReplyView::Task(_)) => {
            if 0 <= at + 1 < ids.len() {
                assert(task_key_of(owner, ids[at + 1]) == task_key_of(owner, ids[at + 1]));
            }
        },
        (StageView::ListIndex { .. }, ReplyView::Members(ids)) => {
            if 0 < ids.len() {
                assert(task_key_of(owner, ids[0]) == task_key_of(owner, ids[0]));
            }
        },
        (StageView::CreateId { .. }, ReplyView::Id(id)) => {
            assert(task_key_of(owner, id_text(id)) == task_key_of(owner, id_text(id)));
        },
        (StageView::UpdateLoaded { id, .. }, ReplyView::Task(_)) => {
            assert(task_key_of(owner, id_text(id)) == task_key_of(owner, id_text(id)));
        },
        (StageView::DeleteFound { id, .. }, ReplyView::Found(_)) => {
            assert(task_key_of(owner, id_text(id)) == task_key_of(owner, id_text(id)));
        },
        _ => {},
    }
}

/// Every command of a run that acts for an owner stays within what belongs
/// to that owner.
proof fn lemma_run_stays_with_the_owner(
    step: StepView,
    store: StoreModel,
    chance: Chance,
    owner: Seq<char>,
)
    requires
        acts_for(step, owner),
    ensures
        forall|i: int|
            0 <= i < asked(step, store, chance).len() ==> within(
                #[trigger] asked(step, store, chance)[i],
                owner,
            ),
    decreases phase(step), distance(step),
{
    match step {
        StepView::Finish(_) => {},
        StepView::Ask(s, command) => {
            let reply = reply_to(command, store, chance, s.now as int);
            let next = resume_of(s, reply);
            let then = store.after(command, s.now as int);
            law_owner_never_changes(s, command, reply, owner);
            lemma_run_stays_with_the_owner(next, then, chance, owner);
            let rest = asked(next, then, chance);
            assert(asked(step, store, chance) == seq![command] + rest);
            assert forall|i: int| 0 <= i < asked(step, store, chance).len() implies within(
                #[trigger] asked(step, store, chance)[i],
                owner,
            ) by {
                if i > 0 {
                    assert(asked(step, store, chance)[i] == rest[i - 1]);
                }
            }
        },
    }
}

/// A request that works on tasks asks first whether its token is revoked,
/// and after that only for what belongs to the token's subject: no token
/// reads or changes what belongs to another user.
pub proof fn law_requests_stay_with_the_subject(
    secret: Seq<char>,
    now: i64,
    request: RequestView,
    store: StoreModel,
    chance: Chance,
)
    requires
        token_of(request) matches Some(token) && bearer(secret, token, store, now) is Ok,
        !(request is Login),
        !(request is Logout),
        !(request is Connect),
    ensures
        ({
            let token = token_of(request).unwrap();
            let owner = bearer(secret, token, store, now)->Ok_0.sub;
            let all = commands(secret, now, request, store, chance);
            &&& all.len() >= 1
            &&& all[0] == CommandView::Exists { key: revocation_key_of(token) }
            &&& forall|i: int| 1 <= i < all.len() ==> within(#[trigger] all[i], owner)
        }),
{
    reveal_with_fuel(asked, 2);
    let token = token_of(request).unwrap();
    let claims = bearer(secret, token, store, now)->Ok_0;
    let owner = claims.sub;
    let first = start_of(secret, now, request);
    let s = first->Ask_0;
    let plan = s.stage->Gate_plan;
    assert(on_tasks(plan));
    let command = CommandView::Exists { key: revocation_key_of(token) };
    assert(first == StepView::Ask(s, command));
    let reply = reply_to(command, store, chance, now as int);
    let next = resume_of(s, reply);
    assert(next == admitted(s, token, claims, plan));
    law_owner_is_the_subject(s, token, claims, plan);
    lemma_run_stays_with_the_owner(next, store, chance, owner);
    let rest = asked(next, store, chance);
    let all = commands(secret, now, request, store, chance);
    assert(store.after(command, now as int) == store);
    assert(all == seq![command] + rest);
    assert forall|i: int| 1 <= i < all.len() implies within(#[trigger] all[i], owner) by {
        assert(all[i] == rest[i - 1]);
    }
}

/// What belongs to one user is out of another's reach: a command within
/// what belongs to `owner` names no task record, index or channel of any
/// `other` user, as long as it names its task by an identifier's text.
pub proof fn law_owners_are_apart(owner: Seq<char>, other: Seq<char>, id: u128, other_id: u128)
    requires
        owner != other,
    ensures
        task_key_of(owner, id_text(id)) != task_key_of(other, id_text(other_id)),
        index_key_of(owner) != index_key_of(other),
        channel_of(owner) != channel_of(other),
        user_key_of(owner) != user_key_of(other),
{
    lemma_owners_apart(owner, id, other, other_id);
    lemma_key_names_subject(owner, other);
}

/// A request fails closed: whatever it was about to do, a store that reports
/// a fault ends it with that fault, and nothing is granted.
pub proof fn law_store_failure_fails_closed(s: SessionView, fault: Fault)
    ensures
        resume_of(s, ReplyView::Broken(fault)) == StepView::Finish(
            Err::<ResponseView, ServiceError>(ServiceError::Infrastructure(fault)),
        ),
{
}

/// Whether `owner`'s index and records are in step: an identifier is in the
/// index exactly when the task it names has a record.
pub open spec fn in_step(store: StoreModel, owner: Seq<char>) -> bool {
    forall|id: u128|
        store.members(index_key_of(owner)).contains(#[trigger] id_text(id)) <==> store.task_at(
            task_key_of(owner, id_text(id)),
        ) is Some
}

/// A store that differs from another in nothing that belongs to `owner` is
/// in step for `owner` when the other is.
proof fn lemma_in_step_elsewhere(before: StoreModel, after: StoreModel, owner: Seq<char>)
    requires
        in_step(before, owner),
        after.members(index_key_of(owner)) == before.members(index_key_of(owner)),
        forall|id: u128|
            after.task_at(task_key_of(owner, #[trigger] id_text(id))) == before.task_at(
                task_key_of(owner, id_text(id)),
            ),
    ensures
        in_step(after, owner),
{
    assert forall|id: u128|
        after.members(index_key_of(owner)).contains(#[trigger] id_text(id)) <==> after.task_at(
            task_key_of(owner, id_text(id)),
        ) is Some by {
        assert(before.members(index_key_of(owner)).contains(id_text(id)) <==> before.task_at(
            task_key_of(owner, id_text(id)),
        ) is Some);
    }
}

/// Registering, logging in and logging out touch no task and no index.
proof fn lemma_accounts_keep_step(
    secret: Seq<char>,
    now: i64,
    request: RequestView,
    store: StoreModel,
    chance: Chance,
    owner: Seq<char>,
)
    requires
        in_step(store, owner),
        request is Register || request is Login || request is Logout,
    ensures
        in_step(serve(secret, now, request, store, chance).0, owner),
{
    reveal_with_fuel(run, 6);
    let after = serve(secret, now, request, store, chance).0;
    assert(after.sets == store.sets);
    assert forall|id: u128|
        after.task_at(task_key_of(owner, #[trigger] id_text(id))) == store.task_at(
            task_key_of(owner, id_text(id)),
        ) by {
        let key = task_key_of(owner, id_text(id));
        match request {
            RequestView::Register { username, .. } => {
                lemma_kinds_apart(username, owner, id_text(id));
            },
            RequestView::Login { jwt, .. } => {
                if jwt is Some {
                    lemma_kinds_apart(jwt.unwrap(), owner, id_text(id));
                }
            },
            RequestView::Logout { jwt } => {
                lemma_kinds_apart(jwt, owner, id_text(id));
            },
            _ => {},
        }
    }
    lemma_in_step_elsewhere(store, after, owner);
}

/// Reading writes nothing: listing, fetching a task and opening a live
/// connection leave the store exactly as it was, whether they succeed or not.
pub proof fn law_reading_writes_nothing(
    secret: Seq<char>,
    now: i64,
    request: RequestView,
    store: StoreModel,
    chance: Chance,
)
    requires
        request is ListTasks || request is GetTask || request is Connect,
    ensures
        serve(secret, now, request, store, chance).0 == store,
{
    reveal_with_fuel(run, 4);
    if request is ListTasks {
        let jwt = request->ListTasks_jwt;
        if bearer(secret, jwt, store, now) is Ok {
            law_list_reads_the_index(secret, now, jwt, store, chance);
        } else {
            law_unaccepted_token_is_refused(secret, now, request, store, chance);
        }
    }
}

/// A request that finds something other than a task under a task's key
/// fails for the corrupt record and writes nothing.
pub proof fn law_corrupt_record_fails_the_request(
    secret: Seq<char>,
    now: i64,
    jwt: Seq<char>,
    id: u128,
    patch: TaskPatchView,
    store: StoreModel,
    chance: Chance,
)
    requires
        bearer(secret, jwt, store, now) matches Ok(claims) && store.holds(
            task_key_of(claims.sub, id_text(id)),
            now as int,
        ) && store.task_at(task_key_of(claims.sub, id_text(id))) is None,
    ensures
        serve(secret, now, RequestView::UpdateTask { jwt, id, patch }, store, chance) == (
            store,
            Err::<ResponseView, ServiceError>(ServiceError::Infrastructure(Fault::CorruptRecord)),
        ),
        serve(secret, now, RequestView::GetTask { jwt, id }, store, chance) == (
            store,
            Err::<ResponseView, ServiceError>(ServiceError::Infrastructure(Fault::CorruptRecord)),
        ),
{
    reveal_with_fuel(run, 4);
}

/// Creating a task keeps every index in step with its records.
proof fn lemma_create_keeps_step(
    secret: Seq<char>,
    now: i64,
    jwt: Seq<char>,
    fields: TaskFieldsView,
    store: StoreModel,
    chance: Chance,
    owner: Seq<char>,
)
    requires
        in_step(store, owner),
    ensures
        in_step(
            serve(secret, now, RequestView::CreateTask { jwt, fields }, store, chance).0,
            owner,
        ),
{
    let request = RequestView::CreateTask { jwt, fields };
    let after = serve(secret, now, request, store, chance).0;
    if bearer(secret, jwt, store, now) is Err {
        law_unaccepted_token_is_refused(secret, now, request, store, chance);
    } else {
        law_create_publishes_once(secret, now, jwt, fields, store, chance);
        let actor = bearer(secret, jwt, store, now)->Ok_0.sub;
        let text = id_text(chance.id);
        let members = store.members(index_key_of(actor));
        if actor == owner {
            assert forall|id: u128|
                after.members(index_key_of(owner)).contains(#[trigger] id_text(id))
                    <==> after.task_at(task_key_of(owner, id_text(id))) is Some by {
                assert(store.members(index_key_of(owner)).contains(id_text(id))
                    <==> store.task_at(task_key_of(owner, id_text(id))) is Some);
                lemma_task_key_names_task(owner, id_text(id), text);
                if !members.contains(text) {
                    let more = members.push(text);
                    assert(after.members(index_key_of(owner)) == more);
                    assert(more[members.len() as int] == text);
                    if members.contains(id_text(id)) {
                        let i = choose|i: int| 0 <= i < members.len() && members[i] == id_text(id);
                        assert(more[i] == id_text(id));
                    }
                    if more.contains(id_text(id)) && id_text(id) != text {
                        let i = choose|i: int| 0 <= i < more.len() && more[i] == id_text(id);
                        assert(members[i] == id_text(id));
                    }
                }
            }
        } else {
            lemma_key_names_subject(actor, owner);
            assert(after.members(index_key_of(owner)) == store.members(index_key_of(owner)));
            assert forall|id: u128|
                after.task_at(task_key_of(owner, #[trigger] id_text(id))) == store.task_at(
                    task_key_of(owner, id_text(id)),
                ) by {
                lemma_owners_apart(actor, chance.id, owner, id);
            }
            lemma_in_step_elsewhere(store, after, owner);
        }
    }
}

/// Updating a task keeps every index in step with its records.
proof fn lemma_update_keeps_step(
    secret: Seq<char>,
    now: i64,
    jwt: Seq<char>,
    target: u128,
    patch: TaskPatchView,
    store: StoreModel,
    chance: Chance,
    owner: Seq<char>,
)
    requires
        in_step(store, owner),
    ensures
        in_step(
            serve(
                secret,
                now,
                RequestView::UpdateTask { jwt, id: target, patch },
                store,
                chance,
            ).0,
            owner,
        ),
{
    let request = RequestView::UpdateTask { jwt, id: target, patch };
    let after = serve(secret, now, request, store, chance).0;
    if bearer(secret, jwt, store, now) is Err {
        law_unaccepted_token_is_refused(secret, now, request, store, chance);
    } else {
        let actor = bearer(secret, jwt, store, now)->Ok_0.sub;
        let key = task_key_of(actor, id_text(target));
        if store.task_at(key) is Some {
            law_update_publishes_once(secret, now, jwt, target, patch, store, chance);
            assert forall|id: u128|
                after.members(index_key_of(owner)).contains(#[trigger] id_text(id))
                    <==> after.task_at(task_key_of(owner, id_text(id))) is Some by {
                assert(store.members(index_key_of(owner)).contains(id_text(id))
                    <==> store.task_at(task_key_of(owner, id_text(id))) is Some);
            }
        } else if store.holds(key, now as int) {
            law_corrupt_record_fails_the_request(secret, now, jwt, target, patch, store, chance);
        } else {
            law_absent_task_is_not_found(secret, now, jwt, target, patch, store, chance);
        }
    }
}

/// Deleting a task keeps every index in step with its records.
proof fn lemma_delete_keeps_step(
    secret: Seq<char>,
    now: i64,
    jwt: Seq<char>,
    target: u128,
    store: StoreModel,
    chance: Chance,
    owner: Seq<char>,
)
    requires
        in_step(store, owner),
    ensures
        in_step(
            serve(secret, now, RequestView::DeleteTask { jwt, id: target }, store, chance).0,
            owner,
        ),
{
    let request = RequestView::DeleteTask { jwt, id: target };
    let after = serve(secret, now, request, store, chance).0;
    if bearer(secret, jwt, store, now) is Err {
        law_unaccepted_token_is_refused(secret, now, request, store, chance);
    } else {
        let actor = bearer(secret, jwt, store, now)->Ok_0.sub;
        let text = id_text(target);
        let key = task_key_of(actor, text);
        if !store.holds(key, now as int) {
            law_absent_task_is_not_found(
                secret,
                now,
                jwt,
                target,
                TaskPatchView { category: None, text: None, completed: None, due: None },
                store,
                chance,
            );
        } else {
            law_delete_publishes_once(secret, now, jwt, target, store, chance);
            let members = store.members(index_key_of(actor));
            lemma_others(members, text);
            if actor == owner {
                assert forall|id: u128|
                    after.members(index_key_of(owner)).contains(#[trigger] id_text(id))
                        <==> after.task_at(task_key_of(owner, id_text(id))) is Some by {
                    assert(store.members(index_key_of(owner)).contains(id_text(id))
                        <==> store.task_at(task_key_of(owner, id_text(id))) is Some);
                    lemma_task_key_names_task(owner, id_text(id), text);
                    assert(after.members(index_key_of(owner)) == others(members, text));
                }
            } else {
                lemma_key_names_subject(actor, owner);
                assert(after.members(index_key_of(owner)) == store.members(index_key_of(owner)));
                assert forall|id: u128|
                    after.task_at(task_key_of(owner, #[trigger] id_text(id))) == store.task_at(
                        task_key_of(owner, id_text(id)),
                    ) by {
                    lemma_owners_apart(actor, target, owner, id);
                }
                lemma_in_step_elsewhere(store, after, owner);
            }
        }
    }
}

/// The index and the records of every user stay in step: whatever request
/// is served, by whomever, an identifier is in a user's index afterwards
/// exactly when the task it names has a record, if that was so before.
pub proof fn law_index_stays_in_step(
    secret: Seq<char>,
    now: i64,
    request: RequestView,
    store: StoreModel,
    chance: Chance,
    owner: Seq<char>,
)
    requires
        in_step(store, owner),
    ensures
        in_step(serve(secret, now, request, store, chance).0, owner),
{
    match request {
        RequestView::CreateTask { jwt, fields } => {
            lemma_create_keeps_step(secret, now, jwt, fields, store, chance, owner);
        },
        RequestView::UpdateTask { jwt, id, patch } => {
            lemma_update_keeps_step(secret, now, jwt, id, patch, store, chance, owner);
        },
        RequestView::DeleteTask { jwt, id } => {
            lemma_delete_keeps_step(secret, now, jwt, id, store, chance, owner);
        },
        RequestView::ListTasks { .. } => {
            law_reading_writes_nothing(secret, now, request, store, chance);
        },
        RequestView::GetTask { .. } => {
            law_reading_writes_nothing(secret, now, request, store, chance);
        },
        RequestView::Connect { .. } => {
            law_reading_writes_nothing(secret, now, request, store, chance);
        },
        _ => {
            lemma_accounts_keep_step(secret, now, request, store, chance, owner);
        },
    }
}

/// The empty store is in step for everyone.
pub proof fn law_empty_store_is_in_step(owner: Seq<char>)
    ensures
        in_step(StoreModel::empty(), owner),
{
}

} // verus!
