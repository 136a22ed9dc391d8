//! The service's requests, each as a conversation with the store.
//!
//! A [`Session`] is one request in progress. It is started from a
//! [`Request`], asks for one store [`Command`] at a time, is resumed with the
//! [`Reply`], and ends with a [`Response`] or a [`ServiceError`]. Every
//! decision of the service is taken here; the caller only carries out the
//! commands.
//!
//! The transitions are specified by [`start_of`] and [`resume_of`], over the
//! mathematical values of all that is involved.

use crate::clock::unix_now;
use crate::error::{AuthError, Fault, Missing, ServiceError};
use crate::ident::{fresh_task_id, id_text, marked_random, task_id_text};
use crate::bus;
use crate::keys::{
    channel_of, index_key, index_key_of, revocation_key_of, task_key, task_key_of, user_key,
    user_key_of,
};
use crate::revocation;
use crate::password::{hash_password, password_check, password_matches};
use crate::revocation::remaining_lifetime;
use crate::store::{tasks_of, texts_of, Command, CommandView, Reply, ReplyView};
use crate::task::{
    merged, task_from, text_of, ChangeEvent, ChangeEventView, Task, TaskFields, TaskFieldsView,
    TaskPatch, TaskPatchView, TaskView, User, UserView,
};
use crate::token::{
    datable, issued, token_content, verdict, Claims, ClaimsView, TokenAuthority, TOKEN_LIFETIME,
};
use vstd::prelude::*;

verus! {

/// What a client may ask of the service.
#[derive(Debug, Clone, PartialEq, Eq)]
pub enum Request {
    Register { username: String, password: String },
    /// Either a token, or a username with its password. Where a token is
    /// given, the other two are not looked at.
    Login { username: Option<String>, password: Option<String>, jwt: Option<String> },
    Logout { jwt: String },
    ListTasks { jwt: String },
    CreateTask { jwt: String, fields: TaskFields },
    GetTask { jwt: String, id: u128 },
    UpdateTask { jwt: String, id: u128, patch: TaskPatch },
    DeleteTask { jwt: String, id: u128 },
    /// Open a live connection.
    Connect { jwt: String },
}

/// Mathematical value of a [`Request`].
pub ghost enum RequestView {
    Register { username: Seq<char>, password: Seq<char> },
    Login { username: Option<Seq<char>>, password: Option<Seq<char>>, jwt: Option<Seq<char>> },
    Logout { jwt: Seq<char> },
    ListTasks { jwt: Seq<char> },
    CreateTask { jwt: Seq<char>, fields: TaskFieldsView },
    GetTask { jwt: Seq<char>, id: u128 },
    UpdateTask { jwt: Seq<char>, id: u128, patch: TaskPatchView },
    DeleteTask { jwt: Seq<char>, id: u128 },
    Connect { jwt: Seq<char> },
}

impl View for Request {
    type V = RequestView;

    open spec fn view(&self) -> RequestView {
        match self {
            Request::Register { username, password } => RequestView::Register {
                username: username@,
                password: password@,
            },
            Request::Login { username, password, jwt } => RequestView::Login {
                username: text_of(*username),
                password: text_of(*password),
                jwt: text_of(*jwt),
            },
            Request::Logout { jwt } => RequestView::Logout { jwt: jwt@ },
            Request::ListTasks { jwt } => RequestView::ListTasks { jwt: jwt@ },
            Request::CreateTask { jwt, fields } => RequestView::CreateTask {
                jwt: jwt@,
                fields: fields@,
            },
            Request::GetTask { jwt, id } => RequestView::GetTask { jwt: jwt@, id: *id },
            Request::UpdateTask { jwt, id, patch } => RequestView::UpdateTask {
                jwt: jwt@,
                id: *id,
                patch: patch@,
            },
            Request::DeleteTask { jwt, id } => RequestView::DeleteTask { jwt: jwt@, id: *id },
            Request::Connect { jwt } => RequestView::Connect { jwt: jwt@ },
        }
    }
}

/// What the service answers where a request succeeds.
#[derive(Debug, Clone, PartialEq, Eq)]
pub enum Response {
    Registered { jwt: String },
    LoggedIn { jwt: String, username: String },
    LoggedOut,
    Tasks(Vec<Task>),
    Created(Task),
    Found(Task),
    Updated(Task),
    Deleted(u128),
    /// The connection is admitted: relay to it what is published on
    /// `channel`.
    Connected { owner: String, channel: String },
}

/// Mathematical value of a [`Response`].
pub ghost enum ResponseView {
    Registered { jwt: Seq<char> },
    LoggedIn { jwt: Seq<char>, username: Seq<char> },
    LoggedOut,
    Tasks(Seq<TaskView>),
    Created(TaskView),
    Found(TaskView),
    Updated(TaskView),
    Deleted(u128),
    Connected { owner: Seq<char>, channel: Seq<char> },
}

impl View for Response {
    type V = ResponseView;

    open spec fn view(&self) -> ResponseView {
        match self {
            Response::Registered { jwt } => ResponseView::Registered { jwt: jwt@ },
            Response::LoggedIn { jwt, username } => ResponseView::LoggedIn {
                jwt: jwt@,
                username: username@,
            },
            Response::LoggedOut => ResponseView::LoggedOut,
            Response::Tasks(tasks) => ResponseView::Tasks(tasks_of(tasks@)),
            Response::Created(t) => ResponseView::Created(t@),
            Response::Found(t) => ResponseView::Found(t@),
            Response::Updated(t) => ResponseView::Updated(t@),
            Response::Deleted(id) => ResponseView::Deleted(*id),
            Response::Connected { owner, channel } => ResponseView::Connected {
                owner: owner@,
                channel: channel@,
            },
        }
    }
}

impl ResponseView {
    /// The status code under which the answer is reported: a creation is
    /// reported as such, everything else as plain success.
    pub open spec fn status_of(self) -> u16 {
        if self is Created {
            201
        } else {
            200
        }
    }
}

impl Response {
    /// The status code under which the answer is reported.
    pub fn status(&self) -> (code: u16)
        ensures
            code == self@.status_of(),
    {
        match self {
            Response::Created(_) => 201,
            _ => 200,
        }
    }
}

/// What an authenticated request goes on to do once its token is accepted.
#[derive(Debug, Clone, PartialEq, Eq)]
pub enum Plan {
    Login,
    Logout,
    List,
    Create(TaskFields),
    Get(u128),
    Update(u128, TaskPatch),
    Delete(u128),
    Connect,
}

/// Mathematical value of a [`Plan`].
pub ghost enum PlanView {
    Login,
    Logout,
    List,
    Create(TaskFieldsView),
    Get(u128),
    Update(u128, TaskPatchView),
    Delete(u128),
    Connect,
}

impl View for Plan {
    type V = PlanView;

    open spec fn view(&self) -> PlanView {
        match self {
            Plan::Login => PlanView::Login,
            Plan::Logout => PlanView::Logout,
            Plan::List => PlanView::List,
            Plan::Create(f) => PlanView::Create(f@),
            Plan::Get(id) => PlanView::Get(*id),
            Plan::Update(id, p) => PlanView::Update(*id, p@),
            Plan::Delete(id) => PlanView::Delete(*id),
            Plan::Connect => PlanView::Connect,
        }
    }
}

/// Where a request stands: which reply it is waiting for, and what it has
/// to remember meanwhile.
#[derive(Debug, Clone, PartialEq, Eq)]
pub enum Stage {
    /// Asked whether the token is revoked.
    Gate { token: String, plan: Plan },
    /// Asked whether the token's user still exists.
    LoginKnown { token: String, claims: Claims },
    /// Asked for the user's record, to check the password.
    LoginLoaded { username: String, password: String },
    /// Asked whether the username is taken.
    RegisterChecked { username: String, password: String },
    /// Asked for the password's hash.
    RegisterHashed { username: String },
    /// Asked to write the user's record.
    RegisterSaved { username: String },
    /// Asked for the owner's task identifiers.
    ListIndex { owner: String },
    /// Asked for the task under `ids[at]`; `found` holds those read so far.
    Listing { owner: String, ids: Vec<String>, at: usize, found: Vec<Task> },
    /// Asked for a fresh identifier.
    CreateId { owner: String, fields: TaskFields },
    /// Asked to write the new task.
    CreateSaved { owner: String, task: Task },
    /// Asked to enter the new task in the owner's index.
    CreateIndexed { owner: String, task: Task },
    /// Asked for the task to return.
    GetLoaded,
    /// Asked for the task to update.
    UpdateLoaded { owner: String, id: u128, patch: TaskPatch },
    /// Asked to write the updated task.
    UpdateSaved { owner: String, task: Task },
    /// Asked whether the task to delete exists.
    DeleteFound { owner: String, id: u128 },
    /// Asked to remove the task's record.
    DeleteRemoved { owner: String, id: u128 },
    /// Asked to take the task out of the owner's index.
    DeleteUnindexed { owner: String, id: u128 },
    /// Asked for the last write; `response` is returned once it is done.
    Last { response: Response },
}

/// Mathematical value of a [`Stage`].
pub ghost enum StageView {
    Gate { token: Seq<char>, plan: PlanView },
    LoginKnown { token: Seq<char>, claims: ClaimsView },
    LoginLoaded { username: Seq<char>, password: Seq<char> },
    RegisterChecked { username: Seq<char>, password: Seq<char> },
    RegisterHashed { username: Seq<char> },
    RegisterSaved { username: Seq<char> },
    ListIndex { owner: Seq<char> },
    Listing { owner: Seq<char>, ids: Seq<Seq<char>>, at: int, found: Seq<TaskView> },
    CreateId { owner: Seq<char>, fields: TaskFieldsView },
    CreateSaved { owner: Seq<char>, task: TaskView },
    CreateIndexed { owner: Seq<char>, task: TaskView },
    GetLoaded,
    UpdateLoaded { owner: Seq<char>, id: u128, patch: TaskPatchView },
    UpdateSaved { owner: Seq<char>, task: TaskView },
    DeleteFound { owner: Seq<char>, id: u128 },
    DeleteRemoved { owner: Seq<char>, id: u128 },
    DeleteUnindexed { owner: Seq<char>, id: u128 },
    Last { response: ResponseView },
}

impl View for Stage {
    type V = StageView;

    open spec fn view(&self) -> StageView {
        match self {
            Stage::Gate { token, plan } => StageView::Gate { token: token@, plan: plan@ },
            Stage::LoginKnown { token, claims } => StageView::LoginKnown {
                token: token@,
                claims: claims@,
            },
            Stage::LoginLoaded { username, password } => StageView::LoginLoaded {
                username: username@,
                password: password@,
            },
            Stage::RegisterChecked { username, password } => StageView::RegisterChecked {
                username: username@,
                password: password@,
            },
            Stage::RegisterHashed { username } => StageView::RegisterHashed { username: username@ },
            Stage::RegisterSaved { username } => StageView::RegisterSaved { username: username@ },
            Stage::ListIndex { owner } => StageView::ListIndex { owner: owner@ },
            Stage::Listing { owner, ids, at, found } => StageView::Listing {
                owner: owner@,
                ids: texts_of(ids@),
                at: *at as int,
                found: tasks_of(found@),
            },
            Stage::CreateId { owner, fields } => StageView::CreateId {
                owner: owner@,
                fields: fields@,
            },
            Stage::CreateSaved { owner, task } => StageView::CreateSaved {
                owner: owner@,
                task: task@,
            },
            Stage::CreateIndexed { owner, task } => StageView::CreateIndexed {
                owner: owner@,
                task: task@,
            },
            Stage::GetLoaded => StageView::GetLoaded,
            Stage::UpdateLoaded { owner, id, patch } => StageView::UpdateLoaded {
                owner: owner@,
                id: *id,
                patch: patch@,
            },
            Stage::UpdateSaved { owner, task } => StageView::UpdateSaved {
                owner: owner@,
                task: task@,
            },
            Stage::DeleteFound { owner, id } => StageView::DeleteFound { owner: owner@, id: *id },
            Stage::DeleteRemoved { owner, id } => StageView::DeleteRemoved {
                owner: owner@,
                id: *id,
            },
            Stage::DeleteUnindexed { owner, id } => StageView::DeleteUnindexed {
                owner: owner@,
                id: *id,
            },
            Stage::Last { response } => StageView::Last { response: response@ },
        }
    }
}

/// One request in progress.
pub struct Session {
    authority: TokenAuthority,
    now: i64,
    stage: Stage,
}

/// Mathematical value of a [`Session`]: the secret it signs with, the time
/// at which the request arrived, and where the request stands.
pub ghost struct SessionView {
    pub secret: Seq<char>,
    pub now: i64,
    pub stage: StageView,
}

impl View for Session {
    type V = SessionView;

    closed spec fn view(&self) -> SessionView {
        SessionView { secret: self.authority@, now: self.now, stage: self.stage@ }
    }
}

impl Session {
    /// Every session is well formed: none can be made that is not.
    #[verifier::type_invariant]
    closed spec fn sound(self) -> bool {
        self@.well_formed()
    }
}

impl SessionView {
    /// A session is dated at a time at which tokens can be issued, and a
    /// listing in progress has a task left to read.
    pub open spec fn well_formed(self) -> bool {
        &&& datable(self.now)
        &&& self.stage matches StageView::Listing { ids, at, .. } ==> 0 <= at < ids.len()
    }

    /// The session at another stage.
    pub open spec fn at(self, stage: StageView) -> SessionView {
        SessionView { stage, ..self }
    }
}

/// What a session does next.
pub enum Step {
    /// Carry out the command and resume the session with the reply.
    Ask(Session, Command),
    /// The request is over.
    Finish(Result<Response, ServiceError>),
}

/// Mathematical value of a [`Step`].
pub ghost enum StepView {
    Ask(SessionView, CommandView),
    Finish(Result<ResponseView, ServiceError>),
}

/// Mathematical value of a request's outcome.
pub open spec fn outcome_of(r: Result<Response, ServiceError>) -> Result<
    ResponseView,
    ServiceError,
> {
    match r {
        Ok(response) => Ok(response@),
        Err(e) => Err(e),
    }
}

impl View for Step {
    type V = StepView;

    open spec fn view(&self) -> StepView {
        match self {
            Step::Ask(session, command) => StepView::Ask(session@, command@),
            Step::Finish(r) => StepView::Finish(outcome_of(*r)),
        }
    }
}

impl StepView {
    /// A step that asks carries a well-formed session.
    pub open spec fn well_formed(self) -> bool {
        self matches StepView::Ask(session, _) ==> session.well_formed()
    }
}

/// The request fails with `e`.
pub open spec fn fail(e: ServiceError) -> StepView {
    StepView::Finish(Err(e))
}

/// The request fails for a fault of the machinery.
pub open spec fn broken(f: Fault) -> StepView {
    fail(ServiceError::Infrastructure(f))
}

/// The request succeeds with `response`.
pub open spec fn succeed(response: ResponseView) -> StepView {
    StepView::Finish(Ok(response))
}

/// What becomes of a request whose command was answered with something
/// other than an answer to it: a reported fault is passed on, anything else
/// is a breach of protocol. Either way the request fails.
pub open spec fn refusal(reply: ReplyView) -> StepView {
    match reply {
        ReplyView::Broken(f) => broken(f),
        _ => broken(Fault::Protocol),
    }
}

/// An authenticated request begins by asking whether its token is revoked.
pub open spec fn gate(secret: Seq<char>, now: i64, token: Seq<char>, plan: PlanView) -> StepView {
    StepView::Ask(
        SessionView { secret, now, stage: StageView::Gate { token, plan } },
        CommandView::Exists { key: revocation_key_of(token) },
    )
}

/// The first step of a request that arrives at `now`.
pub open spec fn start_of(secret: Seq<char>, now: i64, request: RequestView) -> StepView {
    match request {
        RequestView::Register { username, password } => StepView::Ask(
            SessionView { secret, now, stage: StageView::RegisterChecked { username, password } },
            CommandView::Exists { key: user_key_of(username) },
        ),
        RequestView::Login { username, password, jwt } => match jwt {
            Some(token) => gate(secret, now, token, PlanView::Login),
            None => match (username, password) {
                (Some(username), Some(password)) => StepView::Ask(
                    SessionView {
                        secret,
                        now,
                        stage: StageView::LoginLoaded { username, password },
                    },
                    CommandView::LoadUser { key: user_key_of(username) },
                ),
                _ => fail(ServiceError::BadRequest),
            },
        },
        RequestView::Logout { jwt } => gate(secret, now, jwt, PlanView::Logout),
        RequestView::ListTasks { jwt } => gate(secret, now, jwt, PlanView::List),
        RequestView::CreateTask { jwt, fields } => gate(secret, now, jwt, PlanView::Create(fields)),
        RequestView::GetTask { jwt, id } => gate(secret, now, jwt, PlanView::Get(id)),
        RequestView::UpdateTask { jwt, id, patch } => gate(
            secret,
            now,
            jwt,
            PlanView::Update(id, patch),
        ),
        RequestView::DeleteTask { jwt, id } => gate(secret, now, jwt, PlanView::Delete(id)),
        RequestView::Connect { jwt } => gate(secret, now, jwt, PlanView::Connect),
    }
}

/// Revoking `token`, which expires at `expires_at`, and then answering with
/// `response`: the revocation entry is written with the token's remaining
/// lifetime, and not at all where none remains.
pub open spec fn revoke_then(
    s: SessionView,
    token: Seq<char>,
    expires_at: i64,
    response: ResponseView,
) -> StepView {
    match remaining_lifetime(expires_at as int, s.now as int) {
        Some(d) => StepView::Ask(
            s.at(StageView::Last { response }),
            CommandView::SaveExpiring { key: revocation_key_of(token), ttl: d as u64 },
        ),
        None => succeed(response),
    }
}

/// What a request goes on to do once its token is accepted with `claims`.
/// Whatever it touches is named after the token's subject.
pub open spec fn admitted(
    s: SessionView,
    token: Seq<char>,
    claims: ClaimsView,
    plan: PlanView,
) -> StepView {
    let owner = claims.sub;
    match plan {
        PlanView::Login => StepView::Ask(
            s.at(StageView::LoginKnown { token, claims }),
            CommandView::Exists { key: user_key_of(owner) },
        ),
        PlanView::Logout => revoke_then(s, token, claims.exp, ResponseView::LoggedOut),
        PlanView::List => StepView::Ask(
            s.at(StageView::ListIndex { owner }),
            CommandView::Members { key: index_key_of(owner) },
        ),
        PlanView::Create(fields) => StepView::Ask(
            s.at(StageView::CreateId { owner, fields }),
            CommandView::FreshId,
        ),
        PlanView::Get(id) => StepView::Ask(
            s.at(StageView::GetLoaded),
            CommandView::LoadTask { key: task_key_of(owner, id_text(id)) },
        ),
        PlanView::Update(id, patch) => StepView::Ask(
            s.at(StageView::UpdateLoaded { owner, id, patch }),
            CommandView::LoadTask { key: task_key_of(owner, id_text(id)) },
        ),
        PlanView::Delete(id) => StepView::Ask(
            s.at(StageView::DeleteFound { owner, id }),
            CommandView::Exists { key: task_key_of(owner, id_text(id)) },
        ),
        PlanView::Connect => succeed(
            ResponseView::Connected { owner, channel: channel_of(owner) },
        ),
    }
}

/// Reading the owner's tasks one by one: the next one is asked for while
/// there is one, and the tasks found are returned when there is none.
pub open spec fn listing(
    s: SessionView,
    owner: Seq<char>,
    ids: Seq<Seq<char>>,
    at: int,
    found: Seq<TaskView>,
) -> StepView {
    if 0 <= at < ids.len() {
        StepView::Ask(
            s.at(StageView::Listing { owner, ids, at, found }),
            CommandView::LoadTask { key: task_key_of(owner, ids[at]) },
        )
    } else {
        succeed(ResponseView::Tasks(found))
    }
}

/// Answering with a freshly issued token for `subject`, by way of `wrap`.
pub open spec fn with_token(
    s: SessionView,
    subject: Seq<char>,
    wrap: spec_fn(Seq<char>) -> StepView,
) -> StepView {
    match issued(s.secret, subject, s.now) {
        Some(jwt) => wrap(jwt),
        None => broken(Fault::Signing),
    }
}

/// The step that follows when a session is resumed with `reply`.
pub open spec fn resume_of(s: SessionView, reply: ReplyView) -> StepView {
    match (s.stage, reply) {
        (StageView::Gate { token, plan }, ReplyView::Found(revoked)) => if revoked {
            fail(ServiceError::Auth(AuthError::Revoked))
        } else {
            match verdict(token_content(s.secret, token), s.now) {
                Ok(claims) => admitted(s, token, claims, plan),
                Err(e) => fail(ServiceError::Auth(e)),
            }
        },
        (StageView::LoginKnown { token, claims }, ReplyView::Found(known)) => if known {
            with_token(
                s,
                claims.sub,
                |jwt: Seq<char>|
                    revoke_then(
                        s,
                        token,
                        claims.exp,
                        ResponseView::LoggedIn { jwt, username: claims.sub },
                    ),
            )
        } else {
            fail(ServiceError::Auth(AuthError::UserNotFound))
        },
        (StageView::LoginLoaded { username, password }, ReplyView::User(record)) => match record {
            Some(user) => match password_check(password, user.password_hash) {
                Some(true) => with_token(
                    s,
                    username,
                    |jwt: Seq<char>| succeed(ResponseView::LoggedIn { jwt, username }),
                ),
                Some(false) => fail(ServiceError::Auth(AuthError::InvalidCredentials)),
                None => broken(Fault::Hashing),
            },
            None => fail(ServiceError::Auth(AuthError::InvalidCredentials)),
        },
        (StageView::RegisterChecked { username, password }, ReplyView::Found(taken)) => if taken {
            fail(ServiceError::Conflict)
        } else {
            StepView::Ask(
                s.at(StageView::RegisterHashed { username }),
                CommandView::HashPassword { password },
            )
        },
        (StageView::RegisterHashed { username }, ReplyView::Hashed(hash)) => StepView::Ask(
            s.at(StageView::RegisterSaved { username }),
            CommandView::SaveUser {
                key: user_key_of(username),
                user: UserView { username, password_hash: hash },
            },
        ),
        (StageView::RegisterSaved { username }, ReplyView::Done) => with_token(
            s,
            username,
            |jwt: Seq<char>| succeed(ResponseView::Registered { jwt }),
        ),
        (StageView::ListIndex { owner }, ReplyView::Members(ids)) => listing(
            s,
            owner,
            ids,
            0,
            Seq::empty(),
        ),
        (StageView::Listing { owner, ids, at, found }, ReplyView::Task(record)) => match record {
            Some(task) => listing(s, owner, ids, at + 1, found.push(task)),
            None => listing(s, owner, ids, at + 1, found),
        },
        (StageView::CreateId { owner, fields }, ReplyView::Id(id)) => StepView::Ask(
            s.at(StageView::CreateSaved { owner, task: task_from(id, fields) }),
            CommandView::SaveTask {
                key: task_key_of(owner, id_text(id)),
                task: task_from(id, fields),
            },
        ),
        (StageView::CreateSaved { owner, task }, ReplyView::Done) => StepView::Ask(
            s.at(StageView::CreateIndexed { owner, task }),
            CommandView::AddMember { key: index_key_of(owner), member: id_text(task.id) },
        ),
        (StageView::CreateIndexed { owner, task }, ReplyView::Done) => StepView::Ask(
            s.at(StageView::Last { response: ResponseView::Created(task) }),
            CommandView::Publish { channel: channel_of(owner), event: ChangeEventView::Created(task) },
        ),
        (StageView::GetLoaded, ReplyView::Task(record)) => match record {
            Some(task) => succeed(ResponseView::Found(task)),
            None => fail(ServiceError::NotFound(Missing::Task)),
        },
        (StageView::UpdateLoaded { owner, id, patch }, ReplyView::Task(record)) => match record {
            Some(task) => StepView::Ask(
                s.at(StageView::UpdateSaved { owner, task: merged(task, patch) }),
                CommandView::SaveTask {
                    key: task_key_of(owner, id_text(id)),
                    task: merged(task, patch),
                },
            ),
            None => fail(ServiceError::NotFound(Missing::Task)),
        },
        (StageView::UpdateSaved { owner, task }, ReplyView::Done) => StepView::Ask(
            s.at(StageView::Last { response: ResponseView::Updated(task) }),
            CommandView::Publish { channel: channel_of(owner), event: ChangeEventView::Updated(task) },
        ),
        (StageView::DeleteFound { owner, id }, ReplyView::Found(exists)) => if exists {
            StepView::Ask(
                s.at(StageView::DeleteRemoved { owner, id }),
                CommandView::Remove { key: task_key_of(owner, id_text(id)) },
            )
        } else {
            fail(ServiceError::NotFound(Missing::Task))
        },
        (StageView::DeleteRemoved { owner, id }, ReplyView::Done) => StepView::Ask(
            s.at(StageView::DeleteUnindexed { owner, id }),
            CommandView::RemoveMember { key: index_key_of(owner), member: id_text(id) },
        ),
        (StageView::DeleteUnindexed { owner, id }, ReplyView::Done) => StepView::Ask(
            s.at(StageView::Last { response: ResponseView::Deleted(id) }),
            CommandView::Publish { channel: channel_of(owner), event: ChangeEventView::Deleted(id) },
        ),
        (StageView::Last { response }, ReplyView::Done) => succeed(response),
        (_, other) => refusal(other),
    }
}

/// Whether `reply` is an answer that the local command `command` can get:
/// a hash that matches the password, or the hasher's failure; an identifier
/// marked as drawn at random.
pub open spec fn answers_locally(command: CommandView, reply: ReplyView) -> bool {
    match command {
        CommandView::HashPassword { password } => match reply {
            ReplyView::Hashed(hash) => password_check(password, hash) == Some(true),
            ReplyView::Broken(f) => f == Fault::Hashing,
            _ => false,
        },
        CommandView::FreshId => reply matches ReplyView::Id(id) && marked_random(id),
        _ => false,
    }
}

/// Whether `after` is what `before` becomes once a local command it may ask
/// has been answered: a step that asks nothing local is left as it is.
pub open spec fn settled(before: StepView, after: StepView) -> bool {
    match before {
        StepView::Ask(s, c) => if c.is_local() {
            exists|r: ReplyView| answers_locally(c, r) && after == #[trigger] resume_of(s, r)
        } else {
            after == before
        },
        StepView::Finish(_) => after == before,
    }
}

/// The first step of a request that arrives when the clock shows `now`:
/// that of [`start_of`] where tokens can be dated at `now`, and a failure
/// for the clock where they cannot.
pub open spec fn opened_at(secret: Seq<char>, now: i64, request: RequestView) -> StepView {
    if datable(now) {
        start_of(secret, now, request)
    } else {
        broken(Fault::Clock)
    }
}

/// Whether a step asks the store, or is the end: local commands are not left
/// to the caller.
pub open spec fn for_the_store(step: StepView) -> bool {
    step matches StepView::Ask(_, c) ==> !c.is_local()
}

/// Answers a command that needs no store: hashes the password, or draws an
/// identifier. Store commands get no answer here.
pub fn answer_locally(command: &Command) -> (reply: Option<Reply>)
    ensures
        match reply {
            Some(r) => command@.is_local() && answers_locally(command@, r@),
            None => !command@.is_local(),
        },
{
    match command {
        Command::HashPassword { password } => match hash_password(password.as_str()) {
            Ok(hash) => Some(Reply::Hashed(hash)),
            Err(f) => Some(Reply::Broken(f)),
        },
        Command::FreshId => Some(Reply::Id(fresh_task_id())),
        _ => None,
    }
}

fn refuse(reply: Reply) -> (step: Step)
    ensures
        step@ == refusal(reply@),
{
    match reply {
        Reply::Broken(f) => Step::Finish(Err(ServiceError::Infrastructure(f))),
        _ => Step::Finish(Err(ServiceError::Infrastructure(Fault::Protocol))),
    }
}

fn ask_gate(authority: TokenAuthority, now: i64, token: String, plan: Plan) -> (step: Step)
    requires
        datable(now),
    ensures
        step@ == gate(authority@, now, token@, plan@),
        step@.well_formed(),
{
    let command = revocation::check(token.as_str());
    Step::Ask(Session { authority, now, stage: Stage::Gate { token, plan } }, command)
}

impl Session {
    /// Starts a request that arrives at `now`: with the first step of
    /// [`start_of`] where tokens can be dated at `now`, and with a failure
    /// for the clock where they cannot.
    pub fn start(authority: TokenAuthority, now: i64, request: Request) -> (step: Step)
        ensures
            step@ == opened_at(authority@, now, request@),
            step@.well_formed(),
            for_the_store(step@),
    {
        if now > i64::MAX - TOKEN_LIFETIME {
            return Step::Finish(Err(ServiceError::Infrastructure(Fault::Clock)));
        }
        match request {
            Request::Register { username, password } => {
                let key = user_key(username.as_str());
                Step::Ask(
                    Session { authority, now, stage: Stage::RegisterChecked { username, password } },
                    Command::Exists { key },
                )
            },
            Request::Login { username, password, jwt } => match jwt {
                Some(token) => ask_gate(authority, now, token, Plan::Login),
                None => match (username, password) {
                    (Some(username), Some(password)) => {
                        let key = user_key(username.as_str());
                        Step::Ask(
                            Session {
                                authority,
                                now,
                                stage: Stage::LoginLoaded { username, password },
                            },
                            Command::LoadUser { key },
                        )
                    },
                    _ => Step::Finish(Err(ServiceError::BadRequest)),
                },
            },
            Request::Logout { jwt } => ask_gate(authority, now, jwt, Plan::Logout),
            Request::ListTasks { jwt } => ask_gate(authority, now, jwt, Plan::List),
            Request::CreateTask { jwt, fields } => ask_gate(
                authority,
                now,
                jwt,
                Plan::Create(fields),
            ),
            Request::GetTask { jwt, id } => ask_gate(authority, now, jwt, Plan::Get(id)),
            Request::UpdateTask { jwt, id, patch } => ask_gate(
                authority,
                now,
                jwt,
                Plan::Update(id, patch),
            ),
            Request::DeleteTask { jwt, id } => ask_gate(authority, now, jwt, Plan::Delete(id)),
            Request::Connect { jwt } => ask_gate(authority, now, jwt, Plan::Connect),
        }
    }

    /// Starts a request that arrives now, by the clock: whatever time the
    /// clock shows, the step is that of [`opened_at`] at that time.
    pub fn open(authority: TokenAuthority, request: Request) -> (step: Step)
        ensures
            exists|now: i64| step@ == #[trigger] opened_at(authority@, now, request@),
            step@.well_formed(),
            for_the_store(step@),
    {
        let now = unix_now();
        Session::start(authority, now, request)
    }

    fn proceed(self, stage: Stage, command: Command) -> (step: Step)
        requires
            stage@ matches StageView::Listing { ids, at, .. } ==> 0 <= at < ids.len(),
        ensures
            step@ == StepView::Ask(self@.at(stage@), command@),
            step@.well_formed(),
    {
        proof {
            use_type_invariant(&self);
        }
        Step::Ask(Session { authority: self.authority, now: self.now, stage }, command)
    }

    fn revoke_and(self, token: String, expires_at: i64, response: Response) -> (step: Step)
        ensures
            step@ == revoke_then(self@, token@, expires_at, response@),
            step@.well_formed(),
    {
        match revocation::revoke(token.as_str(), expires_at, self.now) {
            Some(command) => self.proceed(Stage::Last { response }, command),
            None => Step::Finish(Ok(response)),
        }
    }

    fn let_in(self, token: String, claims: Claims, plan: Plan) -> (step: Step)
        ensures
            step@ == admitted(self@, token@, claims@, plan@),
            step@.well_formed(),
    {
        match plan {
            Plan::Login => {
                let key = user_key(claims.sub.as_str());
                self.proceed(Stage::LoginKnown { token, claims }, Command::Exists { key })
            },
            Plan::Logout => self.revoke_and(token, claims.exp, Response::LoggedOut),
            Plan::List => {
                let key = index_key(claims.sub.as_str());
                self.proceed(Stage::ListIndex { owner: claims.sub }, Command::Members { key })
            },
            Plan::Create(fields) => self.proceed(
                Stage::CreateId { owner: claims.sub, fields },
                Command::FreshId,
            ),
            Plan::Get(id) => {
                let text = task_id_text(id);
                let key = task_key(claims.sub.as_str(), text.as_str());
                self.proceed(Stage::GetLoaded, Command::LoadTask { key })
            },
            Plan::Update(id, patch) => {
                let text = task_id_text(id);
                let key = task_key(claims.sub.as_str(), text.as_str());
                self.proceed(
                    Stage::UpdateLoaded { owner: claims.sub, id, patch },
                    Command::LoadTask { key },
                )
            },
            Plan::Delete(id) => {
                let text = task_id_text(id);
                let key = task_key(claims.sub.as_str(), text.as_str());
                self.proceed(Stage::DeleteFound { owner: claims.sub, id }, Command::Exists { key })
            },
            Plan::Connect => {
                let name = bus::subscription(claims.sub.as_str());
                Step::Finish(Ok(Response::Connected { owner: claims.sub, channel: name }))
            },
        }
    }

    fn list_from(self, owner: String, ids: Vec<String>, at: usize, found: Vec<Task>) -> (step:
        Step)
        requires
            at <= ids.len(),
        ensures
            step@ == listing(self@, owner@, texts_of(ids@), at as int, tasks_of(found@)),
            step@.well_formed(),
    {
        if at < ids.len() {
            let key = task_key(owner.as_str(), ids[at].as_str());
            self.proceed(Stage::Listing { owner, ids, at, found }, Command::LoadTask { key })
        } else {
            Step::Finish(Ok(Response::Tasks(found)))
        }
    }

    /// Resumes the session with the reply to the command it asked.
    pub fn resume(self, reply: Reply) -> (step: Step)
        ensures
            step@ == resume_of(self@, reply@),
            step@.well_formed(),
    {
        proof {
            use_type_invariant(&self);
        }
        let ghost s = self@;
        let Session { authority, now, stage } = self;
        let base = Session { authority, now, stage: Stage::GetLoaded };
        match (stage, reply) {
            (Stage::Gate { token, plan }, Reply::Found(revoked)) => {
                if revoked {
                    Step::Finish(Err(ServiceError::Auth(AuthError::Revoked)))
                } else {
                    match base.authority.verify_at(token.as_str(), base.now) {
                        Ok(claims) => base.let_in(token, claims, plan),
                        Err(e) => Step::Finish(Err(ServiceError::Auth(e))),
                    }
                }
            },
            (Stage::LoginKnown { token, claims }, Reply::Found(known)) => {
                if known {
                    match base.authority.issue_at(claims.sub.as_str(), base.now) {
                        Ok(jwt) => base.revoke_and(
                            token,
                            claims.exp,
                            Response::LoggedIn { jwt, username: claims.sub },
                        ),
                        Err(_) => Step::Finish(Err(ServiceError::Infrastructure(Fault::Signing))),
                    }
                } else {
                    Step::Finish(Err(ServiceError::Auth(AuthError::UserNotFound)))
                }
            },
            (Stage::LoginLoaded { username, password }, Reply::User(record)) => match record {
                Some(user) => match password_matches(
                    password.as_str(),
                    user.password_hash.as_str(),
                ) {
                    Ok(true) => match base.authority.issue_at(username.as_str(), base.now) {
                        Ok(jwt) => Step::Finish(Ok(Response::LoggedIn { jwt, username })),
                        Err(_) => Step::Finish(Err(ServiceError::Infrastructure(Fault::Signing))),
                    },
                    Ok(false) => Step::Finish(
                        Err(ServiceError::Auth(AuthError::InvalidCredentials)),
                    ),
                    Err(_) => Step::Finish(Err(ServiceError::Infrastructure(Fault::Hashing))),
                },
                None => Step::Finish(Err(ServiceError::Auth(AuthError::InvalidCredentials))),
            },
            (Stage::RegisterChecked { username, password }, Reply::Found(taken)) => {
                if taken {
                    Step::Finish(Err(ServiceError::Conflict))
                } else {
                    base.proceed(
                        Stage::RegisterHashed { username },
                        Command::HashPassword { password },
                    )
                }
            },
            (Stage::RegisterHashed { username }, Reply::Hashed(hash)) => {
                let key = user_key(username.as_str());
                let user = User { username: username.clone(), password_hash: hash };
                base.proceed(Stage::RegisterSaved { username }, Command::SaveUser { key, user })
            },
            (Stage::RegisterSaved { username }, Reply::Done) => {
                match base.authority.issue_at(username.as_str(), base.now) {
                    Ok(jwt) => Step::Finish(Ok(Response::Registered { jwt })),
                    Err(_) => Step::Finish(Err(ServiceError::Infrastructure(Fault::Signing))),
                }
            },
            (Stage::ListIndex { owner }, Reply::Members(ids)) => {
                let found: Vec<Task> = Vec::new();
                assert(tasks_of(found@) =~= Seq::<TaskView>::empty());
                base.list_from(owner, ids, 0, found)
            },
            (Stage::Listing { owner, ids, at, found }, Reply::Task(record)) => {
                assert(texts_of(ids@).len() == ids@.len());
                assert(at < ids.len());
                let mut found = found;
                let ghost before = found@;
                match record {
                    Some(task) => {
                        found.push(task);
                        assert(tasks_of(found@) =~= tasks_of(before).push(task@));
                    },
                    None => {},
                }
                base.list_from(owner, ids, at + 1, found)
            },
            (Stage::CreateId { owner, fields }, Reply::Id(id)) => {
                let text = task_id_text(id);
                let key = task_key(owner.as_str(), text.as_str());
                let task = Task::new(id, fields);
                let copy = task.duplicate();
                base.proceed(Stage::CreateSaved { owner, task }, Command::SaveTask { key, task: copy })
            },
            (Stage::CreateSaved { owner, task }, Reply::Done) => {
                let key = index_key(owner.as_str());
                let member = task_id_text(task.id);
                base.proceed(Stage::CreateIndexed { owner, task }, Command::AddMember { key, member })
            },
            (Stage::CreateIndexed { owner, task }, Reply::Done) => {
                let command = bus::publish(owner.as_str(), ChangeEvent::Created(task.duplicate()));
                base.proceed(Stage::Last { response: Response::Created(task) }, command)
            },
            (Stage::GetLoaded, Reply::Task(record)) => match record {
                Some(task) => Step::Finish(Ok(Response::Found(task))),
                None => Step::Finish(Err(ServiceError::NotFound(Missing::Task))),
            },
            (Stage::UpdateLoaded { owner, id, patch }, Reply::Task(record)) => match record {
                Some(task) => {
                    let text = task_id_text(id);
                    let key = task_key(owner.as_str(), text.as_str());
                    let task = task.patched(patch);
                    let copy = task.duplicate();
                    base.proceed(
                        Stage::UpdateSaved { owner, task },
                        Command::SaveTask { key, task: copy },
                    )
                },
                None => Step::Finish(Err(ServiceError::NotFound(Missing::Task))),
            },
            (Stage::UpdateSaved { owner, task }, Reply::Done) => {
                let command = bus::publish(owner.as_str(), ChangeEvent::Updated(task.duplicate()));
                base.proceed(Stage::Last { response: Response::Updated(task) }, command)
            },
            (Stage::DeleteFound { owner, id }, Reply::Found(exists)) => {
                if exists {
                    let text = task_id_text(id);
                    let key = task_key(owner.as_str(), text.as_str());
                    base.proceed(Stage::DeleteRemoved { owner, id }, Command::Remove { key })
                } else {
                    Step::Finish(Err(ServiceError::NotFound(Missing::Task)))
                }
            },
            (Stage::DeleteRemoved { owner, id }, Reply::Done) => {
                let key = index_key(owner.as_str());
                let member = task_id_text(id);
                base.proceed(
                    Stage::DeleteUnindexed { owner, id },
                    Command::RemoveMember { key, member },
                )
            },
            (Stage::DeleteUnindexed { owner, id }, Reply::Done) => {
                let command = bus::publish(owner.as_str(), ChangeEvent::Deleted(id));
                base.proceed(Stage::Last { response: Response::Deleted(id) }, command)
            },
            (Stage::Last { response }, Reply::Done) => Step::Finish(Ok(response)),
            (_, other) => refuse(other),
        }
    }

    /// Resumes the session with a reply and answers by itself whatever the
    /// next step asks that needs no store, so that the step returned asks
    /// the store or is the end.
    pub fn advance(self, reply: Reply) -> (step: Step)
        ensures
            settled(resume_of(self@, reply@), step@),
            step@.well_formed(),
            for_the_store(step@),
    {
        match self.resume(reply) {
            Step::Ask(session, command) => match answer_locally(&command) {
                Some(local) => session.resume(local),
                None => Step::Ask(session, command),
            },
            Step::Finish(r) => Step::Finish(r),
        }
    }
}

} // verus!
