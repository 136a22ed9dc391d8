use tasklist_core::error::{AuthError, Fault, Missing, ServiceError};
use tasklist_core::ident::task_id_text;
use tasklist_core::memory::{play, Lot, MemoryStore};
use tasklist_core::session::{answer_locally, Request, Response, Session, Step};
use tasklist_core::store::{Command, Reply};
use tasklist_core::task::{ChangeEvent, Task, TaskFields, TaskPatch, User};
use tasklist_core::token::{TokenAuthority, TOKEN_LIFETIME};

const SECRET: &str = "test-secret";
const NOW: i64 = 1_700_000_000;

fn authority() -> TokenAuthority {
    TokenAuthority::new(SECRET.to_owned())
}

fn token_for(name: &str, at: i64) -> String {
    authority().issue_at(name, at).unwrap()
}

/// Serves a request on the store the way a caller does: every command the
/// session asks goes to the store, and its reply back to the session.
fn serve(store: &mut MemoryStore, now: i64, request: Request) -> Result<Response, ServiceError> {
    let mut step = Session::start(authority(), now, request);
    loop {
        match step {
            Step::Finish(outcome) => return outcome,
            Step::Ask(session, command) => {
                assert!(!command.is_local());
                let reply = store.execute(command, now);
                step = session.advance(reply);
            }
        }
    }
}

fn milk() -> TaskFields {
    TaskFields { category: "home".to_owned(), text: "buy milk".to_owned(), completed: false, due: None }
}

fn create(store: &mut MemoryStore, jwt: &str, fields: TaskFields) -> Task {
    match serve(store, NOW, Request::CreateTask { jwt: jwt.to_owned(), fields }) {
        Ok(Response::Created(task)) => task,
        other => panic!("create failed: {:?}", other),
    }
}

fn list(store: &mut MemoryStore, jwt: &str) -> Vec<Task> {
    match serve(store, NOW, Request::ListTasks { jwt: jwt.to_owned() }) {
        Ok(Response::Tasks(tasks)) => tasks,
        other => panic!("list failed: {:?}", other),
    }
}

#[test]
fn register_then_login_returns_token_for_the_user() {
    let mut store = MemoryStore::new();
    let registered = serve(
        &mut store,
        NOW,
        Request::Register { username: "alice".to_owned(), password: "hunter2".to_owned() },
    );
    let first = match registered {
        Ok(Response::Registered { jwt }) => jwt,
        other => panic!("register failed: {:?}", other),
    };
    assert_eq!(authority().verify_at(&first, NOW).unwrap().sub, "alice");
    let login = serve(
        &mut store,
        NOW + 5,
        Request::Login {
            username: Some("alice".to_owned()),
            password: Some("hunter2".to_owned()),
            jwt: None,
        },
    );
    match login {
        Ok(Response::LoggedIn { jwt, username }) => {
            assert_eq!(username, "alice");
            let claims = authority().verify_at(&jwt, NOW + 5).unwrap();
            assert_eq!(claims.sub, "alice");
            assert_eq!(claims.iat, NOW + 5);
            assert_eq!(claims.exp, NOW + 5 + TOKEN_LIFETIME);
        }
        other => panic!("login failed: {:?}", other),
    }
}

#[test]
fn login_with_wrong_password_or_unknown_user_is_refused() {
    let mut store = MemoryStore::new();
    serve(
        &mut store,
        NOW,
        Request::Register { username: "alice".to_owned(), password: "hunter2".to_owned() },
    )
    .unwrap();
    let wrong = serve(
        &mut store,
        NOW,
        Request::Login {
            username: Some("alice".to_owned()),
            password: Some("hunter3".to_owned()),
            jwt: None,
        },
    );
    assert_eq!(wrong, Err(ServiceError::Auth(AuthError::InvalidCredentials)));
    let unknown = serve(
        &mut store,
        NOW,
        Request::Login {
            username: Some("bob".to_owned()),
            password: Some("hunter2".to_owned()),
            jwt: None,
        },
    );
    assert_eq!(unknown, Err(ServiceError::Auth(AuthError::InvalidCredentials)));
}

#[test]
fn registering_a_taken_name_is_a_conflict() {
    let mut store = MemoryStore::new();
    let lot = Lot { id: 0, hash: Some("kept-as-given".to_owned()) };
    let request = Request::Register { username: "alice".to_owned(), password: "pw".to_owned() };
    assert!(play(&mut store, authority(), NOW, request.clone(), &lot).is_ok());
    assert_eq!(play(&mut store, authority(), NOW, request, &lot), Err(ServiceError::Conflict));
}

#[test]
fn login_without_token_or_full_credentials_is_a_bad_request() {
    let mut store = MemoryStore::new();
    for (username, password) in [
        (None, None),
        (Some("alice".to_owned()), None),
        (None, Some("hunter2".to_owned())),
    ] {
        let outcome = serve(&mut store, NOW, Request::Login { username, password, jwt: None });
        assert_eq!(outcome, Err(ServiceError::BadRequest));
    }
    assert_eq!(store.published_count(), 0);
}

#[test]
fn revoked_token_is_refused_although_it_still_verifies() {
    let mut store = MemoryStore::new();
    let jwt = token_for("alice", NOW);
    assert_eq!(serve(&mut store, NOW, Request::Logout { jwt: jwt.clone() }), Ok(Response::LoggedOut));
    assert!(authority().verify_at(&jwt, NOW + 1).is_ok());
    let refused = Err(ServiceError::Auth(AuthError::Revoked));
    assert_eq!(serve(&mut store, NOW + 1, Request::ListTasks { jwt: jwt.clone() }), refused);
    assert_eq!(serve(&mut store, NOW + 1, Request::CreateTask { jwt: jwt.clone(), fields: milk() }), refused);
    assert_eq!(serve(&mut store, NOW + 1, Request::GetTask { jwt: jwt.clone(), id: 7 }), refused);
    assert_eq!(serve(&mut store, NOW + 1, Request::DeleteTask { jwt: jwt.clone(), id: 7 }), refused);
    assert_eq!(serve(&mut store, NOW + 1, Request::Connect { jwt: jwt.clone() }), refused);
    assert_eq!(serve(&mut store, NOW + 1, Request::Logout { jwt: jwt.clone() }), refused);
    let patch = TaskPatch { category: None, text: None, completed: Some(true), due: None };
    assert_eq!(serve(&mut store, NOW + 1, Request::UpdateTask { jwt, id: 7, patch }), refused);
}

#[test]
fn revocation_ends_when_the_token_would_have_expired() {
    let mut store = MemoryStore::new();
    let jwt = token_for("alice", NOW);
    serve(&mut store, NOW + 10, Request::Logout { jwt: jwt.clone() }).unwrap();
    let last_second = NOW + TOKEN_LIFETIME - 1;
    assert_eq!(
        serve(&mut store, last_second, Request::ListTasks { jwt: jwt.clone() }),
        Err(ServiceError::Auth(AuthError::Revoked))
    );
    assert_eq!(
        serve(&mut store, NOW + TOKEN_LIFETIME + 1, Request::ListTasks { jwt }),
        Err(ServiceError::Auth(AuthError::Expired))
    );
}

#[test]
fn token_login_is_single_use() {
    let mut store = MemoryStore::new();
    let lot = Lot { id: 0, hash: Some("stored-hash".to_owned()) };
    play(
        &mut store,
        authority(),
        NOW,
        Request::Register { username: "alice".to_owned(), password: "pw".to_owned() },
        &lot,
    )
    .unwrap();
    let old = token_for("alice", NOW);
    let request = Request::Login { username: None, password: None, jwt: Some(old.clone()) };
    let fresh = match serve(&mut store, NOW + 60, request.clone()) {
        Ok(Response::LoggedIn { jwt, username }) => {
            assert_eq!(username, "alice");
            jwt
        }
        other => panic!("first login failed: {:?}", other),
    };
    assert_ne!(fresh, old);
    assert_eq!(authority().verify_at(&fresh, NOW + 60).unwrap().exp, NOW + 60 + TOKEN_LIFETIME);
    assert_eq!(serve(&mut store, NOW + 61, request), Err(ServiceError::Auth(AuthError::Revoked)));
    let again = Request::Login { username: None, password: None, jwt: Some(fresh) };
    assert!(serve(&mut store, NOW + 62, again).is_ok());
}

#[test]
fn token_login_for_a_user_that_is_gone_is_refused() {
    let mut store = MemoryStore::new();
    let jwt = token_for("ghost", NOW);
    let outcome = serve(&mut store, NOW, Request::Login { username: None, password: None, jwt: Some(jwt) });
    assert_eq!(outcome, Err(ServiceError::Auth(AuthError::UserNotFound)));
}

#[test]
fn token_errors_reach_the_caller_as_they_are() {
    let mut store = MemoryStore::new();
    let malformed = serve(&mut store, NOW, Request::ListTasks { jwt: "garbage".to_owned() });
    assert_eq!(malformed, Err(ServiceError::Auth(AuthError::Malformed)));
    let foreign = TokenAuthority::new("someone-else".to_owned()).issue_at("alice", NOW).unwrap();
    let forged = serve(&mut store, NOW, Request::ListTasks { jwt: foreign });
    assert_eq!(forged, Err(ServiceError::Auth(AuthError::SignatureInvalid)));
    let stale = token_for("alice", NOW - TOKEN_LIFETIME - 1);
    let expired = serve(&mut store, NOW, Request::ListTasks { jwt: stale });
    assert_eq!(expired, Err(ServiceError::Auth(AuthError::Expired)));
}

#[test]
fn created_task_is_listed_and_deleted_task_is_not() {
    let mut store = MemoryStore::new();
    let jwt = token_for("alice", NOW);
    assert_eq!(list(&mut store, &jwt), Vec::<Task>::new());
    let task = create(&mut store, &jwt, milk());
    assert_eq!(task.category, "home");
    assert_eq!(task.text, "buy milk");
    assert!(!task.completed);
    assert_eq!(task.due, None);
    assert_eq!(list(&mut store, &jwt), vec![task.clone()]);
    let second = create(&mut store, &jwt, TaskFields { due: Some(1_800_000_000), ..milk() });
    assert_ne!(second.id, task.id);
    assert_eq!(list(&mut store, &jwt), vec![task.clone(), second.clone()]);
    let deleted = serve(&mut store, NOW, Request::DeleteTask { jwt: jwt.clone(), id: task.id });
    assert_eq!(deleted, Ok(Response::Deleted(task.id)));
    assert_eq!(list(&mut store, &jwt), vec![second]);
}

#[test]
fn update_changes_only_the_fields_it_names() {
    let mut store = MemoryStore::new();
    let jwt = token_for("alice", NOW);
    let task = create(&mut store, &jwt, TaskFields { due: Some(42), ..milk() });
    let patch = TaskPatch { category: None, text: None, completed: Some(true), due: None };
    let updated = serve(&mut store, NOW, Request::UpdateTask { jwt: jwt.clone(), id: task.id, patch });
    let expected = Task { completed: true, ..task.clone() };
    assert_eq!(updated, Ok(Response::Updated(expected.clone())));
    assert_eq!(serve(&mut store, NOW, Request::GetTask { jwt: jwt.clone(), id: task.id }), Ok(Response::Found(expected.clone())));
    let patch = TaskPatch {
        category: Some("errands".to_owned()),
        text: Some("buy oat milk".to_owned()),
        completed: None,
        due: Some(99),
    };
    let updated = serve(&mut store, NOW, Request::UpdateTask { jwt: jwt.clone(), id: task.id, patch });
    let expected = Task {
        id: task.id,
        category: "errands".to_owned(),
        text: "buy oat milk".to_owned(),
        completed: true,
        due: Some(99),
    };
    assert_eq!(updated, Ok(Response::Updated(expected.clone())));
    assert_eq!(list(&mut store, &jwt), vec![expected]);
}

#[test]
fn patched_task_merges_field_by_field() {
    let task = Task { id: 9, category: "a".to_owned(), text: "b".to_owned(), completed: false, due: Some(1) };
    let none = TaskPatch { category: None, text: None, completed: None, due: None };
    assert_eq!(task.clone().patched(none), task);
    let all = TaskPatch {
        category: Some("c".to_owned()),
        text: Some("d".to_owned()),
        completed: Some(true),
        due: Some(2),
    };
    let expected = Task { id: 9, category: "c".to_owned(), text: "d".to_owned(), completed: true, due: Some(2) };
    assert_eq!(task.clone().patched(all), expected);
    assert_eq!(task.duplicate(), task);
    assert_eq!(Task::new(9, TaskFields { category: "a".to_owned(), text: "b".to_owned(), completed: false, due: Some(1) }), task);
}

#[test]
fn every_mutation_publishes_exactly_one_event() {
    let mut store = MemoryStore::new();
    let jwt = token_for("alice", NOW);
    let task = create(&mut store, &jwt, milk());
    assert_eq!(store.published_count(), 1);
    let (channel, event) = store.publication(0).unwrap();
    assert_eq!(channel, "notifications:alice");
    assert_eq!(event, &ChangeEvent::Created(task.clone()));
    let patch = TaskPatch { category: None, text: None, completed: Some(true), due: None };
    serve(&mut store, NOW, Request::UpdateTask { jwt: jwt.clone(), id: task.id, patch }).unwrap();
    assert_eq!(store.published_count(), 2);
    assert_eq!(store.publication(1).unwrap().1, &ChangeEvent::Updated(Task { completed: true, ..task.clone() }));
    serve(&mut store, NOW, Request::DeleteTask { jwt: jwt.clone(), id: task.id }).unwrap();
    assert_eq!(store.published_count(), 3);
    assert_eq!(store.publication(2).unwrap().0, "notifications:alice");
    assert_eq!(store.publication(2).unwrap().1, &ChangeEvent::Deleted(task.id));
    list(&mut store, &jwt);
    serve(&mut store, NOW, Request::GetTask { jwt: jwt.clone(), id: task.id }).unwrap_err();
    serve(&mut store, NOW, Request::DeleteTask { jwt, id: task.id }).unwrap_err();
    assert_eq!(store.published_count(), 3);
}

#[test]
fn commands_of_a_creation_come_in_order() {
    let jwt = token_for("alice", NOW);
    let mut asked: Vec<Command> = Vec::new();
    let mut step = Session::start(authority(), NOW, Request::CreateTask { jwt: jwt.clone(), fields: milk() });
    let mut store = MemoryStore::new();
    loop {
        match step {
            Step::Finish(outcome) => {
                assert!(outcome.is_ok());
                break;
            }
            Step::Ask(session, command) => {
                asked.push(command.clone());
                let reply = match command {
                    Command::FreshId => Reply::Id(0xa1a2a3a4b1b2c1c2d1d2d3d4d5d6d7d8),
                    other => store.execute(other, NOW),
                };
                step = session.resume(reply);
            }
        }
    }
    let task = Task { id: 0xa1a2a3a4b1b2c1c2d1d2d3d4d5d6d7d8, category: "home".to_owned(), text: "buy milk".to_owned(), completed: false, due: None };
    let id = "a1a2a3a4-b1b2-c1c2-d1d2-d3d4d5d6d7d8".to_owned();
    assert_eq!(
        asked,
        vec![
            Command::Exists { key: format!("blacklist:{}", jwt) },
            Command::FreshId,
            Command::SaveTask { key: format!("task:alice:{}", id), task: task.clone() },
            Command::AddMember { key: "task_ids:alice".to_owned(), member: id },
            Command::Publish { channel: "notifications:alice".to_owned(), event: ChangeEvent::Created(task) },
        ]
    );
}

#[test]
fn absent_task_is_not_found_whoever_asks() {
    let mut store = MemoryStore::new();
    let alice = token_for("alice", NOW);
    let bob = token_for("bob", NOW);
    let missing = Err(ServiceError::NotFound(Missing::Task));
    let patch = TaskPatch { category: None, text: None, completed: Some(true), due: None };
    for jwt in [&alice, &bob] {
        assert_eq!(serve(&mut store, NOW, Request::GetTask { jwt: jwt.clone(), id: 1 }), missing);
        assert_eq!(serve(&mut store, NOW, Request::UpdateTask { jwt: jwt.clone(), id: 1, patch: patch.clone() }), missing);
        assert_eq!(serve(&mut store, NOW, Request::DeleteTask { jwt: jwt.clone(), id: 1 }), missing);
    }
}

#[test]
fn one_user_cannot_reach_the_tasks_of_another() {
    let mut store = MemoryStore::new();
    let alice = token_for("alice", NOW);
    let bob = token_for("bob", NOW);
    let task = create(&mut store, &alice, milk());
    let missing = Err(ServiceError::NotFound(Missing::Task));
    let patch = TaskPatch { category: None, text: Some("stolen".to_owned()), completed: None, due: None };
    assert_eq!(serve(&mut store, NOW, Request::GetTask { jwt: bob.clone(), id: task.id }), missing);
    assert_eq!(serve(&mut store, NOW, Request::UpdateTask { jwt: bob.clone(), id: task.id, patch }), missing);
    assert_eq!(serve(&mut store, NOW, Request::DeleteTask { jwt: bob.clone(), id: task.id }), missing);
    assert_eq!(list(&mut store, &bob), Vec::<Task>::new());
    assert_eq!(list(&mut store, &alice), vec![task.clone()]);
    assert_eq!(serve(&mut store, NOW, Request::GetTask { jwt: alice, id: task.id }), Ok(Response::Found(task)));
}

#[test]
fn listing_skips_index_entries_without_a_record() {
    let mut store = MemoryStore::new();
    let jwt = token_for("alice", NOW);
    let task = create(&mut store, &jwt, milk());
    store.execute(
        Command::AddMember { key: "task_ids:alice".to_owned(), member: task_id_text(77) },
        NOW,
    );
    assert_eq!(list(&mut store, &jwt), vec![task]);
}

#[test]
fn unreadable_record_fails_the_whole_listing() {
    let mut store = MemoryStore::new();
    let jwt = token_for("alice", NOW);
    create(&mut store, &jwt, milk());
    let member = task_id_text(77);
    let user = User { username: "x".to_owned(), password_hash: "y".to_owned() };
    store.execute(Command::SaveUser { key: format!("task:alice:{}", member), user }, NOW);
    store.execute(Command::AddMember { key: "task_ids:alice".to_owned(), member }, NOW);
    assert_eq!(
        serve(&mut store, NOW, Request::ListTasks { jwt }),
        Err(ServiceError::Infrastructure(Fault::CorruptRecord))
    );
}

#[test]
fn store_failure_fails_the_request_closed() {
    let jwt = token_for("alice", NOW);
    let step = Session::start(authority(), NOW, Request::ListTasks { jwt });
    let session = match step {
        Step::Ask(session, Command::Exists { .. }) => session,
        _ => panic!("a listing begins by asking whether the token is revoked"),
    };
    match session.advance(Reply::Broken(Fault::StoreUnavailable)) {
        Step::Finish(outcome) => {
            assert_eq!(outcome, Err(ServiceError::Infrastructure(Fault::StoreUnavailable)))
        }
        Step::Ask(..) => panic!("the request went on after the store failed"),
    }
}

#[test]
fn reply_that_answers_another_command_is_a_breach_of_protocol() {
    let jwt = token_for("alice", NOW);
    let session = match Session::start(authority(), NOW, Request::ListTasks { jwt }) {
        Step::Ask(session, _) => session,
        Step::Finish(_) => panic!("finished too early"),
    };
    match session.resume(Reply::Done) {
        Step::Finish(outcome) => assert_eq!(outcome, Err(ServiceError::Infrastructure(Fault::Protocol))),
        Step::Ask(..) => panic!("the request went on after a wrong reply"),
    }
}

#[test]
fn failing_hasher_fails_the_registration() {
    let mut store = MemoryStore::new();
    let lot = Lot { id: 0, hash: None };
    let request = Request::Register { username: "alice".to_owned(), password: "pw".to_owned() };
    assert_eq!(
        play(&mut store, authority(), NOW, request, &lot),
        Err(ServiceError::Infrastructure(Fault::Hashing))
    );
    let login = Request::Login { username: Some("alice".to_owned()), password: Some("pw".to_owned()), jwt: None };
    assert_eq!(
        play(&mut store, authority(), NOW, login, &lot),
        Err(ServiceError::Auth(AuthError::InvalidCredentials))
    );
}

#[test]
fn stored_value_that_is_no_hash_fails_the_login() {
    let mut store = MemoryStore::new();
    let lot = Lot { id: 0, hash: Some("not-a-bcrypt-hash".to_owned()) };
    let request = Request::Register { username: "alice".to_owned(), password: "pw".to_owned() };
    play(&mut store, authority(), NOW, request, &lot).unwrap();
    let login = Request::Login { username: Some("alice".to_owned()), password: Some("pw".to_owned()), jwt: None };
    assert_eq!(
        play(&mut store, authority(), NOW, login, &lot),
        Err(ServiceError::Infrastructure(Fault::Hashing))
    );
}

#[test]
fn play_takes_identifier_and_hash_from_the_lot() {
    let mut store = MemoryStore::new();
    let lot = Lot { id: 0x0123456789abcdef0123456789abcdef, hash: None };
    let jwt = token_for("alice", NOW);
    let outcome = play(&mut store, authority(), NOW, Request::CreateTask { jwt: jwt.clone(), fields: milk() }, &lot);
    let task = Task { id: lot.id, category: "home".to_owned(), text: "buy milk".to_owned(), completed: false, due: None };
    assert_eq!(outcome, Ok(Response::Created(task.clone())));
    assert!(store.holds(&"task:alice:01234567-89ab-cdef-0123-456789abcdef".to_owned(), NOW));
    assert_eq!(store.members(&"task_ids:alice".to_owned()), vec!["01234567-89ab-cdef-0123-456789abcdef".to_owned()]);
    assert_eq!(play(&mut store, authority(), NOW, Request::ListTasks { jwt }, &lot), Ok(Response::Tasks(vec![task])));
}

#[test]
fn local_commands_are_answered_without_the_store() {
    assert!(answer_locally(&Command::Exists { key: "k".to_owned() }).is_none());
    match answer_locally(&Command::FreshId) {
        Some(Reply::Id(_)) => {}
        other => panic!("unexpected answer: {:?}", other),
    }
    match answer_locally(&Command::HashPassword { password: "pw".to_owned() }) {
        Some(Reply::Hashed(hash)) => {
            assert_eq!(tasklist_core::password::password_matches("pw", &hash), Ok(true));
        }
        other => panic!("unexpected answer: {:?}", other),
    }
}

#[test]
fn connect_names_the_owner_and_the_channel() {
    let mut store = MemoryStore::new();
    let jwt = token_for("alice", NOW);
    assert_eq!(
        serve(&mut store, NOW, Request::Connect { jwt }),
        Ok(Response::Connected { owner: "alice".to_owned(), channel: "notifications:alice".to_owned() })
    );
}

#[test]
fn session_opened_by_the_clock_asks_for_the_revocation_entry() {
    let jwt = authority().issue("alice").unwrap();
    match Session::open(authority(), Request::ListTasks { jwt: jwt.clone() }) {
        Step::Ask(_, command) => assert_eq!(command, Command::Exists { key: format!("blacklist:{}", jwt) }),
        Step::Finish(outcome) => panic!("finished too early: {:?}", outcome),
    }
}

#[test]
fn request_at_the_end_of_time_fails_for_the_clock() {
    let mut store = MemoryStore::new();
    let lot = Lot { id: 0, hash: None };
    let jwt = token_for("alice", NOW);
    let outcome = play(&mut store, authority(), i64::MAX, Request::ListTasks { jwt }, &lot);
    assert_eq!(outcome, Err(ServiceError::Infrastructure(Fault::Clock)));
    assert_eq!(authority().issue_at("alice", i64::MAX - TOKEN_LIFETIME + 1), Err(Fault::Clock));
    assert!(authority().issue_at("alice", i64::MAX - TOKEN_LIFETIME).is_ok());
}

#[test]
fn failures_carry_a_message_for_the_caller() {
    assert_eq!(ServiceError::Auth(AuthError::Revoked).message(), "JWT has been revoked");
    assert_eq!(ServiceError::Auth(AuthError::UserNotFound).message(), "User not found");
    assert_eq!(
        ServiceError::Auth(AuthError::InvalidCredentials).message(),
        "Invalid username or password"
    );
    assert_eq!(ServiceError::NotFound(Missing::Task).message(), "Task not found");
    assert_eq!(ServiceError::Conflict.message(), "Username already exists");
    assert_eq!(
        ServiceError::BadRequest.message(),
        "Must provide either JWT or username/password"
    );
    assert_eq!(ServiceError::Infrastructure(Fault::StoreUnavailable).message(), "Store unavailable");
    assert_eq!(Response::Created(Task::new(1, milk())).status(), 201);
    assert_eq!(Response::LoggedOut.status(), 200);
    assert_eq!(Response::Deleted(1).status(), 200);
}

#[test]
fn failures_are_reported_under_their_status() {
    assert_eq!(ServiceError::Auth(AuthError::Revoked).status(), 401);
    assert_eq!(ServiceError::Auth(AuthError::InvalidCredentials).status(), 401);
    assert_eq!(ServiceError::NotFound(Missing::Task).status(), 404);
    assert_eq!(ServiceError::NotFound(Missing::User).status(), 404);
    assert_eq!(ServiceError::Conflict.status(), 409);
    assert_eq!(ServiceError::Infrastructure(Fault::StoreUnavailable).status(), 500);
    assert_eq!(ServiceError::BadRequest.status(), 400);
}
