use tasklist_core::bridge::{Action, Bridge, BridgeState, ClientMessage, Event, Frame, Inbound};
use tasklist_core::error::{AuthError, ServiceError};
use tasklist_core::memory::MemoryStore;
use tasklist_core::session::{Request, Response, Session, Step};
use tasklist_core::task::{ChangeEvent, TaskFields};
use tasklist_core::token::TokenAuthority;

const NOW: i64 = 1_700_000_000;

fn authority() -> TokenAuthority {
    TokenAuthority::new("test-secret".to_owned())
}

fn serve(store: &mut MemoryStore, request: Request) -> Result<Response, ServiceError> {
    let mut step = Session::start(authority(), NOW, request);
    loop {
        match step {
            Step::Finish(outcome) => return outcome,
            Step::Ask(session, command) => {
                let reply = store.execute(command, NOW);
                step = session.advance(reply);
            }
        }
    }
}

fn bridging() -> Bridge {
    let mut bridge = Bridge::new();
    bridge.react(Event::Admitted { channel: "notifications:alice".to_owned() });
    assert_eq!(bridge.state(), BridgeState::Bridging);
    bridge
}

fn error(message: &str) -> Action {
    Action::Send(Frame::Error { message: message.to_owned() })
}

#[test]
fn alice_sees_her_task_created_and_then_deleted() {
    let mut store = MemoryStore::new();
    let registered = serve(
        &mut store,
        Request::Register { username: "alice".to_owned(), password: "hunter2".to_owned() },
    );
    let jwt = match registered {
        Ok(Response::Registered { jwt }) => jwt,
        other => panic!("register failed: {:?}", other),
    };

    let mut bridge = Bridge::new();
    assert_eq!(bridge.state(), BridgeState::Authenticating);
    let handshake = Bridge::handshake(serve(&mut store, Request::Connect { jwt: jwt.clone() }));
    assert_eq!(
        bridge.react(handshake),
        Action::Subscribe { channel: "notifications:alice".to_owned() }
    );
    assert_eq!(bridge.state(), BridgeState::Bridging);

    let fields = TaskFields {
        category: "home".to_owned(),
        text: "buy milk".to_owned(),
        completed: false,
        due: None,
    };
    let created = serve(&mut store, Request::CreateTask { jwt: jwt.clone(), fields });
    let task = match created {
        Ok(Response::Created(task)) => task,
        other => panic!("create failed: {:?}", other),
    };
    assert_eq!(ServiceError::Conflict.status(), 409);
    assert_eq!(store.published_count(), 1);
    let (channel, event) = store.publication(0).unwrap();
    assert_eq!(channel, "notifications:alice");
    assert_eq!(event, &ChangeEvent::Created(task.clone()));
    let wire = format!(
        "{{\"type\":\"task_created\",\"task\":{{\"id\":\"{}\",\"category\":\"home\",\"text\":\"buy milk\",\"completed\":false,\"due\":null}}}}",
        tasklist_core::ident::task_id_text(task.id)
    );
    assert_eq!(
        bridge.react(Event::Notification { payload: wire.clone() }),
        Action::Send(Frame::Notification { payload: wire })
    );

    assert_eq!(
        serve(&mut store, Request::DeleteTask { jwt, id: task.id }),
        Ok(Response::Deleted(task.id))
    );
    assert_eq!(store.published_count(), 2);
    assert_eq!(store.publication(1).unwrap().1, &ChangeEvent::Deleted(task.id));
    let wire = format!(
        "{{\"type\":\"task_deleted\",\"task_id\":\"{}\"}}",
        tasklist_core::ident::task_id_text(task.id)
    );
    assert_eq!(
        bridge.react(Event::Notification { payload: wire.clone() }),
        Action::Send(Frame::Notification { payload: wire })
    );
    assert_eq!(bridge.state(), BridgeState::Bridging);
}

#[test]
fn refused_handshake_rejects_the_connection() {
    let mut store = MemoryStore::new();
    let outcome = serve(&mut store, Request::Connect { jwt: "garbage".to_owned() });
    assert_eq!(outcome, Err(ServiceError::Auth(AuthError::Malformed)));
    let mut bridge = Bridge::new();
    assert_eq!(bridge.react(Bridge::handshake(outcome)), Action::Nothing);
    assert_eq!(bridge.state(), BridgeState::Rejected);
    assert_eq!(bridge.react(Event::Notification { payload: "x".to_owned() }), Action::Nothing);
    assert_eq!(bridge.close(), Action::Nothing);
    assert_eq!(bridge.state(), BridgeState::Rejected);
}

#[test]
fn handshake_that_is_no_connection_is_a_refusal() {
    assert_eq!(Bridge::handshake(Ok(Response::LoggedOut)), Event::Refused);
    assert_eq!(
        Bridge::handshake(Ok(Response::Connected { owner: "a".to_owned(), channel: "c".to_owned() })),
        Event::Admitted { channel: "c".to_owned() }
    );
}

#[test]
fn nothing_is_relayed_before_the_handshake() {
    let mut bridge = Bridge::new();
    assert_eq!(bridge.react(Event::Notification { payload: "x".to_owned() }), Action::Nothing);
    assert_eq!(bridge.react(Event::Inbound(Inbound::Ping(vec![1]))), Action::Nothing);
    assert_eq!(bridge.state(), BridgeState::Authenticating);
}

#[test]
fn control_message_is_accepted_and_changes_nothing() {
    let mut bridge = bridging();
    let message = ClientMessage::RefreshJwt { jwt: "token".to_owned() };
    assert_eq!(bridge.react(Event::Inbound(Inbound::Control(message))), Action::Nothing);
    assert_eq!(bridge.react(Event::Inbound(Inbound::Other)), Action::Nothing);
    assert_eq!(bridge.state(), BridgeState::Bridging);
}

#[test]
fn ping_is_answered_with_its_payload() {
    let mut bridge = bridging();
    assert_eq!(
        bridge.react(Event::Inbound(Inbound::Ping(vec![1, 2, 3]))),
        Action::Send(Frame::Pong(vec![1, 2, 3]))
    );
    assert_eq!(bridge.state(), BridgeState::Bridging);
}

#[test]
fn malformed_frame_is_reported_once_and_closes() {
    let mut bridge = bridging();
    let event = Event::Inbound(Inbound::Malformed { detail: "expected value at line 1".to_owned() });
    assert_eq!(bridge.react(event), error("Internal error: expected value at line 1"));
    assert_eq!(bridge.state(), BridgeState::Closing);
    assert_eq!(bridge.react(Event::Notification { payload: "late".to_owned() }), Action::Nothing);
    assert_eq!(bridge.close(), Action::Send(Frame::Close));
    assert_eq!(bridge.state(), BridgeState::Closed);
    assert_eq!(bridge.close(), Action::Nothing);
    assert_eq!(bridge.state(), BridgeState::Closed);
}

#[test]
fn client_close_and_transport_error_close_without_a_word() {
    for inbound in [Inbound::Close, Inbound::TransportError] {
        let mut bridge = bridging();
        assert_eq!(bridge.react(Event::Inbound(inbound)), Action::Nothing);
        assert_eq!(bridge.state(), BridgeState::Closing);
        assert_eq!(bridge.close(), Action::Send(Frame::Close));
    }
}

#[test]
fn failed_send_closes_the_connection() {
    let mut bridge = bridging();
    assert_eq!(bridge.react(Event::SendFailed), Action::Nothing);
    assert_eq!(bridge.state(), BridgeState::Closing);
}

#[test]
fn trouble_with_the_bus_is_reported_and_closes() {
    let mut bridge = bridging();
    assert_eq!(bridge.react(Event::NotificationsEnded), error("Notification stream closed"));
    assert_eq!(bridge.state(), BridgeState::Closing);

    let mut bridge = bridging();
    assert_eq!(
        bridge.react(Event::UnreadableNotification { detail: "not text".to_owned() }),
        error("Failed to parse notification: not text")
    );
    assert_eq!(bridge.state(), BridgeState::Closing);

    let mut bridge = bridging();
    assert_eq!(
        bridge.react(Event::SubscribeFailed { detail: "refused".to_owned() }),
        error("Failed to subscribe to notifications: refused")
    );
    assert_eq!(bridge.state(), BridgeState::Closing);

    let mut bridge = bridging();
    assert_eq!(
        bridge.react(Event::BusUnreachable { detail: "down".to_owned() }),
        error("Failed to parse notification: down")
    );
    assert_eq!(bridge.state(), BridgeState::Closing);
}

#[test]
fn notifications_are_relayed_in_order() {
    let mut bridge = bridging();
    let mut sent = Vec::new();
    for payload in ["one", "two", "three"] {
        sent.push(bridge.react(Event::Notification { payload: payload.to_owned() }));
    }
    let expected: Vec<Action> = ["one", "two", "three"]
        .iter()
        .map(|p| Action::Send(Frame::Notification { payload: p.to_string() }))
        .collect();
    assert_eq!(sent, expected);
    assert_eq!(bridge.state(), BridgeState::Bridging);
}
