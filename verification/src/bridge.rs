//! The bridge between one live connection and its owner's change events.
//!
//! A connection that was admitted serves two sources at once: what the
//! client sends, and what is published for the owner. Whichever of the two
//! yields something, the caller hands it to the [`Bridge`] as an [`Event`]
//! and carries out the [`Action`] it gets back. At most one frame is sent
//! for one event, so the client sees frames in the order in which the events
//! were observed.

use crate::error::ServiceError;
use crate::session::{Response, ResponseView};
use vstd::prelude::*;
use vstd::string::*;

verus! {

/// Where a connection stands.
#[derive(Debug, Clone, Copy, PartialEq, Eq, Structural)]
pub enum BridgeState {
    /// The handshake's token has not been judged yet.
    Authenticating,
    /// The handshake was refused: there is no connection.
    Rejected,
    /// Events are being relayed.
    Bridging,
    /// The connection is to be closed; the close frame is still owed.
    Closing,
    /// The close frame has been handed out. Nothing follows.
    Closed,
}

/// A control message of the client.
#[derive(Debug, Clone, PartialEq, Eq)]
pub enum ClientMessage {
    /// The client presents a token to go on with. Accepted, and not acted on.
    RefreshJwt { jwt: String },
}

/// One thing observed on the client's side of the connection.
#[derive(Debug, Clone, PartialEq, Eq)]
pub enum Inbound {
    /// A text frame that holds a control message.
    Control(ClientMessage),
    /// A text frame that holds none; `detail` says what is wrong with it.
    Malformed { detail: String },
    /// A ping, with its payload.
    Ping(Vec<u8>),
    /// A close frame, or the end of the transport.
    Close,
    /// The transport failed.
    TransportError,
    /// Any other frame. It is ignored.
    Other,
}

/// Mathematical value of an [`Inbound`].
pub ghost enum InboundView {
    Control,
    Malformed { detail: Seq<char> },
    Ping(Seq<u8>),
    Close,
    TransportError,
    Other,
}

impl View for Inbound {
    type V = InboundView;

    open spec fn view(&self) -> InboundView {
        match self {
            Inbound::Control(_) => InboundView::Control,
            Inbound::Malformed { detail } => InboundView::Malformed { detail: detail@ },
            Inbound::Ping(data) => InboundView::Ping(data@),
            Inbound::Close => InboundView::Close,
            Inbound::TransportError => InboundView::TransportError,
            Inbound::Other => InboundView::Other,
        }
    }
}

/// One thing that happens to a connection.
#[derive(Debug, Clone, PartialEq, Eq)]
pub enum Event {
    /// The handshake succeeded: the owner's events are published on `channel`.
    Admitted { channel: String },
    /// The handshake failed.
    Refused,
    /// The notification bus could not be reached.
    BusUnreachable { detail: String },
    /// The bus refused the subscription.
    SubscribeFailed { detail: String },
    /// The client sent something.
    Inbound(Inbound),
    /// An event was published for the owner; `payload` is its wire form.
    Notification { payload: String },
    /// Something was published that cannot be read as text.
    UnreadableNotification { detail: String },
    /// The subscription ended.
    NotificationsEnded,
    /// A frame that relays or answers could not be written.
    SendFailed,
}

/// Mathematical value of an [`Event`].
pub ghost enum EventView {
    Admitted { channel: Seq<char> },
    Refused,
    BusUnreachable { detail: Seq<char> },
    SubscribeFailed { detail: Seq<char> },
    Inbound(InboundView),
    Notification { payload: Seq<char> },
    UnreadableNotification { detail: Seq<char> },
    NotificationsEnded,
    SendFailed,
}

impl View for Event {
    type V = EventView;

    open spec fn view(&self) -> EventView {
        match self {
            Event::Admitted { channel } => EventView::Admitted { channel: channel@ },
            Event::Refused => EventView::Refused,
            Event::BusUnreachable { detail } => EventView::BusUnreachable { detail: detail@ },
            Event::SubscribeFailed { detail } => EventView::SubscribeFailed { detail: detail@ },
            Event::Inbound(i) => EventView::Inbound(i@),
            Event::Notification { payload } => EventView::Notification { payload: payload@ },
            Event::UnreadableNotification { detail } => EventView::UnreadableNotification {
                detail: detail@,
            },
            Event::NotificationsEnded => EventView::NotificationsEnded,
            Event::SendFailed => EventView::SendFailed,
        }
    }
}

/// A frame for the client.
#[derive(Debug, Clone, PartialEq, Eq)]
pub enum Frame {
    /// A published event, word for word.
    Notification { payload: String },
    /// An error report.
    Error { message: String },
    /// The answer to a ping, with the ping's payload.
    Pong(Vec<u8>),
    /// The close frame.
    Close,
}

/// Mathematical value of a [`Frame`].
pub ghost enum FrameView {
    Notification { payload: Seq<char> },
    Error { message: Seq<char> },
    Pong(Seq<u8>),
    Close,
}

impl View for Frame {
    type V = FrameView;

    open spec fn view(&self) -> FrameView {
        match self {
            Frame::Notification { payload } => FrameView::Notification { payload: payload@ },
            Frame::Error { message } => FrameView::Error { message: message@ },
            Frame::Pong(data) => FrameView::Pong(data@),
            Frame::Close => FrameView::Close,
        }
    }
}

/// What the caller is to do after an event.
#[derive(Debug, Clone, PartialEq, Eq)]
pub enum Action {
    Nothing,
    /// Subscribe to `channel` and report what is published there.
    Subscribe { channel: String },
    /// Send the frame to the client.
    Send(Frame),
}

/// Mathematical value of an [`Action`].
pub ghost enum ActionView {
    Nothing,
    Subscribe { channel: Seq<char> },
    Send(FrameView),
}

impl View for Action {
    type V = ActionView;

    open spec fn view(&self) -> ActionView {
        match self {
            Action::Nothing => ActionView::Nothing,
            Action::Subscribe { channel } => ActionView::Subscribe { channel: channel@ },
            Action::Send(frame) => ActionView::Send(frame@),
        }
    }
}

/// The error frame that reports `detail` under the heading `heading`.
pub open spec fn report(heading: Seq<char>, detail: Seq<char>) -> ActionView {
    ActionView::Send(FrameView::Error { message: heading + detail })
}

/// The event with which a handshake's outcome enters the bridge: admission
/// where the request was answered with a connection, refusal otherwise.
pub open spec fn handshake_of(outcome: Result<ResponseView, ServiceError>) -> EventView {
    match outcome {
        Ok(ResponseView::Connected { channel, .. }) => EventView::Admitted { channel },
        _ => EventView::Refused,
    }
}

/// How a connection in `state` reacts to `event`: the state it moves to and
/// the one action to carry out.
///
/// While bridging, a control message and any frame that is neither text, ping
/// nor close change nothing; a ping is answered; a published event is relayed
/// word for word; a malformed frame, an unreadable or ended subscription and a
/// bus that cannot be reached or subscribed to are reported to the client in
/// one error frame, after which the connection is closing; a close, a
/// transport error and a failed send make it closing without a word. Out of
/// bridging only a handshake's outcome is heard, and only while
/// authenticating.
pub open spec fn react_of(state: BridgeState, event: EventView) -> (BridgeState, ActionView) {
    match state {
        BridgeState::Authenticating => match event {
            EventView::Admitted { channel } => (
                BridgeState::Bridging,
                ActionView::Subscribe { channel },
            ),
            EventView::Refused => (BridgeState::Rejected, ActionView::Nothing),
            _ => (state, ActionView::Nothing),
        },
        BridgeState::Bridging => match event {
            EventView::BusUnreachable { detail } => (
                BridgeState::Closing,
                report("Failed to parse notification: "@, detail),
            ),
            EventView::SubscribeFailed { detail } => (
                BridgeState::Closing,
                report("Failed to subscribe to notifications: "@, detail),
            ),
            EventView::Inbound(InboundView::Malformed { detail }) => (
                BridgeState::Closing,
                report("Internal error: "@, detail),
            ),
            EventView::Inbound(InboundView::Ping(data)) => (
                BridgeState::Bridging,
                ActionView::Send(FrameView::Pong(data)),
            ),
            EventView::Inbound(InboundView::Close) => (BridgeState::Closing, ActionView::Nothing),
            EventView::Inbound(InboundView::TransportError) => (
                BridgeState::Closing,
                ActionView::Nothing,
            ),
            EventView::Inbound(_) => (BridgeState::Bridging, ActionView::Nothing),
            EventView::Notification { payload } => (
                BridgeState::Bridging,
                ActionView::Send(FrameView::Notification { payload }),
            ),
            EventView::UnreadableNotification { detail } => (
                BridgeState::Closing,
                report("Failed to parse notification: "@, detail),
            ),
            EventView::NotificationsEnded => (
                BridgeState::Closing,
                report("Notification stream closed"@, Seq::empty()),
            ),
            EventView::SendFailed => (BridgeState::Closing, ActionView::Nothing),
            _ => (state, ActionView::Nothing),
        },
        _ => (state, ActionView::Nothing),
    }
}

/// How a connection in `state` is wound up: one that is closing sends the
/// close frame and is closed; any other is left as it is.
pub open spec fn close_of(state: BridgeState) -> (BridgeState, ActionView) {
    if state == BridgeState::Closing {
        (BridgeState::Closed, ActionView::Send(FrameView::Close))
    } else {
        (state, ActionView::Nothing)
    }
}

/// What a connection does over a run of events: the state it ends in and its
/// actions, one for each event, in the events' order.
pub open spec fn run_of(state: BridgeState, events: Seq<EventView>) -> (
    BridgeState,
    Seq<ActionView>,
)
    decreases events.len(),
{
    if events.len() == 0 {
        (state, Seq::empty())
    } else {
        let (next, action) = react_of(state, events[0]);
        let (end, rest) = run_of(next, events.drop_first());
        (end, seq![action] + rest)
    }
}

fn error_frame(heading: &str, detail: &str) -> (action: Action)
    ensures
        action@ == report(heading@, detail@),
{
    let mut message = String::from_str(heading);
    message.append(detail);
    Action::Send(Frame::Error { message })
}

/// The bridge of one connection.
pub struct Bridge {
    state: BridgeState,
}

impl View for Bridge {
    type V = BridgeState;

    closed spec fn view(&self) -> BridgeState {
        self.state
    }
}

impl Bridge {
    /// The bridge of a connection whose handshake is under way.
    pub fn new() -> (bridge: Bridge)
        ensures
            bridge@ == BridgeState::Authenticating,
    {
        Bridge { state: BridgeState::Authenticating }
    }

    /// Where the connection stands.
    pub fn state(&self) -> (state: BridgeState)
        ensures
            state == self@,
    {
        self.state
    }

    /// Turns the outcome of the handshake's request into the event that
    /// tells the bridge of it.
    pub fn handshake(outcome: Result<Response, ServiceError>) -> (event: Event)
        ensures
            event@ == handshake_of(crate::session::outcome_of(outcome)),
    {
        match outcome {
            Ok(Response::Connected { owner, channel }) => Event::Admitted { channel },
            _ => Event::Refused,
        }
    }

    /// Takes in one event and says what to do about it.
    pub fn react(&mut self, event: Event) -> (action: Action)
        ensures
            (final(self)@, action@) == react_of(old(self)@, event@),
    {
        match self.state {
            BridgeState::Authenticating => match event {
                Event::Admitted { channel } => {
                    self.state = BridgeState::Bridging;
                    Action::Subscribe { channel }
                },
                Event::Refused => {
                    self.state = BridgeState::Rejected;
                    Action::Nothing
                },
                _ => Action::Nothing,
            },
            BridgeState::Bridging => match event {
                Event::BusUnreachable { detail } => {
                    self.state = BridgeState::Closing;
                    error_frame("Failed to parse notification: ", detail.as_str())
                },
                Event::SubscribeFailed { detail } => {
                    self.state = BridgeState::Closing;
                    error_frame("Failed to subscribe to notifications: ", detail.as_str())
                },
                Event::Inbound(Inbound::Malformed { detail }) => {
                    self.state = BridgeState::Closing;
                    error_frame("Internal error: ", detail.as_str())
                },
                Event::Inbound(Inbound::Ping(data)) => Action::Send(Frame::Pong(data)),
                Event::Inbound(Inbound::Close) => {
                    self.state = BridgeState::Closing;
                    Action::Nothing
                },
                Event::Inbound(Inbound::TransportError) => {
                    self.state = BridgeState::Closing;
                    Action::Nothing
                },
                Event::Inbound(_) => Action::Nothing,
                Event::Notification { payload } => Action::Send(Frame::Notification { payload }),
                Event::UnreadableNotification { detail } => {
                    self.state = BridgeState::Closing;
                    error_frame("Failed to parse notification: ", detail.as_str())
                },
                Event::NotificationsEnded => {
                    self.state = BridgeState::Closing;
                    let action = error_frame("Notification stream closed", "");
                    proof {
                        reveal_strlit("");
                        assert(""@ =~= Seq::<char>::empty());
                    }
                    action
                },
                Event::SendFailed => {
                    self.state = BridgeState::Closing;
                    Action::Nothing
                },
                _ => Action::Nothing,
            },
            _ => Action::Nothing,
        }
    }

    /// Winds the connection up: hands out the close frame where it is owed.
    pub fn close(&mut self) -> (action: Action)
        ensures
            (final(self)@, action@) == close_of(old(self)@),
    {
        match self.state {
            BridgeState::Closing => {
                self.state = BridgeState::Closed;
                Action::Send(Frame::Close)
            },
            _ => Action::Nothing,
        }
    }
}

/// The events that tell of `payloads` being published, one after the other.
pub open spec fn notifications(payloads: Seq<Seq<char>>) -> Seq<EventView> {
    payloads.map_values(|p: Seq<char>| EventView::Notification { payload: p })
}

/// The actions that relay `payloads`, one after the other.
pub open spec fn relays(payloads: Seq<Seq<char>>) -> Seq<ActionView> {
    payloads.map_values(|p: Seq<char>| ActionView::Send(FrameView::Notification { payload: p }))
}

/// A bridging connection relays what is published word for word, one frame
/// for each event and in the order of publication, and goes on bridging.
pub proof fn law_relays_in_order(payloads: Seq<Seq<char>>)
    ensures
        run_of(BridgeState::Bridging, notifications(payloads)) == (
            BridgeState::Bridging,
            relays(payloads),
        ),
    decreases payloads.len(),
{
    let events = notifications(payloads);
    if payloads.len() == 0 {
        assert(relays(payloads) =~= Seq::<ActionView>::empty());
    } else {
        let rest = payloads.drop_first();
        law_relays_in_order(rest);
        assert(events.drop_first() =~= notifications(rest));
        assert(relays(payloads) =~= seq![
            ActionView::Send(FrameView::Notification { payload: payloads[0] }),
        ] + relays(rest));
    }
}

/// The close frame is sent at most once, and nothing is sent after it: a
/// closed or rejected connection stays as it is and asks for nothing,
/// whatever happens.
pub proof fn law_closed_is_final(state: BridgeState, events: Seq<EventView>)
    requires
        state == BridgeState::Closed || state == BridgeState::Rejected,
    ensures
        run_of(state, events).0 == state,
        forall|i: int|
            0 <= i < events.len() ==> #[trigger] run_of(state, events).1[i] == ActionView::Nothing,
        run_of(state, events).1.len() == events.len(),
        close_of(state) == (state, ActionView::Nothing),
    decreases events.len(),
{
    if events.len() > 0 {
        law_closed_is_final(state, events.drop_first());
        let rest = run_of(state, events.drop_first()).1;
        assert forall|i: int| 0 <= i < events.len() implies #[trigger] run_of(state, events).1[i]
            == ActionView::Nothing by {
            if i > 0 {
                assert(run_of(state, events).1[i] == rest[i - 1]);
            }
        }
    }
}

/// A connection never goes back: once it has left bridging it is never
/// bridging again, and it relays nothing more.
pub proof fn law_no_way_back(state: BridgeState, event: EventView)
    requires
        state != BridgeState::Authenticating,
        state != BridgeState::Bridging,
    ensures
        react_of(state, event) == (state, ActionView::Nothing),
{
}

} // verus!
