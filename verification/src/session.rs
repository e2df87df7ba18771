//! The life of one connection, as a state machine: the caller performs the
//! transport and bus operations and reports what happened; the machine says
//! what to do next.

use vstd::prelude::*;
use vstd::string::StrSliceExecFns;

verus! {

/// The phase a connection session is in.
#[derive(Clone, Copy, Debug, PartialEq, Eq, Structural)]
pub enum SessionState {
    /// The transport handshake is under way.
    Connecting,
    /// The session is registered and forwards events to its client.
    Established,
    /// One of the session's two loops has ended; the session is being taken down.
    Closing,
    /// The session is over and holds nothing.
    Closed,
}

/// Something that happened to a session.
#[derive(Clone, Debug, PartialEq, Eq)]
pub enum SessionEvent {
    /// The transport handshake completed.
    HandshakeCompleted,
    /// The transport handshake failed.
    HandshakeFailed,
    /// The bus handle returned a message.
    BusMessage(String),
    /// The bus handle reported that this many messages were skipped because
    /// the session was too slow.
    BusLagged(u64),
    /// The bus handle is closed.
    BusClosed,
    /// A write to the outbound stream failed.
    WriteFailed,
    /// The client sent a text payload.
    InboundText(String),
    /// The client sent a close signal.
    InboundClose,
    /// The client sent anything else.
    InboundOther,
    /// The inbound stream ended or failed.
    InboundEnded,
    /// The session's entry is out of the registry.
    Unregistered,
}

/// What the caller is to do after an event.
#[derive(Clone, Debug, PartialEq, Eq)]
pub enum SessionAction {
    /// Register the session, subscribe it to the bus, send the welcome
    /// message and start the two loops.
    Open,
    /// The connection never came to be: discard it.
    Discard,
    /// Write this message to the outbound stream.
    Forward(String),
    /// A keepalive arrived: nothing to do but keep the stream open.
    KeepAlive,
    /// Nothing to do.
    Ignore,
    /// Stop both loops and remove the session from the registry.
    Unregister,
    /// Release the transport halves and the bus handle.
    Release,
}

/// The text that a client sends as a keepalive.
pub open spec fn keepalive_text() -> Seq<char> {
    "ping"@
}

/// Whether an inbound text payload is the keepalive.
pub fn is_keepalive(text: &str) -> (yes: bool)
    ensures
        yes == (text@ == keepalive_text()),
{
    proof {
        reveal_strlit("ping");
    }
    if text.unicode_len() != 4 {
        return false;
    }
    let yes = text.get_char(0) == 'p' && text.get_char(1) == 'i' && text.get_char(2) == 'n'
        && text.get_char(3) == 'g';
    assert(yes ==> text@ =~= keepalive_text());
    yes
}

/// Whether an event ends one of the two loops of an established session:
/// the forwarder ends when the bus handle closes or lags or a write fails,
/// the inbound reader on a close signal or when its stream ends.
pub open spec fn ends_loop(event: SessionEvent) -> bool {
    event is BusLagged || event is BusClosed || event is WriteFailed || event is InboundClose
        || event is InboundEnded
}

/// The machine: the next state and the action for each state and event.
pub open spec fn transition(state: SessionState, event: SessionEvent) -> (
    SessionState,
    SessionAction,
) {
    match state {
        SessionState::Connecting => match event {
            SessionEvent::HandshakeCompleted => (SessionState::Established, SessionAction::Open),
            SessionEvent::HandshakeFailed => (SessionState::Closed, SessionAction::Discard),
            _ => (state, SessionAction::Ignore),
        },
        SessionState::Established => match event {
            SessionEvent::BusMessage(message) => (state, SessionAction::Forward(message)),
            SessionEvent::InboundText(text) => if text@ == keepalive_text() {
                (state, SessionAction::KeepAlive)
            } else {
                (state, SessionAction::Ignore)
            },
            _ => if ends_loop(event) {
                (SessionState::Closing, SessionAction::Unregister)
            } else {
                (state, SessionAction::Ignore)
            },
        },
        SessionState::Closing => match event {
            SessionEvent::Unregistered => (SessionState::Closed, SessionAction::Release),
            _ => (state, SessionAction::Ignore),
        },
        SessionState::Closed => (state, SessionAction::Ignore),
    }
}

/// Advances a session by one event.
pub fn step(state: SessionState, event: SessionEvent) -> (next: (SessionState, SessionAction))
    ensures
        next == transition(state, event),
{
    match state {
        SessionState::Connecting => match event {
            SessionEvent::HandshakeCompleted => (SessionState::Established, SessionAction::Open),
            SessionEvent::HandshakeFailed => (SessionState::Closed, SessionAction::Discard),
            _ => (state, SessionAction::Ignore),
        },
        SessionState::Established => match event {
            SessionEvent::BusMessage(message) => (state, SessionAction::Forward(message)),
            SessionEvent::InboundText(text) => if is_keepalive(text.as_str()) {
                (state, SessionAction::KeepAlive)
            } else {
                (state, SessionAction::Ignore)
            },
            SessionEvent::BusLagged(_) | SessionEvent::BusClosed | SessionEvent::WriteFailed
            | SessionEvent::InboundClose | SessionEvent::InboundEnded => (
                SessionState::Closing,
                SessionAction::Unregister,
            ),
            _ => (state, SessionAction::Ignore),
        },
        SessionState::Closing => match event {
            SessionEvent::Unregistered => (SessionState::Closed, SessionAction::Release),
            _ => (state, SessionAction::Ignore),
        },
        SessionState::Closed => (state, SessionAction::Ignore),
    }
}

/// The state of a session that started in `start` and has seen `events`.
pub open spec fn state_after(start: SessionState, events: Seq<SessionEvent>) -> SessionState
    decreases events.len(),
{
    if events.len() == 0 {
        start
    } else {
        transition(state_after(start, events.drop_last()), events.last()).0
    }
}

/// The action that the last of `events` called for.
pub open spec fn last_action(start: SessionState, events: Seq<SessionEvent>) -> SessionAction
    recommends
        events.len() > 0,
{
    transition(state_after(start, events.drop_last()), events.last()).1
}

/// How often `action` was called for while a session that started in
/// `start` saw `events`.
pub open spec fn occurrences(
    start: SessionState,
    events: Seq<SessionEvent>,
    action: SessionAction,
) -> nat
    decreases events.len(),
{
    if events.len() == 0 {
        0
    } else if last_action(start, events) == action {
        occurrences(start, events.drop_last(), action) + 1
    } else {
        occurrences(start, events.drop_last(), action)
    }
}

/// The messages that the session was told to forward, in order.
pub open spec fn forwarded(start: SessionState, events: Seq<SessionEvent>) -> Seq<Seq<char>>
    decreases events.len(),
{
    if events.len() == 0 {
        Seq::empty()
    } else {
        match last_action(start, events) {
            SessionAction::Forward(message) => forwarded(start, events.drop_last()).push(
                message@,
            ),
            _ => forwarded(start, events.drop_last()),
        }
    }
}

/// The messages that the bus handle returned among `events`, in order.
pub open spec fn bus_messages(events: Seq<SessionEvent>) -> Seq<Seq<char>>
    decreases events.len(),
{
    if events.len() == 0 {
        Seq::empty()
    } else {
        match events.last() {
            SessionEvent::BusMessage(message) => bus_messages(events.drop_last()).push(message@),
            _ => bus_messages(events.drop_last()),
        }
    }
}

/// The place of a state in the order `Connecting`, `Established`, `Closing`, `Closed`.
pub open spec fn phase(state: SessionState) -> int {
    match state {
        SessionState::Connecting => 0,
        SessionState::Established => 1,
        SessionState::Closing => 2,
        SessionState::Closed => 3,
    }
}

/// A session never goes back to an earlier state.
pub proof fn lemma_states_only_advance(start: SessionState, events: Seq<SessionEvent>)
    ensures
        phase(start) <= phase(state_after(start, events)),
    decreases events.len(),
{
    if events.len() > 0 {
        lemma_states_only_advance(start, events.drop_last());
    }
}

/// `Closed` is terminal: whatever happens, the session stays closed and
/// nothing is asked of the caller.
pub proof fn lemma_closed_is_terminal(events: Seq<SessionEvent>)
    ensures
        state_after(SessionState::Closed, events) == SessionState::Closed,
        events.len() > 0 ==> last_action(SessionState::Closed, events) == SessionAction::Ignore,
    decreases events.len(),
{
    if events.len() > 0 {
        lemma_closed_is_terminal(events.drop_last());
    }
}

/// A session registers at most once and unregisters exactly once: never
/// before it has registered, never twice, and always by the time it has left
/// `Established`. A session whose handshake failed does neither.
pub proof fn lemma_unregisters_exactly_once(events: Seq<SessionEvent>)
    ensures
        ({
            let end = state_after(SessionState::Connecting, events);
            let opened = occurrences(SessionState::Connecting, events, SessionAction::Open);
            let unregistered = occurrences(
                SessionState::Connecting,
                events,
                SessionAction::Unregister,
            );
            &&& end == SessionState::Connecting ==> opened == 0 && unregistered == 0
            &&& end == SessionState::Established ==> opened == 1 && unregistered == 0
            &&& end == SessionState::Closing ==> opened == 1 && unregistered == 1
            &&& end == SessionState::Closed ==> opened <= 1 && unregistered == opened
        }),
    decreases events.len(),
{
    if events.len() > 0 {
        lemma_unregisters_exactly_once(events.drop_last());
    }
}

/// While nothing ends either loop, an established session stays established
/// and forwards every message that its bus handle returns, each once, in the
/// order in which they came.
pub proof fn lemma_forwards_each_message_once(events: Seq<SessionEvent>)
    requires
        forall|i: int| 0 <= i < events.len() ==> !ends_loop(#[trigger] events[i]),
    ensures
        state_after(SessionState::Established, events) == SessionState::Established,
        forwarded(SessionState::Established, events) == bus_messages(events),
    decreases events.len(),
{
    if events.len() > 0 {
        let before = events.drop_last();
        assert forall|i: int| 0 <= i < before.len() implies !ends_loop(#[trigger] before[i]) by {
            assert(before[i] == events[i]);
        }
        lemma_forwards_each_message_once(before);
        assert(!ends_loop(events[events.len() - 1]));
    }
}

/// A session that is not established forwards nothing: not before the
/// handshake has completed, and never again once a loop has ended.
pub proof fn lemma_forwards_only_while_established(
    start: SessionState,
    events: Seq<SessionEvent>,
)
    requires
        events.len() > 0,
        state_after(start, events.drop_last()) != SessionState::Established,
    ensures
        !(last_action(start, events) is Forward),
{
}

} // verus!
