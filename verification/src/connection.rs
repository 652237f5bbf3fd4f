//! The life of the stream subscription: when to connect, when to wait, when to let go.
//!
//! The subscription walks the circle `Disconnected`, `Connecting`, `Connected`,
//! `Disconnecting`, `Disconnected`. The program around it performs each action and reports
//! what came of it; what to do next is decided here.

use vstd::prelude::*;

verus! {

/// The seconds to wait before connecting again.
pub const RECONNECT_DELAY_SECONDS: u64 = 5;

/// Where the subscription stands.
#[derive(Debug, Clone, Copy, PartialEq, Eq, Structural)]
pub enum ConnectionState {
    Disconnected,
    Connecting,
    Connected,
    Disconnecting,
}

/// What the program around the subscription reports.
#[derive(Debug, Clone, Copy, PartialEq, Eq, Structural)]
pub enum ConnectionEvent {
    /// The subscription is asked to run.
    Start,
    /// The socket was opened.
    Opened,
    /// The socket could not be opened.
    OpenFailed,
    /// The stream broke.
    StreamFailed,
    /// The stream was closed by the other side.
    StreamClosed,
    /// The socket was released.
    Released,
    /// The wait is over.
    DelayElapsed,
    /// The subscription is asked to end.
    Cancelled,
}

/// What the program around the subscription is to do next.
#[derive(Debug, Clone, Copy, PartialEq, Eq, Structural)]
pub enum ConnectionAction {
    /// Open the socket.
    Open,
    /// Read and dispatch events until the stream ends.
    Receive,
    /// Release the socket.
    Release,
    /// Wait this many seconds.
    Wait(u64),
    /// End the subscription.
    Stop,
    /// Nothing: the report does not concern the present state.
    Ignore,
}

/// The subscription: its state, and whether it was asked to end.
#[derive(Debug, Clone, Copy, PartialEq, Eq, Structural)]
pub struct Connection {
    pub state: ConnectionState,
    pub stopping: bool,
}

/// The subscription after an event, and the action that the event calls for.
pub open spec fn transition(c: Connection, event: ConnectionEvent) -> (Connection, ConnectionAction) {
    match (c.state, event) {
        (ConnectionState::Disconnected, ConnectionEvent::Cancelled) => (
            Connection { state: ConnectionState::Disconnected, stopping: true },
            ConnectionAction::Stop,
        ),
        (_, ConnectionEvent::Cancelled) => (
            Connection { state: ConnectionState::Disconnecting, stopping: true },
            ConnectionAction::Release,
        ),
        (ConnectionState::Disconnected, ConnectionEvent::Start)
        | (ConnectionState::Disconnected, ConnectionEvent::DelayElapsed) => if c.stopping {
            (c, ConnectionAction::Stop)
        } else {
            (Connection { state: ConnectionState::Connecting, ..c }, ConnectionAction::Open)
        },
        (ConnectionState::Connecting, ConnectionEvent::Opened) => (
            Connection { state: ConnectionState::Connected, ..c },
            ConnectionAction::Receive,
        ),
        (ConnectionState::Connecting, ConnectionEvent::OpenFailed) => (
            Connection { state: ConnectionState::Disconnected, ..c },
            ConnectionAction::Wait(RECONNECT_DELAY_SECONDS),
        ),
        (ConnectionState::Connected, ConnectionEvent::StreamFailed)
        | (ConnectionState::Connected, ConnectionEvent::StreamClosed) => (
            Connection { state: ConnectionState::Disconnecting, ..c },
            ConnectionAction::Release,
        ),
        (ConnectionState::Disconnecting, ConnectionEvent::Released) => (
            Connection { state: ConnectionState::Disconnected, ..c },
            if c.stopping {
                ConnectionAction::Stop
            } else {
                ConnectionAction::Wait(RECONNECT_DELAY_SECONDS)
            },
        ),
        _ => (c, ConnectionAction::Ignore),
    }
}

/// A subscription that was asked to end holds no socket, or is releasing the one it has.
pub open spec fn is_consistent(c: Connection) -> bool {
    c.stopping ==> c.state == ConnectionState::Disconnected || c.state
        == ConnectionState::Disconnecting
}

/// The state that follows `state` on the circle.
pub open spec fn successor(state: ConnectionState) -> ConnectionState {
    match state {
        ConnectionState::Disconnected => ConnectionState::Connecting,
        ConnectionState::Connecting => ConnectionState::Connected,
        ConnectionState::Connected => ConnectionState::Disconnecting,
        ConnectionState::Disconnecting => ConnectionState::Disconnected,
    }
}

impl Connection {
    /// A subscription that has not run yet.
    pub fn new() -> (c: Connection)
        ensures
            c == (Connection { state: ConnectionState::Disconnected, stopping: false }),
            is_consistent(c),
    {
        Connection { state: ConnectionState::Disconnected, stopping: false }
    }

    /// Takes an event in: the subscription moves on as `transition` says, and the action
    /// that the event calls for is returned.
    pub fn step(&mut self, event: ConnectionEvent) -> (action: ConnectionAction)
        ensures
            (*final(self), action) == transition(*old(self), event),
            is_consistent(*old(self)) ==> is_consistent(*final(self)),
    {
        let stopping = self.stopping;
        let (state, action) = match (self.state, event) {
            (ConnectionState::Disconnected, ConnectionEvent::Cancelled) => {
                self.stopping = true;
                (ConnectionState::Disconnected, ConnectionAction::Stop)
            },
            (_, ConnectionEvent::Cancelled) => {
                self.stopping = true;
                (ConnectionState::Disconnecting, ConnectionAction::Release)
            },
            (ConnectionState::Disconnected, ConnectionEvent::Start)
            | (ConnectionState::Disconnected, ConnectionEvent::DelayElapsed) => {
                if stopping {
                    (ConnectionState::Disconnected, ConnectionAction::Stop)
                } else {
                    (ConnectionState::Connecting, ConnectionAction::Open)
                }
            },
            (ConnectionState::Connecting, ConnectionEvent::Opened) => (
                ConnectionState::Connected,
                ConnectionAction::Receive,
            ),
            (ConnectionState::Connecting, ConnectionEvent::OpenFailed) => (
                ConnectionState::Disconnected,
                ConnectionAction::Wait(RECONNECT_DELAY_SECONDS),
            ),
            (ConnectionState::Connected, ConnectionEvent::StreamFailed)
            | (ConnectionState::Connected, ConnectionEvent::StreamClosed) => (
                ConnectionState::Disconnecting,
                ConnectionAction::Release,
            ),
            (ConnectionState::Disconnecting, ConnectionEvent::Released) => (
                ConnectionState::Disconnected,
                if stopping {
                    ConnectionAction::Stop
                } else {
                    ConnectionAction::Wait(RECONNECT_DELAY_SECONDS)
                },
            ),
            (state, _) => (state, ConnectionAction::Ignore),
        };
        self.state = state;
        action
    }
}

/// An event leaves the state where it is, moves it one step along the circle, sends a
/// failed attempt to connect back to `Disconnected`, or, on a request to end, starts the
/// release of the socket.
pub proof fn states_follow_the_circle(c: Connection, event: ConnectionEvent)
    ensures
        ({
            let next = transition(c, event).0.state;
            ||| next == c.state
            ||| next == successor(c.state)
            ||| c.state == ConnectionState::Connecting && event == ConnectionEvent::OpenFailed && next
                == ConnectionState::Disconnected
            ||| event == ConnectionEvent::Cancelled && next == ConnectionState::Disconnecting
        }),
{
}

/// The socket is opened only from `Disconnected`, on a start or after a wait, and every
/// wait lasts `RECONNECT_DELAY_SECONDS`: between a failure and the next attempt lies a
/// wait of that length.
pub proof fn reconnects_only_after_the_delay(c: Connection, event: ConnectionEvent)
    ensures
        transition(c, event).1 == ConnectionAction::Open ==> c.state
            == ConnectionState::Disconnected && !c.stopping && (event == ConnectionEvent::Start
            || event == ConnectionEvent::DelayElapsed),
        forall|seconds: u64|
            transition(c, event).1 == ConnectionAction::Wait(seconds) ==> seconds
                == RECONNECT_DELAY_SECONDS && transition(c, event).0.state
                == ConnectionState::Disconnected,
        (event == ConnectionEvent::OpenFailed && c.state == ConnectionState::Connecting)
            ==> transition(c, event).1 == ConnectionAction::Wait(RECONNECT_DELAY_SECONDS),
{
}

/// Once the subscription was asked to end it stays so: it never opens the socket or
/// reads from the stream again, and the release of the socket ends it.
pub proof fn cancellation_is_final(c: Connection, event: ConnectionEvent)
    requires
        is_consistent(c),
    ensures
        is_consistent(transition(c, event).0),
        transition(c, ConnectionEvent::Cancelled).0.stopping,
        c.stopping ==> transition(c, event).0.stopping,
        c.stopping ==> transition(c, event).1 != ConnectionAction::Open && transition(c, event).1
            != ConnectionAction::Receive,
        c.stopping && event == ConnectionEvent::Released ==> transition(c, event) == (
            Connection { state: ConnectionState::Disconnected, stopping: true },
            if c.state == ConnectionState::Disconnecting {
                ConnectionAction::Stop
            } else {
                ConnectionAction::Ignore
            },
        ),
{
}

} // verus!
