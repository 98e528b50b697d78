//! The connection state machine: lifecycle manager for the single outbound
//! message channel.  It owns no socket itself; it validates transitions and
//! tells the dispatcher which channel commands to issue, while the host's
//! channel callbacks come back in as dispatcher messages.

use vstd::prelude::*;

use crate::msg::{Command, WsRequest};

verus! {

/// Lifecycle of the outbound channel.
#[derive(Clone, Copy, Debug, PartialEq, Eq, Structural)]
pub enum ConnState {
    Disconnected,
    Connecting,
    Connected,
}

/// A send was attempted while no channel was open.
#[derive(Clone, Copy, Debug, PartialEq, Eq, Structural)]
pub struct SendError;

/// The connection state machine.  The channel handle held by the host is
/// present exactly while the machine is not [`ConnState::Disconnected`].
pub struct Connection {
    state: ConnState,
}

impl View for Connection {
    type V = ConnState;

    closed spec fn view(&self) -> ConnState {
        self.state
    }
}

impl Connection {
    /// A machine with no channel.
    pub fn new() -> (c: Connection)
        ensures
            c@ == ConnState::Disconnected,
    {
        Connection { state: ConnState::Disconnected }
    }

    /// The current lifecycle state.
    pub fn state(&self) -> (s: ConnState)
        ensures
            s == self@,
    {
        self.state
    }

    /// Whether the host should be holding a live channel handle.
    pub fn has_handle(&self) -> (r: bool)
        ensures
            r == (self@ != ConnState::Disconnected),
    {
        match self.state {
            ConnState::Disconnected => false,
            ConnState::Connecting => true,
            ConnState::Connected => true,
        }
    }

    /// Starts opening the channel.  Valid only while no channel exists; a
    /// duplicate connect is a caller bug and is ruled out by contract.
    pub fn connect(&mut self) -> (c: Command)
        requires
            old(self)@ == ConnState::Disconnected,
        ensures
            final(self)@ == ConnState::Connecting,
            c@ == crate::msg::CommandView::OpenSocket,
    {
        self.state = ConnState::Connecting;
        Command::OpenSocket
    }

    /// Records the channel's open event.  Valid only while the machine is
    /// waiting for exactly that event.
    pub fn opened(&mut self)
        requires
            old(self)@ == ConnState::Connecting,
        ensures
            final(self)@ == ConnState::Connected,
    {
        self.state = ConnState::Connected;
    }

    /// Records loss of the channel (error or close).  Always returns the
    /// machine to [`ConnState::Disconnected`] and gives up the handle.
    pub fn lost(&mut self)
        ensures
            final(self)@ == ConnState::Disconnected,
    {
        self.state = ConnState::Disconnected;
    }

    /// Closes the channel on request.  Valid from `Connecting` or
    /// `Connected`; the pending or open channel is cancelled at once.
    pub fn disconnect(&mut self) -> (c: Command)
        requires
            old(self)@ != ConnState::Disconnected,
        ensures
            final(self)@ == ConnState::Disconnected,
            c@ == crate::msg::CommandView::CloseSocket,
    {
        self.state = ConnState::Disconnected;
        Command::CloseSocket
    }

    /// Hands back the write command for `request` if and only if the channel
    /// is open; a send while `Disconnected` or `Connecting` is rejected with
    /// an error, never silently dropped.
    pub fn send(&self, binary: bool, request: WsRequest) -> (r: Result<Command, SendError>)
        ensures
            self@ == ConnState::Connected <==> r is Ok,
            r matches Ok(c) ==> c@ == (crate::msg::CommandView::WriteSocket {
                binary,
                request: request@,
            }),
    {
        match self.state {
            ConnState::Connected => Ok(Command::WriteSocket { binary, request }),
            _ => Err(SendError),
        }
    }
}

/// The lifecycle transition relation, one event at a time, as the machine's
/// methods implement it: `Connect` leaves `Disconnected` for `Connecting`,
/// only the open event reaches `Connected`, and loss or an explicit
/// disconnect return to `Disconnected`.
pub open spec fn conn_step(s: ConnState, ev: ConnEvent) -> ConnState {
    match ev {
        ConnEvent::Connect => ConnState::Connecting,
        ConnEvent::Opened => ConnState::Connected,
        ConnEvent::Lost => ConnState::Disconnected,
        ConnEvent::Disconnect => ConnState::Disconnected,
    }
}

/// The events that move the machine, abstracted from the methods above.
pub enum ConnEvent {
    Connect,
    Opened,
    Lost,
    Disconnect,
}

/// Which events each state admits: the contracts of the machine's methods.
pub open spec fn conn_event_valid(s: ConnState, ev: ConnEvent) -> bool {
    match ev {
        ConnEvent::Connect => s == ConnState::Disconnected,
        ConnEvent::Opened => s == ConnState::Connecting,
        ConnEvent::Lost => true,
        ConnEvent::Disconnect => s != ConnState::Disconnected,
    }
}

/// The channel is reported connected only after its open event, and the open
/// event is admitted only while connecting: no valid event sequence reaches
/// `Connected` except through `Connecting` followed by `Opened`.
pub proof fn lemma_connected_only_by_open(s: ConnState, ev: ConnEvent)
    requires
        conn_event_valid(s, ev),
        conn_step(s, ev) == ConnState::Connected,
    ensures
        ev == ConnEvent::Opened,
        s == ConnState::Connecting,
{
}

} // verus!
