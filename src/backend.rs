//! The client backend: it stands between a user interface and at most one connection to a
//! server. Its decisions are a state machine; whoever runs it performs the actions it asks for
//! (open, close, send, emit) and hands back what came of them.
use vstd::prelude::*;

use crate::client::{client_event_of, ClientCommand, ClientEvent, EventError, EventResult, IoErrorKind};
use crate::message::{NetworkCommand, NetworkEvent};

verus! {

/// Whether the backend is running, and if not, why it is stopping.
#[derive(Debug, Clone, Copy, PartialEq, Eq, Structural)]
pub enum Shutdown {
    /// Handling commands and events.
    Running,
    /// The user interface asked to quit.
    Quitting,
    /// The user interface is gone: its inbox or outbox is closed.
    UiGone,
}

/// What the backend is told.
#[derive(Debug)]
pub enum BackendInput {
    /// A command arrived on the inbox.
    Command(ClientCommand),
    /// The inbox is closed.
    InboxClosed,
    /// An emission to the outbox failed: nobody reads it any more.
    OutboxClosed,
    /// Outcome of `Open`: the connection to this address is up.
    Opened(String),
    /// Outcome of `Open`: the connection could not be made.
    OpenFailed(IoErrorKind),
    /// Outcome of `Close`: the connection is released, cleanly or not.
    Closed(Result<(), IoErrorKind>),
    /// Outcome of `Send`.
    Sent(Result<(), IoErrorKind>),
    /// The connection yielded an event.
    Received(NetworkEvent),
    /// Receiving from the connection failed.
    ReceiveFailed(EventError),
    /// The server closed the stream.
    EndOfStream,
}

/// What the backend asks to be done. `Open`, `Close` and `Send` each call for one input with
/// their outcome (`Opened` or `OpenFailed`, `Closed`, `Sent`) before anything else.
#[derive(Debug)]
pub enum BackendAction {
    /// Connect to this address; a connection that is there already is replaced and dropped.
    Open(String),
    /// Shut the connection down and release it; it is not used again.
    Close,
    /// Write this command to the connection.
    Send(NetworkCommand),
    /// Hand this to the user interface.
    Emit(EventResult),
    /// Leave the event loop.
    Stop,
}

/// The backend's state.
#[derive(Debug)]
pub struct ChatBackend {
    /// The address of the server that the backend is attached to, if any.
    pub connection: Option<String>,
    /// Whether the backend is stopping, and why.
    pub shutdown: Shutdown,
}

/// The backend after a command, and the actions it asks for.
pub open spec fn command_step(s: ChatBackend, cmd: ClientCommand) -> (ChatBackend, Seq<BackendAction>) {
    match cmd {
        ClientCommand::Connect(addr) => (s, seq![BackendAction::Open(addr)]),
        ClientCommand::Disconnect => close_step(s),
        ClientCommand::Quit => close_step(ChatBackend { shutdown: Shutdown::Quitting, ..s }),
        ClientCommand::SendMessage(text) => if s.connection is Some {
            (s, seq![BackendAction::Send(NetworkCommand::SendMessage(text))])
        } else {
            (s, seq![BackendAction::Emit(Err(EventError::NotConnected))])
        },
    }
}

/// Releasing the connection: close it if there is one; otherwise there is nothing to do, or,
/// when stopping, nothing left but to stop.
pub open spec fn close_step(s: ChatBackend) -> (ChatBackend, Seq<BackendAction>) {
    if s.connection is Some {
        (ChatBackend { connection: None, ..s }, seq![BackendAction::Close])
    } else if s.shutdown is Running {
        (s, seq![])
    } else {
        (s, seq![BackendAction::Stop])
    }
}

/// What follows a released connection.
pub open spec fn closed_actions(shutdown: Shutdown) -> Seq<BackendAction> {
    match shutdown {
        Shutdown::Running => seq![BackendAction::Emit(Ok(ClientEvent::Disconnected))],
        Shutdown::Quitting => seq![
            BackendAction::Emit(Ok(ClientEvent::Disconnected)),
            BackendAction::Stop,
        ],
        Shutdown::UiGone => seq![BackendAction::Stop],
    }
}

/// The backend after an input, and the actions it asks for.
pub open spec fn step_spec(s: ChatBackend, input: BackendInput) -> (ChatBackend, Seq<BackendAction>) {
    match input {
        BackendInput::Command(cmd) => command_step(s, cmd),
        BackendInput::InboxClosed => close_step(ChatBackend { shutdown: Shutdown::UiGone, ..s }),
        BackendInput::OutboxClosed => close_step(ChatBackend { shutdown: Shutdown::UiGone, ..s }),
        BackendInput::Opened(addr) => (
            ChatBackend { connection: Some(addr), ..s },
            seq![BackendAction::Emit(Ok(ClientEvent::Connected(addr)))],
        ),
        BackendInput::OpenFailed(kind) => (s, seq![BackendAction::Emit(Err(EventError::Io(kind)))]),
        BackendInput::Closed(_) => (s, closed_actions(s.shutdown)),
        BackendInput::Sent(Ok(())) => (s, seq![]),
        BackendInput::Sent(Err(kind)) => (s, seq![BackendAction::Emit(Err(EventError::Io(kind)))]),
        BackendInput::Received(e) => (s, seq![BackendAction::Emit(Ok(client_event_of(e)))]),
        BackendInput::ReceiveFailed(err) => (s, seq![BackendAction::Emit(Err(err))]),
        BackendInput::EndOfStream => close_step(s),
    }
}

/// Disconnecting a backend that is not connected changes nothing and reports nothing: no error
/// and no `Disconnected` event, however often it is repeated. A running backend is not even
/// asked to do anything.
pub proof fn lemma_disconnect_idempotent(s: ChatBackend)
    requires
        s.connection is None,
    ensures
        step_spec(s, BackendInput::Command(ClientCommand::Disconnect)).0 == s,
        forall|i: int|
            0 <= i < step_spec(s, BackendInput::Command(ClientCommand::Disconnect)).1.len()
                ==> !(#[trigger] step_spec(
                s,
                BackendInput::Command(ClientCommand::Disconnect),
            ).1[i] is Emit),
        step_spec(
            step_spec(s, BackendInput::Command(ClientCommand::Disconnect)).0,
            BackendInput::Command(ClientCommand::Disconnect),
        ) == step_spec(s, BackendInput::Command(ClientCommand::Disconnect)),
        s.shutdown is Running ==> step_spec(s, BackendInput::Command(ClientCommand::Disconnect))
            == (s, Seq::<BackendAction>::empty()),
{
}

/// A message to send while not connected is not sent: the user interface gets a not-connected
/// error instead, and nothing goes to the network.
pub proof fn lemma_send_while_disconnected(s: ChatBackend, text: String)
    requires
        s.connection is None,
    ensures
        step_spec(s, BackendInput::Command(ClientCommand::SendMessage(text))) == (
            s,
            seq![BackendAction::Emit(Err(EventError::NotConnected))],
        ),
{
}

/// When the server closes the stream, a running backend releases the connection, becomes
/// disconnected, and once the connection is released tells the user interface `Disconnected`.
pub proof fn lemma_end_of_stream_disconnects(s: ChatBackend, outcome: Result<(), IoErrorKind>)
    requires
        s.connection is Some,
        s.shutdown is Running,
    ensures
        step_spec(s, BackendInput::EndOfStream) == (
            ChatBackend { connection: None, ..s },
            seq![BackendAction::Close],
        ),
        step_spec(ChatBackend { connection: None, ..s }, BackendInput::Closed(outcome)) == (
            ChatBackend { connection: None, ..s },
            seq![BackendAction::Emit(Ok(ClientEvent::Disconnected))],
        ),
{
}

impl ChatBackend {
    /// A backend that is not connected and is running.
    pub fn new() -> (r: ChatBackend)
        ensures
            r.connection is None,
            r.shutdown == Shutdown::Running,
    {
        ChatBackend { connection: None, shutdown: Shutdown::Running }
    }

    /// Whether the backend believes it is attached to a live server.
    pub fn is_connected(&self) -> (r: bool)
        ensures
            r == self.connection is Some,
    {
        self.connection.is_some()
    }

    /// Takes one input and says what to do about it.
    pub fn step(&mut self, input: BackendInput) -> (r: Vec<BackendAction>)
        ensures
            (*final(self), r@) == step_spec(*old(self), input),
    {
        match input {
            BackendInput::Command(cmd) => self.handle_command(cmd),
            BackendInput::InboxClosed => {
                self.shutdown = Shutdown::UiGone;
                self.disconnect()
            },
            BackendInput::OutboxClosed => {
                self.shutdown = Shutdown::UiGone;
                self.disconnect()
            },
            BackendInput::Opened(addr) => self.connected(addr),
            BackendInput::OpenFailed(kind) => vec![BackendAction::Emit(Err(EventError::Io(kind)))],
            BackendInput::Closed(_) => self.released(),
            BackendInput::Sent(Ok(())) => Vec::new(),
            BackendInput::Sent(Err(kind)) => vec![BackendAction::Emit(Err(EventError::Io(kind)))],
            BackendInput::Received(e) => self.handle_event(e),
            BackendInput::ReceiveFailed(err) => vec![BackendAction::Emit(Err(err))],
            BackendInput::EndOfStream => self.disconnect(),
        }
    }

    /// Takes one command from the user interface.
    fn handle_command(&mut self, cmd: ClientCommand) -> (r: Vec<BackendAction>)
        ensures
            (*final(self), r@) == command_step(*old(self), cmd),
    {
        match cmd {
            ClientCommand::Connect(addr) => vec![BackendAction::Open(addr)],
            ClientCommand::Disconnect => self.disconnect(),
            ClientCommand::Quit => {
                self.shutdown = Shutdown::Quitting;
                self.disconnect()
            },
            other => match NetworkCommand::from_client_command(other) {
                Ok(command) => self.send_network_command(command),
                Err(_) => Vec::new(),
            },
        }
    }

    /// Takes an event from the connection.
    fn handle_event(&mut self, e: NetworkEvent) -> (r: Vec<BackendAction>)
        ensures
            *final(self) == *old(self),
            r@ == seq![BackendAction::Emit(Ok(client_event_of(e)))],
    {
        vec![BackendAction::Emit(Ok(ClientEvent::from(e)))]
    }

    /// The connection to `addr` is up.
    fn connected(&mut self, addr: String) -> (r: Vec<BackendAction>)
        ensures
            *final(self) == (ChatBackend { connection: Some(addr), ..*old(self) }),
            r@ == seq![BackendAction::Emit(Ok(ClientEvent::Connected(addr)))],
    {
        let event = ClientEvent::Connected(addr.clone());
        self.connection = Some(addr);
        vec![BackendAction::Emit(Ok(event))]
    }

    /// Releases the connection, if there is one.
    fn disconnect(&mut self) -> (r: Vec<BackendAction>)
        ensures
            (*final(self), r@) == close_step(*old(self)),
    {
        if self.connection.is_some() {
            self.connection = None;
            vec![BackendAction::Close]
        } else {
            match self.shutdown {
                Shutdown::Running => Vec::new(),
                _ => vec![BackendAction::Stop],
            }
        }
    }

    /// The connection has been released.
    fn released(&mut self) -> (r: Vec<BackendAction>)
        ensures
            *final(self) == *old(self),
            r@ == closed_actions(old(self).shutdown),
    {
        match self.shutdown {
            Shutdown::Running => vec![BackendAction::Emit(Ok(ClientEvent::Disconnected))],
            Shutdown::Quitting => vec![
                BackendAction::Emit(Ok(ClientEvent::Disconnected)),
                BackendAction::Stop,
            ],
            Shutdown::UiGone => vec![BackendAction::Stop],
        }
    }

    /// Sends `command` over the connection, or reports that there is none.
    fn send_network_command(&mut self, command: NetworkCommand) -> (r: Vec<BackendAction>)
        ensures
            *final(self) == *old(self),
            old(self).connection is Some ==> r@ == seq![BackendAction::Send(command)],
            old(self).connection is None ==> r@ == seq![
                BackendAction::Emit(Err(EventError::NotConnected)),
            ],
    {
        if self.connection.is_some() {
            vec![BackendAction::Send(command)]
        } else {
            vec![BackendAction::Emit(Err(EventError::NotConnected))]
        }
    }
}

} // verus!
