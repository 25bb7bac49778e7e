//! What a user interface hands to the client backend, and what it gets back.
use vstd::prelude::*;

use crate::codec::CodecError;
use crate::message::{ChatMessage, NetworkCommand, NetworkEvent};

verus! {

/// A request from the user interface to the backend.
#[derive(Debug, Clone)]
pub enum ClientCommand {
    /// Connect to the server at this address.
    Connect(String),
    /// Close the connection, if there is one.
    Disconnect,
    /// Close the connection, if there is one, and stop the backend.
    Quit,
    /// Send a message through the server to every client.
    SendMessage(String),
}

/// The kind of a failed transport operation.
#[derive(Debug, Clone, Copy, PartialEq, Eq, Structural)]
pub enum IoErrorKind {
    NotFound,
    PermissionDenied,
    ConnectionRefused,
    ConnectionReset,
    ConnectionAborted,
    NotConnected,
    AddrInUse,
    AddrNotAvailable,
    BrokenPipe,
    TimedOut,
    UnexpectedEof,
    InvalidInput,
    Other,
}

/// Why a request failed, or what went wrong on the connection.
#[derive(Debug, Clone, Copy, PartialEq, Eq, Structural)]
pub enum EventError {
    /// A transport operation failed.
    Io(IoErrorKind),
    /// The request needs a connection, and there is none.
    NotConnected,
    /// The server's stream is corrupt.
    Protocol(CodecError),
}

/// Something that the user interface is told.
#[derive(Debug, Clone)]
pub enum ClientEvent {
    /// The backend is now connected to the server at this address.
    Connected(String),
    /// The backend is no longer connected.
    Disconnected,
    /// A message arrived from the server.
    ReceivedMessage(ChatMessage),
}

/// An event, or the error that took its place.
pub type EventResult = Result<ClientEvent, EventError>;

impl NetworkCommand {
    /// The command that goes over the network for `cmd`; the commands that the backend handles
    /// itself are handed back.
    pub fn from_client_command(cmd: ClientCommand) -> (r: Result<NetworkCommand, ClientCommand>)
        ensures
            match cmd {
                ClientCommand::SendMessage(text) => r == Ok::<NetworkCommand, ClientCommand>(
                    NetworkCommand::SendMessage(text),
                ),
                _ => r == Err::<NetworkCommand, ClientCommand>(cmd),
            },
    {
        match cmd {
            ClientCommand::SendMessage(text) => Ok(NetworkCommand::SendMessage(text)),
            other => Err(other),
        }
    }
}

/// The event that the user interface is told of for a network event.
pub open spec fn client_event_of(e: NetworkEvent) -> ClientEvent {
    match e {
        NetworkEvent::ReceivedMessage(m) => ClientEvent::ReceivedMessage(m),
    }
}

impl From<NetworkEvent> for ClientEvent {
    fn from(e: NetworkEvent) -> (r: ClientEvent) {
        match e {
            NetworkEvent::ReceivedMessage(m) => ClientEvent::ReceivedMessage(m),
        }
    }
}

impl vstd::std_specs::convert::FromSpecImpl<NetworkEvent> for ClientEvent {
    open spec fn obeys_from_spec() -> bool {
        true
    }

    open spec fn from_spec(e: NetworkEvent) -> ClientEvent {
        client_event_of(e)
    }
}

} // verus!
