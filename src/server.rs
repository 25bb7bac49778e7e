//! The server's decisions, and those of each connection it accepts. The server reads commands
//! from a funnel that every connection feeds and publishes events on a broadcast channel that
//! every connection reads; the channels and sockets belong to whoever runs these steps.
//!
//! A connection that falls behind the broadcast channel is closed rather than allowed to skip
//! the events it missed: its client then knows that it may have lost messages.
use vstd::prelude::*;

use crate::client::IoErrorKind;
use crate::codec::CodecError;
use crate::message::{ChatMessage, NetworkCommand, NetworkEvent};

verus! {

/// One accepted connection, known by the identity given to it at accept time.
#[derive(Debug, Clone)]
pub struct ConnectionActor {
    /// Who the connection's messages are from.
    pub identity: String,
}

/// What a connection is told.
#[derive(Debug)]
pub enum ActorInput {
    /// A command arrived from the client.
    Inbound(NetworkCommand),
    /// The client's stream is corrupt.
    InboundCorrupt(CodecError),
    /// Reading from the client failed.
    InboundFailed(IoErrorKind),
    /// The client closed its stream.
    InboundEnded,
    /// The funnel to the server is closed.
    ForwardFailed,
    /// An event was published.
    Broadcast(NetworkEvent),
    /// This many events were published and dropped before this connection could read them.
    Lagged(u64),
    /// The broadcast channel is closed.
    BroadcastClosed,
    /// Writing to the client failed.
    WriteFailed(IoErrorKind),
}

/// What a connection asks to be done.
#[derive(Debug)]
pub enum ActorAction {
    /// Put this command, from this identity, in the server's funnel.
    Forward(String, NetworkCommand),
    /// Write this event to the client.
    Write(NetworkEvent),
    /// Close the connection and end its task; nothing else is affected.
    Terminate,
}

/// What the server is told.
#[derive(Debug)]
pub enum ServerInput {
    /// A client connected from this peer address.
    Accepted(String),
    /// Accepting a client failed.
    AcceptFailed(IoErrorKind),
    /// A command arrived on the funnel, with the identity of the connection it came from.
    Command(String, NetworkCommand),
    /// The funnel is closed.
    FunnelClosed,
}

/// What the server asks to be done.
#[derive(Debug)]
pub enum ServerAction {
    /// Start this connection, subscribed to the broadcast channel from now on.
    Spawn(ConnectionActor),
    /// Publish this event to every connection subscribed.
    Publish(NetworkEvent),
    /// Nothing; wait for the next input.
    Continue,
    /// Leave the event loop.
    Stop,
}

/// The server's decisions. Its listener and channels belong to whoever runs it, who keeps a
/// sender into the funnel for as long as the server runs: the funnel closing means the server is
/// gone, and the server then stops.
#[derive(Debug, Clone, Copy)]
pub struct Server;

/// What a connection does with an input.
pub open spec fn actor_step_spec(a: ConnectionActor, input: ActorInput) -> ActorAction {
    match input {
        ActorInput::Inbound(cmd) => ActorAction::Forward(a.identity, cmd),
        ActorInput::Broadcast(e) => ActorAction::Write(e),
        _ => ActorAction::Terminate,
    }
}

/// The event that applying `cmd`, from `sender`, publishes.
pub open spec fn apply_spec(sender: String, cmd: NetworkCommand) -> NetworkEvent {
    match cmd {
        NetworkCommand::SendMessage(text) => NetworkEvent::ReceivedMessage(
            ChatMessage { contents: text, sender: sender },
        ),
    }
}

/// What the server does with an input.
pub open spec fn server_step_spec(input: ServerInput) -> ServerAction {
    match input {
        ServerInput::Accepted(peer) => ServerAction::Spawn(ConnectionActor { identity: peer }),
        ServerInput::AcceptFailed(_) => ServerAction::Continue,
        ServerInput::Command(sender, cmd) => ServerAction::Publish(apply_spec(sender, cmd)),
        ServerInput::FunnelClosed => ServerAction::Stop,
    }
}

impl ConnectionActor {
    /// Takes one input: forward the client's commands, write published events, and end on any
    /// failure in either direction.
    pub fn step(&self, input: ActorInput) -> (r: ActorAction)
        ensures
            r == actor_step_spec(*self, input),
    {
        match input {
            ActorInput::Inbound(cmd) => ActorAction::Forward(self.identity.clone(), cmd),
            ActorInput::Broadcast(e) => ActorAction::Write(e),
            _ => ActorAction::Terminate,
        }
    }
}

impl Server {
    /// A server.
    pub fn new() -> (r: Server) {
        Server
    }

    /// Takes one input.
    pub fn step(&self, input: ServerInput) -> (r: ServerAction)
        ensures
            r == server_step_spec(input),
    {
        match input {
            ServerInput::Accepted(peer) => ServerAction::Spawn(self.handle_new_connection(peer)),
            ServerInput::AcceptFailed(_) => ServerAction::Continue,
            ServerInput::Command(sender, cmd) => ServerAction::Publish(
                self.handle_command(sender, cmd),
            ),
            ServerInput::FunnelClosed => ServerAction::Stop,
        }
    }

    /// The connection for a client that connected from `peer`; the peer address is its
    /// identity.
    pub fn handle_new_connection(&self, peer: String) -> (r: ConnectionActor)
        ensures
            r.identity == peer,
    {
        ConnectionActor { identity: peer }
    }

    /// The event that applying `cmd`, from `sender`, publishes.
    pub fn handle_command(&self, sender: String, cmd: NetworkCommand) -> (r: NetworkEvent)
        ensures
            r == apply_spec(sender, cmd),
    {
        match cmd {
            NetworkCommand::SendMessage(text) => NetworkEvent::ReceivedMessage(
                ChatMessage { contents: text, sender },
            ),
        }
    }
}

/// A message that one connection's client sends is forwarded with that connection's identity,
/// published as a chat message with that text and that sender, and written by every connection
/// to its client, the sender's own included.
pub proof fn lemma_broadcast_fan_out(actors: Seq<ConnectionActor>, from: int, text: String)
    requires
        0 <= from < actors.len(),
    ensures
        actor_step_spec(actors[from], ActorInput::Inbound(NetworkCommand::SendMessage(text)))
            == ActorAction::Forward(actors[from].identity, NetworkCommand::SendMessage(text)),
        server_step_spec(
            ServerInput::Command(actors[from].identity, NetworkCommand::SendMessage(text)),
        ) == ServerAction::Publish(
            NetworkEvent::ReceivedMessage(
                ChatMessage { contents: text, sender: actors[from].identity },
            ),
        ),
        forall|j: int|
            0 <= j < actors.len() ==> #[trigger] actor_step_spec(
                actors[j],
                ActorInput::Broadcast(
                    NetworkEvent::ReceivedMessage(
                        ChatMessage { contents: text, sender: actors[from].identity },
                    ),
                ),
            ) == ActorAction::Write(
                NetworkEvent::ReceivedMessage(
                    ChatMessage { contents: text, sender: actors[from].identity },
                ),
            ),
{
}

} // verus!
