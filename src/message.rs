//! The messages that travel between a client and the server.
use vstd::prelude::*;

verus! {

/// A message sent by one client to every client connected to the same server.
#[derive(Debug, Clone)]
pub struct ChatMessage {
    /// The text of the message.
    pub contents: String,
    /// Who sent it.
    pub sender: String,
}

/// What a client asks of the server.
#[derive(Debug, Clone)]
pub enum NetworkCommand {
    /// Publish a message to every connected client.
    SendMessage(String),
}

/// What the server tells a client.
#[derive(Debug, Clone)]
pub enum NetworkEvent {
    /// A message that some client sent, the receiver included.
    ReceivedMessage(ChatMessage),
}

/// The value of a `ChatMessage`.
pub struct ChatMessageView {
    pub contents: Seq<char>,
    pub sender: Seq<char>,
}

/// The value of a `NetworkCommand`.
pub enum CommandView {
    SendMessage(Seq<char>),
}

/// The value of a `NetworkEvent`.
pub enum EventView {
    ReceivedMessage(ChatMessageView),
}

impl View for ChatMessage {
    type V = ChatMessageView;

    open spec fn view(&self) -> ChatMessageView {
        ChatMessageView { contents: self.contents@, sender: self.sender@ }
    }
}

impl View for NetworkCommand {
    type V = CommandView;

    open spec fn view(&self) -> CommandView {
        match self {
            NetworkCommand::SendMessage(text) => CommandView::SendMessage(text@),
        }
    }
}

impl View for NetworkEvent {
    type V = EventView;

    open spec fn view(&self) -> EventView {
        match self {
            NetworkEvent::ReceivedMessage(m) => EventView::ReceivedMessage(m@),
        }
    }
}

impl PartialEq for ChatMessage {
    fn eq(&self, other: &ChatMessage) -> (r: bool) {
        self.contents == other.contents && self.sender == other.sender
    }
}

impl vstd::std_specs::cmp::PartialEqSpecImpl for ChatMessage {
    open spec fn obeys_eq_spec() -> bool {
        true
    }

    open spec fn eq_spec(&self, other: &ChatMessage) -> bool {
        self@ == other@
    }
}

impl PartialEq for NetworkCommand {
    fn eq(&self, other: &NetworkCommand) -> (r: bool) {
        match (self, other) {
            (NetworkCommand::SendMessage(a), NetworkCommand::SendMessage(b)) => *a == *b,
        }
    }
}

impl vstd::std_specs::cmp::PartialEqSpecImpl for NetworkCommand {
    open spec fn obeys_eq_spec() -> bool {
        true
    }

    open spec fn eq_spec(&self, other: &NetworkCommand) -> bool {
        self@ == other@
    }
}

impl PartialEq for NetworkEvent {
    fn eq(&self, other: &NetworkEvent) -> (r: bool) {
        match (self, other) {
            (NetworkEvent::ReceivedMessage(a), NetworkEvent::ReceivedMessage(b)) => a == b,
        }
    }
}

impl vstd::std_specs::cmp::PartialEqSpecImpl for NetworkEvent {
    open spec fn obeys_eq_spec() -> bool {
        true
    }

    open spec fn eq_spec(&self, other: &NetworkEvent) -> bool {
        self@ == other@
    }
}

} // verus!
