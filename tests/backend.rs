use my_chat::backend::{BackendAction, BackendInput, ChatBackend, Shutdown};
use my_chat::client::{ClientCommand, ClientEvent, EventError, IoErrorKind};
use my_chat::codec::CodecError;
use my_chat::message::{ChatMessage, NetworkCommand, NetworkEvent};
use my_chat::server::{ActorAction, ActorInput, Server, ServerAction, ServerInput};

fn command(c: ClientCommand) -> BackendInput {
    BackendInput::Command(c)
}

fn connected(addr: &str) -> ChatBackend {
    let mut b = ChatBackend::new();
    b.step(command(ClientCommand::Connect(addr.to_string())));
    b.step(BackendInput::Opened(addr.to_string()));
    b
}

#[test]
fn new_backend_is_disconnected_and_running() {
    let b = ChatBackend::new();
    assert!(!b.is_connected());
    assert_eq!(b.shutdown, Shutdown::Running);
}

#[test]
fn disconnect_twice_while_disconnected_does_nothing() {
    let mut b = ChatBackend::new();
    assert!(b.step(command(ClientCommand::Disconnect)).is_empty());
    assert!(b.step(command(ClientCommand::Disconnect)).is_empty());
    assert!(!b.is_connected());
    assert_eq!(b.shutdown, Shutdown::Running);
}

#[test]
fn send_while_disconnected_reports_not_connected() {
    let mut b = ChatBackend::new();
    let actions = b.step(command(ClientCommand::SendMessage("hi".to_string())));
    assert_eq!(actions.len(), 1);
    assert!(matches!(actions[0], BackendAction::Emit(Err(EventError::NotConnected))));
    assert!(!actions.iter().any(|a| matches!(a, BackendAction::Send(_))));
}

#[test]
fn connect_send_disconnect_scenario() {
    let addr = "127.0.0.1:9000";
    let mut b = ChatBackend::new();

    let actions = b.step(command(ClientCommand::Connect(addr.to_string())));
    assert_eq!(actions.len(), 1);
    assert!(matches!(&actions[0], BackendAction::Open(a) if a == addr));
    assert!(!b.is_connected());

    let actions = b.step(BackendInput::Opened(addr.to_string()));
    assert!(b.is_connected());
    assert_eq!(actions.len(), 1);
    assert!(matches!(&actions[0], BackendAction::Emit(Ok(ClientEvent::Connected(a))) if a == addr));

    let actions = b.step(command(ClientCommand::SendMessage("hi".to_string())));
    assert_eq!(actions.len(), 1);
    let sent = match &actions[0] {
        BackendAction::Send(c) => c.clone(),
        other => panic!("expected a send, got {:?}", other),
    };
    assert_eq!(sent, NetworkCommand::SendMessage("hi".to_string()));
    assert!(b.step(BackendInput::Sent(Ok(()))).is_empty());

    // The server publishes it to every connection, and each writes it to its client.
    let server = Server::new();
    let actor = server.handle_new_connection("127.0.0.1:50000".to_string());
    let forwarded = actor.step(ActorInput::Inbound(sent));
    let (from, cmd) = match forwarded {
        ActorAction::Forward(from, cmd) => (from, cmd),
        other => panic!("expected a forward, got {:?}", other),
    };
    let published = match server.step(ServerInput::Command(from, cmd)) {
        ServerAction::Publish(e) => e,
        other => panic!("expected a publish, got {:?}", other),
    };
    let expected = NetworkEvent::ReceivedMessage(ChatMessage {
        contents: "hi".to_string(),
        sender: "127.0.0.1:50000".to_string(),
    });
    assert_eq!(published, expected);

    let actions = b.step(BackendInput::Received(published));
    assert_eq!(actions.len(), 1);
    assert!(matches!(
        &actions[0],
        BackendAction::Emit(Ok(ClientEvent::ReceivedMessage(m)))
            if m.contents == "hi" && m.sender == "127.0.0.1:50000"
    ));

    let actions = b.step(command(ClientCommand::Disconnect));
    assert_eq!(actions.len(), 1);
    assert!(matches!(actions[0], BackendAction::Close));
    assert!(!b.is_connected());
    let actions = b.step(BackendInput::Closed(Ok(())));
    assert_eq!(actions.len(), 1);
    assert!(matches!(actions[0], BackendAction::Emit(Ok(ClientEvent::Disconnected))));
}

#[test]
fn server_closing_the_stream_disconnects() {
    let mut b = connected("127.0.0.1:9000");
    let actions = b.step(BackendInput::EndOfStream);
    assert!(!b.is_connected());
    assert_eq!(actions.len(), 1);
    assert!(matches!(actions[0], BackendAction::Close));
    let actions = b.step(BackendInput::Closed(Err(IoErrorKind::NotConnected)));
    assert_eq!(actions.len(), 1);
    assert!(matches!(actions[0], BackendAction::Emit(Ok(ClientEvent::Disconnected))));
}

#[test]
fn unclean_close_still_reports_disconnected() {
    let mut b = connected("server:1");
    b.step(command(ClientCommand::Disconnect));
    let actions = b.step(BackendInput::Closed(Err(IoErrorKind::BrokenPipe)));
    assert_eq!(actions.len(), 1);
    assert!(matches!(actions[0], BackendAction::Emit(Ok(ClientEvent::Disconnected))));
}

#[test]
fn failed_connect_reports_the_error_and_stays_disconnected() {
    let mut b = ChatBackend::new();
    b.step(command(ClientCommand::Connect("127.0.0.1:1".to_string())));
    let actions = b.step(BackendInput::OpenFailed(IoErrorKind::ConnectionRefused));
    assert!(!b.is_connected());
    assert_eq!(actions.len(), 1);
    assert!(matches!(
        actions[0],
        BackendAction::Emit(Err(EventError::Io(IoErrorKind::ConnectionRefused)))
    ));
}

#[test]
fn failed_send_reports_the_error() {
    let mut b = connected("server:1");
    b.step(command(ClientCommand::SendMessage("x".to_string())));
    let actions = b.step(BackendInput::Sent(Err(IoErrorKind::BrokenPipe)));
    assert!(b.is_connected());
    assert_eq!(actions.len(), 1);
    assert!(matches!(actions[0], BackendAction::Emit(Err(EventError::Io(IoErrorKind::BrokenPipe)))));
}

#[test]
fn receive_error_is_reported_without_disconnecting() {
    let mut b = connected("server:1");
    let err = EventError::Protocol(CodecError::MalformedPayload);
    let actions = b.step(BackendInput::ReceiveFailed(err));
    assert!(b.is_connected());
    assert_eq!(actions.len(), 1);
    assert!(matches!(actions[0], BackendAction::Emit(Err(e)) if e == err));
}

#[test]
fn quit_while_connected_closes_reports_and_stops() {
    let mut b = connected("server:1");
    let actions = b.step(command(ClientCommand::Quit));
    assert_eq!(b.shutdown, Shutdown::Quitting);
    assert_eq!(actions.len(), 1);
    assert!(matches!(actions[0], BackendAction::Close));
    let actions = b.step(BackendInput::Closed(Ok(())));
    assert_eq!(actions.len(), 2);
    assert!(matches!(actions[0], BackendAction::Emit(Ok(ClientEvent::Disconnected))));
    assert!(matches!(actions[1], BackendAction::Stop));
}

#[test]
fn quit_while_disconnected_stops() {
    let mut b = ChatBackend::new();
    let actions = b.step(command(ClientCommand::Quit));
    assert_eq!(actions.len(), 1);
    assert!(matches!(actions[0], BackendAction::Stop));
}

#[test]
fn lost_user_interface_closes_quietly_and_stops() {
    let mut b = connected("server:1");
    let actions = b.step(BackendInput::OutboxClosed);
    assert_eq!(b.shutdown, Shutdown::UiGone);
    assert_eq!(actions.len(), 1);
    assert!(matches!(actions[0], BackendAction::Close));
    let actions = b.step(BackendInput::Closed(Ok(())));
    assert_eq!(actions.len(), 1);
    assert!(matches!(actions[0], BackendAction::Stop));

    let mut idle = ChatBackend::new();
    let actions = idle.step(BackendInput::InboxClosed);
    assert_eq!(actions.len(), 1);
    assert!(matches!(actions[0], BackendAction::Stop));
}

#[test]
fn only_send_message_goes_over_the_network() {
    assert_eq!(
        NetworkCommand::from_client_command(ClientCommand::SendMessage("m".to_string())).ok(),
        Some(NetworkCommand::SendMessage("m".to_string()))
    );
    assert!(matches!(
        NetworkCommand::from_client_command(ClientCommand::Disconnect),
        Err(ClientCommand::Disconnect)
    ));
    assert!(matches!(
        NetworkCommand::from_client_command(ClientCommand::Quit),
        Err(ClientCommand::Quit)
    ));
}

#[test]
fn network_event_becomes_client_event() {
    let e = NetworkEvent::ReceivedMessage(ChatMessage {
        contents: "c".to_string(),
        sender: "s".to_string(),
    });
    assert!(matches!(
        ClientEvent::from(e),
        ClientEvent::ReceivedMessage(m) if m.contents == "c" && m.sender == "s"
    ));
}
