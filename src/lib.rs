//! A small real-time chat service: the wire protocol and its framing, the client backend's
//! state machine, and the decisions of the server and of each of its connections.
pub mod backend;
pub mod client;
pub mod codec;
pub mod delimiter;
pub mod message;
pub mod server;
pub mod ui;
pub mod wire;
