//! The decision logic of the Foxglove WebSocket server.

pub mod protocol;
pub mod parameters;
pub mod services;
pub mod session;
pub mod server;
pub mod queue;
pub mod handshake;
pub mod frames;
