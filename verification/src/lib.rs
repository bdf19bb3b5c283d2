//! Verified core of the Foxglove SDK: timestamps and durations, raw channels and sinks, the
//! decision logic of the Foxglove WebSocket server, and the error codes of the C interface.

pub mod time;
pub mod channel;
pub mod error;
pub mod ids;
pub mod text;
pub mod websocket;
pub mod capi;
pub mod testutil;
