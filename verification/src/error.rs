//! Errors of the SDK.

use vstd::prelude::*;

verus! {

/// An error of the SDK. Variants that wrap a cause carry its message.
#[derive(Debug, Clone, PartialEq, Eq)]
pub enum FoxgloveError {
    /// An error with no more specific kind.
    Unspecified(String),
    /// A value was out of range or otherwise invalid.
    ValueError(String),
    /// A string was not valid UTF-8.
    Utf8Error(String),
    /// The sink dropped a message because it is closed.
    SinkClosed,
    /// A schema is required.
    SchemaRequired,
    /// A message encoding is required.
    MessageEncodingRequired,
    /// The server was already started.
    ServerAlreadyStarted,
    /// Failed to bind to the specified host and port.
    Bind(String),
    /// A service with the same name is already registered.
    DuplicateService(String),
    /// Neither the service nor the server declared a supported request encoding.
    MissingRequestEncoding(String),
    /// Services are not supported on this server instance.
    ServicesNotSupported,
    /// Connection graph is not supported on this server instance.
    ConnectionGraphNotSupported,
    /// An I/O error.
    IoError(String),
    /// An error related to MCAP writing.
    McapError(String),
    /// An error while encoding a message.
    EncodeError(String),
}

} // verus!
