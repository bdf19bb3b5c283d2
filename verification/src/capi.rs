//! The values and decisions of the C interface: error codes, capability flags, and the checks
//! that the interface makes on what a caller hands it before the SDK acts. Pointers and strings
//! from C are turned into bytes and values at the edge.

use std::collections::BTreeMap;

use vstd::prelude::*;
use vstd::utf8::{decode_utf8, valid_utf8};

use crate::channel::{following, logged, logging_reaches_every_sink, PartialMetadata, RawChannel, Schema};
use crate::error::FoxgloveError as SdkError;
use crate::ids::IdCounter;
use crate::text::owned;
use crate::time::{Duration, Timestamp};
use crate::ids::ClientId;
use crate::websocket::protocol::{
    views, Capability, ConnectionGraph, Outgoing, Parameter, Plane, ServerMessage, Service, Status, StatusLevel,
};
use crate::websocket::server::{
    advertises, server_add_services_error, carries_parameters, interested, is_server_info, status_plane, to_each, unadvertises, Server,
    ServerOptions,
};
use crate::websocket::services::service_ids;

verus! {

/// The text with which `std::str::Utf8Error` describes why the bytes are not valid UTF-8.
pub uninterp spec fn utf8_error_text(bytes: Seq<u8>) -> Seq<char>;

/// Calls `std::str::from_utf8`. As its documentation says, it succeeds exactly when the bytes
/// are valid UTF-8, and the string then holds the characters that they encode. On failure the
/// text of the error is returned, which depends on the bytes alone.
#[verifier::external_body]
pub(crate) fn str_from_utf8(bytes: &[u8]) -> (r: Result<String, String>)
    ensures
        r is Ok <==> valid_utf8(bytes@),
        r matches Ok(s) ==> s@ == decode_utf8(bytes@),
        r matches Err(e) ==> e@ == utf8_error_text(bytes@),
{
    match std::str::from_utf8(bytes) {
        Ok(s) => Ok(s.to_string()),
        Err(e) => Err(e.to_string()),
    }
}

/// The result is a UTF-8 error with this text.
pub open spec fn fails_with_utf8<T>(r: Result<T, SdkError>, text: Seq<char>) -> bool {
    r matches Err(SdkError::Utf8Error(m)) && m@ == text
}

/// The result is a value error with this text.
pub open spec fn fails_with_value<T>(r: Result<T, SdkError>, text: Seq<char>) -> bool {
    r matches Err(SdkError::ValueError(m)) && m@ == text
}

/// Reads the bytes as UTF-8 text; on failure, returns `prefix` followed by why they are not.
pub fn utf8_text(bytes: &[u8], prefix: &str) -> (r: Result<String, String>)
    ensures
        r is Ok <==> valid_utf8(bytes@),
        r matches Ok(s) ==> s@ == decode_utf8(bytes@),
        r matches Err(e) ==> e@ == prefix@ + utf8_error_text(bytes@),
{
    match str_from_utf8(bytes) {
        Ok(s) => Ok(s),
        Err(e) => {
            let mut text = owned(prefix);
            text.append(e.as_str());
            Err(text)
        },
    }
}

/// Allow clients to advertise channels to send data messages to the server.
pub const FOXGLOVE_SERVER_CAPABILITY_CLIENT_PUBLISH: u8 = 1;

/// Allow clients to subscribe and make connection graph updates.
pub const FOXGLOVE_SERVER_CAPABILITY_CONNECTION_GRAPH: u8 = 2;

/// Allow clients to get & set parameters.
pub const FOXGLOVE_SERVER_CAPABILITY_PARAMETERS: u8 = 4;

/// Inform clients about the latest server time.
pub const FOXGLOVE_SERVER_CAPABILITY_TIME: u8 = 8;

/// Allow clients to call services.
pub const FOXGLOVE_SERVER_CAPABILITY_SERVICES: u8 = 16;

/// Allow clients to request assets.
pub const FOXGLOVE_SERVER_CAPABILITY_ASSETS: u8 = 32;

/// A set of server capabilities, as bit flags.
#[derive(Clone, Copy)]
pub struct FoxgloveServerCapability {
    /// The flags.
    pub flags: u8,
}

/// Server capability flags, with the bits that name no capability kept.
#[derive(Clone, Copy, PartialEq, Eq, Structural)]
pub struct FoxgloveServerCapabilityBitFlags {
    bits: u8,
}

/// The capability if the flag is set, else nothing.
pub open spec fn if_set(flags: u8, flag: u8, c: Capability) -> Seq<Capability> {
    if flags & flag != 0 {
        seq![c]
    } else {
        Seq::empty()
    }
}

/// The capabilities whose flags are set, in the order in which the flags are declared.
pub open spec fn capabilities_of(flags: u8) -> Seq<Capability> {
    if_set(flags, FOXGLOVE_SERVER_CAPABILITY_CLIENT_PUBLISH, Capability::ClientPublish)
        + if_set(flags, FOXGLOVE_SERVER_CAPABILITY_CONNECTION_GRAPH, Capability::ConnectionGraph)
        + if_set(flags, FOXGLOVE_SERVER_CAPABILITY_PARAMETERS, Capability::Parameters)
        + if_set(flags, FOXGLOVE_SERVER_CAPABILITY_TIME, Capability::Time)
        + if_set(flags, FOXGLOVE_SERVER_CAPABILITY_SERVICES, Capability::Services)
        + if_set(flags, FOXGLOVE_SERVER_CAPABILITY_ASSETS, Capability::Assets)
}

/// The flag of a capability.
pub open spec fn flag_of(c: Capability) -> u8 {
    match c {
        Capability::ClientPublish => FOXGLOVE_SERVER_CAPABILITY_CLIENT_PUBLISH,
        Capability::ConnectionGraph => FOXGLOVE_SERVER_CAPABILITY_CONNECTION_GRAPH,
        Capability::Parameters => FOXGLOVE_SERVER_CAPABILITY_PARAMETERS,
        Capability::Time => FOXGLOVE_SERVER_CAPABILITY_TIME,
        Capability::Services => FOXGLOVE_SERVER_CAPABILITY_SERVICES,
        Capability::Assets => FOXGLOVE_SERVER_CAPABILITY_ASSETS,
    }
}

/// A capability is among those of a set of flags exactly when its flag is set, and none
/// occurs twice.
pub proof fn capabilities_follow_flags(flags: u8)
    ensures
        forall|c: Capability| #[trigger] capabilities_of(flags).contains(c) <==> flags & flag_of(c) != 0,
        capabilities_of(flags).no_duplicates(),
{
    let a0 = Seq::<Capability>::empty();
    let a1 = if_set(flags, FOXGLOVE_SERVER_CAPABILITY_CLIENT_PUBLISH, Capability::ClientPublish);
    assert(a0 + a1 =~= a1);
    lemma_if_set_step(a0, flags, FOXGLOVE_SERVER_CAPABILITY_CLIENT_PUBLISH, Capability::ClientPublish);
    lemma_if_set_step(a1, flags, FOXGLOVE_SERVER_CAPABILITY_CONNECTION_GRAPH, Capability::ConnectionGraph);
    let a2 = a1 + if_set(flags, FOXGLOVE_SERVER_CAPABILITY_CONNECTION_GRAPH, Capability::ConnectionGraph);
    lemma_if_set_step(a2, flags, FOXGLOVE_SERVER_CAPABILITY_PARAMETERS, Capability::Parameters);
    let a3 = a2 + if_set(flags, FOXGLOVE_SERVER_CAPABILITY_PARAMETERS, Capability::Parameters);
    lemma_if_set_step(a3, flags, FOXGLOVE_SERVER_CAPABILITY_TIME, Capability::Time);
    let a4 = a3 + if_set(flags, FOXGLOVE_SERVER_CAPABILITY_TIME, Capability::Time);
    lemma_if_set_step(a4, flags, FOXGLOVE_SERVER_CAPABILITY_SERVICES, Capability::Services);
    let a5 = a4 + if_set(flags, FOXGLOVE_SERVER_CAPABILITY_SERVICES, Capability::Services);
    lemma_if_set_step(a5, flags, FOXGLOVE_SERVER_CAPABILITY_ASSETS, Capability::Assets);
    let a6 = a5 + if_set(flags, FOXGLOVE_SERVER_CAPABILITY_ASSETS, Capability::Assets);
    assert(a6 == capabilities_of(flags));
    assert forall|c: Capability| #[trigger] capabilities_of(flags).contains(c) <==> flags & flag_of(c) != 0 by {
        match c {
            Capability::ClientPublish => {},
            Capability::ConnectionGraph => {},
            Capability::Parameters => {},
            Capability::Time => {},
            Capability::Services => {},
            Capability::Assets => {},
        }
    }
}

/// Appending the capability where its flag is set adds it, and only it.
proof fn lemma_if_set_step(a: Seq<Capability>, flags: u8, flag: u8, c: Capability)
    ensures
        forall|x: Capability| #[trigger] (a + if_set(flags, flag, c)).contains(x) <==> a.contains(x) || (x == c && flags
            & flag != 0),
        a.no_duplicates() && !a.contains(c) ==> (a + if_set(flags, flag, c)).no_duplicates(),
{
    let b = a + if_set(flags, flag, c);
    if flags & flag != 0 {
        assert(b =~= a.push(c));
        assert forall|x: Capability| #[trigger] b.contains(x) <==> a.contains(x) || (x == c && flags & flag != 0) by {
            if b.contains(x) {
                let k = choose|k: int| 0 <= k < b.len() && b[k] == x;
                if k < a.len() {
                    assert(a[k] == x);
                }
            }
            if a.contains(x) {
                let k = choose|k: int| 0 <= k < a.len() && a[k] == x;
                assert(b[k] == x);
            }
            if x == c {
                assert(b[a.len() as int] == x);
            }
        }
        if a.no_duplicates() && !a.contains(c) {
            assert forall|i: int, j: int| 0 <= i < b.len() && 0 <= j < b.len() && i != j implies b[i] != b[j] by {
                if i < a.len() && j < a.len() {
                    assert(b[i] == a[i] && b[j] == a[j]);
                } else if i < a.len() {
                    assert(b[i] == a[i]);
                } else if j < a.len() {
                    assert(b[j] == a[j]);
                }
            }
        }
    } else {
        assert(b =~= a);
    }
}

/// No error of the SDK is reported to C as success.
pub proof fn errors_never_succeed(e: SdkError)
    ensures
        code_of(e) != FoxgloveError::Success,
{
}

/// Appends the capability if the flag is set.
fn push_if_set(v: &mut Vec<Capability>, flags: u8, flag: u8, c: Capability)
    ensures
        final(v)@ == old(v)@ + if_set(flags, flag, c),
{
    if flags & flag != 0 {
        v.push(c);
        assert(final(v)@ =~= old(v)@ + seq![c]);
    } else {
        assert(final(v)@ =~= old(v)@ + Seq::<Capability>::empty());
    }
}

impl FoxgloveServerCapabilityBitFlags {
    /// The raw bits.
    pub closed spec fn spec_bits(self) -> u8 {
        self.bits
    }

    /// Takes the flags as they are, unknown bits included.
    pub fn from_capability(c: FoxgloveServerCapability) -> (r: FoxgloveServerCapabilityBitFlags)
        ensures
            r.spec_bits() == c.flags,
    {
        FoxgloveServerCapabilityBitFlags { bits: c.flags }
    }

    /// Returns the websocket capabilities whose flags are set, in the order in which the flags
    /// are declared; bits that name no capability are ignored.
    pub fn iter_websocket_capabilities(self) -> (r: Vec<Capability>)
        ensures
            r@ == capabilities_of(self.spec_bits()),
    {
        let mut v: Vec<Capability> = Vec::new();
        let b = self.bits;
        push_if_set(&mut v, b, FOXGLOVE_SERVER_CAPABILITY_CLIENT_PUBLISH, Capability::ClientPublish);
        assert(v@ =~= if_set(b, FOXGLOVE_SERVER_CAPABILITY_CLIENT_PUBLISH, Capability::ClientPublish));
        push_if_set(&mut v, b, FOXGLOVE_SERVER_CAPABILITY_CONNECTION_GRAPH, Capability::ConnectionGraph);
        push_if_set(&mut v, b, FOXGLOVE_SERVER_CAPABILITY_PARAMETERS, Capability::Parameters);
        push_if_set(&mut v, b, FOXGLOVE_SERVER_CAPABILITY_TIME, Capability::Time);
        push_if_set(&mut v, b, FOXGLOVE_SERVER_CAPABILITY_SERVICES, Capability::Services);
        push_if_set(&mut v, b, FOXGLOVE_SERVER_CAPABILITY_ASSETS, Capability::Assets);
        v
    }
}

/// Level indicator for a server status message.
#[derive(Clone, Copy, PartialEq, Eq, Structural)]
pub enum FoxgloveServerStatusLevel {
    Info,
    Warning,
    Error,
}

impl FoxgloveServerStatusLevel {
    /// The status level of the websocket protocol with the same name.
    pub open spec fn level(self) -> StatusLevel {
        match self {
            FoxgloveServerStatusLevel::Info => StatusLevel::Info,
            FoxgloveServerStatusLevel::Warning => StatusLevel::Warning,
            FoxgloveServerStatusLevel::Error => StatusLevel::Error,
        }
    }

    /// Returns the status level of the websocket protocol with the same name.
    pub fn to_status_level(self) -> (r: StatusLevel)
        ensures
            r == self.level(),
    {
        match self {
            FoxgloveServerStatusLevel::Info => StatusLevel::Info,
            FoxgloveServerStatusLevel::Warning => StatusLevel::Warning,
            FoxgloveServerStatusLevel::Error => StatusLevel::Error,
        }
    }
}

/// The compression of an MCAP file, as the C interface names it.
#[derive(Clone, Copy, PartialEq, Eq, Structural)]
pub enum FoxgloveMcapCompression {
    /// No compression.
    Uncompressed,
    Zstd,
    Lz4,
}

/// A compression algorithm for the chunks of an MCAP file.
#[derive(Debug, Clone, Copy, PartialEq, Eq, Structural)]
pub enum ChunkCompression {
    Zstd,
    Lz4,
}

impl FoxgloveMcapCompression {
    /// The compression of chunks that this names: none for `None`.
    pub open spec fn chunk_compression(self) -> Option<ChunkCompression> {
        match self {
            FoxgloveMcapCompression::Zstd => Some(ChunkCompression::Zstd),
            FoxgloveMcapCompression::Lz4 => Some(ChunkCompression::Lz4),
            FoxgloveMcapCompression::Uncompressed => None,
        }
    }
}

/// How an MCAP file is to be written, as the C interface describes it; strings are raw bytes.
pub struct FoxgloveMcapOptions {
    pub path: Vec<u8>,
    pub truncate: bool,
    pub compression: FoxgloveMcapCompression,
    pub profile: Vec<u8>,
    /// A chunk size of zero stands for none given.
    pub chunk_size: u64,
    pub use_chunks: bool,
    pub disable_seeking: bool,
    pub emit_statistics: bool,
    pub emit_summary_offsets: bool,
    pub emit_message_indexes: bool,
    pub emit_chunk_indexes: bool,
    pub emit_attachment_indexes: bool,
    pub emit_metadata_indexes: bool,
    pub repeat_channels: bool,
    pub repeat_schemas: bool,
}

/// The settings with which an MCAP file is written.
pub struct McapWriteSettings {
    pub profile: String,
    pub compression: Option<ChunkCompression>,
    pub chunk_size: Option<u64>,
    pub use_chunks: bool,
    pub disable_seeking: bool,
    pub emit_statistics: bool,
    pub emit_summary_offsets: bool,
    pub emit_message_indexes: bool,
    pub emit_chunk_indexes: bool,
    pub emit_attachment_indexes: bool,
    pub emit_metadata_indexes: bool,
    pub repeat_channels: bool,
    pub repeat_schemas: bool,
}

impl FoxgloveMcapOptions {
    /// Returns the write settings that these options describe. Fails with a value error where
    /// the profile is not valid UTF-8.
    pub fn to_write_options(&self) -> (r: Result<McapWriteSettings, SdkError>)
        ensures
            r is Ok <==> valid_utf8(self.profile@),
            r matches Err(e) ==> e matches SdkError::ValueError(m) && m@ == "profile is invalid: "@
                + utf8_error_text(self.profile@),
            r matches Ok(s) ==> {
                &&& s.profile@ == decode_utf8(self.profile@)
                &&& s.compression == self.compression.chunk_compression()
                &&& s.chunk_size == (if self.chunk_size > 0 {
                    Some(self.chunk_size)
                } else {
                    None
                })
                &&& s.use_chunks == self.use_chunks
                &&& s.disable_seeking == self.disable_seeking
                &&& s.emit_statistics == self.emit_statistics
                &&& s.emit_summary_offsets == self.emit_summary_offsets
                &&& s.emit_message_indexes == self.emit_message_indexes
                &&& s.emit_chunk_indexes == self.emit_chunk_indexes
                &&& s.emit_attachment_indexes == self.emit_attachment_indexes
                &&& s.emit_metadata_indexes == self.emit_metadata_indexes
                &&& s.repeat_channels == self.repeat_channels
                &&& s.repeat_schemas == self.repeat_schemas
            },
    {
        let profile = match utf8_text(self.profile.as_slice(), "profile is invalid: ") {
            Ok(p) => p,
            Err(e) => {
                return Err(SdkError::ValueError(e));
            },
        };
        let compression = match self.compression {
            FoxgloveMcapCompression::Zstd => Some(ChunkCompression::Zstd),
            FoxgloveMcapCompression::Lz4 => Some(ChunkCompression::Lz4),
            _ => None,
        };
        Ok(
            McapWriteSettings {
                profile,
                compression,
                chunk_size: if self.chunk_size > 0 {
                    Some(self.chunk_size)
                } else {
                    None
                },
                use_chunks: self.use_chunks,
                disable_seeking: self.disable_seeking,
                emit_statistics: self.emit_statistics,
                emit_summary_offsets: self.emit_summary_offsets,
                emit_message_indexes: self.emit_message_indexes,
                emit_chunk_indexes: self.emit_chunk_indexes,
                emit_attachment_indexes: self.emit_attachment_indexes,
                emit_metadata_indexes: self.emit_metadata_indexes,
                repeat_channels: self.repeat_channels,
                repeat_schemas: self.repeat_schemas,
            },
        )
    }

    /// Checks the options before an MCAP file is opened: returns the path and the write
    /// settings. Fails with a UTF-8 error where the path is not valid UTF-8, and then as
    /// `to_write_options` does.
    pub fn open_plan(&self) -> (r: Result<(String, McapWriteSettings), SdkError>)
        ensures
            r is Ok <==> valid_utf8(self.path@) && valid_utf8(self.profile@),
            !valid_utf8(self.path@) ==> fails_with_utf8(r, "path is invalid: "@ + utf8_error_text(self.path@)),
            valid_utf8(self.path@) && !valid_utf8(self.profile@) ==> fails_with_value(r, "profile is invalid: "@ + utf8_error_text(self.profile@)),
            r matches Ok(p) ==> p.0@ == decode_utf8(self.path@) && p.1.profile@ == decode_utf8(self.profile@),
    {
        let path = match utf8_text(self.path.as_slice(), "path is invalid: ") {
            Ok(p) => p,
            Err(e) => {
                return Err(SdkError::Utf8Error(e));
            },
        };
        match self.to_write_options() {
            Ok(settings) => Ok((path, settings)),
            Err(e) => Err(e),
        }
    }
}

/// The severity of the SDK's log messages, as the C interface names it.
#[derive(Clone, Copy, PartialEq, Eq, Structural)]
pub enum FoxgloveLogLevel {
    Off,
    Debug,
    Info,
    Warn,
    Error,
}

impl FoxgloveLogLevel {
    /// The name of the level in a log filter.
    pub open spec fn filter_name(self) -> Seq<char> {
        match self {
            FoxgloveLogLevel::Off => "off"@,
            FoxgloveLogLevel::Debug => "debug"@,
            FoxgloveLogLevel::Info => "info"@,
            FoxgloveLogLevel::Warn => "warn"@,
            FoxgloveLogLevel::Error => "error"@,
        }
    }

    /// Returns the name of the level in a log filter.
    pub fn initial_level(self) -> (r: &'static str)
        ensures
            r@ == self.filter_name(),
    {
        match self {
            FoxgloveLogLevel::Off => "off",
            FoxgloveLogLevel::Debug => "debug",
            FoxgloveLogLevel::Info => "info",
            FoxgloveLogLevel::Warn => "warn",
            FoxgloveLogLevel::Error => "error",
        }
    }
}

/// A timestamp, represented as an offset from a user-defined epoch.
#[derive(Debug, Clone, Copy)]
pub struct FoxgloveTimestamp {
    /// Seconds since epoch.
    pub sec: u32,
    /// Additional nanoseconds since epoch.
    pub nsec: u32,
}

impl FoxgloveTimestamp {
    /// Returns the timestamp of the SDK with the same fields.
    pub fn to_timestamp(self) -> (t: Timestamp)
        ensures
            t.sec == self.sec,
            t.nsec == self.nsec,
    {
        Timestamp::new(self.sec, self.nsec)
    }
}

/// A signed, fixed-length span of time.
///
/// The duration is represented by a count of seconds (which may be negative), and a count of
/// fractional seconds at nanosecond resolution (which are always positive).
#[derive(Debug, Clone, Copy)]
pub struct FoxgloveDuration {
    /// Seconds offset.
    pub sec: i32,
    /// Nanoseconds offset in the positive direction.
    pub nsec: u32,
}

impl FoxgloveDuration {
    /// Returns the duration of the SDK with the same fields.
    pub fn to_duration(self) -> (d: Duration)
        ensures
            d.sec == self.sec,
            d.nsec == self.nsec,
    {
        Duration::new(self.sec, self.nsec)
    }
}

/// An error code of the C interface.
#[derive(Debug, Clone, Copy, PartialEq, Eq, Structural)]
pub enum FoxgloveError {
    /// No error.
    Success,
    Unspecified,
    ValueError,
    Utf8Error,
    SinkClosed,
    SchemaRequired,
    MessageEncodingRequired,
    ServerAlreadyStarted,
    Bind,
    DuplicateService,
    MissingRequestEncoding,
    ServicesNotSupported,
    ConnectionGraphNotSupported,
    IoError,
    McapError,
    EncodeError,
    BufferTooShort,
    Base64DecodeError,
}

/// The code of an error of the SDK.
pub open spec fn code_of(e: SdkError) -> FoxgloveError {
    match e {
        SdkError::ValueError(_) => FoxgloveError::ValueError,
        SdkError::Utf8Error(_) => FoxgloveError::Utf8Error,
        SdkError::SinkClosed => FoxgloveError::SinkClosed,
        SdkError::SchemaRequired => FoxgloveError::SchemaRequired,
        SdkError::MessageEncodingRequired => FoxgloveError::MessageEncodingRequired,
        SdkError::ServerAlreadyStarted => FoxgloveError::ServerAlreadyStarted,
        SdkError::Bind(_) => FoxgloveError::Bind,
        SdkError::DuplicateService(_) => FoxgloveError::DuplicateService,
        SdkError::MissingRequestEncoding(_) => FoxgloveError::MissingRequestEncoding,
        SdkError::ServicesNotSupported => FoxgloveError::ServicesNotSupported,
        SdkError::ConnectionGraphNotSupported => FoxgloveError::ConnectionGraphNotSupported,
        SdkError::IoError(_) => FoxgloveError::IoError,
        SdkError::McapError(_) => FoxgloveError::McapError,
        SdkError::EncodeError(_) => FoxgloveError::EncodeError,
        SdkError::Unspecified(_) => FoxgloveError::Unspecified,
    }
}

impl FoxgloveError {
    /// Returns the code of an error of the SDK.
    pub fn from_sdk(error: &SdkError) -> (r: FoxgloveError)
        ensures
            r == code_of(*error),
    {
        match error {
            SdkError::ValueError(_) => FoxgloveError::ValueError,
            SdkError::Utf8Error(_) => FoxgloveError::Utf8Error,
            SdkError::SinkClosed => FoxgloveError::SinkClosed,
            SdkError::SchemaRequired => FoxgloveError::SchemaRequired,
            SdkError::MessageEncodingRequired => FoxgloveError::MessageEncodingRequired,
            SdkError::ServerAlreadyStarted => FoxgloveError::ServerAlreadyStarted,
            SdkError::Bind(_) => FoxgloveError::Bind,
            SdkError::DuplicateService(_) => FoxgloveError::DuplicateService,
            SdkError::MissingRequestEncoding(_) => FoxgloveError::MissingRequestEncoding,
            SdkError::ServicesNotSupported => FoxgloveError::ServicesNotSupported,
            SdkError::ConnectionGraphNotSupported => FoxgloveError::ConnectionGraphNotSupported,
            SdkError::IoError(_) => FoxgloveError::IoError,
            SdkError::McapError(_) => FoxgloveError::McapError,
            SdkError::EncodeError(_) => FoxgloveError::EncodeError,
            _ => FoxgloveError::Unspecified,
        }
    }

    /// The text that describes the code.
    pub open spec fn text(self) -> Seq<char> {
        match self {
            FoxgloveError::Success => "Ok"@,
            FoxgloveError::ValueError => "Value Error"@,
            FoxgloveError::Utf8Error => "UTF-8 Error"@,
            FoxgloveError::SinkClosed => "Sink Closed"@,
            FoxgloveError::SchemaRequired => "Schema Required"@,
            FoxgloveError::MessageEncodingRequired => "Message Encoding Required"@,
            FoxgloveError::ServerAlreadyStarted => "Server Already Started"@,
            FoxgloveError::Bind => "Bind Error"@,
            FoxgloveError::DuplicateService => "Duplicate Service"@,
            FoxgloveError::MissingRequestEncoding => "Missing Request Encoding"@,
            FoxgloveError::ServicesNotSupported => "Services Not Supported"@,
            FoxgloveError::ConnectionGraphNotSupported => "Connection Graph Not Supported"@,
            FoxgloveError::IoError => "IO Error"@,
            FoxgloveError::McapError => "MCAP Error"@,
            FoxgloveError::EncodeError => "Encode Error"@,
            FoxgloveError::BufferTooShort => "Buffer too short"@,
            FoxgloveError::Base64DecodeError => "Base64 decode error"@,
            FoxgloveError::Unspecified => "Unspecified Error"@,
        }
    }

    /// Returns the text that describes the code.
    pub fn to_str(self) -> (r: &'static str)
        ensures
            r@ == self.text(),
    {
        match self {
            FoxgloveError::Success => "Ok",
            FoxgloveError::ValueError => "Value Error",
            FoxgloveError::Utf8Error => "UTF-8 Error",
            FoxgloveError::SinkClosed => "Sink Closed",
            FoxgloveError::SchemaRequired => "Schema Required",
            FoxgloveError::MessageEncodingRequired => "Message Encoding Required",
            FoxgloveError::ServerAlreadyStarted => "Server Already Started",
            FoxgloveError::Bind => "Bind Error",
            FoxgloveError::DuplicateService => "Duplicate Service",
            FoxgloveError::MissingRequestEncoding => "Missing Request Encoding",
            FoxgloveError::ServicesNotSupported => "Services Not Supported",
            FoxgloveError::ConnectionGraphNotSupported => "Connection Graph Not Supported",
            FoxgloveError::IoError => "IO Error",
            FoxgloveError::McapError => "MCAP Error",
            FoxgloveError::EncodeError => "Encode Error",
            FoxgloveError::BufferTooShort => "Buffer too short",
            FoxgloveError::Base64DecodeError => "Base64 decode error",
            FoxgloveError::Unspecified => "Unspecified Error",
        }
    }
}

/// Splits a result into the code handed back to C and the value written to the caller's out
/// parameter: the value and `Ok` on success, nothing and the error's code on failure.
pub fn result_to_c<T>(result: Result<T, SdkError>) -> (r: (FoxgloveError, Option<T>))
    ensures
        result matches Ok(v) ==> r.0 == FoxgloveError::Success && r.1 == Some(v),
        result matches Err(e) ==> r.0 == code_of(e) && r.1 is None,
{
    match result {
        Ok(value) => (FoxgloveError::Success, Some(value)),
        Err(e) => (FoxgloveError::from_sdk(&e), None),
    }
}

/// A channel handed out to C.
pub struct FoxgloveChannel(pub RawChannel);

/// The context that channels and sinks are registered with, as C sees it: an opaque value.
pub struct FoxgloveContext;

/// A schema as C describes it; strings are raw bytes.
pub struct FoxgloveSchema {
    pub name: Vec<u8>,
    pub encoding: Vec<u8>,
    pub data: Vec<u8>,
}

impl FoxgloveSchema {
    /// Converts the schema to the SDK's. Fails with a UTF-8 error where the name or the
    /// encoding is not valid UTF-8, the name checked first.
    pub fn to_native(&self) -> (r: Result<Schema, SdkError>)
        ensures
            r is Ok <==> valid_utf8(self.name@) && valid_utf8(self.encoding@),
            !valid_utf8(self.name@) ==> fails_with_utf8(r, "schema name invalid: "@ + utf8_error_text(self.name@)),
            valid_utf8(self.name@) && !valid_utf8(self.encoding@) ==> fails_with_utf8(r, "schema encoding invalid: "@ + utf8_error_text(self.encoding@)),
            r matches Ok(s) ==> s.name@ == decode_utf8(self.name@) && s.encoding@ == decode_utf8(self.encoding@)
                && s.data@ == self.data@,
    {
        let name = match utf8_text(self.name.as_slice(), "schema name invalid: ") {
            Ok(n) => n,
            Err(e) => {
                return Err(SdkError::Utf8Error(e));
            },
        };
        let encoding = match utf8_text(self.encoding.as_slice(), "schema encoding invalid: ") {
            Ok(n) => n,
            Err(e) => {
                return Err(SdkError::Utf8Error(e));
            },
        };
        let mut data: Vec<u8> = Vec::new();
        let mut i: usize = 0;
        while i < self.data.len()
            invariant
                i <= self.data@.len(),
                data@ == self.data@.take(i as int),
            decreases self.data@.len() - i,
        {
            data.push(self.data[i]);
            i = i + 1;
            assert(data@ =~= self.data@.take(i as int));
        }
        assert(self.data@.take(i as int) =~= self.data@);
        Ok(Schema::new(name, encoding, data))
    }
}

/// Creates a channel from what C hands over. Fails with a UTF-8 error where the topic, the
/// message encoding or the schema is not valid UTF-8, checked in that order.
pub fn raw_channel_create(
    ids: &mut IdCounter,
    topic: &[u8],
    message_encoding: &[u8],
    schema: Option<&FoxgloveSchema>,
) -> (r: Result<FoxgloveChannel, SdkError>)
    ensures
        r is Ok <==> valid_utf8(topic@) && valid_utf8(message_encoding@) && (schema matches Some(s) ==> valid_utf8(
            s.name@,
        ) && valid_utf8(s.encoding@)),
        !valid_utf8(topic@) ==> fails_with_utf8(r, "topic invalid: "@ + utf8_error_text(topic@)),
        valid_utf8(topic@) && !valid_utf8(message_encoding@) ==> fails_with_utf8(r, "message_encoding invalid: "@ + utf8_error_text(message_encoding@)),
        r matches Ok(c) ==> c.0.spec_topic() == decode_utf8(topic@) && c.0.spec_message_encoding() == decode_utf8(
            message_encoding@,
        ) && c.0.spec_id().0 == old(ids).next_value() && c.0.sink_count() == 0 && c.0.sequence_counter() == 1
            && (schema is None <==> c.0.spec_schema() is None) && (schema matches Some(s) ==> c.0.spec_schema() matches Some(
            n,
        ) && n.name@ == decode_utf8(s.name@) && n.encoding@ == decode_utf8(s.encoding@) && n.data@ == s.data@),
        r is Err ==> final(ids).next_value() == old(ids).next_value(),
        r matches Ok(c) ==> (old(ids).next_value() < u64::MAX ==> final(ids).next_value() == c.0.spec_id().0 + 1)
            && (old(ids).next_value() == u64::MAX ==> final(ids).next_value() == 0),
{
    let topic = match utf8_text(topic, "topic invalid: ") {
        Ok(t) => t,
        Err(e) => {
            return Err(SdkError::Utf8Error(e));
        },
    };
    let message_encoding = match utf8_text(message_encoding, "message_encoding invalid: ") {
        Ok(t) => t,
        Err(e) => {
            return Err(SdkError::Utf8Error(e));
        },
    };
    let native = match schema {
        Some(s) => match s.to_native() {
            Ok(n) => Some(n),
            Err(e) => {
                return Err(e);
            },
        },
        None => None,
    };
    Ok(FoxgloveChannel(RawChannel::new(ids, topic, message_encoding, native, BTreeMap::new())))
}

/// Returns the ID of the channel; zero, which no channel has, where none is given.
pub fn channel_get_id(channel: Option<&FoxgloveChannel>) -> (r: u64)
    ensures
        channel matches Some(c) ==> r == c.0.spec_id().0,
        channel is None ==> r == 0,
{
    match channel {
        Some(c) => c.0.id().0,
        None => 0,
    }
}

impl FoxgloveChannel {
    /// Logs a message, with the given log time or the current time. Fails with a value error,
    /// logging nothing and leaving the channel as it was, where the data is missing or empty.
    pub fn log_message(&mut self, data: Option<&[u8]>, log_time: Option<u64>) -> (r: FoxgloveError)
        ensures
            r == FoxgloveError::ValueError <==> data is None || data.unwrap()@.len() == 0,
            r != FoxgloveError::ValueError ==> r == FoxgloveError::Success,
            r == FoxgloveError::ValueError ==> *final(self) == *old(self),
            r == FoxgloveError::Success ==> final(self).0.unchanged_but_sequence(old(self).0),
            r == FoxgloveError::Success && old(self).0.sink_count() > 0 ==> final(self).0.sequence_counter()
                == following(old(self).0.sequence_counter()),
            r == FoxgloveError::Success && old(self).0.sink_count() == 0 ==> final(self).0.sequence_counter()
                == old(self).0.sequence_counter(),
            r == FoxgloveError::Success && old(self).0.sink_count() > 0 ==> logged(
                old(self).0,
                final(self).0,
                data.unwrap()@,
                (PartialMetadata { sequence: None, log_time: log_time, publish_time: None }),
            ),
            r == FoxgloveError::Success && old(self).0.sink_count() == 0 ==> final(self).0.deliveries() == old(
                self,
            ).0.deliveries(),
    {
        let data = match data {
            Some(d) => d,
            None => {
                return FoxgloveError::ValueError;
            },
        };
        if data.len() == 0 {
            return FoxgloveError::ValueError;
        }
        self.0.log_with_meta(data, PartialMetadata::with_log_time(log_time));
        FoxgloveError::Success
    }
}

/// Logs a message on a channel, with the given log time or the current time, as
/// `FoxgloveChannel::log_message` does. Fails with a value error, logging nothing, where no
/// channel is given or the data is missing or empty; a given channel is then left as it was.
pub fn channel_log(channel: Option<&mut FoxgloveChannel>, data: Option<&[u8]>, log_time: Option<u64>) -> (r: FoxgloveError)
    ensures
        r == FoxgloveError::ValueError <==> channel is None || data is None || data.unwrap()@.len() == 0,
        r != FoxgloveError::ValueError ==> r == FoxgloveError::Success,
{
    match channel {
        Some(c) => c.log_message(data, log_time),
        None => FoxgloveError::ValueError,
    }
}

/// A server handed out to C; empty once it has been stopped.
pub struct FoxgloveWebSocketServer(Option<Server>);

impl FoxgloveWebSocketServer {
    /// The server, unless it has been stopped.
    pub closed spec fn inner(&self) -> Option<Server> {
        self.0
    }

    /// The server, if there is one, is well formed.
    pub open spec fn wf(&self) -> bool {
        self.inner() matches Some(s) ==> s.wf()
    }

    /// Wraps a server.
    pub fn new(server: Server) -> (r: FoxgloveWebSocketServer)
        ensures
            r.inner() == Some(server),
    {
        FoxgloveWebSocketServer(Some(server))
    }

    /// Returns the server, unless it has been stopped.
    pub fn as_ref(&self) -> (r: Option<&Server>)
        ensures
            r matches Some(s) ==> self.inner() == Some(*s),
            r is None <==> self.inner() is None,
    {
        match &self.0 {
            Some(s) => Some(s),
            None => None,
        }
    }

    /// Takes the server out, leaving none.
    pub fn take(&mut self) -> (r: Option<Server>)
        ensures
            r == old(self).inner(),
            final(self).inner() is None,
    {
        let mut taken: Option<Server> = None;
        std::mem::swap(&mut taken, &mut self.0);
        taken
    }
}

/// The error code of the checks common to the server functions: a value error where no server
/// is given, and a sink-closed error where it has been stopped.
pub open spec fn server_check(server: Option<&FoxgloveWebSocketServer>) -> FoxgloveError {
    match server {
        None => FoxgloveError::ValueError,
        Some(s) => if s.inner() is None {
            FoxgloveError::SinkClosed
        } else {
            FoxgloveError::Success
        },
    }
}

/// Returns the current time to send every client, if the server is running and advertises
/// the time capability.
pub fn server_broadcast_time(server: Option<&FoxgloveWebSocketServer>, timestamp_nanos: u64) -> (r: (
    FoxgloveError,
    Vec<Outgoing>,
))
    requires
        server matches Some(s) ==> s.wf(),
    ensures
        r.0 == server_check(server),
        r.0 != FoxgloveError::Success ==> r.1@.len() == 0,
        r.0 == FoxgloveError::Success ==> {
            let s = server.unwrap().inner().unwrap();
            &&& !s.has(Capability::Time) ==> r.1@.len() == 0
            &&& s.has(Capability::Time) ==> to_each(
                r.1@,
                s.client_ids(),
                Plane::Control,
                ServerMessage::Time { timestamp: timestamp_nanos },
            )
        },
{
    let server = match server {
        Some(s) => s,
        None => {
            return (FoxgloveError::ValueError, Vec::new());
        },
    };
    match server.as_ref() {
        Some(s) => (FoxgloveError::Success, s.broadcast_time(timestamp_nanos)),
        None => (FoxgloveError::SinkClosed, Vec::new()),
    }
}

/// Returns the port on which the server listens; zero where no server is given or it has been
/// stopped.
pub fn server_get_port(server: Option<&FoxgloveWebSocketServer>) -> (r: u16)
    ensures
        server_check(server) != FoxgloveError::Success ==> r == 0,
        server_check(server) == FoxgloveError::Success ==> r == server.unwrap().inner().unwrap().spec_port(),
{
    match server {
        Some(s) => match s.as_ref() {
            Some(s) => s.port(),
            None => 0,
        },
        None => 0,
    }
}

/// Stops the server and takes it out of its handle, returning the clients whose connections
/// are to be closed. Fails with a sink-closed error where it has already been stopped.
pub fn server_stop(server: &mut FoxgloveWebSocketServer) -> (r: (FoxgloveError, Vec<ClientId>))
    requires
        old(server).wf(),
    ensures
        final(server).inner() is None,
        old(server).inner() is None ==> r.0 == FoxgloveError::SinkClosed && r.1@.len() == 0,
        old(server).inner() matches Some(inner) ==> r.0 == FoxgloveError::Success && (inner.is_started() ==> r.1@
            == inner.client_ids()) && (!inner.is_started() ==> r.1@.len() == 0),
{
    match server.take() {
        Some(mut s) => {
            let ids = match s.stop() {
                Some(ids) => ids,
                None => Vec::new(),
            };
            (FoxgloveError::Success, ids)
        },
        None => (FoxgloveError::SinkClosed, Vec::new()),
    }
}

/// Sets a new session ID, generated from the clock where none is given, and returns the
/// server info to send every client. Fails with a sink-closed error where the server has been
/// stopped, and with a UTF-8 error where the ID is not valid UTF-8; then nothing changes.
pub fn server_clear_session(server: &mut FoxgloveWebSocketServer, session_id: Option<&[u8]>) -> (r: (
    FoxgloveError,
    Vec<Outgoing>,
))
    requires
        old(server).wf(),
    ensures
        final(server).wf(),
        old(server).inner() is None ==> r.0 == FoxgloveError::SinkClosed,
        old(server).inner() is Some ==> (r.0 == FoxgloveError::Utf8Error <==> !valid_optional(session_id)),
        r.0 == FoxgloveError::Success ==> {
            let before = old(server).inner().unwrap();
            let after = final(server).inner().unwrap();
            &&& session_id matches Some(b) ==> after.session() == decode_utf8(b@)
            &&& after.sessions() == before.sessions()
            &&& r.1@.len() == before.client_ids().len()
            &&& forall|k: int|
                0 <= k < r.1@.len() ==> (#[trigger] r.1@[k]).client == before.client_ids()[k] && r.1@[k].plane
                    == Plane::Control && is_server_info(
                    r.1@[k].message,
                    after.spec_name(),
                    after.capability_list(),
                    after.encodings(),
                    after.session(),
                )
        },
        r.0 != FoxgloveError::Success ==> r.1@.len() == 0 && *final(server) == *old(server),
{
    if server.0.is_none() {
        return (FoxgloveError::SinkClosed, Vec::new());
    }
    let id = match session_id {
        Some(bytes) => match str_from_utf8(bytes) {
            Ok(text) => Some(text),
            Err(_) => {
                return (FoxgloveError::Utf8Error, Vec::new());
            },
        },
        None => None,
    };
    let mut inner = server.take().unwrap();
    let out = inner.clear_session(id);
    server.0 = Some(inner);
    (FoxgloveError::Success, out)
}

/// Publishes a status message to every client. Fails with a UTF-8 error where the message, or
/// the ID if one is given, is not valid UTF-8.
pub fn server_publish_status(
    server: Option<&FoxgloveWebSocketServer>,
    level: FoxgloveServerStatusLevel,
    message: &[u8],
    id: Option<&[u8]>,
) -> (r: (FoxgloveError, Vec<Outgoing>))
    requires
        server matches Some(s) ==> s.wf(),
    ensures
        server_check(server) != FoxgloveError::Success ==> r.0 == server_check(server) && r.1@.len() == 0,
        server_check(server) == FoxgloveError::Success ==> {
            let s = server.unwrap().inner().unwrap();
            let ok = valid_utf8(message@) && valid_optional(id);
            &&& !ok ==> r.0 == FoxgloveError::Utf8Error && r.1@.len() == 0
            &&& ok ==> r.0 == FoxgloveError::Success && r.1@.len() == s.client_ids().len() && forall|k: int|
                0 <= k < r.1@.len() ==> (#[trigger] r.1@[k]).client == s.client_ids()[k] && r.1@[k].plane
                    == status_plane(level.level()) && carries_status(r.1@[k].message, level, message@, id)
        },
{
    let server = match server {
        Some(s) => s,
        None => {
            return (FoxgloveError::ValueError, Vec::new());
        },
    };
    let s = match server.as_ref() {
        Some(s) => s,
        None => {
            return (FoxgloveError::SinkClosed, Vec::new());
        },
    };
    let text = match str_from_utf8(message) {
        Ok(t) => t,
        Err(_) => {
            return (FoxgloveError::Utf8Error, Vec::new());
        },
    };
    let status_id = match id {
        Some(bytes) => match str_from_utf8(bytes) {
            Ok(t) => Some(t),
            Err(_) => {
                return (FoxgloveError::Utf8Error, Vec::new());
            },
        },
        None => None,
    };
    let mut status = Status::new(level.to_status_level(), text);
    match status_id {
        Some(i) => {
            status = status.with_id(i);
        },
        None => {},
    }
    (FoxgloveError::Success, s.publish_status(&status))
}

/// Removes status messages, by ID, from every client. Fails with a value error where no IDs
/// are given, and with a UTF-8 error where one of them is not valid UTF-8.
pub fn server_remove_status(server: Option<&FoxgloveWebSocketServer>, ids: Option<&Vec<Vec<u8>>>) -> (r: (
    FoxgloveError,
    Vec<Outgoing>,
))
    requires
        server matches Some(s) ==> s.wf(),
    ensures
        server_check(server) != FoxgloveError::Success ==> r.0 == server_check(server) && r.1@.len() == 0,
        server_check(server) == FoxgloveError::Success && ids is None ==> r.0 == FoxgloveError::ValueError
            && r.1@.len() == 0,
        server_check(server) == FoxgloveError::Success && ids is Some ==> (r.0 == FoxgloveError::Utf8Error
            <==> exists|k: int| 0 <= k < ids.unwrap()@.len() && !valid_utf8(#[trigger] ids.unwrap()@[k]@)),
        server_check(server) == FoxgloveError::Success && ids is Some ==> (r.0 == FoxgloveError::Success
            <==> forall|k: int| 0 <= k < ids.unwrap()@.len() ==> valid_utf8(#[trigger] ids.unwrap()@[k]@)),
        r.0 == FoxgloveError::Success ==> r.1@.len() == server.unwrap().inner().unwrap().client_ids().len(),
        r.0 == FoxgloveError::Success ==> forall|k: int|
            0 <= k < r.1@.len() ==> (#[trigger] r.1@[k]).client == server.unwrap().inner().unwrap().client_ids()[k]
                && r.1@[k].plane == Plane::Control && removes_decoded(r.1@[k].message, ids.unwrap()@),
        r.0 != FoxgloveError::Success ==> r.1@.len() == 0,
{
    let handle = match server {
        Some(h) => h,
        None => {
            return (FoxgloveError::ValueError, Vec::new());
        },
    };
    let s = match handle.as_ref() {
        Some(s) => s,
        None => {
            return (FoxgloveError::SinkClosed, Vec::new());
        },
    };
    let list = match ids {
        Some(v) => v,
        None => {
            return (FoxgloveError::ValueError, Vec::new());
        },
    };
    let mut texts: Vec<String> = Vec::new();
    let mut i: usize = 0;
    while i < list.len()
        invariant
            ids == Some(list),
            server_check(server) == FoxgloveError::Success,
            i <= list@.len(),
            texts@.len() == i,
            forall|k: int| 0 <= k < i ==> valid_utf8(#[trigger] list@[k]@) && texts@[k]@ == decode_utf8(list@[k]@),
        decreases list@.len() - i,
    {
        match str_from_utf8(list[i].as_slice()) {
            Ok(t) => {
                texts.push(t);
            },
            Err(_) => {
                assert(ids.unwrap() == list);
                assert(!valid_utf8(ids.unwrap()@[i as int]@));
                return (FoxgloveError::Utf8Error, Vec::new());
            },
        }
        i = i + 1;
    }
    let out = s.remove_status(&texts);
    (FoxgloveError::Success, out)
}

/// The bytes, if any are given, are valid UTF-8.
pub open spec fn valid_optional(bytes: Option<&[u8]>) -> bool {
    bytes matches Some(b) ==> valid_utf8(b@)
}

/// The message is a status of this level, with the text and the ID, if any, that the bytes
/// encode.
pub open spec fn carries_status(m: ServerMessage, level: FoxgloveServerStatusLevel, message: Seq<u8>, id: Option<&[u8]>) -> bool {
    &&& m matches ServerMessage::Status(st)
    &&& m->Status_0.level == level.level()
    &&& m->Status_0.message@ == decode_utf8(message)
    &&& id is None ==> m->Status_0.id is None
    &&& id matches Some(b) ==> (m->Status_0.id matches Some(i) && i@ == decode_utf8(b@))
}

/// The message removes the status messages whose IDs these bytes encode.
pub open spec fn removes_decoded(m: ServerMessage, ids: Seq<Vec<u8>>) -> bool {
    m matches ServerMessage::RemoveStatus { status_ids } && status_ids@.len() == ids.len() && forall|k: int|
        0 <= k < ids.len() ==> (#[trigger] status_ids@[k])@ == decode_utf8(ids[k]@)
}

/// Adds a service to the server, and returns its advertisement to send every client. Fails
/// with a sink-closed error where the server has been stopped, and with the code of the
/// server's error where it refuses the service; then nothing changes.
pub fn server_add_service(server: &mut FoxgloveWebSocketServer, service: Service) -> (r: (FoxgloveError, Vec<Outgoing>))
    requires
        old(server).wf(),
    ensures
        final(server).wf(),
        old(server).inner() is None ==> r.0 == FoxgloveError::SinkClosed,
        old(server).inner() matches Some(before) ==> {
            let error = server_add_services_error(
                before.service_list(),
                before.has(Capability::Services),
                before.encodings().len() == 0,
                seq![service],
            );
            &&& error matches Some(e) ==> r.0 == code_of(e) && final(server).inner().unwrap().service_list()
                == before.service_list()
            &&& error is None ==> r.0 == FoxgloveError::Success && final(server).inner().unwrap().service_list()
                == before.service_list().push(service) && r.1@.len() == before.client_ids().len() && forall|k: int|
                0 <= k < r.1@.len() ==> (#[trigger] r.1@[k]).client == before.client_ids()[k] && r.1@[k].plane
                    == Plane::Control && advertises(r.1@[k].message, seq![service])
        },
        r.0 != FoxgloveError::Success ==> r.1@.len() == 0,
{
    let mut inner = match server.take() {
        Some(s) => s,
        None => {
            return (FoxgloveError::SinkClosed, Vec::new());
        },
    };
    let mut services: Vec<Service> = Vec::new();
    services.push(service);
    assert(services@ == seq![service]);
    assert(service_ids(services@) =~= seq![service.id]);
    let r = match inner.add_services(services) {
        Ok(out) => (FoxgloveError::Success, out),
        Err(e) => (FoxgloveError::from_sdk(&e), Vec::new()),
    };
    server.0 = Some(inner);
    proof {
        assert(seq![service] =~= Seq::<Service>::empty().push(service));
    }
    r
}

/// Removes the service with this name from the server, and returns its unadvertisement to send
/// every client. Fails with a sink-closed error where the server has been stopped, and with a
/// UTF-8 error where the name is not valid UTF-8; then nothing changes.
pub fn server_remove_service(server: &mut FoxgloveWebSocketServer, name: &[u8]) -> (r: (FoxgloveError, Vec<Outgoing>))
    requires
        old(server).wf(),
    ensures
        final(server).wf(),
        old(server).inner() is None ==> r.0 == FoxgloveError::SinkClosed,
        old(server).inner() is Some ==> (r.0 == FoxgloveError::Utf8Error <==> !valid_utf8(name@)),
        r.0 == FoxgloveError::Success ==> forall|s: Service| #[trigger] final(server).inner().unwrap().service_list().contains(
            s,
        ) <==> old(server).inner().unwrap().service_list().contains(s) && s.name@ != decode_utf8(name@),
        r.0 == FoxgloveError::Success ==> forall|k: int|
            0 <= k < r.1@.len() ==> (#[trigger] r.1@[k]).client == old(server).inner().unwrap().client_ids()[k]
                && r.1@[k].plane == Plane::Control && unadvertises(
                r.1@[k].message,
                old(server).inner().unwrap().service_list(),
                seq![decode_utf8(name@)],
            ),
        r.0 != FoxgloveError::Success ==> r.1@.len() == 0 && *final(server) == *old(server),
{
    if server.0.is_none() {
        return (FoxgloveError::SinkClosed, Vec::new());
    }
    let text = match str_from_utf8(name) {
        Ok(t) => t,
        Err(_) => {
            return (FoxgloveError::Utf8Error, Vec::new());
        },
    };
    let mut inner = server.take().unwrap();
    let mut names: Vec<String> = Vec::new();
    names.push(text);
    proof {
        assert(views(names@) =~= seq![decode_utf8(name@)]);
        assert forall|n: Seq<char>| views(names@).contains(n) <==> n == decode_utf8(name@) by {
            if n == decode_utf8(name@) {
                assert(views(names@)[0] == n);
            }
        }
    }
    let out = inner.remove_services(&names);
    server.0 = Some(inner);
    (FoxgloveError::Success, out)
}

/// Publishes parameter values to the clients subscribed to them. Fails with a value error
/// where no parameters or no server is given (the parameters checked first), and with a
/// sink-closed error where the server has been stopped.
pub fn server_publish_parameter_values(
    server: Option<&FoxgloveWebSocketServer>,
    params: Option<Vec<Parameter>>,
) -> (r: (FoxgloveError, Vec<Outgoing>))
    requires
        server matches Some(s) ==> s.wf(),
    ensures
        params is None ==> r.0 == FoxgloveError::ValueError,
        params is Some ==> r.0 == server_check(server),
        r.0 == FoxgloveError::Success ==> {
            let s = server.unwrap().inner().unwrap();
            let subs = s.parameter_subscriptions();
            let to = s.client_ids().filter(interested(subs, params.unwrap()@));
            &&& !s.has(Capability::Parameters) ==> r.1@.len() == 0
            &&& s.has(Capability::Parameters) ==> r.1@.len() == to.len() && forall|k: int|
                0 <= k < to.len() ==> (#[trigger] r.1@[k]).client == to[k] && r.1@[k].plane == Plane::Control
                    && carries_parameters(r.1@[k].message, subs, params.unwrap()@, to[k])
        },
        r.0 != FoxgloveError::Success ==> r.1@.len() == 0,
{
    let params = match params {
        Some(p) => p,
        None => {
            return (FoxgloveError::ValueError, Vec::new());
        },
    };
    let handle = match server {
        Some(h) => h,
        None => {
            return (FoxgloveError::ValueError, Vec::new());
        },
    };
    match handle.as_ref() {
        Some(s) => (FoxgloveError::Success, s.publish_parameter_values(&params)),
        None => (FoxgloveError::SinkClosed, Vec::new()),
    }
}

/// Replaces the server's connection graph, and returns the graph to send each subscribed
/// client. Fails with a value error where no graph is given, with a sink-closed error where the
/// server has been stopped, and with the code of the server's error where it lacks the
/// connection graph capability; then nothing changes.
pub fn server_publish_connection_graph(server: &mut FoxgloveWebSocketServer, graph: Option<ConnectionGraph>) -> (r: (
    FoxgloveError,
    Vec<Outgoing>,
))
    requires
        old(server).wf(),
    ensures
        final(server).wf(),
        graph is None ==> r.0 == FoxgloveError::ValueError,
        graph is Some && old(server).inner() is None ==> r.0 == FoxgloveError::SinkClosed,
        graph is Some && old(server).inner() is Some && !old(server).inner().unwrap().has(Capability::ConnectionGraph)
            ==> r.0 == FoxgloveError::ConnectionGraphNotSupported,
        graph is Some && old(server).inner() is Some && old(server).inner().unwrap().has(Capability::ConnectionGraph)
            ==> r.0 == FoxgloveError::Success && final(server).inner().unwrap().graph() == graph.unwrap(),
        r.0 != FoxgloveError::Success ==> r.1@.len() == 0 && *final(server) == *old(server),
{
    let graph = match graph {
        Some(g) => g,
        None => {
            return (FoxgloveError::ValueError, Vec::new());
        },
    };
    if server.0.is_none() {
        return (FoxgloveError::SinkClosed, Vec::new());
    }
    let mut inner = server.take().unwrap();
    let r = match inner.replace_connection_graph(graph) {
        Ok(out) => (FoxgloveError::Success, out),
        Err(e) => (FoxgloveError::from_sdk(&e), Vec::new()),
    };
    server.0 = Some(inner);
    r
}

/// The encodings are given, and are the texts that the bytes encode.
pub open spec fn decoded_encodings(e: Option<Vec<String>>, v: Seq<Option<Vec<u8>>>) -> bool {
    &&& e is Some
    &&& e.unwrap()@.len() == v.len()
    &&& forall|k: int| 0 <= k < v.len() ==> (#[trigger] e.unwrap()@[k])@ == decode_utf8(v[k].unwrap()@)
}

/// An encoding handed over is missing or not valid UTF-8.
pub open spec fn bad_encoding(e: Option<Vec<u8>>) -> bool {
    match e {
        None => true,
        Some(b) => !valid_utf8(b@),
    }
}

/// The position of the first of the first `k` encodings that is missing or not valid UTF-8.
pub open spec fn first_bad_encoding(encodings: Seq<Option<Vec<u8>>>, k: int) -> Option<int>
    decreases k,
{
    if k <= 0 {
        None
    } else {
        match first_bad_encoding(encodings, k - 1) {
            Some(i) => Some(i),
            None => if bad_encoding(encodings[k - 1]) {
                Some(k - 1)
            } else {
                None
            },
        }
    }
}

/// What C hands over to start a server, checked: the server's options and the host to bind to.
/// Fails with a UTF-8 error where the name or the host is not valid UTF-8; where encodings are
/// announced but none are given, with a value error; and at the first encoding that is missing
/// or not valid UTF-8, with a value error or a UTF-8 error. Checks happen in that order.
pub fn server_start_options(
    name: &[u8],
    host: &[u8],
    capabilities: FoxgloveServerCapability,
    supported_encodings: Option<&Vec<Option<Vec<u8>>>>,
    supported_encodings_count: usize,
    has_fetch_asset_handler: bool,
) -> (r: Result<(ServerOptions, String), SdkError>)
    requires
        supported_encodings matches Some(v) ==> v@.len() == supported_encodings_count,
    ensures
        !valid_utf8(name@) ==> fails_with_utf8(r, "name is invalid: "@ + utf8_error_text(name@)),
        valid_utf8(name@) && !valid_utf8(host@) ==> fails_with_utf8(r, "host is invalid: "@ + utf8_error_text(host@)),
        valid_utf8(name@) && valid_utf8(host@) && supported_encodings_count > 0 && supported_encodings is None
            ==> fails_with_value(r, "supported_encodings is null"@),
        valid_utf8(name@) && valid_utf8(host@) && supported_encodings_count > 0 && supported_encodings is Some ==> {
            let v = supported_encodings.unwrap()@;
            match first_bad_encoding(v, v.len() as int) {
                Some(i) => match v[i] {
                    None => fails_with_value(r, "encoding in supported_encodings is null"@),
                    Some(b) => fails_with_utf8(r, "encoding in supported_encodings is invalid: "@ + utf8_error_text(b@)),
                },
                None => r is Ok && decoded_encodings(r.unwrap().0.supported_encodings, v),
            }
        },
        r is Ok <==> valid_utf8(name@) && valid_utf8(host@) && (supported_encodings_count > 0 ==> supported_encodings
            is Some && first_bad_encoding(supported_encodings.unwrap()@, supported_encodings_count as int) is None),
        r matches Ok(p) ==> {
            &&& p.1@ == decode_utf8(host@)
            &&& p.0.name matches Some(n) && n@ == decode_utf8(name@)
            &&& p.0.capabilities matches Some(c) && c@ == capabilities_of(capabilities.flags)
            &&& supported_encodings_count == 0 ==> p.0.supported_encodings is None
            &&& p.0.session_id is None
            &&& p.0.message_backlog_size is None
            &&& p.0.services@.len() == 0
            &&& p.0.has_fetch_asset_handler == has_fetch_asset_handler
        },
{
    let name_text = match utf8_text(name, "name is invalid: ") {
        Ok(t) => t,
        Err(e) => {
            return Err(SdkError::Utf8Error(e));
        },
    };
    let host_text = match utf8_text(host, "host is invalid: ") {
        Ok(t) => t,
        Err(e) => {
            return Err(SdkError::Utf8Error(e));
        },
    };
    let caps = FoxgloveServerCapabilityBitFlags::from_capability(capabilities).iter_websocket_capabilities();
    let mut encodings: Option<Vec<String>> = None;
    if supported_encodings_count > 0 {
        let given = match supported_encodings {
            Some(v) => v,
            None => {
                return Err(SdkError::ValueError(owned("supported_encodings is null")));
            },
        };
        let mut list: Vec<String> = Vec::new();
        let mut i: usize = 0;
        while i < given.len()
            invariant
                supported_encodings == Some(given),
                valid_utf8(name@),
                valid_utf8(host@),
                supported_encodings_count > 0,
                given@.len() == supported_encodings_count,
                i <= given@.len(),
                list@.len() == i,
                first_bad_encoding(given@, i as int) is None,
                forall|k: int| 0 <= k < i ==> (#[trigger] list@[k])@ == decode_utf8(given@[k].unwrap()@),
            decreases given@.len() - i,
        {
            match &given[i] {
                None => {
                    proof {
                        lemma_first_bad_stable(given@, i + 1, given@.len() as int);
                    }
                    return Err(SdkError::ValueError(owned("encoding in supported_encodings is null")));
                },
                Some(bytes) => match utf8_text(bytes.as_slice(), "encoding in supported_encodings is invalid: ") {
                    Ok(t) => {
                        list.push(t);
                    },
                    Err(e) => {
                        proof {
                            lemma_first_bad_stable(given@, i + 1, given@.len() as int);
                        }
                        return Err(SdkError::Utf8Error(e));
                    },
                },
            }
            i = i + 1;
        }
        encodings = Some(list);
    }
    let options = ServerOptions {
        session_id: None,
        name: Some(name_text),
        message_backlog_size: None,
        capabilities: Some(caps),
        services: Vec::new(),
        supported_encodings: encodings,
        has_fetch_asset_handler,
    };
    Ok((options, host_text))
}

/// Once an encoding is found bad, it stays the first bad one among more encodings.
proof fn lemma_first_bad_stable(v: Seq<Option<Vec<u8>>>, k: int, n: int)
    requires
        0 < k <= n,
        first_bad_encoding(v, k) is Some,
    ensures
        first_bad_encoding(v, n) == first_bad_encoding(v, k),
    decreases n - k,
{
    if n > k {
        lemma_first_bad_stable(v, k, n - 1);
    }
}

/// A message logged from C with a log time reaches every sink of the channel with that log
/// time, and with it as the publish time; logged without one, it reaches them with a clock
/// reading, the same for all.
pub proof fn given_log_time_reaches_sinks(before: RawChannel, after: RawChannel, data: Seq<u8>, log_time: Option<u64>)
    requires
        logged(before, after, data, PartialMetadata { sequence: None, log_time: log_time, publish_time: None }),
    ensures
        forall|k: int|
            0 <= k < before.sink_count() ==> {
                let d = #[trigger] after.deliveries()[before.deliveries().len() + k];
                &&& d.0 == before.sink_ids()[k]
                &&& d.2 == data
                &&& log_time matches Some(t) ==> d.3.log_time == t && d.3.publish_time == t
                &&& d.3.publish_time == d.3.log_time
                &&& d.3.sequence == before.sequence_counter()
            },
{
    logging_reaches_every_sink(before, after, data, PartialMetadata { sequence: None, log_time: log_time, publish_time: None });
}

} // verus!
