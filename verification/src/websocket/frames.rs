//! The binary frames of the Foxglove WebSocket protocol: an opcode byte, then little-endian
//! integers, then the rest of the frame as data.

use vstd::prelude::*;
use vstd::string::StringSliceAdditionalSpecFns;
use vstd::utf8::{decode_utf8, valid_utf8};

use crate::capi::{str_from_utf8, utf8_error_text};
use crate::ids::{CallId, ClientChannelId, ServiceId, SubscriptionId};
use crate::websocket::protocol::ClientMessage;

verus! {

/// The opcode of a frame of message data, sent either way.
pub const OPCODE_MESSAGE_DATA: u8 = 1;

/// The opcode of the server's time frame, and of a client's service call request.
pub const OPCODE_TIME_OR_CALL: u8 = 2;

/// The opcode of the server's response to a service call.
pub const OPCODE_SERVICE_CALL_RESPONSE: u8 = 3;

/// The opcode of the server's response to a fetch asset request.
pub const OPCODE_FETCH_ASSET_RESPONSE: u8 = 4;

/// The four little-endian bytes of `v`.
pub open spec fn le_u32(v: u32) -> Seq<u8> {
    seq![
        (v % 256) as u8,
        ((v / 256) % 256) as u8,
        ((v / 65536) % 256) as u8,
        ((v / 16777216) % 256) as u8,
    ]
}

/// The eight little-endian bytes of `v`.
pub open spec fn le_u64(v: u64) -> Seq<u8> {
    le_u32((v % 0x1_0000_0000) as u32) + le_u32((v / 0x1_0000_0000) as u32)
}

/// The little-endian integer of the four bytes at position `at`.
pub open spec fn read_le_u32(b: Seq<u8>, at: int) -> u32 {
    (b[at] + 256 * b[at + 1] + 65536 * b[at + 2] + 16777216 * b[at + 3]) as u32
}

/// Appends the four little-endian bytes of `v`.
fn push_u32_le(buf: &mut Vec<u8>, v: u32)
    ensures
        final(buf)@ == old(buf)@ + le_u32(v),
{
    buf.push((v % 256) as u8);
    buf.push(((v / 256) % 256) as u8);
    buf.push(((v / 65536) % 256) as u8);
    buf.push(((v / 16777216) % 256) as u8);
    assert(final(buf)@ =~= old(buf)@ + le_u32(v));
}

/// Appends the eight little-endian bytes of `v`.
fn push_u64_le(buf: &mut Vec<u8>, v: u64)
    ensures
        final(buf)@ == old(buf)@ + le_u64(v),
{
    push_u32_le(buf, (v % 0x1_0000_0000) as u32);
    push_u32_le(buf, (v / 0x1_0000_0000) as u32);
    assert(final(buf)@ =~= old(buf)@ + le_u64(v));
}

/// Appends the bytes.
fn push_bytes(buf: &mut Vec<u8>, bytes: &[u8])
    ensures
        final(buf)@ == old(buf)@ + bytes@,
{
    let mut i: usize = 0;
    while i < bytes.len()
        invariant
            i <= bytes@.len(),
            buf@ == old(buf)@ + bytes@.take(i as int),
        decreases bytes@.len() - i,
    {
        buf.push(bytes[i]);
        i = i + 1;
        assert(buf@ =~= old(buf)@ + bytes@.take(i as int));
    }
    assert(bytes@.take(i as int) =~= bytes@);
}

/// The frame of a message logged on a channel, for the subscription that asked for it.
pub fn encode_message_data(subscription_id: SubscriptionId, log_time: u64, payload: &[u8]) -> (r: Vec<u8>)
    ensures
        r@ == seq![OPCODE_MESSAGE_DATA] + le_u32(subscription_id.0) + le_u64(log_time) + payload@,
{
    let mut r: Vec<u8> = Vec::new();
    r.push(OPCODE_MESSAGE_DATA);
    push_u32_le(&mut r, subscription_id.0);
    push_u64_le(&mut r, log_time);
    push_bytes(&mut r, payload);
    r
}

/// The frame of the server's time.
pub fn encode_time(timestamp: u64) -> (r: Vec<u8>)
    ensures
        r@ == seq![OPCODE_TIME_OR_CALL] + le_u64(timestamp),
{
    let mut r: Vec<u8> = Vec::new();
    r.push(OPCODE_TIME_OR_CALL);
    push_u64_le(&mut r, timestamp);
    r
}

/// The frame of a response to a service call: the service, the call, the length and bytes of
/// the encoding, then the payload.
pub fn encode_service_call_response(service_id: ServiceId, call_id: CallId, encoding: &str, payload: &[u8]) -> (r:
    Vec<u8>)
    requires
        encoding.spec_bytes().len() <= u32::MAX,
    ensures
        r@ == seq![OPCODE_SERVICE_CALL_RESPONSE] + le_u32(service_id.0) + le_u32(call_id.0) + le_u32(
            encoding.spec_bytes().len() as u32,
        ) + encoding.spec_bytes() + payload@,
{
    let bytes = encoding.as_bytes();
    let mut r: Vec<u8> = Vec::new();
    r.push(OPCODE_SERVICE_CALL_RESPONSE);
    push_u32_le(&mut r, service_id.0);
    push_u32_le(&mut r, call_id.0);
    push_u32_le(&mut r, bytes.len() as u32);
    push_bytes(&mut r, bytes);
    push_bytes(&mut r, payload);
    r
}

/// The frame that answers a fetch asset request with the asset: the request, a zero status,
/// an empty error, then the data.
pub fn encode_fetch_asset_data(request_id: u32, data: &[u8]) -> (r: Vec<u8>)
    ensures
        r@ == seq![OPCODE_FETCH_ASSET_RESPONSE] + le_u32(request_id) + seq![0u8] + le_u32(0) + data@,
{
    let mut r: Vec<u8> = Vec::new();
    r.push(OPCODE_FETCH_ASSET_RESPONSE);
    push_u32_le(&mut r, request_id);
    r.push(0);
    push_u32_le(&mut r, 0);
    push_bytes(&mut r, data);
    r
}

/// The frame that answers a fetch asset request with an error: the request, a status of one,
/// then the length and bytes of the error text.
pub fn encode_fetch_asset_error(request_id: u32, message: &str) -> (r: Vec<u8>)
    requires
        message.spec_bytes().len() <= u32::MAX,
    ensures
        r@ == seq![OPCODE_FETCH_ASSET_RESPONSE] + le_u32(request_id) + seq![1u8] + le_u32(
            message.spec_bytes().len() as u32,
        ) + message.spec_bytes(),
{
    let bytes = message.as_bytes();
    let mut r: Vec<u8> = Vec::new();
    r.push(OPCODE_FETCH_ASSET_RESPONSE);
    push_u32_le(&mut r, request_id);
    r.push(1);
    push_u32_le(&mut r, bytes.len() as u32);
    push_bytes(&mut r, bytes);
    r
}

/// Why a binary frame from a client cannot be read.
#[derive(Debug, Clone, PartialEq, Eq)]
pub enum FrameError {
    /// The frame is empty.
    Empty,
    /// The frame ends before its fields do.
    TooShort,
    /// The encoding of a service call is not valid UTF-8; why it is not.
    InvalidEncoding(String),
    /// The opcode is not one that a client sends.
    UnknownOpcode(u8),
}

/// The frame is read as a client's message data.
pub open spec fn reads_message_data(r: Result<ClientMessage, FrameError>, b: Seq<u8>) -> bool {
    r matches Ok(ClientMessage::MessageData { channel_id, data }) && channel_id.0 == read_le_u32(b, 1) && data@
        == b.subrange(5, b.len() as int)
}

/// The frame is read as a client's service call request, whose encoding is `n` bytes long.
pub open spec fn reads_service_call(r: Result<ClientMessage, FrameError>, b: Seq<u8>, n: int) -> bool {
    &&& r matches Ok(ClientMessage::ServiceCallRequest { service_id, call_id, encoding, payload })
    &&& r->Ok_0->ServiceCallRequest_service_id.0 == read_le_u32(b, 1)
    &&& r->Ok_0->ServiceCallRequest_call_id.0 == read_le_u32(b, 5)
    &&& r->Ok_0->ServiceCallRequest_encoding@ == decode_utf8(b.subrange(13, 13 + n))
    &&& r->Ok_0->ServiceCallRequest_payload@ == b.subrange(13 + n, b.len() as int)
}

/// Reads a binary frame from a client: message data on one of its channels (opcode 1: the
/// channel, then the data), or a service call request (opcode 2: the service, the call, the
/// length of the encoding, the encoding, then the payload).
pub fn parse_client_frame(bytes: &[u8]) -> (r: Result<ClientMessage, FrameError>)
    ensures
        bytes@.len() == 0 ==> r == Err::<ClientMessage, FrameError>(FrameError::Empty),
        bytes@.len() > 0 && bytes@[0] == OPCODE_MESSAGE_DATA ==> (if bytes@.len() < 5 {
            r == Err::<ClientMessage, FrameError>(FrameError::TooShort)
        } else {
            reads_message_data(r, bytes@)
        }),
        bytes@.len() > 0 && bytes@[0] == OPCODE_TIME_OR_CALL ==> (if bytes@.len() < 13 || 13 + read_le_u32(bytes@, 9)
            > bytes@.len() {
            r == Err::<ClientMessage, FrameError>(FrameError::TooShort)
        } else if !valid_utf8(bytes@.subrange(13, 13 + read_le_u32(bytes@, 9))) {
            r matches Err(FrameError::InvalidEncoding(m)) && m@ == utf8_error_text(
                bytes@.subrange(13, 13 + read_le_u32(bytes@, 9)),
            )
        } else {
            reads_service_call(r, bytes@, read_le_u32(bytes@, 9) as int)
        }),
        bytes@.len() > 0 && bytes@[0] != OPCODE_MESSAGE_DATA && bytes@[0] != OPCODE_TIME_OR_CALL ==> r
            == Err::<ClientMessage, FrameError>(FrameError::UnknownOpcode(bytes@[0])),
{
    if bytes.len() == 0 {
        return Err(FrameError::Empty);
    }
    let opcode = bytes[0];
    if opcode == OPCODE_MESSAGE_DATA {
        if bytes.len() < 5 {
            return Err(FrameError::TooShort);
        }
        let channel_id = read_u32_at(bytes, 1);
        let data = copy_range(bytes, 5, bytes.len());
        Ok(ClientMessage::MessageData { channel_id: ClientChannelId(channel_id), data })
    } else if opcode == OPCODE_TIME_OR_CALL {
        if bytes.len() < 13 {
            return Err(FrameError::TooShort);
        }
        let service_id = read_u32_at(bytes, 1);
        let call_id = read_u32_at(bytes, 5);
        let n = read_u32_at(bytes, 9);
        if n as usize > bytes.len() - 13 {
            return Err(FrameError::TooShort);
        }
        let end: usize = 13 + n as usize;
        let encoding_bytes = copy_range(bytes, 13, end);
        let encoding = match str_from_utf8(encoding_bytes.as_slice()) {
            Ok(e) => e,
            Err(e) => {
                return Err(FrameError::InvalidEncoding(e));
            },
        };
        let payload = copy_range(bytes, end, bytes.len());
        Ok(
            ClientMessage::ServiceCallRequest {
                service_id: ServiceId(service_id),
                call_id: CallId(call_id),
                encoding,
                payload,
            },
        )
    } else {
        Err(FrameError::UnknownOpcode(opcode))
    }
}

/// Reads the little-endian integer of the four bytes at position `at`.
fn read_u32_at(bytes: &[u8], at: usize) -> (r: u32)
    requires
        at + 4 <= bytes@.len(),
    ensures
        r == read_le_u32(bytes@, at as int),
{
    let v: u64 = bytes[at] as u64 + 256 * (bytes[at + 1] as u64) + 65536 * (bytes[at + 2] as u64) + 16777216 * (
    bytes[at + 3] as u64);
    v as u32
}

/// Copies the bytes from position `from` up to `to`.
fn copy_range(bytes: &[u8], from: usize, to: usize) -> (r: Vec<u8>)
    requires
        from <= to <= bytes@.len(),
    ensures
        r@ == bytes@.subrange(from as int, to as int),
{
    let mut r: Vec<u8> = Vec::new();
    let mut i: usize = from;
    while i < to
        invariant
            from <= i <= to,
            to <= bytes@.len(),
            r@ == bytes@.subrange(from as int, i as int),
        decreases to - i,
    {
        r.push(bytes[i]);
        i = i + 1;
        assert(r@ =~= bytes@.subrange(from as int, i as int));
    }
    r
}

} // verus!
