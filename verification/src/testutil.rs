//! Sinks for exercising channels: one that accepts everything, one that always fails, and the
//! record of a logged message.

use vstd::prelude::*;

use crate::channel::{ChannelDescriptor, Metadata, Sink};
use crate::error::FoxgloveError;
use crate::ids::{ChannelId, IdCounter, SinkId};
use crate::text::owned;

verus! {

/// A sink that accepts every message and keeps none.
pub struct MockSink(pub SinkId);

impl MockSink {
    /// Creates a sink with the next ID of `ids`.
    pub fn new(ids: &mut IdCounter) -> (s: MockSink)
        ensures
            s.0.0 == old(ids).next_value(),
            old(ids).next_value() < u64::MAX ==> final(ids).next_value() == s.0.0 + 1,
            old(ids).next_value() == u64::MAX ==> final(ids).next_value() == 0,
    {
        MockSink(SinkId::next(ids))
    }
}

impl Sink for MockSink {
    open spec fn spec_id(&self) -> SinkId {
        self.0
    }

    fn id(&self) -> SinkId {
        self.0
    }

    fn log(&self, channel: &ChannelDescriptor, msg: &[u8], metadata: &Metadata) -> Result<(), FoxgloveError> {
        Ok(())
    }
}

/// A message that a sink was asked to log.
pub struct LogCall {
    /// The channel the message was logged on.
    pub channel_id: ChannelId,
    /// The message.
    pub msg: Vec<u8>,
    /// Its metadata.
    pub metadata: Metadata,
}

/// A sink that refuses every message.
pub struct ErrorSink(pub SinkId);

impl ErrorSink {
    /// Creates a sink with the next ID of `ids`.
    pub fn new(ids: &mut IdCounter) -> (s: ErrorSink)
        ensures
            s.0.0 == old(ids).next_value(),
            old(ids).next_value() < u64::MAX ==> final(ids).next_value() == s.0.0 + 1,
            old(ids).next_value() == u64::MAX ==> final(ids).next_value() == 0,
    {
        ErrorSink(SinkId::next(ids))
    }

    /// The error with which every message is refused.
    pub fn failure() -> (e: FoxgloveError)
        ensures
            e matches FoxgloveError::Unspecified(m) && m@ == "ErrorSink always fails"@,
    {
        FoxgloveError::Unspecified(owned("ErrorSink always fails"))
    }
}

impl Sink for ErrorSink {
    open spec fn spec_id(&self) -> SinkId {
        self.0
    }

    fn id(&self) -> SinkId {
        self.0
    }

    fn log(&self, channel: &ChannelDescriptor, msg: &[u8], metadata: &Metadata) -> Result<(), FoxgloveError> {
        Err(ErrorSink::failure())
    }
}

} // verus!
