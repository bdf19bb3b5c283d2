use std::collections::BTreeMap;
use std::sync::{Arc, Mutex};

use foxglove::channel::{ChannelDescriptor, Metadata, PartialMetadata, RawChannel, Schema, Sink};
use foxglove::error::FoxgloveError;
use foxglove::ids::{ChannelId, IdCounter, SinkId};
use foxglove::testutil::{ErrorSink, LogCall, MockSink};

/// Records every message it is asked to log.
struct RecordingSink {
    id: SinkId,
    recorded: Mutex<Vec<LogCall>>,
}

impl RecordingSink {
    fn new(ids: &mut IdCounter) -> Self {
        Self { id: SinkId::next(ids), recorded: Mutex::new(Vec::new()) }
    }
}

impl Sink for RecordingSink {
    fn spec_id(&self) -> SinkId {
        self.id
    }

    fn id(&self) -> SinkId {
        self.id
    }

    fn log(&self, channel: &ChannelDescriptor, msg: &[u8], metadata: &Metadata) -> Result<(), FoxgloveError> {
        self.recorded.lock().unwrap().push(LogCall { channel_id: channel.id, msg: msg.to_vec(), metadata: *metadata });
        Ok(())
    }
}

fn new_channel(ids: &mut IdCounter) -> RawChannel {
    let mut metadata = BTreeMap::new();
    metadata.insert("key".to_string(), "value".to_string());
    RawChannel::new(
        ids,
        "/topic".to_string(),
        "json".to_string(),
        Some(Schema::new("Point".to_string(), "jsonschema".to_string(), vec![1, 2, 3])),
        metadata,
    )
}

#[test]
fn channel_getters() {
    let mut ids = IdCounter::new();
    let channel = new_channel(&mut ids);
    assert_eq!(channel.topic(), "/topic");
    assert_eq!(channel.message_encoding(), "json");
    assert_eq!(channel.schema().unwrap().name, "Point");
    assert_eq!(channel.metadata().get("key").map(|s| s.as_str()), Some("value"));
    assert_eq!(channel.id(), ChannelId(1));
    assert!(!channel.has_sinks());
    assert_eq!(channel.num_sinks(), 0);
}

#[test]
fn channel_ids_increase() {
    let mut ids = IdCounter::new();
    let a = new_channel(&mut ids);
    let b = new_channel(&mut ids);
    assert!(a.id().as_u64() < b.id().as_u64());
    assert_eq!(b.id().as_u64(), a.id().as_u64() + 1);
}

#[test]
fn sink_ids_increase() {
    let mut ids = IdCounter::new();
    let a = SinkId::next(&mut ids);
    let b = SinkId::next(&mut ids);
    assert_eq!(a, SinkId(1));
    assert_eq!(b, SinkId(2));
}

#[test]
fn sequence_numbers_are_consecutive() {
    let mut ids = IdCounter::new();
    let mut channel = new_channel(&mut ids);
    assert_eq!(channel.next_sequence(), 1);
    assert_eq!(channel.next_sequence(), 2);
    assert_eq!(channel.next_sequence(), 3);
}

#[test]
fn log_without_sinks_does_not_advance_sequence() {
    let mut ids = IdCounter::new();
    let mut channel = new_channel(&mut ids);
    channel.log(b"hello");
    assert_eq!(channel.next_sequence(), 1);
}

#[test]
fn log_reaches_every_sink_with_metadata() {
    let mut ids = IdCounter::new();
    let mut channel = new_channel(&mut ids);
    let recorder = Arc::new(RecordingSink::new(&mut ids));
    let failing: Arc<dyn Sink> = Arc::new(ErrorSink::new(&mut ids));
    let mock: Arc<dyn Sink> = Arc::new(MockSink::new(&mut ids));
    channel.update_sinks(vec![failing, recorder.clone(), mock]);
    assert!(channel.has_sinks());
    assert_eq!(channel.num_sinks(), 3);
    channel.log_with_meta(b"first", PartialMetadata::with_log_time(Some(42)));
    channel.log_with_meta(b"second", PartialMetadata::with_log_time(Some(43)));
    let recorded = recorder.recorded.lock().unwrap();
    assert_eq!(recorded.len(), 2);
    assert_eq!(recorded[0].channel_id, channel.id());
    assert_eq!(recorded[0].msg, b"first".to_vec());
    assert_eq!(recorded[0].metadata, Metadata { sequence: 1, log_time: 42, publish_time: 42 });
    assert_eq!(recorded[1].metadata, Metadata { sequence: 2, log_time: 43, publish_time: 43 });
}

#[test]
fn log_with_explicit_sequence_keeps_counter() {
    let mut ids = IdCounter::new();
    let mut channel = new_channel(&mut ids);
    let recorder = Arc::new(RecordingSink::new(&mut ids));
    channel.update_sinks(vec![recorder.clone()]);
    channel.log_to_sinks(b"x", PartialMetadata { sequence: Some(7), log_time: Some(1), publish_time: Some(2) });
    assert_eq!(recorder.recorded.lock().unwrap()[0].metadata, Metadata { sequence: 7, log_time: 1, publish_time: 2 });
    assert_eq!(channel.next_sequence(), 1);
}

#[test]
fn clear_sinks_removes_all() {
    let mut ids = IdCounter::new();
    let mut channel = new_channel(&mut ids);
    let mock: Arc<dyn Sink> = Arc::new(MockSink::new(&mut ids));
    channel.update_sinks(vec![mock]);
    channel.clear_sinks();
    assert!(!channel.has_sinks());
}

#[test]
fn error_sink_always_fails() {
    let mut ids = IdCounter::new();
    let channel = new_channel(&mut ids);
    let sink = ErrorSink::new(&mut ids);
    let metadata = Metadata { sequence: 1, log_time: 2, publish_time: 3 };
    let result = sink.log(channel.descriptor(), b"x", &metadata);
    assert_eq!(result, Err(FoxgloveError::Unspecified("ErrorSink always fails".to_string())));
    let mock = MockSink::new(&mut ids);
    assert_eq!(mock.log(channel.descriptor(), b"x", &metadata), Ok(()));
    assert_eq!(mock.id(), SinkId(3));
}

#[test]
fn sequence_wraps_around() {
    let mut ids = IdCounter::new();
    let mut channel = new_channel(&mut ids);
    let recorder = Arc::new(RecordingSink::new(&mut ids));
    channel.update_sinks(vec![recorder.clone()]);
    channel.log_to_sinks(b"x", PartialMetadata { sequence: Some(u32::MAX), log_time: Some(0), publish_time: None });
    assert_eq!(recorder.recorded.lock().unwrap()[0].metadata.sequence, u32::MAX);
}

#[test]
fn channels_made_apart_from_one_counter_differ() {
    let mut ids = IdCounter::new();
    let first = new_channel(&mut ids);
    let _sink = SinkId::next(&mut ids);
    let _other = SinkId::next(&mut ids);
    let second = new_channel(&mut ids);
    assert_ne!(first.id(), second.id());
    assert_eq!(second.id().as_u64(), first.id().as_u64() + 3);
}
