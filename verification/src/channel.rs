//! Raw channels and the sinks that they log to.
//!
//! A channel is a stream of messages which all have the same type, or schema. Each channel has a
//! unique topic. Logging a message on a channel hands it, with its metadata, to every sink that
//! is subscribed to the channel; a channel with no sinks drops the message.

use std::collections::BTreeMap;
use std::sync::Arc;

use vstd::prelude::*;

use crate::error::FoxgloveError;
use crate::ids::{ids_issued_in_turn_differ, issued_in_turn, ChannelId, IdCounter, SinkId};
use crate::time::{nanoseconds_since_epoch, nanoseconds_spec};

verus! {

/// A description of the data format of messages on a channel.
#[derive(Debug, Clone, PartialEq, Eq)]
pub struct Schema {
    /// The name of the schema.
    pub name: String,
    /// The encoding of the schema.
    pub encoding: String,
    /// The schema data.
    pub data: Vec<u8>,
}

impl Schema {
    /// Creates a schema.
    pub fn new(name: String, encoding: String, data: Vec<u8>) -> (s: Schema)
        ensures
            s.name == name,
            s.encoding == encoding,
            s.data == data,
    {
        Schema { name, encoding, data }
    }
}

/// The metadata that accompanies a logged message.
#[derive(Debug, Clone, Copy, PartialEq, Eq, Structural)]
pub struct Metadata {
    /// The message sequence number.
    pub sequence: u32,
    /// The time at which the message was logged, in nanoseconds since the epoch.
    pub log_time: u64,
    /// The time at which the message was published, in nanoseconds since the epoch.
    pub publish_time: u64,
}

/// Metadata supplied by the caller of a log operation; what is left out is filled in.
#[derive(Debug, Clone, Copy, PartialEq, Eq, Structural)]
pub struct PartialMetadata {
    /// The message sequence number. Defaults to the channel's next sequence number.
    pub sequence: Option<u32>,
    /// The log time. Defaults to the current time.
    pub log_time: Option<u64>,
    /// The publish time. Defaults to the log time.
    pub publish_time: Option<u64>,
}

impl PartialMetadata {
    /// Metadata with nothing supplied.
    pub open spec fn none_spec() -> PartialMetadata {
        PartialMetadata { sequence: None, log_time: None, publish_time: None }
    }

    /// Metadata with nothing supplied.
    pub fn none() -> (m: PartialMetadata)
        ensures
            m == PartialMetadata::none_spec(),
            m.sequence is None,
            m.log_time is None,
            m.publish_time is None,
    {
        PartialMetadata { sequence: None, log_time: None, publish_time: None }
    }

    /// Metadata that supplies only the log time.
    pub fn with_log_time(log_time: Option<u64>) -> (m: PartialMetadata)
        ensures
            m.sequence is None,
            m.log_time == log_time,
            m.publish_time is None,
    {
        PartialMetadata { sequence: None, log_time, publish_time: None }
    }
}

/// A sink writes a message from a channel to a destination.
pub trait Sink {
    /// The sink's unique ID.
    spec fn spec_id(&self) -> SinkId;

    /// Returns the sink's unique ID.
    fn id(&self) -> (r: SinkId)
        ensures
            r == self.spec_id(),
    ;

    /// Writes the message for the channel to the sink.
    ///
    /// Metadata contains optional message metadata that may be used by some sink
    /// implementations.
    fn log(&self, channel: &ChannelDescriptor, msg: &[u8], metadata: &Metadata) -> Result<(), FoxgloveError>;

    /// Called when a new channel is made available within the context.
    fn add_channel(&self, channel: &ChannelDescriptor) {
    }

    /// Called when a channel is unregistered from the context.
    fn remove_channel(&self, channel: &ChannelDescriptor) {
    }
}

/// What identifies and describes a channel; it does not change over the channel's life.
#[derive(Debug, Clone)]
pub struct ChannelDescriptor {
    /// The channel ID.
    pub id: ChannelId,
    /// The channel topic.
    pub topic: String,
    /// The encoding of messages on the channel.
    pub message_encoding: String,
    /// The schema of messages on the channel, if any.
    pub schema: Option<Schema>,
    /// User-defined metadata of the channel.
    pub metadata: BTreeMap<String, String>,
}

/// A log channel that can be used to log binary messages.
///
/// If a schema was provided, all messages must be encoded according to the schema. This is not
/// checked.
pub struct RawChannel {
    descriptor: ChannelDescriptor,
    message_sequence: u32,
    sinks: Vec<Arc<dyn Sink>>,
    /// Every message handed to a sink so far, in order.
    delivered: Ghost<Seq<Delivery>>,
}

/// A message handed to a sink: the sink, the channel, the message and its metadata.
pub type Delivery = (SinkId, ChannelId, Seq<u8>, Metadata);

/// The message handed to each of the sinks, in order, all with the same metadata.
pub open spec fn to_each_sink(sinks: Seq<SinkId>, channel: ChannelId, msg: Seq<u8>, m: Metadata) -> Seq<Delivery> {
    Seq::new(sinks.len(), |k: int| (sinks[k], channel, msg, m))
}

/// The metadata completes what the caller supplied: the sequence number defaults to the
/// channel's counter, the log time to a clock reading, and the publish time to the log time.
pub open spec fn completes(m: Metadata, counter: u32, opts: PartialMetadata) -> bool {
    &&& opts.sequence matches Some(s) ==> m.sequence == s
    &&& opts.sequence is None ==> m.sequence == counter
    &&& opts.log_time matches Some(t) ==> m.log_time == t
    &&& opts.log_time is None ==> exists|e: Option<(u64, u32)>| (e matches Some(p) ==> p.1 < 1_000_000_000)
        && m.log_time == nanoseconds_spec(e)
    &&& opts.publish_time matches Some(t) ==> m.publish_time == t
    &&& opts.publish_time is None ==> m.publish_time == m.log_time
}

/// Between the two states of a channel, the message was handed to each of its sinks, in order,
/// with metadata that completes `opts`.
pub open spec fn logged(before: RawChannel, after: RawChannel, msg: Seq<u8>, opts: PartialMetadata) -> bool {
    exists|m: Metadata|
        completes(m, before.sequence_counter(), opts) && after.deliveries() == before.deliveries() + to_each_sink(
            before.sink_ids(),
            before.spec_id(),
            msg,
            m,
        )
}

impl RawChannel {
    /// The channel ID.
    pub closed spec fn spec_id(&self) -> ChannelId {
        self.descriptor.id
    }

    /// The channel topic.
    pub closed spec fn spec_topic(&self) -> Seq<char> {
        self.descriptor.topic@
    }

    /// The message encoding.
    pub closed spec fn spec_message_encoding(&self) -> Seq<char> {
        self.descriptor.message_encoding@
    }

    /// The schema.
    pub closed spec fn spec_schema(&self) -> Option<Schema> {
        self.descriptor.schema
    }

    /// The channel metadata.
    pub closed spec fn spec_metadata(&self) -> Map<String, String> {
        self.descriptor.metadata@
    }

    /// The sequence number that the channel hands out next.
    pub closed spec fn sequence_counter(&self) -> u32 {
        self.message_sequence
    }

    /// The number of sinks subscribed to the channel.
    pub closed spec fn sink_count(&self) -> nat {
        self.sinks@.len()
    }

    /// The IDs of the sinks subscribed to the channel, in order.
    pub closed spec fn sink_ids(&self) -> Seq<SinkId> {
        self.sinks@.map_values(|s: Arc<dyn Sink>| s.spec_id())
    }

    /// Every message handed to a sink so far, in order.
    pub closed spec fn deliveries(&self) -> Seq<Delivery> {
        self.delivered@
    }

    /// Creates a channel with a fresh ID, no sinks, and a sequence counter that starts at one.
    pub fn new(
        ids: &mut IdCounter,
        topic: String,
        message_encoding: String,
        schema: Option<Schema>,
        metadata: BTreeMap<String, String>,
    ) -> (c: RawChannel)
        ensures
            c.spec_id().0 == old(ids).next_value(),
            old(ids).next_value() < u64::MAX ==> final(ids).next_value() == c.spec_id().0 + 1,
            old(ids).next_value() == u64::MAX ==> final(ids).next_value() == 0,
            c.spec_topic() == topic@,
            c.spec_message_encoding() == message_encoding@,
            c.spec_schema() == schema,
            c.spec_metadata() == metadata@,
            c.sequence_counter() == 1,
            c.sink_count() == 0,
            c.deliveries().len() == 0,
    {
        RawChannel {
            descriptor: ChannelDescriptor {
                id: ChannelId::next(ids),
                topic,
                message_encoding,
                schema,
                metadata,
            },
            message_sequence: 1,
            sinks: Vec::new(),
            delivered: Ghost(Seq::empty()),
        }
    }

    /// Returns the descriptor of the channel.
    pub fn descriptor(&self) -> (r: &ChannelDescriptor)
        ensures
            r.id == self.spec_id(),
            r.topic@ == self.spec_topic(),
            r.message_encoding@ == self.spec_message_encoding(),
            r.schema == self.spec_schema(),
            r.metadata@ == self.spec_metadata(),
    {
        &self.descriptor
    }

    /// Returns the channel ID.
    pub fn id(&self) -> (r: ChannelId)
        ensures
            r == self.spec_id(),
    {
        self.descriptor.id
    }

    /// Returns the channel topic.
    pub fn topic(&self) -> (r: &str)
        ensures
            r@ == self.spec_topic(),
    {
        self.descriptor.topic.as_str()
    }

    /// Returns the channel schema.
    pub fn schema(&self) -> (r: Option<&Schema>)
        ensures
            r matches Some(s) ==> self.spec_schema() == Some(*s),
            r is None <==> self.spec_schema() is None,
    {
        match &self.descriptor.schema {
            Some(s) => Some(s),
            None => None,
        }
    }

    /// Returns the message encoding for this channel.
    pub fn message_encoding(&self) -> (r: &str)
        ensures
            r@ == self.spec_message_encoding(),
    {
        self.descriptor.message_encoding.as_str()
    }

    /// Returns the metadata for this channel.
    pub fn metadata(&self) -> (r: &BTreeMap<String, String>)
        ensures
            r@ == self.spec_metadata(),
    {
        &self.descriptor.metadata
    }

    /// Returns the next message sequence number, and advances the counter, wrapping around
    /// after `u32::MAX`.
    pub fn next_sequence(&mut self) -> (r: u32)
        ensures
            r == old(self).sequence_counter(),
            final(self).sequence_counter() == following(r),
            final(self).unchanged_but_sequence(*old(self)),
            final(self).deliveries() == old(self).deliveries(),
    {
        let r = self.message_sequence;
        self.message_sequence = self.message_sequence.wrapping_add(1);
        r
    }

    /// Everything but the sequence counter is as in `other`.
    pub closed spec fn unchanged_but_sequence(&self, other: RawChannel) -> bool {
        &&& self.descriptor == other.descriptor
        &&& self.sinks == other.sinks
    }

    /// Updates the set of sinks that are subscribed to this channel.
    pub fn update_sinks(&mut self, sinks: Vec<Arc<dyn Sink>>)
        ensures
            final(self).sink_count() == sinks@.len(),
            final(self).sink_ids() == sinks@.map_values(|s: Arc<dyn Sink>| s.spec_id()),
            final(self).deliveries() == old(self).deliveries(),
            final(self).sequence_counter() == old(self).sequence_counter(),
            final(self).spec_id() == old(self).spec_id(),
            final(self).spec_topic() == old(self).spec_topic(),
    {
        self.sinks = sinks;
    }

    /// Clears the set of subscribed sinks.
    pub fn clear_sinks(&mut self)
        ensures
            final(self).sink_count() == 0,
            final(self).deliveries() == old(self).deliveries(),
            final(self).sequence_counter() == old(self).sequence_counter(),
            final(self).spec_id() == old(self).spec_id(),
            final(self).spec_topic() == old(self).spec_topic(),
    {
        self.sinks = Vec::new();
    }

    /// Returns true if at least one sink is subscribed to this channel.
    pub fn has_sinks(&self) -> (r: bool)
        ensures
            r == (self.sink_count() > 0),
    {
        self.sinks.len() != 0
    }

    /// Returns the count of sinks subscribed to this channel.
    pub fn num_sinks(&self) -> (r: usize)
        ensures
            r == self.sink_count(),
    {
        self.sinks.len()
    }

    /// Completes the metadata of a message: the sequence number defaults to the channel's next
    /// one, the log time to the current time, and the publish time to the log time.
    pub fn resolve_metadata(&mut self, opts: PartialMetadata) -> (m: Metadata)
        ensures
            opts.sequence matches Some(s) ==> m.sequence == s && final(self).sequence_counter()
                == old(self).sequence_counter(),
            opts.sequence is None ==> m.sequence == old(self).sequence_counter()
                && final(self).sequence_counter() == following(m.sequence),
            opts.log_time matches Some(t) ==> m.log_time == t,
            opts.log_time is None ==> exists|e: Option<(u64, u32)>| (e matches Some(p) ==> p.1 < 1_000_000_000)
                && m.log_time == nanoseconds_spec(e),
            opts.publish_time matches Some(t) ==> m.publish_time == t,
            opts.publish_time is None ==> m.publish_time == m.log_time,
            completes(m, old(self).sequence_counter(), opts),
            final(self).unchanged_but_sequence(*old(self)),
            final(self).deliveries() == old(self).deliveries(),
    {
        let sequence = match opts.sequence {
            Some(s) => s,
            None => self.next_sequence(),
        };
        let log_time = match opts.log_time {
            Some(t) => t,
            None => nanoseconds_since_epoch(),
        };
        let publish_time = match opts.publish_time {
            Some(t) => t,
            None => log_time,
        };
        Metadata { sequence, log_time, publish_time }
    }

    /// Logs a message.
    pub fn log(&mut self, msg: &[u8])
        ensures
            old(self).sink_count() > 0 ==> final(self).sequence_counter() == following(old(self).sequence_counter()),
            old(self).sink_count() == 0 ==> final(self).sequence_counter() == old(
                self,
            ).sequence_counter(),
            final(self).unchanged_but_sequence(*old(self)),
            old(self).sink_count() > 0 ==> logged(*old(self), *final(self), msg@, PartialMetadata::none_spec()),
            old(self).sink_count() == 0 ==> final(self).deliveries() == old(self).deliveries(),
    {
        if self.has_sinks() {
            self.log_to_sinks(msg, PartialMetadata::none());
        }
    }

    /// Logs a message with additional metadata.
    pub fn log_with_meta(&mut self, msg: &[u8], opts: PartialMetadata)
        ensures
            old(self).sink_count() > 0 && opts.sequence is None ==> final(self).sequence_counter()
                == following(old(self).sequence_counter()),
            old(self).sink_count() == 0 || opts.sequence is Some ==> final(self).sequence_counter()
                == old(self).sequence_counter(),
            final(self).unchanged_but_sequence(*old(self)),
            old(self).sink_count() > 0 ==> logged(*old(self), *final(self), msg@, opts),
            old(self).sink_count() == 0 ==> final(self).deliveries() == old(self).deliveries(),
    {
        if self.has_sinks() {
            self.log_to_sinks(msg, opts);
        }
    }

    /// Logs a message with additional metadata to every subscribed sink, in order. The result of
    /// each sink is ignored.
    pub fn log_to_sinks(&mut self, msg: &[u8], opts: PartialMetadata)
        ensures
            opts.sequence is None ==> final(self).sequence_counter() == following(old(self).sequence_counter()),
            opts.sequence is Some ==> final(self).sequence_counter() == old(
                self,
            ).sequence_counter(),
            final(self).unchanged_but_sequence(*old(self)),
            logged(*old(self), *final(self), msg@, opts),
    {
        let metadata = self.resolve_metadata(opts);
        let ghost start = old(self).deliveries();
        let ghost ids = old(self).sink_ids();
        let ghost channel = old(self).spec_id();
        let ghost mut record = start;
        let this: &RawChannel = self;
        let n = this.sinks.len();
        let mut i: usize = 0;
        while i < n
            invariant
                n == this.sinks@.len(),
                ids == this.sinks@.map_values(|s: Arc<dyn Sink>| s.spec_id()),
                channel == this.descriptor.id,
                i <= n,
                record == start + to_each_sink(ids.take(i as int), channel, msg@, metadata),
            decreases n - i,
        {
            let _ = this.sinks[i].log(&this.descriptor, msg, &metadata);
            proof {
                assert(to_each_sink(ids.take(i + 1), channel, msg@, metadata) =~= to_each_sink(
                    ids.take(i as int),
                    channel,
                    msg@,
                    metadata,
                ).push((ids[i as int], channel, msg@, metadata)));
                record = record.push((ids[i as int], channel, msg@, metadata));
            }
            i = i + 1;
        }
        proof {
            assert(ids.take(n as int) =~= ids);
        }
        self.delivered = Ghost(record);
        assert(completes(metadata, old(self).sequence_counter(), opts));
    }
}

/// The sequence number that follows `s`: one more, wrapping around after `u32::MAX`.
pub open spec fn following(s: u32) -> u32 {
    if s == u32::MAX {
        0
    } else {
        (s + 1) as u32
    }
}

/// Messages logged in a row on a channel, without sequence numbers of their own, get
/// consecutive sequence numbers modulo 2^32, so that no two in a row share one.
pub proof fn sequence_numbers_follow_one_another(s: u32)
    ensures
        following(s) == (s + 1) % 0x1_0000_0000,
        following(s) != s,
{
}

/// Two channels made in turn from one counter, while it has not reached `u64::MAX`, have
/// different IDs, the later one the larger.
pub proof fn channels_made_in_turn_differ(before: IdCounter, between: IdCounter, a: RawChannel, b: RawChannel)
    requires
        a.spec_id().0 == before.next_value(),
        before.next_value() < u64::MAX,
        between.next_value() == a.spec_id().0 + 1,
        b.spec_id().0 == between.next_value(),
    ensures
        a.spec_id() != b.spec_id(),
        a.spec_id().0 < b.spec_id().0,
{
}

/// What a channel is made with, its ID first, never changes while it logs: only its sequence
/// counter moves.
pub proof fn channel_identity_is_kept(before: RawChannel, after: RawChannel)
    requires
        after.unchanged_but_sequence(before),
    ensures
        after.spec_id() == before.spec_id(),
        after.spec_topic() == before.spec_topic(),
        after.spec_message_encoding() == before.spec_message_encoding(),
        after.spec_schema() == before.spec_schema(),
        after.spec_metadata() == before.spec_metadata(),
        after.sink_count() == before.sink_count(),
{
}

/// Two channels made from one counter, at any two steps of a run of identifiers issued in turn
/// that does not reach `u64::MAX`, whatever else was issued between them, have different IDs,
/// the later one the larger.
pub proof fn channels_from_one_counter_differ(states: Seq<IdCounter>, i: int, j: int, a: RawChannel, b: RawChannel)
    requires
        issued_in_turn(states),
        0 <= i < j < states.len(),
        a.spec_id().0 == states[i].next_value(),
        b.spec_id().0 == states[j].next_value(),
    ensures
        a.spec_id() != b.spec_id(),
        a.spec_id().0 < b.spec_id().0,
{
    ids_issued_in_turn_differ(states, i, j);
}

/// Logging a message hands it to every sink of the channel exactly once, in the order of the
/// channel's sinks, after what was handed before, each time with the channel's ID, the message
/// itself and one and the same metadata: the given sequence number, log time and publish time
/// where supplied, else the channel's next sequence number, a clock reading, and the log time.
pub proof fn logging_reaches_every_sink(before: RawChannel, after: RawChannel, msg: Seq<u8>, opts: PartialMetadata)
    requires
        logged(before, after, msg, opts),
    ensures
        after.deliveries().len() == before.deliveries().len() + before.sink_count(),
        forall|k: int| 0 <= k < before.deliveries().len() ==> #[trigger] after.deliveries()[k] == before.deliveries()[k],
        forall|k: int|
            0 <= k < before.sink_count() ==> {
                let d = #[trigger] after.deliveries()[before.deliveries().len() + k];
                &&& d.0 == before.sink_ids()[k]
                &&& d.1 == before.spec_id()
                &&& d.2 == msg
                &&& d.3 == after.deliveries()[before.deliveries().len() as int].3
                &&& opts.sequence matches Some(s) ==> d.3.sequence == s
                &&& opts.sequence is None ==> d.3.sequence == before.sequence_counter()
                &&& opts.log_time matches Some(t) ==> d.3.log_time == t
                &&& opts.publish_time matches Some(t) ==> d.3.publish_time == t
                &&& opts.publish_time is None ==> d.3.publish_time == d.3.log_time
            },
{
    let m = choose|m: Metadata|
        completes(m, before.sequence_counter(), opts) && after.deliveries() == before.deliveries() + to_each_sink(
            before.sink_ids(),
            before.spec_id(),
            msg,
            m,
        );
    assert(before.sink_ids().len() == before.sink_count());
}

} // verus!
