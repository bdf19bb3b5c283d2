//! Identifiers, and the counters that hand them out.
//!
//! Each counter starts at one and hands out consecutive values, so that the identifiers it issues
//! are unique until it wraps around.

use vstd::prelude::*;

verus! {

/// A counter that hands out 64-bit identifiers.
pub struct IdCounter {
    next: u64,
}

impl IdCounter {
    /// The identifier that the counter hands out next.
    pub closed spec fn next_value(self) -> u64 {
        self.next
    }

    /// A counter whose first identifier is one.
    pub closed spec fn new_spec() -> IdCounter {
        IdCounter { next: 1 }
    }

    /// Creates a counter whose first identifier is one.
    pub fn new() -> (c: IdCounter)
        ensures
            c.next_value() == 1,
            c == IdCounter::new_spec(),
    {
        IdCounter { next: 1 }
    }

    /// Hands out the next identifier, wrapping around after `u64::MAX`.
    pub fn issue(&mut self) -> (id: u64)
        ensures
            id == old(self).next_value(),
            final(self).next_value() == (if old(self).next_value() == u64::MAX {
                0
            } else {
                old(self).next_value() + 1
            }),
    {
        let id = self.next;
        self.next = self.next.wrapping_add(1);
        id
    }
}

/// A counter that hands out 32-bit identifiers.
pub struct IdCounter32 {
    next: u32,
}

impl IdCounter32 {
    /// The identifier that the counter hands out next.
    pub closed spec fn next_value(self) -> u32 {
        self.next
    }

    /// Creates a counter whose first identifier is one.
    pub fn new() -> (c: IdCounter32)
        ensures
            c.next_value() == 1,
    {
        IdCounter32 { next: 1 }
    }

    /// Hands out the next identifier, wrapping around after `u32::MAX`.
    pub fn issue(&mut self) -> (id: u32)
        ensures
            id == old(self).next_value(),
            final(self).next_value() == (if old(self).next_value() == u32::MAX {
                0
            } else {
                old(self).next_value() + 1
            }),
    {
        let id = self.next;
        self.next = self.next.wrapping_add(1);
        id
    }
}

/// Two identifiers issued by a 64-bit counter, the first at some state and the second at a
/// later state, differ as long as the counter has not wrapped in between: the later one is
/// larger.
pub proof fn issued_ids_increase(before: IdCounter, after: IdCounter, first: u64, second: u64)
    requires
        first == before.next_value(),
        second == after.next_value(),
        before.next_value() < after.next_value(),
    ensures
        first < second,
        first != second,
{
}

/// Uniquely identifies a sink in the context of this program.
#[derive(Debug, Clone, Copy, PartialEq, Eq, Hash, PartialOrd, Ord, Structural)]
pub struct SinkId(pub u64);

impl SinkId {
    /// Allocates the next sink ID from `counter`.
    pub fn next(counter: &mut IdCounter) -> (id: SinkId)
        ensures
            id.0 == old(counter).next_value(),
            old(counter).next_value() < u64::MAX ==> final(counter).next_value() == id.0 + 1,
            old(counter).next_value() == u64::MAX ==> final(counter).next_value() == 0,
    {
        SinkId(counter.issue())
    }
}

/// Uniquely identifies a channel in the context of this program.
#[derive(Debug, Clone, Copy, PartialEq, Eq, Hash, PartialOrd, Ord, Structural)]
pub struct ChannelId(pub u64);

impl ChannelId {
    /// Allocates the next channel ID from `counter`.
    pub fn next(counter: &mut IdCounter) -> (id: ChannelId)
        ensures
            id.0 == old(counter).next_value(),
            old(counter).next_value() < u64::MAX ==> final(counter).next_value() == id.0 + 1,
            old(counter).next_value() == u64::MAX ==> final(counter).next_value() == 0,
    {
        ChannelId(counter.issue())
    }

    /// Returns the identifier as an integer.
    pub fn as_u64(self) -> (r: u64)
        ensures
            r == self.0,
    {
        self.0
    }
}

/// Identifies a client connection. Unique for the duration of the server's lifetime.
#[derive(Debug, Clone, Copy, PartialEq, Eq, Hash, Structural)]
pub struct ClientId(pub u32);

impl ClientId {
    /// Allocates the next client ID from `counter`.
    pub fn next(counter: &mut IdCounter32) -> (id: ClientId)
        ensures
            id.0 == old(counter).next_value(),
            old(counter).next_value() < u32::MAX ==> final(counter).next_value() == id.0 + 1,
            old(counter).next_value() == u32::MAX ==> final(counter).next_value() == 0,
    {
        ClientId(counter.issue())
    }

    /// Returns the identifier as an integer.
    pub fn as_u32(self) -> (r: u32)
        ensures
            r == self.0,
    {
        self.0
    }
}

/// Identifies a subscription of a client to a channel; chosen by the client.
#[derive(Debug, Clone, Copy, PartialEq, Eq, Hash, Structural)]
pub struct SubscriptionId(pub u32);

/// Identifies a channel advertised by a client; chosen by the client.
#[derive(Debug, Clone, Copy, PartialEq, Eq, Hash, Structural)]
pub struct ClientChannelId(pub u32);

/// Identifies a service registered with the server.
#[derive(Debug, Clone, Copy, PartialEq, Eq, Hash, Structural)]
pub struct ServiceId(pub u32);

/// Identifies a service call; chosen by the client.
#[derive(Debug, Clone, Copy, PartialEq, Eq, Hash, Structural)]
pub struct CallId(pub u32);

/// Two sink IDs allocated in turn from one counter, while it has not reached `u64::MAX`,
/// differ, the later one the larger; a fresh counter's first one is one.
pub proof fn sink_ids_allocated_in_turn_increase(before: IdCounter, between: IdCounter, a: SinkId, b: SinkId)
    requires
        a.0 == before.next_value(),
        before.next_value() < u64::MAX,
        between.next_value() == a.0 + 1,
        b.0 == between.next_value(),
    ensures
        a.0 < b.0,
        a != b,
        before == IdCounter::new_spec() ==> a == SinkId(1),
{
}

/// The states of a counter across a run of identifiers issued in turn, none of them at
/// `u64::MAX`: each state is the one before, moved on by one.
pub open spec fn issued_in_turn(states: Seq<IdCounter>) -> bool {
    forall|i: int|
        0 <= i < states.len() - 1 ==> (#[trigger] states[i]).next_value() < u64::MAX && states[i + 1].next_value()
            == states[i].next_value() + 1
}

/// Identifiers issued by one counter, at any two steps of a run that does not reach
/// `u64::MAX`, differ: the later one is larger, by the number of steps between them.
pub proof fn ids_issued_in_turn_differ(states: Seq<IdCounter>, i: int, j: int)
    requires
        issued_in_turn(states),
        0 <= i < j < states.len(),
    ensures
        states[j].next_value() == states[i].next_value() + (j - i),
        states[i].next_value() < states[j].next_value(),
        states[i].next_value() != states[j].next_value(),
    decreases j - i,
{
    if j > i + 1 {
        ids_issued_in_turn_differ(states, i, j - 1);
    }
    assert(states[j - 1].next_value() < u64::MAX && states[j].next_value() == states[j - 1].next_value() + 1);
}

} // verus!
