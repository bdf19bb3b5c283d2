//! The state that the server keeps for one connected client: the channels advertised to it, its
//! subscriptions to them, the channels it advertised itself, and its requests in flight.

use std::collections::HashMap;

use bimap::BiHashMap;
use vstd::prelude::*;

use crate::channel::ChannelDescriptor;
use crate::ids::{ChannelId, ClientChannelId, ClientId, SinkId, SubscriptionId};
use crate::text::{decimal_spec, owned, with_number, with_number_between};
use crate::websocket::protocol::{
    same_client_channel, AdvertisedChannel, ChannelView, ClientChannel, ServerMessage, Status, StatusLevel, Subscription,
};

verus! {

broadcast use vstd::std_specs::hash::group_hash_axioms;

#[verifier::external_type_specification]
#[verifier::external_body]
#[verifier::reject_recursive_types(L)]
#[verifier::reject_recursive_types(R)]
#[verifier::reject_recursive_types(LS)]
#[verifier::reject_recursive_types(RS)]
pub struct ExBiHashMap<L, R, LS, RS>(BiHashMap<L, R, LS, RS>);

/// A bidirectional map from channel IDs to subscription IDs.
pub type SubscriptionMap = BiHashMap<u64, u32>;

/// What a bidirectional map of subscriptions holds: each channel ID (left) with the ID of the
/// subscription to it (right).
pub uninterp spec fn subscription_pairs(m: SubscriptionMap) -> Map<u64, u32>;

/// The empty map of subscriptions.
pub open spec fn no_subscriptions() -> Map<u64, u32> {
    Map::empty()
}

/// Calls `BiHashMap::new`, which creates an empty map.
#[verifier::external_body]
fn bimap_new() -> (r: SubscriptionMap)
    ensures
        subscription_pairs(r) == no_subscriptions(),
{
    BiHashMap::new()
}

/// Calls `BiHashMap::insert_no_overwrite`. As its source shows, it fails and leaves the map
/// unchanged if either value is already present, and otherwise inserts the pair.
#[verifier::external_body]
fn bimap_insert_no_overwrite(m: &mut SubscriptionMap, left: u64, right: u32) -> (inserted: bool)
    ensures
        inserted == !(subscription_pairs(*old(m)).dom().contains(left) || subscription_pairs(
            *old(m),
        ).values().contains(right)),
        inserted ==> subscription_pairs(*final(m)) == subscription_pairs(*old(m)).insert(left, right),
        !inserted ==> subscription_pairs(*final(m)) == subscription_pairs(*old(m)),
{
    m.insert_no_overwrite(left, right).is_ok()
}

/// Calls `BiHashMap::remove_by_right`. As its source shows, it removes the pair whose right value
/// is `right`, if there is one, and returns its left value.
#[verifier::external_body]
fn bimap_remove_by_right(m: &mut SubscriptionMap, right: u32) -> (r: Option<u64>)
    ensures
        r matches Some(left) ==> subscription_pairs(*old(m)).dom().contains(left) && subscription_pairs(
            *old(m),
        )[left] == right && subscription_pairs(*final(m)) == subscription_pairs(*old(m)).remove(left),
        r is None ==> !subscription_pairs(*old(m)).values().contains(right) && subscription_pairs(
            *final(m),
        ) == subscription_pairs(*old(m)),
{
    match m.remove_by_right(&right) {
        Some((left, _)) => Some(left),
        None => None,
    }
}

/// Calls `BiHashMap::get_by_left`, which returns the right value paired with `left`.
#[verifier::external_body]
fn bimap_get_by_left(m: &SubscriptionMap, left: u64) -> (r: Option<u32>)
    ensures
        r matches Some(right) ==> subscription_pairs(*m).dom().contains(left) && subscription_pairs(*m)[left]
            == right,
        r is None ==> !subscription_pairs(*m).dom().contains(left),
{
    m.get_by_left(&left).copied()
}

/// Calls `BiHashMap::contains_left`.
#[verifier::external_body]
fn bimap_contains_left(m: &SubscriptionMap, left: u64) -> (r: bool)
    ensures
        r == subscription_pairs(*m).dom().contains(left),
{
    m.contains_left(&left)
}

/// Calls `BiHashMap::left_values`, and collects the left values, each once, in an order that the
/// map does not promise.
#[verifier::external_body]
fn bimap_left_values(m: &SubscriptionMap) -> (r: Vec<u64>)
    ensures
        r@.to_set() == subscription_pairs(*m).dom(),
        r@.no_duplicates(),
{
    m.left_values().copied().collect()
}

/// The number of requests of one kind that a client may have in flight.
pub const MAX_REQUESTS_IN_FLIGHT: usize = 32;

/// The state that the server keeps for one connected client.
pub struct ClientSession {
    id: ClientId,
    sink_id: SinkId,
    /// The channels advertised to the client, by ID; no ID occurs twice.
    channels: Vec<ChannelView>,
    /// The client's subscriptions: channel ID and subscription ID.
    subscriptions: SubscriptionMap,
    /// The channels that the client advertised, by ID.
    advertised: HashMap<u32, ClientChannel>,
    service_calls_in_flight: usize,
    fetch_assets_in_flight: usize,
}

/// The outcome of a request to unsubscribe, or of a disconnect.
pub struct UnsubscribeOutcome {
    /// The channels no longer subscribed to, in order.
    pub channel_ids: Vec<ChannelId>,
    /// Views of those of them that are still advertised to the client, in order.
    pub channels: Vec<ChannelView>,
}

/// The outcome of a client's advertisement of channels.
pub struct AdvertiseOutcome {
    /// Status messages to send to the client, in order.
    pub statuses: Vec<Status>,
    /// The channels now advertised, in order.
    pub advertised: Vec<ClientChannelId>,
}

/// The outcome of a client's unadvertisement of channels.
pub struct UnadvertiseOutcome {
    /// Status messages to send to the client, in order.
    pub statuses: Vec<Status>,
    /// The channels no longer advertised, in order.
    pub removed: Vec<ClientChannel>,
}

/// The outcome of a subscription request.
pub struct SubscribeOutcome {
    /// Status messages to send to the client, in order.
    pub statuses: Vec<Status>,
    /// The channels now subscribed to, in the order in which the requests were taken: a
    /// request for an unknown channel is replaced by the last request before any is taken.
    pub subscribed: Vec<ChannelView>,
}

impl ClientSession {
    /// The client's ID.
    pub closed spec fn spec_id(&self) -> ClientId {
        self.id
    }

    /// The ID of the client as a sink of the context.
    pub closed spec fn spec_sink_id(&self) -> SinkId {
        self.sink_id
    }

    /// The channels advertised to the client, by ID: the topic of each.
    pub closed spec fn channel_topics(&self) -> Map<ChannelId, Seq<char>> {
        channel_map(self.channels@)
    }

    /// The client's subscriptions: each subscribed channel ID with its subscription ID.
    pub closed spec fn subscriptions(&self) -> Map<u64, u32> {
        subscription_pairs(self.subscriptions)
    }

    /// The channels that the client advertised, by ID.
    pub closed spec fn advertised(&self) -> Map<u32, ClientChannel> {
        self.advertised@
    }

    /// The number of service calls in flight.
    pub closed spec fn service_calls(&self) -> nat {
        self.service_calls_in_flight as nat
    }

    /// The number of fetch asset requests in flight.
    pub closed spec fn asset_fetches(&self) -> nat {
        self.fetch_assets_in_flight as nat
    }

    /// The state is well formed: channel IDs are unique, the subscriptions pair each channel
    /// with one subscription and each subscription with one channel, and no more requests are
    /// in flight than allowed.
    pub closed spec fn wf(&self) -> bool {
        &&& unique_ids(self.channels@)
        &&& self.subscriptions().dom().finite()
        &&& injective(self.subscriptions())
        &&& self.service_calls_in_flight <= MAX_REQUESTS_IN_FLIGHT
        &&& self.fetch_assets_in_flight <= MAX_REQUESTS_IN_FLIGHT
    }

    /// Creates the state of a newly connected client.
    pub fn new(id: ClientId, sink_id: SinkId) -> (s: ClientSession)
        ensures
            s.wf(),
            s.spec_id() == id,
            s.spec_sink_id() == sink_id,
            s.channel_topics() == Map::<ChannelId, Seq<char>>::empty(),
            s.subscriptions() == Map::<u64, u32>::empty(),
            s.advertised() == Map::<u32, ClientChannel>::empty(),
            s.service_calls() == 0,
            s.asset_fetches() == 0,
    {
        let s = ClientSession {
            id,
            sink_id,
            channels: Vec::new(),
            subscriptions: bimap_new(),
            advertised: HashMap::new(),
            service_calls_in_flight: 0,
            fetch_assets_in_flight: 0,
        };
        assert(s.channel_topics() =~= Map::<ChannelId, Seq<char>>::empty());
        assert(injective(s.subscriptions()));
        s
    }

    /// Returns the client's ID.
    pub fn id(&self) -> (r: ClientId)
        ensures
            r == self.spec_id(),
    {
        self.id
    }

    /// Returns the ID of the client as a sink of the context.
    pub fn sink_id(&self) -> (r: SinkId)
        ensures
            r == self.spec_sink_id(),
    {
        self.sink_id
    }

    /// Returns the position of the channel with this ID among those advertised to the client.
    fn find_channel(&self, id: ChannelId) -> (r: Option<usize>)
        requires
            self.wf(),
        ensures
            r matches Some(k) ==> k < self.channels@.len() && self.channels@[k as int].spec_id() == id
                && self.channel_topics().dom().contains(id) && self.channel_topics()[id]
                == self.channels@[k as int].spec_topic(),
            r is None <==> !self.channel_topics().dom().contains(id),
    {
        let mut i: usize = 0;
        while i < self.channels.len()
            invariant
                self.wf(),
                i <= self.channels@.len(),
                forall|k: int| 0 <= k < i ==> (#[trigger] self.channels@[k]).spec_id() != id,
            decreases self.channels@.len() - i,
        {
            if self.channels[i].id() == id {
                proof {
                    lemma_channel_at(self.channels@, i as int);
                }
                return Some(i);
            }
            i = i + 1;
        }
        None
    }

    /// Returns a view of the advertised channel with this ID, if there is one.
    pub fn channel_view(&self, id: ChannelId) -> (r: Option<ChannelView>)
        requires
            self.wf(),
        ensures
            r matches Some(v) ==> self.channel_topics().dom().contains(id) && v.spec_id() == id
                && v.spec_topic() == self.channel_topics()[id],
            r is None <==> !self.channel_topics().dom().contains(id),
    {
        match self.find_channel(id) {
            Some(k) => Some(ChannelView::new(id, self.channels[k].topic().to_owned())),
            None => None,
        }
    }

    /// Records that a channel was advertised to the client, and returns the advertisement.
    pub fn advertise_channel(&mut self, channel: &ChannelDescriptor) -> (m: ServerMessage)
        requires
            old(self).wf(),
        ensures
            final(self).wf(),
            final(self).channel_topics() == old(self).channel_topics().insert(channel.id, channel.topic@),
            final(self).same_but_channels(*old(self)),
            final(self).spec_id() == old(self).spec_id(),
            m matches ServerMessage::Advertise { channels } && channels@.len() == 1 && channels@[0].id
                == channel.id && channels@[0].topic@ == channel.topic@,
    {
        let ghost old_map = self.channel_topics();
        if let Some(k) = self.find_channel(channel.id) {
            let ghost before = self.channels@;
            self.channels.remove(k);
            proof {
                lemma_remove_channel(before, k as int);
            }
        }
        let ghost before = self.channels@;
        self.channels.push(ChannelView::new(channel.id, channel.topic.clone()));
        proof {
            lemma_push_channel(before, self.channels@.last());
            assert(self.channels@ == before.push(self.channels@.last()));
            assert(self.channel_topics() =~= old_map.insert(channel.id, channel.topic@));
        }
        let advertised = AdvertisedChannel {
            id: channel.id,
            topic: channel.topic.clone(),
            encoding: channel.message_encoding.clone(),
            schema_name: match &channel.schema {
                Some(s) => Some(s.name.clone()),
                None => None,
            },
            schema_encoding: match &channel.schema {
                Some(s) => Some(s.encoding.clone()),
                None => None,
            },
        };
        let mut channels = Vec::new();
        channels.push(advertised);
        ServerMessage::Advertise { channels }
    }

    /// Records that a channel is no longer advertised to the client, and returns the
    /// unadvertisement.
    pub fn unadvertise_channel(&mut self, id: ChannelId) -> (m: ServerMessage)
        requires
            old(self).wf(),
        ensures
            final(self).wf(),
            final(self).channel_topics() == old(self).channel_topics().remove(id),
            final(self).same_but_channels(*old(self)),
            final(self).spec_id() == old(self).spec_id(),
            m matches ServerMessage::Unadvertise { channel_ids } && channel_ids@ == seq![id],
    {
        if let Some(k) = self.find_channel(id) {
            let ghost before = self.channels@;
            self.channels.remove(k);
            proof {
                lemma_remove_channel(before, k as int);
            }
        } else {
            assert(self.channel_topics() =~= self.channel_topics().remove(id));
        }
        let mut channel_ids = Vec::new();
        channel_ids.push(id);
        ServerMessage::Unadvertise { channel_ids }
    }

    /// Handles a subscription request. Requests for channels that are not advertised to the
    /// client are answered with an error and taken out first, each replaced by the last
    /// request; the rest are then taken in turn: a request for a channel already subscribed to,
    /// or with a subscription ID already in use, is answered with a warning or an error, and any
    /// other is recorded.
    pub fn on_subscribe(&mut self, requests: &Vec<Subscription>) -> (out: SubscribeOutcome)
        requires
            old(self).wf(),
        ensures
            final(self).wf(),
            final(self).same_but_subscriptions(*old(self)),
            final(self).spec_id() == old(self).spec_id(),
            final(self).subscriptions() == after_requests(
                old(self).subscriptions(),
                pruned(old(self).channel_topics(), requests@, 0),
            ),
            statuses_match(
                out.statuses@,
                unknown_notes(old(self).channel_topics(), requests@, 0) + request_notes(
                    old(self).subscriptions(),
                    pruned(old(self).channel_topics(), requests@, 0),
                ),
            ),
            views_match(
                out.subscribed@,
                accepted(old(self).subscriptions(), pruned(old(self).channel_topics(), requests@, 0)),
                old(self).channel_topics(),
            ),
    {
        let ghost topics = self.channel_topics();
        let ghost start = self.subscriptions();
        let mut subs: Vec<Subscription> = Vec::new();
        let mut k: usize = 0;
        while k < requests.len()
            invariant
                k <= requests@.len(),
                subs@ == requests@.take(k as int),
            decreases requests@.len() - k,
        {
            subs.push(requests[k]);
            k = k + 1;
            assert(subs@ =~= requests@.take(k as int));
        }
        assert(subs@ =~= requests@);
        let mut statuses: Vec<Status> = Vec::new();
        let mut i: usize = 0;
        while i < subs.len()
            invariant
                self.wf(),
                self.channel_topics() == topics,
                self.subscriptions() == start,
                i <= subs@.len(),
                pruned(topics, requests@, 0) == pruned(topics, subs@, i as int),
                statuses_match(statuses@, unknown_notes(topics, requests@, 0).take(
                    unknown_notes(topics, requests@, 0).len() - unknown_notes(topics, subs@, i as int).len(),
                )),
                unknown_notes(topics, requests@, 0) == unknown_notes(topics, requests@, 0).take(
                    unknown_notes(topics, requests@, 0).len() - unknown_notes(topics, subs@, i as int).len(),
                ) + unknown_notes(topics, subs@, i as int),
                forall|j: int| 0 <= j < i ==> topics.dom().contains(#[trigger] subs@[j].channel_id),
            decreases subs@.len() - i,
        {
            let ghost all = unknown_notes(topics, requests@, 0);
            let ghost rest = unknown_notes(topics, subs@, i as int);
            let ghost done = all.take(all.len() - rest.len());
            let ch = subs[i].channel_id;
            match self.find_channel(ch) {
                Some(_) => {
                    i = i + 1;
                },
                None => {
                    let status = Status::error(with_number("Unknown channel ID: ", ch.0));
                    let ghost before = subs@;
                    subs.swap_remove(i);
                    statuses.push(status);
                    proof {
                        let note = unknown_note(ch);
                        let rest2 = unknown_notes(topics, subs@, i as int);
                        assert(rest == seq![note] + rest2);
                        assert(all == done + seq![note] + rest2);
                        assert(all.take(all.len() - rest2.len()) =~= done.push(note));
                        assert forall|j: int| 0 <= j < i implies topics.dom().contains(
                            #[trigger] subs@[j].channel_id,
                        ) by {
                            assert(subs@[j] == before[j]);
                        }
                    }
                },
            }
        }
        proof {
            assert(pruned(topics, subs@, i as int) == subs@);
            assert(unknown_notes(topics, subs@, i as int) =~= Seq::<(StatusLevel, Seq<char>)>::empty());
            assert(unknown_notes(topics, requests@, 0).take(unknown_notes(topics, requests@, 0).len() as int)
                =~= unknown_notes(topics, requests@, 0));
        }
        let ghost first = statuses@;
        let mut subscribed: Vec<ChannelView> = Vec::new();
        let mut j: usize = 0;
        while j < subs.len()
            invariant
                self.wf(),
                self.channel_topics() == topics,
                self.same_but_subscriptions(*old(self)),
                j <= subs@.len(),
                subs@ == pruned(topics, requests@, 0),
                forall|q: int| 0 <= q < subs@.len() ==> topics.dom().contains(#[trigger] subs@[q].channel_id),
                self.subscriptions() == after_requests(start, subs@.take(j as int)),
                statuses@.len() >= first.len(),
                statuses@.take(first.len() as int) == first,
                statuses_match(first, unknown_notes(topics, requests@, 0)),
                statuses_match(statuses@.skip(first.len() as int), request_notes(start, subs@.take(j as int))),
                views_match(subscribed@, accepted(start, subs@.take(j as int)), topics),
            decreases subs@.len() - j,
        {
            let ghost m0 = self.subscriptions();
            let ghost st0 = statuses@;
            let ghost sv0 = subscribed@;
            let request = subs[j];
            assert(subs@.take(j + 1).drop_last() =~= subs@.take(j as int));
            assert(subs@.take(j + 1).last() == request);
            let inserted = bimap_insert_no_overwrite(&mut self.subscriptions, request.channel_id.0, request.id.0);
            if inserted {
                proof {
                    lemma_insert_injective(m0, request.channel_id.0, request.id.0);
                }
                match self.channel_view(request.channel_id) {
                    Some(v) => {
                        subscribed.push(v);
                    },
                    None => {},
                }
                proof {
                    assert(subs@.take(j as int + 1) == subs@.take(j as int).push(request));
                }
            } else {
                let status = if bimap_contains_left(&self.subscriptions, request.channel_id.0) {
                    Status::warning(
                        with_number_between(
                            "Client is already subscribed to channel: ",
                            request.channel_id.0,
                            "; ignoring subscription",
                        ),
                    )
                } else {
                    Status::error(
                        with_number_between(
                            "Subscription ID was already used: ",
                            request.id.0 as u64,
                            "; ignoring subscription",
                        ),
                    )
                };
                statuses.push(status);
                proof {
                    assert(statuses@.take(first.len() as int) =~= st0.take(first.len() as int));
                    assert(statuses@.skip(first.len() as int) =~= st0.skip(first.len() as int).push(status));
                }
            }
            j = j + 1;
        }
        proof {
            assert(subs@.take(j as int) =~= subs@);
            assert(statuses@ =~= first + statuses@.skip(first.len() as int));
        }
        SubscribeOutcome { statuses, subscribed }
    }

    /// Handles a request to unsubscribe: each subscription ID in use is released in turn, and
    /// the channels that it was for are returned.
    pub fn on_unsubscribe(&mut self, ids: &Vec<SubscriptionId>) -> (out: UnsubscribeOutcome)
        requires
            old(self).wf(),
        ensures
            final(self).wf(),
            final(self).same_but_subscriptions(*old(self)),
            final(self).spec_id() == old(self).spec_id(),
            final(self).subscriptions() == after_unsubscribe(old(self).subscriptions(), ids@),
            out.channel_ids@ == unsubscribed(old(self).subscriptions(), ids@),
            views_match(
                out.channels@,
                known_ids(old(self).channel_topics(), unsubscribed(old(self).subscriptions(), ids@)),
                old(self).channel_topics(),
            ),
    {
        let ghost start = self.subscriptions();
        let mut channel_ids: Vec<ChannelId> = Vec::new();
        let mut i: usize = 0;
        while i < ids.len()
            invariant
                self.wf(),
                self.same_but_subscriptions(*old(self)),
                i <= ids@.len(),
                self.subscriptions() == after_unsubscribe(start, ids@.take(i as int)),
                channel_ids@ == unsubscribed(start, ids@.take(i as int)),
            decreases ids@.len() - i,
        {
            let ghost m0 = self.subscriptions();
            let id = ids[i];
            assert(ids@.take(i + 1).drop_last() =~= ids@.take(i as int));
            assert(ids@.take(i + 1).last() == id);
            match bimap_remove_by_right(&mut self.subscriptions, id.0) {
                Some(left) => {
                    proof {
                        lemma_key_of(m0, left, id.0);
                        lemma_remove_injective(m0, left);
                    }
                    channel_ids.push(ChannelId(left));
                },
                None => {},
            }
            i = i + 1;
        }
        assert(ids@.take(i as int) =~= ids@);
        let channels = self.known_views(&channel_ids);
        UnsubscribeOutcome { channel_ids, channels }
    }

    /// Handles the disconnect of the client: every subscription is given up, and the channels
    /// that they were for are returned, in no particular order.
    pub fn on_disconnect(&self) -> (out: UnsubscribeOutcome)
        requires
            self.wf(),
        ensures
            channel_numbers(out.channel_ids@).to_set() == self.subscriptions().dom(),
            out.channel_ids@.no_duplicates(),
            views_match(out.channels@, known_ids(self.channel_topics(), out.channel_ids@), self.channel_topics()),
    {
        let numbers = bimap_left_values(&self.subscriptions);
        let mut channel_ids: Vec<ChannelId> = Vec::new();
        let mut i: usize = 0;
        while i < numbers.len()
            invariant
                i <= numbers@.len(),
                channel_ids@.len() == i,
                channel_numbers(channel_ids@) == numbers@.take(i as int),
            decreases numbers@.len() - i,
        {
            let ghost before = channel_ids@;
            channel_ids.push(ChannelId(numbers[i]));
            i = i + 1;
            assert forall|k: int| 0 <= k < i implies #[trigger] channel_numbers(channel_ids@)[k] == numbers@.take(
                i as int,
            )[k] by {
                if k < i - 1 {
                    assert(channel_ids@[k] == before[k]);
                    assert(channel_numbers(before)[k] == numbers@.take(i - 1)[k]);
                }
            }
            assert(channel_numbers(channel_ids@) =~= numbers@.take(i as int));
        }
        assert(numbers@.take(i as int) =~= numbers@);
        assert forall|a: int, b: int|
            0 <= a < channel_ids@.len() && 0 <= b < channel_ids@.len() && a != b implies channel_ids@[a]
                != channel_ids@[b] by {
            assert(channel_numbers(channel_ids@)[a] == channel_ids@[a].0);
            assert(channel_numbers(channel_ids@)[b] == channel_ids@[b].0);
        }
        let channels = self.known_views(&channel_ids);
        UnsubscribeOutcome { channel_ids, channels }
    }

    /// Returns views of the channels with these IDs that are advertised to the client, in order.
    pub fn known_views(&self, ids: &Vec<ChannelId>) -> (r: Vec<ChannelView>)
        requires
            self.wf(),
        ensures
            views_match(r@, known_ids(self.channel_topics(), ids@), self.channel_topics()),
    {
        let ghost topics = self.channel_topics();
        let mut r: Vec<ChannelView> = Vec::new();
        let mut i: usize = 0;
        while i < ids.len()
            invariant
                self.wf(),
                self.channel_topics() == topics,
                i <= ids@.len(),
                views_match(r@, known_ids(topics, ids@.take(i as int)), topics),
            decreases ids@.len() - i,
        {
            assert(ids@.take(i + 1).drop_last() =~= ids@.take(i as int));
            assert(ids@.take(i + 1).last() == ids@[i as int]);
            match self.channel_view(ids[i]) {
                Some(v) => {
                    r.push(v);
                },
                None => {},
            }
            i = i + 1;
        }
        assert(ids@.take(i as int) =~= ids@);
        r
    }

    /// Handles a client's advertisement of channels. Where the server lacks the capability for
    /// clients to publish, it is refused with an error. Otherwise each channel is taken in turn:
    /// one whose ID the client already advertises is answered with a warning, any other is
    /// recorded.
    pub fn on_advertise(&mut self, client_publish: bool, channels: Vec<ClientChannel>) -> (out: AdvertiseOutcome)
        requires
            old(self).wf(),
        ensures
            final(self).wf(),
            final(self).same_but_advertised(*old(self)),
            final(self).spec_id() == old(self).spec_id(),
            !client_publish ==> final(self).advertised() == old(self).advertised() && statuses_match(
                out.statuses@,
                seq![(StatusLevel::Error, "Server does not support clientPublish capability"@)],
            ) && out.advertised@.len() == 0,
            client_publish ==> final(self).advertised() == after_advertise(old(self).advertised(), channels@)
                && statuses_match(out.statuses@, advertise_notes(old(self).advertised(), channels@))
                && out.advertised@ == newly_advertised(old(self).advertised(), channels@),
    {
        let mut statuses: Vec<Status> = Vec::new();
        let mut advertised: Vec<ClientChannelId> = Vec::new();
        if !client_publish {
            statuses.push(Status::error(owned("Server does not support clientPublish capability")));
            return AdvertiseOutcome { statuses, advertised };
        }
        let ghost start = self.advertised();
        let n: usize = channels.len();
        let mut rest = channels;
        let mut k: usize = 0;
        while rest.len() > 0
            invariant
                self.wf(),
                self.same_but_advertised(*old(self)),
                k + rest@.len() == n,
                n == channels@.len(),
                rest@ == channels@.skip(k as int),
                self.advertised() == after_advertise(start, channels@.take(k as int)),
                statuses_match(statuses@, advertise_notes(start, channels@.take(k as int))),
                advertised@ == newly_advertised(start, channels@.take(k as int)),
            decreases rest@.len(),
        {
            let channel = rest.remove(0);
            assert(channel == channels@[k as int]);
            assert(channels@.take(k + 1).drop_last() =~= channels@.take(k as int));
            assert(channels@.take(k + 1).last() == channel);
            let id = channel.id;
            if self.advertised.contains_key(&id.0) {
                statuses.push(
                    Status::warning(
                        with_number_between(
                            "Client is already advertising channel: ",
                            id.0 as u64,
                            "; ignoring advertisement",
                        ),
                    ),
                );
            } else {
                self.advertised.insert(id.0, channel);
                advertised.push(id);
            }
            k = k + 1;
            assert(rest@ =~= channels@.skip(k as int));
        }
        assert(channels@.take(k as int) =~= channels@);
        AdvertiseOutcome { statuses, advertised }
    }

    /// Handles a client's unadvertisement of channels. The IDs are taken in turn: one that the
    /// client does not advertise is answered with a warning and replaced by the last ID, the
    /// list shortened by one; any other channel is removed.
    pub fn on_unadvertise(&mut self, ids: &Vec<ClientChannelId>) -> (out: UnadvertiseOutcome)
        requires
            old(self).wf(),
        ensures
            final(self).wf(),
            final(self).same_but_advertised(*old(self)),
            final(self).spec_id() == old(self).spec_id(),
            final(self).advertised() == unadvertise_run(old(self).advertised(), ids@, 0).0,
            out.removed@ == unadvertise_run(old(self).advertised(), ids@, 0).1,
            statuses_match(out.statuses@, unadvertise_run(old(self).advertised(), ids@, 0).2),
    {
        let ghost full = unadvertise_run(self.advertised(), ids@, 0);
        let mut list: Vec<ClientChannelId> = Vec::new();
        let mut k: usize = 0;
        while k < ids.len()
            invariant
                k <= ids@.len(),
                list@ == ids@.take(k as int),
            decreases ids@.len() - k,
        {
            list.push(ids[k]);
            k = k + 1;
            assert(list@ =~= ids@.take(k as int));
        }
        assert(list@ =~= ids@);
        let mut statuses: Vec<Status> = Vec::new();
        let mut removed: Vec<ClientChannel> = Vec::new();
        let ghost mut notes: Seq<Note> = Seq::empty();
        let mut i: usize = 0;
        while i < list.len()
            invariant
                self.wf(),
                self.same_but_advertised(*old(self)),
                i <= list@.len(),
                full.0 == unadvertise_run(self.advertised(), list@, i as int).0,
                full.1 == removed@ + unadvertise_run(self.advertised(), list@, i as int).1,
                full.2 == notes + unadvertise_run(self.advertised(), list@, i as int).2,
                statuses_match(statuses@, notes),
            decreases list@.len() - i,
        {
            let ghost m0 = self.advertised();
            let ghost l0 = list@;
            let id = list[i];
            match self.advertised.remove(&id.0) {
                Some(channel) => {
                    proof {
                        let r = unadvertise_run(m0.remove(id.0), l0, i + 1);
                        assert(unadvertise_run(m0, l0, i as int) == (r.0, seq![channel] + r.1, r.2));
                        assert(removed@.push(channel) + r.1 =~= removed@ + (seq![channel] + r.1));
                    }
                    removed.push(channel);
                    i = i + 1;
                },
                None => {
                    let status = Status::warning(
                        with_number_between(
                            "Client is not advertising channel: ",
                            id.0 as u64,
                            "; ignoring unadvertisement",
                        ),
                    );
                    list.swap_remove(i);
                    proof {
                        assert(self.advertised() =~= m0);
                        let note = (status.level, status.message@);
                        let r = unadvertise_run(m0, list@, i as int);
                        assert(unadvertise_run(m0, l0, i as int) == (r.0, r.1, seq![note] + r.2));
                        assert(notes.push(note) + r.2 =~= notes + (seq![note] + r.2));
                        notes = notes.push(note);
                    }
                    statuses.push(status);
                },
            }
        }
        proof {
            assert(removed@ + Seq::<ClientChannel>::empty() =~= removed@);
            assert(notes + Seq::<Note>::empty() =~= notes);
        }
        UnadvertiseOutcome { statuses, removed }
    }

    /// Looks up the channel on which the client sent a message; an unknown channel is answered
    /// with an error.
    pub fn on_message_data(&self, id: ClientChannelId) -> (r: Result<&ClientChannel, Status>)
        requires
            self.wf(),
        ensures
            r matches Ok(c) ==> self.advertised().contains_key(id.0) && *c == self.advertised()[id.0],
            r matches Err(st) ==> !self.advertised().contains_key(id.0) && status_is(
                st,
                (StatusLevel::Error, "Unknown channel ID: "@ + decimal_spec(id.0 as nat)),
            ),
            r is Ok <==> self.advertised().contains_key(id.0),
    {
        match self.advertised.get(&id.0) {
            Some(c) => Ok(c),
            None => Err(Status::error(with_number("Unknown channel ID: ", id.0 as u64))),
        }
    }

    /// Returns a copy of the channel that the client advertises with this ID, if it does.
    pub fn advertised_channel(&self, id: ClientChannelId) -> (r: Option<ClientChannel>)
        requires
            self.wf(),
        ensures
            r is Some <==> self.advertised().contains_key(id.0),
            r matches Some(c) ==> same_client_channel(self.advertised()[id.0], c),
    {
        match self.advertised.get(&id.0) {
            Some(c) => Some(c.copy()),
            None => None,
        }
    }

    /// Takes a slot for a service call, if fewer than the allowed number are in flight.
    pub fn try_begin_service_call(&mut self) -> (taken: bool)
        requires
            old(self).wf(),
        ensures
            final(self).wf(),
            taken == (old(self).service_calls() < MAX_REQUESTS_IN_FLIGHT),
            taken ==> final(self).service_calls() == old(self).service_calls() + 1,
            !taken ==> final(self).service_calls() == old(self).service_calls(),
            final(self).asset_fetches() == old(self).asset_fetches(),
            final(self).same_but_requests(*old(self)),
            final(self).spec_id() == old(self).spec_id(),
    {
        if self.service_calls_in_flight < MAX_REQUESTS_IN_FLIGHT {
            self.service_calls_in_flight = self.service_calls_in_flight + 1;
            true
        } else {
            false
        }
    }

    /// Returns whether a service call is in flight.
    pub fn has_service_calls(&self) -> (r: bool)
        ensures
            r == (self.service_calls() > 0),
    {
        self.service_calls_in_flight > 0
    }

    /// Returns whether another fetch asset request may be in flight.
    pub fn has_asset_fetch_slot(&self) -> (r: bool)
        ensures
            r == (self.asset_fetches() < MAX_REQUESTS_IN_FLIGHT),
    {
        self.fetch_assets_in_flight < MAX_REQUESTS_IN_FLIGHT
    }

    /// Gives back a slot that a fetch asset request held, if one is held.
    pub fn release_asset_fetch(&mut self)
        requires
            old(self).wf(),
        ensures
            final(self).wf(),
            old(self).asset_fetches() > 0 ==> final(self).asset_fetches() == old(self).asset_fetches() - 1,
            old(self).asset_fetches() == 0 ==> final(self).asset_fetches() == 0,
            final(self).service_calls() == old(self).service_calls(),
            final(self).same_but_requests(*old(self)),
            final(self).spec_id() == old(self).spec_id(),
    {
        if self.fetch_assets_in_flight > 0 {
            self.fetch_assets_in_flight = self.fetch_assets_in_flight - 1;
        }
    }

    /// Gives back a slot that a service call held.
    pub fn end_service_call(&mut self)
        requires
            old(self).wf(),
            old(self).service_calls() > 0,
        ensures
            final(self).wf(),
            final(self).service_calls() == old(self).service_calls() - 1,
            final(self).asset_fetches() == old(self).asset_fetches(),
            final(self).same_but_requests(*old(self)),
            final(self).spec_id() == old(self).spec_id(),
    {
        self.service_calls_in_flight = self.service_calls_in_flight - 1;
    }

    /// Takes a slot for a fetch asset request, if fewer than the allowed number are in flight.
    pub fn try_begin_asset_fetch(&mut self) -> (taken: bool)
        requires
            old(self).wf(),
        ensures
            final(self).wf(),
            taken == (old(self).asset_fetches() < MAX_REQUESTS_IN_FLIGHT),
            taken ==> final(self).asset_fetches() == old(self).asset_fetches() + 1,
            !taken ==> final(self).asset_fetches() == old(self).asset_fetches(),
            final(self).service_calls() == old(self).service_calls(),
            final(self).same_but_requests(*old(self)),
            final(self).spec_id() == old(self).spec_id(),
    {
        if self.fetch_assets_in_flight < MAX_REQUESTS_IN_FLIGHT {
            self.fetch_assets_in_flight = self.fetch_assets_in_flight + 1;
            true
        } else {
            false
        }
    }

    /// Everything but the channels that the client advertised is as in `other`.
    pub closed spec fn same_but_advertised(&self, other: ClientSession) -> bool {
        &&& self.id == other.id
        &&& self.sink_id == other.sink_id
        &&& self.channels == other.channels
        &&& self.subscriptions == other.subscriptions
        &&& self.service_calls_in_flight == other.service_calls_in_flight
        &&& self.fetch_assets_in_flight == other.fetch_assets_in_flight
    }

    /// Everything but the counts of requests in flight is as in `other`.
    pub closed spec fn same_but_requests(&self, other: ClientSession) -> bool {
        &&& self.id == other.id
        &&& self.sink_id == other.sink_id
        &&& self.channels == other.channels
        &&& self.subscriptions == other.subscriptions
        &&& self.advertised == other.advertised
    }

    /// Returns the message that carries a message logged on a channel, if the client is
    /// subscribed to the channel: it names the client's subscription.
    pub fn log(&self, channel_id: ChannelId, log_time: u64, payload: &[u8]) -> (r: Option<ServerMessage>)
        requires
            self.wf(),
        ensures
            r is None <==> !self.subscriptions().dom().contains(channel_id.0),
            r matches Some(m) ==> m matches ServerMessage::MessageData { subscription_id, log_time: t, payload: p }
                && subscription_id.0 == self.subscriptions()[channel_id.0] && t == log_time && p@ == payload@,
    {
        match bimap_get_by_left(&self.subscriptions, channel_id.0) {
            Some(subscription) => {
                let mut bytes: Vec<u8> = Vec::new();
                let mut i: usize = 0;
                while i < payload.len()
                    invariant
                        i <= payload@.len(),
                        bytes@ == payload@.take(i as int),
                    decreases payload@.len() - i,
                {
                    bytes.push(payload[i]);
                    i = i + 1;
                    assert(bytes@ =~= payload@.take(i as int));
                }
                assert(payload@.take(i as int) =~= payload@);
                Some(
                    ServerMessage::MessageData {
                        subscription_id: SubscriptionId(subscription),
                        log_time,
                        payload: bytes,
                    },
                )
            },
            None => None,
        }
    }

    /// Everything but the subscriptions is as in `other`.
    pub closed spec fn same_but_subscriptions(&self, other: ClientSession) -> bool {
        &&& self.id == other.id
        &&& self.sink_id == other.sink_id
        &&& self.channels == other.channels
        &&& self.advertised == other.advertised
        &&& self.service_calls_in_flight == other.service_calls_in_flight
        &&& self.fetch_assets_in_flight == other.fetch_assets_in_flight
    }

    /// Everything but the channels advertised to the client is as in `other`.
    pub closed spec fn same_but_channels(&self, other: ClientSession) -> bool {
        &&& self.id == other.id
        &&& self.sink_id == other.sink_id
        &&& self.subscriptions == other.subscriptions
        &&& self.advertised == other.advertised
        &&& self.service_calls_in_flight == other.service_calls_in_flight
        &&& self.fetch_assets_in_flight == other.fetch_assets_in_flight
    }
}

/// The channels of a list, by ID: the topic of each.
pub open spec fn channel_map(channels: Seq<ChannelView>) -> Map<ChannelId, Seq<char>> {
    Map::new(
        |id: ChannelId| exists|k: int| 0 <= k < channels.len() && (#[trigger] channels[k]).spec_id() == id,
        |id: ChannelId| channels[choose|k: int| 0 <= k < channels.len() && (#[trigger] channels[k]).spec_id() == id].spec_topic(),
    )
}

/// No channel ID occurs twice in the list.
pub open spec fn unique_ids(channels: Seq<ChannelView>) -> bool {
    forall|a: int, b: int|
        0 <= a < channels.len() && 0 <= b < channels.len() && a != b ==> (#[trigger] channels[a]).spec_id()
            != (#[trigger] channels[b]).spec_id()
}

/// In a list without repeated IDs, the channel at position `k` is the one that its ID maps to.
proof fn lemma_channel_at(channels: Seq<ChannelView>, k: int)
    requires
        unique_ids(channels),
        0 <= k < channels.len(),
    ensures
        channel_map(channels).dom().contains(channels[k].spec_id()),
        channel_map(channels)[channels[k].spec_id()] == channels[k].spec_topic(),
{
    let id = channels[k].spec_id();
    assert(channel_map(channels).dom().contains(id));
    let p = choose|j: int| 0 <= j < channels.len() && (#[trigger] channels[j]).spec_id() == id;
    assert(p == k);
}

/// Removing the channel at position `k` removes its ID from the map, and keeps the IDs unique.
proof fn lemma_remove_channel(before: Seq<ChannelView>, k: int)
    requires
        unique_ids(before),
        0 <= k < before.len(),
    ensures
        unique_ids(before.remove(k)),
        channel_map(before.remove(k)) == channel_map(before).remove(before[k].spec_id()),
{
    let after = before.remove(k);
    let id = before[k].spec_id();
    assert forall|a: int, b: int|
        0 <= a < after.len() && 0 <= b < after.len() && a != b implies (#[trigger] after[a]).spec_id()
            != (#[trigger] after[b]).spec_id() by {
        let pa = if a < k { a } else { a + 1 };
        let pb = if b < k { b } else { b + 1 };
        assert(after[a] == before[pa]);
        assert(after[b] == before[pb]);
    }
    let m = channel_map(after);
    let o = channel_map(before).remove(id);
    assert forall|x: ChannelId| #[trigger] m.dom().contains(x) <==> o.dom().contains(x) by {
        if m.dom().contains(x) {
            let j = choose|j: int| 0 <= j < after.len() && (#[trigger] after[j]).spec_id() == x;
            let pj = if j < k { j } else { j + 1 };
            assert(after[j] == before[pj]);
            assert(before[pj].spec_id() == x);
            assert(x != id);
        }
        if o.dom().contains(x) {
            let j = choose|j: int| 0 <= j < before.len() && (#[trigger] before[j]).spec_id() == x;
            assert(j != k);
            let q = if j < k { j } else { j - 1 };
            assert(after[q] == before[j]);
            assert(after[q].spec_id() == x);
        }
    }
    assert forall|x: ChannelId| #[trigger] m.dom().contains(x) implies m[x] == o[x] by {
        let j = choose|j: int| 0 <= j < after.len() && (#[trigger] after[j]).spec_id() == x;
        lemma_channel_at(after, j);
        let pj = if j < k { j } else { j + 1 };
        assert(after[j] == before[pj]);
        lemma_channel_at(before, pj);
    }
    assert(m =~= o);
}

/// Appending a channel whose ID is not in the list adds it to the map, and keeps the IDs unique.
proof fn lemma_push_channel(before: Seq<ChannelView>, v: ChannelView)
    requires
        unique_ids(before),
        !channel_map(before).dom().contains(v.spec_id()),
    ensures
        unique_ids(before.push(v)),
        channel_map(before.push(v)) == channel_map(before).insert(v.spec_id(), v.spec_topic()),
{
    let after = before.push(v);
    let n = before.len() as int;
    assert forall|k: int| 0 <= k < n implies (#[trigger] before[k]).spec_id() != v.spec_id() by {
        if before[k].spec_id() == v.spec_id() {
            assert(channel_map(before).dom().contains(v.spec_id()));
        }
    }
    assert forall|a: int, b: int|
        0 <= a < after.len() && 0 <= b < after.len() && a != b implies (#[trigger] after[a]).spec_id()
            != (#[trigger] after[b]).spec_id() by {
        if a < n {
            assert(after[a] == before[a]);
        }
        if b < n {
            assert(after[b] == before[b]);
        }
    }
    let m = channel_map(after);
    let o = channel_map(before).insert(v.spec_id(), v.spec_topic());
    assert forall|x: ChannelId| #[trigger] m.dom().contains(x) <==> o.dom().contains(x) by {
        if m.dom().contains(x) && x != v.spec_id() {
            let j = choose|j: int| 0 <= j < after.len() && (#[trigger] after[j]).spec_id() == x;
            assert(j != n);
            assert(after[j] == before[j]);
            assert(before[j].spec_id() == x);
        }
        if o.dom().contains(x) {
            if x == v.spec_id() {
                assert(after[n].spec_id() == x);
            } else {
                let j = choose|j: int| 0 <= j < before.len() && (#[trigger] before[j]).spec_id() == x;
                assert(after[j] == before[j]);
                assert(after[j].spec_id() == x);
            }
        }
    }
    assert forall|x: ChannelId| #[trigger] m.dom().contains(x) implies m[x] == o[x] by {
        let j = choose|j: int| 0 <= j < after.len() && (#[trigger] after[j]).spec_id() == x;
        lemma_channel_at(after, j);
        if j < n {
            assert(after[j] == before[j]);
            lemma_channel_at(before, j);
        }
    }
    assert(m =~= o);
}

/// A status note: the level and the text of a status message.
pub type Note = (StatusLevel, Seq<char>);

/// The status message is the note, without an identifier.
pub open spec fn status_is(status: Status, note: Note) -> bool {
    status.level == note.0 && status.message@ == note.1 && status.id is None
}

/// The status messages are the notes, in order.
pub open spec fn statuses_match(statuses: Seq<Status>, notes: Seq<Note>) -> bool {
    statuses.len() == notes.len() && forall|k: int| 0 <= k < notes.len() ==> status_is(#[trigger] statuses[k], notes[k])
}

/// The views are those of the channels with these IDs, with their topics.
pub open spec fn views_match(views: Seq<ChannelView>, ids: Seq<ChannelId>, topics: Map<ChannelId, Seq<char>>) -> bool {
    views.len() == ids.len() && forall|k: int|
        0 <= k < ids.len() ==> (#[trigger] views[k]).spec_id() == ids[k] && views[k].spec_topic() == topics[ids[k]]
}

/// The error that answers a subscription to a channel that is not advertised.
pub open spec fn unknown_note(id: ChannelId) -> Note {
    (StatusLevel::Error, "Unknown channel ID: "@ + decimal_spec(id.0 as nat))
}

/// The subscription requests that remain, from position `i` on, once each request for a channel
/// without a topic is replaced by the last request and the list shortened by one.
pub open spec fn pruned(topics: Map<ChannelId, Seq<char>>, s: Seq<Subscription>, i: int) -> Seq<Subscription>
    decreases s.len() - i,
{
    if 0 <= i < s.len() {
        if topics.dom().contains(s[i].channel_id) {
            pruned(topics, s, i + 1)
        } else {
            pruned(topics, s.update(i, s.last()).drop_last(), i)
        }
    } else {
        s
    }
}

/// The errors sent, in order, while the requests are pruned as `pruned` describes.
pub open spec fn unknown_notes(topics: Map<ChannelId, Seq<char>>, s: Seq<Subscription>, i: int) -> Seq<Note>
    decreases s.len() - i,
{
    if 0 <= i < s.len() {
        if topics.dom().contains(s[i].channel_id) {
            unknown_notes(topics, s, i + 1)
        } else {
            seq![unknown_note(s[i].channel_id)] + unknown_notes(topics, s.update(i, s.last()).drop_last(), i)
        }
    } else {
        Seq::empty()
    }
}

/// A subscription request is accepted where neither its channel nor its ID is in use.
pub open spec fn accepts(m: Map<u64, u32>, r: Subscription) -> bool {
    !m.dom().contains(r.channel_id.0) && !m.values().contains(r.id.0)
}

/// The subscriptions after the requests, taken in turn.
pub open spec fn after_requests(m: Map<u64, u32>, s: Seq<Subscription>) -> Map<u64, u32>
    decreases s.len(),
{
    if s.len() == 0 {
        m
    } else {
        let m0 = after_requests(m, s.drop_last());
        if accepts(m0, s.last()) {
            m0.insert(s.last().channel_id.0, s.last().id.0)
        } else {
            m0
        }
    }
}

/// The notes that answer the requests that are not accepted, in order: a warning for a channel
/// already subscribed to, else an error for a subscription ID already in use.
pub open spec fn request_notes(m: Map<u64, u32>, s: Seq<Subscription>) -> Seq<Note>
    decreases s.len(),
{
    if s.len() == 0 {
        Seq::empty()
    } else {
        let m0 = after_requests(m, s.drop_last());
        let r = s.last();
        let earlier = request_notes(m, s.drop_last());
        if accepts(m0, r) {
            earlier
        } else if m0.dom().contains(r.channel_id.0) {
            earlier.push(
                (
                    StatusLevel::Warning,
                    "Client is already subscribed to channel: "@ + decimal_spec(r.channel_id.0 as nat)
                        + "; ignoring subscription"@,
                ),
            )
        } else {
            earlier.push(
                (
                    StatusLevel::Error,
                    "Subscription ID was already used: "@ + decimal_spec(r.id.0 as nat) + "; ignoring subscription"@,
                ),
            )
        }
    }
}

/// The channels of the accepted requests, in order.
pub open spec fn accepted(m: Map<u64, u32>, s: Seq<Subscription>) -> Seq<ChannelId>
    decreases s.len(),
{
    if s.len() == 0 {
        Seq::empty()
    } else {
        let earlier = accepted(m, s.drop_last());
        if accepts(after_requests(m, s.drop_last()), s.last()) {
            earlier.push(s.last().channel_id)
        } else {
            earlier
        }
    }
}

/// Inserting a pair whose value is new keeps a map injective.
proof fn lemma_insert_injective(m: Map<u64, u32>, k: u64, v: u32)
    requires
        injective(m),
        !m.values().contains(v),
    ensures
        injective(m.insert(k, v)),
{
    let n = m.insert(k, v);
    assert forall|a: u64, b: u64| #[trigger] n.dom().contains(a) && #[trigger] n.dom().contains(b) && a != b implies n[a] != n[b] by {
        if a == k && m.dom().contains(b) {
            assert(m.values().contains(m[b]));
        }
        if b == k && m.dom().contains(a) {
            assert(m.values().contains(m[a]));
        }
    }
}

/// The integers of a list of channel IDs.
pub open spec fn channel_numbers(ids: Seq<ChannelId>) -> Seq<u64> {
    ids.map_values(|c: ChannelId| c.0)
}

/// The key that a value of an injective map belongs to.
pub open spec fn key_of(m: Map<u64, u32>, v: u32) -> u64 {
    choose|k: u64| m.dom().contains(k) && m[k] == v
}

/// The subscriptions after the subscription IDs, taken in turn, are released.
pub open spec fn after_unsubscribe(m: Map<u64, u32>, s: Seq<SubscriptionId>) -> Map<u64, u32>
    decreases s.len(),
{
    if s.len() == 0 {
        m
    } else {
        let m0 = after_unsubscribe(m, s.drop_last());
        if m0.values().contains(s.last().0) {
            m0.remove(key_of(m0, s.last().0))
        } else {
            m0
        }
    }
}

/// The channels whose subscriptions are released, in order, as the IDs are taken in turn.
pub open spec fn unsubscribed(m: Map<u64, u32>, s: Seq<SubscriptionId>) -> Seq<ChannelId>
    decreases s.len(),
{
    if s.len() == 0 {
        Seq::empty()
    } else {
        let m0 = after_unsubscribe(m, s.drop_last());
        let earlier = unsubscribed(m, s.drop_last());
        if m0.values().contains(s.last().0) {
            earlier.push(ChannelId(key_of(m0, s.last().0)))
        } else {
            earlier
        }
    }
}

/// The IDs, in order, of the channels that have a topic.
pub open spec fn known_ids(topics: Map<ChannelId, Seq<char>>, s: Seq<ChannelId>) -> Seq<ChannelId>
    decreases s.len(),
{
    if s.len() == 0 {
        Seq::empty()
    } else if topics.dom().contains(s.last()) {
        known_ids(topics, s.drop_last()).push(s.last())
    } else {
        known_ids(topics, s.drop_last())
    }
}

/// In an injective map, the key of a value is the one it is stored under.
proof fn lemma_key_of(m: Map<u64, u32>, k: u64, v: u32)
    requires
        injective(m),
        m.dom().contains(k),
        m[k] == v,
    ensures
        m.values().contains(v),
        key_of(m, v) == k,
{
    assert(m.values().contains(v));
}

/// Removing a key keeps a map injective and its domain finite.
proof fn lemma_remove_injective(m: Map<u64, u32>, k: u64)
    requires
        injective(m),
        m.dom().finite(),
    ensures
        injective(m.remove(k)),
        m.remove(k).dom().finite(),
{
}

/// The channels that a client advertises after advertising these, taken in turn.
pub open spec fn after_advertise(m: Map<u32, ClientChannel>, s: Seq<ClientChannel>) -> Map<u32, ClientChannel>
    decreases s.len(),
{
    if s.len() == 0 {
        m
    } else {
        let m0 = after_advertise(m, s.drop_last());
        if m0.contains_key(s.last().id.0) {
            m0
        } else {
            m0.insert(s.last().id.0, s.last())
        }
    }
}

/// The warnings that answer an advertisement of channels already advertised, in order.
pub open spec fn advertise_notes(m: Map<u32, ClientChannel>, s: Seq<ClientChannel>) -> Seq<Note>
    decreases s.len(),
{
    if s.len() == 0 {
        Seq::empty()
    } else {
        let earlier = advertise_notes(m, s.drop_last());
        if after_advertise(m, s.drop_last()).contains_key(s.last().id.0) {
            earlier.push(
                (
                    StatusLevel::Warning,
                    "Client is already advertising channel: "@ + decimal_spec(s.last().id.0 as nat)
                        + "; ignoring advertisement"@,
                ),
            )
        } else {
            earlier
        }
    }
}

/// The IDs of the channels that an advertisement adds, in order.
pub open spec fn newly_advertised(m: Map<u32, ClientChannel>, s: Seq<ClientChannel>) -> Seq<ClientChannelId>
    decreases s.len(),
{
    if s.len() == 0 {
        Seq::empty()
    } else {
        let earlier = newly_advertised(m, s.drop_last());
        if after_advertise(m, s.drop_last()).contains_key(s.last().id.0) {
            earlier
        } else {
            earlier.push(s.last().id)
        }
    }
}

/// The warning that answers the unadvertisement of a channel that the client does not
/// advertise.
pub open spec fn not_advertising_note(id: ClientChannelId) -> Note {
    (
        StatusLevel::Warning,
        "Client is not advertising channel: "@ + decimal_spec(id.0 as nat) + "; ignoring unadvertisement"@,
    )
}

/// An unadvertisement, from position `i` of the IDs on: the channels advertised afterwards, the
/// channels removed in order, and the warnings in order. An ID that is not advertised is
/// replaced by the last ID, and the list shortened by one.
pub open spec fn unadvertise_run(m: Map<u32, ClientChannel>, s: Seq<ClientChannelId>, i: int) -> (
    Map<u32, ClientChannel>,
    Seq<ClientChannel>,
    Seq<Note>,
)
    decreases s.len() - i,
{
    if 0 <= i < s.len() {
        if m.contains_key(s[i].0) {
            let r = unadvertise_run(m.remove(s[i].0), s, i + 1);
            (r.0, seq![m[s[i].0]] + r.1, r.2)
        } else {
            let r = unadvertise_run(m, s.update(i, s.last()).drop_last(), i);
            (r.0, r.1, seq![not_advertising_note(s[i])] + r.2)
        }
    } else {
        (m, Seq::empty(), Seq::empty())
    }
}

/// Every subscription request that is left after pruning is for a channel with a topic,
/// provided the requests before position `i` are.
pub proof fn pruned_requests_have_topics(topics: Map<ChannelId, Seq<char>>, s: Seq<Subscription>, i: int)
    requires
        0 <= i,
        forall|j: int| 0 <= j < i && j < s.len() ==> topics.dom().contains(#[trigger] s[j].channel_id),
    ensures
        forall|k: int|
            0 <= k < pruned(topics, s, i).len() ==> topics.dom().contains(#[trigger] pruned(topics, s, i)[k].channel_id),
    decreases s.len() - i,
{
    if 0 <= i < s.len() {
        if topics.dom().contains(s[i].channel_id) {
            pruned_requests_have_topics(topics, s, i + 1);
            assert(pruned(topics, s, i) == pruned(topics, s, i + 1));
        } else {
            let t = s.update(i, s.last()).drop_last();
            assert forall|j: int| 0 <= j < i && j < t.len() implies topics.dom().contains(#[trigger] t[j].channel_id) by {
                assert(t[j] == s[j]);
            }
            pruned_requests_have_topics(topics, t, i);
            assert(pruned(topics, s, i) == pruned(topics, t, i));
        }
    } else {
        assert(pruned(topics, s, i) == s);
        assert forall|k: int| 0 <= k < s.len() implies topics.dom().contains(#[trigger] s[k].channel_id) by {
            assert(k < i);
        }
    }
}

/// A channel reported as newly subscribed to was not subscribed to before the request, is
/// subscribed to afterwards with the ID that the request gave, and is reported once.
pub proof fn subscribed_channels_were_unsubscribed(m: Map<u64, u32>, s: Seq<Subscription>)
    ensures
        forall|k: int| 0 <= k < accepted(m, s).len() ==> !m.dom().contains(#[trigger] accepted(m, s)[k].0),
        forall|k: int|
            0 <= k < accepted(m, s).len() ==> after_requests(m, s).dom().contains(#[trigger] accepted(m, s)[k].0),
        accepted(m, s).no_duplicates(),
        forall|c: u64| #[trigger] m.dom().contains(c) ==> after_requests(m, s).dom().contains(c) && after_requests(
            m,
            s,
        )[c] == m[c],
    decreases s.len(),
{
    if s.len() > 0 {
        let p = s.drop_last();
        subscribed_channels_were_unsubscribed(m, p);
        let m0 = after_requests(m, p);
        let r = s.last();
        if accepts(m0, r) {
            let acc = accepted(m, s);
            assert(acc == accepted(m, p).push(r.channel_id));
            assert forall|k: int| 0 <= k < acc.len() implies !m.dom().contains(#[trigger] acc[k].0) by {
                if k < acc.len() - 1 {
                    assert(acc[k] == accepted(m, p)[k]);
                }
            }
            assert forall|k: int| 0 <= k < acc.len() implies after_requests(m, s).dom().contains(#[trigger] acc[k].0) by {
                if k < acc.len() - 1 {
                    assert(acc[k] == accepted(m, p)[k]);
                }
            }
            assert forall|i: int, j: int| 0 <= i < acc.len() && 0 <= j < acc.len() && i != j implies acc[i] != acc[j] by {
                if i < acc.len() - 1 && j < acc.len() - 1 {
                    assert(acc[i] == accepted(m, p)[i] && acc[j] == accepted(m, p)[j]);
                } else if i < acc.len() - 1 {
                    assert(acc[i] == accepted(m, p)[i]);
                } else {
                    assert(acc[j] == accepted(m, p)[j]);
                }
            }
        }
    }
}

/// A channel reported as given up had a subscription before the request.
pub proof fn unsubscribed_channels_were_subscribed(m: Map<u64, u32>, ids: Seq<SubscriptionId>)
    ensures
        forall|k: int| 0 <= k < unsubscribed(m, ids).len() ==> m.dom().contains(#[trigger] unsubscribed(m, ids)[k].0),
        after_unsubscribe(m, ids).dom().subset_of(m.dom()),
    decreases ids.len(),
{
    if ids.len() > 0 {
        let p = ids.drop_last();
        unsubscribed_channels_were_subscribed(m, p);
        let m0 = after_unsubscribe(m, p);
        let v = ids.last().0;
        if m0.values().contains(v) {
            let key = key_of(m0, v);
            assert(m0.dom().contains(key));
            let gone = unsubscribed(m, ids);
            assert forall|k: int| 0 <= k < gone.len() implies m.dom().contains(#[trigger] gone[k].0) by {
                if k < gone.len() - 1 {
                    assert(gone[k] == unsubscribed(m, p)[k]);
                }
            }
        }
    }
}

/// Releasing the subscription ID that an accepted subscription used undoes the subscription:
/// the subscriptions are as before, and its channel is the one given up.
pub proof fn unsubscribe_undoes_subscribe(m: Map<u64, u32>, r: Subscription)
    requires
        injective(m),
        accepts(m, r),
    ensures
        after_unsubscribe(after_requests(m, seq![r]), seq![r.id]) == m,
        unsubscribed(after_requests(m, seq![r]), seq![r.id]) == seq![r.channel_id],
{
    let s = seq![r];
    assert(s.drop_last() =~= Seq::<Subscription>::empty());
    assert(after_requests(m, Seq::<Subscription>::empty()) == m);
    assert(accepted(m, Seq::<Subscription>::empty()) == Seq::<ChannelId>::empty());
    let m1 = after_requests(m, s);
    assert(m1 == m.insert(r.channel_id.0, r.id.0));
    let ids = seq![r.id];
    assert(ids.drop_last() =~= Seq::<SubscriptionId>::empty());
    assert(after_unsubscribe(m1, Seq::<SubscriptionId>::empty()) == m1);
    assert(unsubscribed(m1, Seq::<SubscriptionId>::empty()) == Seq::<ChannelId>::empty());
    assert(m1.values().contains(r.id.0)) by {
        assert(m1.dom().contains(r.channel_id.0) && m1[r.channel_id.0] == r.id.0);
    }
    lemma_insert_injective(m, r.channel_id.0, r.id.0);
    lemma_key_of(m1, r.channel_id.0, r.id.0);
    assert(m1.remove(r.channel_id.0) =~= m);
    assert(unsubscribed(m1, ids) =~= seq![r.channel_id]);
}

/// Unadvertising a channel that was just advertised, and was not advertised before, undoes
/// the advertisement: the channels are as before, the channel is the one removed, and no
/// warning is sent.
pub proof fn unadvertise_undoes_advertise(m: Map<u32, ClientChannel>, c: ClientChannel)
    requires
        !m.contains_key(c.id.0),
    ensures
        unadvertise_run(after_advertise(m, seq![c]), seq![c.id], 0) == (m, seq![c], Seq::<Note>::empty()),
{
    let s = seq![c];
    assert(s.drop_last() =~= Seq::<ClientChannel>::empty());
    assert(after_advertise(m, Seq::<ClientChannel>::empty()) == m);
    let m1 = after_advertise(m, s);
    assert(m1 == m.insert(c.id.0, c));
    let ids = seq![c.id];
    let r = unadvertise_run(m1.remove(c.id.0), ids, 1);
    assert(r == (m1.remove(c.id.0), Seq::<ClientChannel>::empty(), Seq::<Note>::empty()));
    assert(m1.remove(c.id.0) =~= m);
    assert(seq![m1[c.id.0]] + Seq::<ClientChannel>::empty() =~= seq![c]);
}

/// A channel reported as newly advertised was not advertised before, and is advertised
/// afterwards, as the request gave it; channels advertised before stay as they were.
pub proof fn advertised_channels_are_new(m: Map<u32, ClientChannel>, s: Seq<ClientChannel>)
    ensures
        forall|k: int|
            0 <= k < newly_advertised(m, s).len() ==> after_advertise(m, s).contains_key(
                #[trigger] newly_advertised(m, s)[k].0,
            ) && !m.contains_key(newly_advertised(m, s)[k].0),
        forall|c: u32| #[trigger] m.contains_key(c) ==> after_advertise(m, s).contains_key(c) && after_advertise(m, s)[c]
            == m[c],
    decreases s.len(),
{
    if s.len() > 0 {
        let p = s.drop_last();
        advertised_channels_are_new(m, p);
        let ids = newly_advertised(m, s);
        if !after_advertise(m, p).contains_key(s.last().id.0) {
            assert forall|k: int| 0 <= k < ids.len() implies after_advertise(m, s).contains_key(#[trigger] ids[k].0)
                && !m.contains_key(ids[k].0) by {
                if k < ids.len() - 1 {
                    assert(ids[k] == newly_advertised(m, p)[k]);
                }
            }
        }
    }
}

/// Pruning keeps or answers each request from position `i` on: one or the other, never both.
proof fn lemma_pruned_count(topics: Map<ChannelId, Seq<char>>, s: Seq<Subscription>, i: int)
    requires
        0 <= i <= s.len(),
    ensures
        pruned(topics, s, i).len() + unknown_notes(topics, s, i).len() == s.len(),
    decreases s.len() - i,
{
    if i < s.len() {
        if topics.dom().contains(s[i].channel_id) {
            lemma_pruned_count(topics, s, i + 1);
        } else {
            lemma_pruned_count(topics, s.update(i, s.last()).drop_last(), i);
        }
    }
}

/// Each request is accepted or answered with a note: one or the other, never both.
proof fn lemma_request_count(m: Map<u64, u32>, s: Seq<Subscription>)
    ensures
        accepted(m, s).len() + request_notes(m, s).len() == s.len(),
    decreases s.len(),
{
    if s.len() > 0 {
        lemma_request_count(m, s.drop_last());
    }
}

/// Every request of a subscription message is answered once: it is either accepted, or
/// refused with exactly one status message.
pub proof fn every_subscription_request_is_answered(
    topics: Map<ChannelId, Seq<char>>,
    m: Map<u64, u32>,
    requests: Seq<Subscription>,
)
    ensures
        unknown_notes(topics, requests, 0).len() + request_notes(m, pruned(topics, requests, 0)).len() + accepted(
            m,
            pruned(topics, requests, 0),
        ).len() == requests.len(),
{
    lemma_pruned_count(topics, requests, 0);
    lemma_request_count(m, pruned(topics, requests, 0));
}

/// Every channel of an advertisement is answered once: it is either added, or refused with
/// exactly one warning.
pub proof fn every_advertised_channel_is_answered(m: Map<u32, ClientChannel>, s: Seq<ClientChannel>)
    ensures
        newly_advertised(m, s).len() + advertise_notes(m, s).len() == s.len(),
    decreases s.len(),
{
    if s.len() > 0 {
        every_advertised_channel_is_answered(m, s.drop_last());
    }
}

/// Every ID of an unadvertisement, from position `i` on, is answered once: its channel is
/// removed, or it is refused with exactly one warning.
pub proof fn every_unadvertised_id_is_answered(m: Map<u32, ClientChannel>, ids: Seq<ClientChannelId>, i: int)
    requires
        0 <= i <= ids.len(),
    ensures
        unadvertise_run(m, ids, i).1.len() + unadvertise_run(m, ids, i).2.len() == ids.len() - i,
    decreases ids.len() - i,
{
    if i < ids.len() {
        if m.contains_key(ids[i].0) {
            every_unadvertised_id_is_answered(m.remove(ids[i].0), ids, i + 1);
        } else {
            every_unadvertised_id_is_answered(m, ids.update(i, ids.last()).drop_last(), i);
        }
    }
}

/// No two keys map to the same value.
pub open spec fn injective(m: Map<u64, u32>) -> bool {
    forall|a: u64, b: u64| #[trigger] m.dom().contains(a) && #[trigger] m.dom().contains(b) && a != b ==> m[a] != m[b]
}

} // verus!
