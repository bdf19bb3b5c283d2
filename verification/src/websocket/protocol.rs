//! The values exchanged between the server and its clients in the Foxglove WebSocket protocol.
//!
//! These are the messages as the server decides them; turning them into bytes on the wire, and
//! bytes back into client messages, happens at the edge.

use vstd::prelude::*;

use crate::ids::{CallId, ChannelId, ClientChannelId, ClientId, ServiceId, SubscriptionId};

verus! {

/// A capability that the websocket server advertises to its clients.
#[derive(Debug, Clone, Copy, PartialEq, Eq, Hash, Structural)]
pub enum Capability {
    /// Allow clients to advertise channels to send data messages to the server.
    ClientPublish,
    /// Allow clients to subscribe and make connection graph updates.
    ConnectionGraph,
    /// Allow clients to get & set parameters.
    Parameters,
    /// Inform clients about the latest server time.
    Time,
    /// Allow clients to call services.
    Services,
    /// Allow clients to request assets.
    Assets,
}

/// The level of a status message.
#[derive(Debug, Clone, Copy, PartialEq, Eq, Structural)]
pub enum StatusLevel {
    /// Informational.
    Info,
    /// A warning.
    Warning,
    /// An error.
    Error,
}

/// A status message, which the server may send at any time.
#[derive(Debug, Clone, PartialEq, Eq)]
pub struct Status {
    /// The level of the status.
    pub level: StatusLevel,
    /// The text of the status.
    pub message: String,
    /// An optional identifier, by which the status can later be removed.
    pub id: Option<String>,
}

impl Status {
    /// Creates a status message without an identifier.
    pub fn new(level: StatusLevel, message: String) -> (s: Status)
        ensures
            s.level == level,
            s.message == message,
            s.id is None,
    {
        Status { level, message, id: None }
    }

    /// Attaches an identifier to the status message.
    pub fn with_id(self, id: String) -> (s: Status)
        ensures
            s.level == self.level,
            s.message == self.message,
            s.id == Some(id),
    {
        Status { level: self.level, message: self.message, id: Some(id) }
    }

    /// Returns a copy of the status message.
    pub fn copy(&self) -> (s: Status)
        ensures
            s == *self,
    {
        let id = match &self.id {
            Some(i) => Some(i.clone()),
            None => None,
        };
        Status { level: self.level, message: self.message.clone(), id }
    }

    /// Creates an error status message.
    pub fn error(message: String) -> (s: Status)
        ensures
            s.level == StatusLevel::Error,
            s.message == message,
            s.id is None,
    {
        Status::new(StatusLevel::Error, message)
    }

    /// Creates a warning status message.
    pub fn warning(message: String) -> (s: Status)
        ensures
            s.level == StatusLevel::Warning,
            s.message == message,
            s.id is None,
    {
        Status::new(StatusLevel::Warning, message)
    }
}

/// The type of a parameter value.
#[derive(Debug, Clone, Copy, PartialEq, Eq, Structural)]
pub enum ParameterType {
    /// A byte array, encoded as a base64-encoded string.
    ByteArray,
    /// A decimal or integer value that can be represented as a `float64`.
    Float64,
    /// An array of decimal or integer values that can be represented as `float64`s.
    Float64Array,
}

/// A parameter value.
#[derive(Debug)]
pub enum ParameterValue {
    /// A decimal or integer value, held as the bit pattern of an IEEE-754 double.
    Number(u64),
    /// A boolean value.
    Bool(bool),
    /// A byte array.
    String(Vec<u8>),
    /// An array of parameter values.
    Array(Vec<ParameterValue>),
    /// An associative map of parameter values: the keys, and the value of each key at the
    /// same position.
    Dict { keys: Vec<String>, values: Vec<ParameterValue> },
}

/// A named parameter, which can be sent to a client.
#[derive(Debug)]
pub struct Parameter {
    /// The name of the parameter.
    pub name: String,
    /// The parameter type.
    pub param_type: Option<ParameterType>,
    /// The parameter value.
    pub value: Option<ParameterValue>,
}

/// Information about a channel, handed to listener callbacks.
#[derive(Debug, Clone, PartialEq, Eq)]
pub struct ChannelView {
    id: ChannelId,
    topic: String,
}

impl ChannelView {
    /// The channel ID.
    pub closed spec fn spec_id(&self) -> ChannelId {
        self.id
    }

    /// The topic of the channel.
    pub closed spec fn spec_topic(&self) -> Seq<char> {
        self.topic@
    }

    /// Creates a view of a channel.
    pub fn new(id: ChannelId, topic: String) -> (v: ChannelView)
        ensures
            v.spec_id() == id,
            v.spec_topic() == topic@,
    {
        ChannelView { id, topic }
    }

    /// Returns a copy of the view.
    pub fn clone_view(&self) -> (r: ChannelView)
        ensures
            r == *self,
    {
        ChannelView { id: self.id, topic: self.topic.clone() }
    }

    /// Returns the channel ID.
    pub fn id(&self) -> (r: ChannelId)
        ensures
            r == self.spec_id(),
    {
        self.id
    }

    /// Returns the topic of the channel.
    pub fn topic(&self) -> (r: &str)
        ensures
            r@ == self.spec_topic(),
    {
        self.topic.as_str()
    }
}

/// A channel advertised by a client, on which it can send messages to the server.
#[derive(Debug, Clone, PartialEq, Eq)]
pub struct ClientChannel {
    /// The ID chosen by the client.
    pub id: ClientChannelId,
    /// The topic of the channel.
    pub topic: String,
    /// The encoding of messages on the channel.
    pub encoding: String,
    /// The name of the schema.
    pub schema_name: String,
    /// The encoding of the schema, if any.
    pub schema_encoding: Option<String>,
    /// The schema data, if any.
    pub schema: Option<Vec<u8>>,
}

/// Two client channels are the same.
pub open spec fn same_client_channel(a: ClientChannel, b: ClientChannel) -> bool {
    &&& a.id == b.id
    &&& a.topic@ == b.topic@
    &&& a.encoding@ == b.encoding@
    &&& a.schema_name@ == b.schema_name@
    &&& a.schema_encoding is Some == b.schema_encoding is Some
    &&& a.schema_encoding is Some ==> a.schema_encoding.unwrap()@ == b.schema_encoding.unwrap()@
    &&& a.schema is Some == b.schema is Some
    &&& a.schema is Some ==> a.schema.unwrap()@ == b.schema.unwrap()@
}

impl ClientChannel {
    /// Returns a copy of the channel.
    pub fn copy(&self) -> (c: ClientChannel)
        ensures
            same_client_channel(*self, c),
    {
        ClientChannel {
            id: self.id,
            topic: self.topic.clone(),
            encoding: self.encoding.clone(),
            schema_name: self.schema_name.clone(),
            schema_encoding: match &self.schema_encoding {
                Some(e) => Some(e.clone()),
                None => None,
            },
            schema: match &self.schema {
                Some(d) => Some(copy_bytes(d)),
                None => None,
            },
        }
    }
}

/// A channel as advertised by the server.
#[derive(Debug, Clone, PartialEq, Eq)]
pub struct AdvertisedChannel {
    /// The channel ID.
    pub id: ChannelId,
    /// The topic of the channel.
    pub topic: String,
    /// The encoding of messages on the channel.
    pub encoding: String,
    /// The name of the schema, if any.
    pub schema_name: Option<String>,
    /// The encoding of the schema, if any.
    pub schema_encoding: Option<String>,
}

/// The request or response schema of a service.
#[derive(Debug, Clone, PartialEq, Eq)]
pub struct MessageSchema {
    /// The encoding of the messages.
    pub encoding: String,
    /// The name of the schema.
    pub schema_name: String,
    /// The encoding of the schema.
    pub schema_encoding: String,
    /// The schema data.
    pub schema_data: Vec<u8>,
}

/// The schema of a service.
#[derive(Debug, Clone, PartialEq, Eq)]
pub struct ServiceSchema {
    /// The name of the service type.
    pub name: String,
    /// The request schema, if any.
    pub request: Option<MessageSchema>,
    /// The response schema, if any.
    pub response: Option<MessageSchema>,
}

/// A service that the server offers to its clients. Requests are handled at the edge, by the
/// handler registered under the service's ID.
#[derive(Debug, Clone, PartialEq, Eq)]
pub struct Service {
    /// The ID of the service.
    pub id: ServiceId,
    /// The name of the service; unique on a server.
    pub name: String,
    /// The schema of the service.
    pub schema: ServiceSchema,
}

impl Service {
    /// The encoding that the service requires of requests, if it declares one.
    pub open spec fn spec_request_encoding(&self) -> Option<String> {
        match self.schema.request {
            Some(r) => Some(r.encoding),
            None => None,
        }
    }

    /// Returns the encoding that the service requires of requests, if it declares one.
    pub fn request_encoding(&self) -> (r: Option<&String>)
        ensures
            r matches Some(e) ==> self.spec_request_encoding() == Some(*e),
            r is None <==> self.spec_request_encoding() is None,
    {
        match &self.schema.request {
            Some(r) => Some(&r.encoding),
            None => None,
        }
    }

    /// Returns the encoding of responses, if the service declares one.
    pub fn response_encoding(&self) -> (r: Option<&String>)
        ensures
            r matches Some(e) ==> self.schema.response matches Some(s) && s.encoding == *e,
            r is None <==> self.schema.response is None,
    {
        match &self.schema.response {
            Some(r) => Some(&r.encoding),
            None => None,
        }
    }
}

/// A message from the server to a client.
#[derive(Debug)]
pub enum ServerMessage {
    /// Describes the server; sent first to each client, and again when the session changes.
    ServerInfo {
        name: String,
        capabilities: Vec<Capability>,
        supported_encodings: Vec<String>,
        session_id: String,
    },
    /// A status message.
    Status(Status),
    /// Removes earlier status messages by ID.
    RemoveStatus { status_ids: Vec<String> },
    /// Advertises channels.
    Advertise { channels: Vec<AdvertisedChannel> },
    /// Unadvertises channels.
    Unadvertise { channel_ids: Vec<ChannelId> },
    /// A message logged on a channel that the client subscribed to.
    MessageData { subscription_id: SubscriptionId, log_time: u64, payload: Vec<u8> },
    /// The current server time.
    Time { timestamp: u64 },
    /// Parameter values, in answer to a request or as an update.
    ParameterValues { parameters: Vec<Parameter>, id: Option<String> },
    /// Advertises services.
    AdvertiseServices { services: Vec<Service> },
    /// Unadvertises services.
    UnadvertiseServices { service_ids: Vec<ServiceId> },
    /// A service call failed.
    ServiceCallFailure { service_id: ServiceId, call_id: CallId, message: String },
    /// The asset that a fetch asset request asked for.
    FetchAssetData { request_id: u32, data: Vec<u8> },
    /// The error that answers a fetch asset request.
    FetchAssetError { request_id: u32, message: String },
    /// An update of the connection graph.
    ConnectionGraphUpdate { graph: ConnectionGraph },
}

/// A subscription request of a client.
#[derive(Debug, Clone, Copy, PartialEq, Eq, Structural)]
pub struct Subscription {
    /// The ID the client chose for the subscription.
    pub id: SubscriptionId,
    /// The channel to subscribe to.
    pub channel_id: ChannelId,
}

/// A message from a client to the server.
#[derive(Debug)]
pub enum ClientMessage {
    Subscribe { subscriptions: Vec<Subscription> },
    Unsubscribe { subscription_ids: Vec<SubscriptionId> },
    Advertise { channels: Vec<ClientChannel> },
    Unadvertise { channel_ids: Vec<ClientChannelId> },
    MessageData { channel_id: ClientChannelId, data: Vec<u8> },
    GetParameters { parameter_names: Vec<String>, id: Option<String> },
    SetParameters { parameters: Vec<Parameter>, id: Option<String> },
    SubscribeParameterUpdates { parameter_names: Vec<String> },
    UnsubscribeParameterUpdates { parameter_names: Vec<String> },
    ServiceCallRequest { service_id: ServiceId, call_id: CallId, encoding: String, payload: Vec<u8> },
    FetchAsset { uri: String, request_id: u32 },
    SubscribeConnectionGraph,
    UnsubscribeConnectionGraph,
}

/// A topic or service of the connection graph, with the IDs of the nodes that publish,
/// subscribe to, or provide it.
#[derive(Debug)]
pub struct GraphEntry {
    /// The topic or service name.
    pub name: String,
    /// The node IDs.
    pub ids: Vec<String>,
}

/// The graph of topics and services in the system that the server reports on: which nodes
/// publish and subscribe to which topics, and which provide which services.
#[derive(Debug)]
pub struct ConnectionGraph {
    /// Topics and the IDs of their publishers.
    pub published_topics: Vec<GraphEntry>,
    /// Topics and the IDs of their subscribers.
    pub subscribed_topics: Vec<GraphEntry>,
    /// Services and the IDs of their providers.
    pub advertised_services: Vec<GraphEntry>,
}

/// Two lists of graph entries are the same.
pub open spec fn same_entries(a: Seq<GraphEntry>, b: Seq<GraphEntry>) -> bool {
    a.len() == b.len() && forall|i: int| 0 <= i < a.len() ==> (#[trigger] a[i]).name@ == b[i].name@ && a[i].ids@ == b[i].ids@
}

/// Two connection graphs are the same.
pub open spec fn same_graph(a: ConnectionGraph, b: ConnectionGraph) -> bool {
    &&& same_entries(a.published_topics@, b.published_topics@)
    &&& same_entries(a.subscribed_topics@, b.subscribed_topics@)
    &&& same_entries(a.advertised_services@, b.advertised_services@)
}

fn copy_entries(v: &Vec<GraphEntry>) -> (r: Vec<GraphEntry>)
    ensures
        same_entries(v@, r@),
{
    let mut r: Vec<GraphEntry> = Vec::new();
    let mut i: usize = 0;
    while i < v.len()
        invariant
            i <= v@.len(),
            r@.len() == i,
            forall|k: int| 0 <= k < i ==> (#[trigger] v@[k]).name@ == r@[k].name@ && v@[k].ids@ == r@[k].ids@,
        decreases v@.len() - i,
    {
        r.push(GraphEntry { name: v[i].name.clone(), ids: copy_strings(&v[i].ids) });
        i = i + 1;
    }
    r
}

impl ConnectionGraph {
    /// An empty graph.
    pub fn new() -> (g: ConnectionGraph)
        ensures
            g.published_topics@.len() == 0,
            g.subscribed_topics@.len() == 0,
            g.advertised_services@.len() == 0,
    {
        ConnectionGraph {
            published_topics: Vec::new(),
            subscribed_topics: Vec::new(),
            advertised_services: Vec::new(),
        }
    }

    /// Returns a copy of the graph.
    pub fn copy(&self) -> (g: ConnectionGraph)
        ensures
            same_graph(*self, g),
    {
        ConnectionGraph {
            published_topics: copy_entries(&self.published_topics),
            subscribed_topics: copy_entries(&self.subscribed_topics),
            advertised_services: copy_entries(&self.advertised_services),
        }
    }
}

/// Whether a message goes out on the control plane, which is never dropped, or on the data
/// plane, which drops the oldest messages when the client falls behind.
#[derive(Debug, Clone, Copy, PartialEq, Eq, Structural)]
pub enum Plane {
    /// The control plane.
    Control,
    /// The data plane.
    Data,
}

/// A message addressed to one client.
#[derive(Debug)]
pub struct Outgoing {
    /// The client that receives the message.
    pub client: ClientId,
    /// The queue that carries it.
    pub plane: Plane,
    /// The message.
    pub message: ServerMessage,
}

/// Returns a copy of the bytes.
pub fn copy_bytes(v: &Vec<u8>) -> (r: Vec<u8>)
    ensures
        r@ == v@,
{
    let mut r: Vec<u8> = Vec::new();
    let mut i: usize = 0;
    while i < v.len()
        invariant
            i <= v.len(),
            r@ == v@.take(i as int),
        decreases v.len() - i,
    {
        r.push(v[i]);
        i = i + 1;
        assert(r@ =~= v@.take(i as int));
    }
    assert(v@.take(v.len() as int) =~= v@);
    r
}

/// Returns a copy of the strings.
pub fn copy_strings(v: &Vec<String>) -> (r: Vec<String>)
    ensures
        r@ == v@,
{
    let mut r: Vec<String> = Vec::new();
    let mut i: usize = 0;
    while i < v.len()
        invariant
            i <= v.len(),
            r@ == v@.take(i as int),
        decreases v.len() - i,
    {
        r.push(v[i].clone());
        i = i + 1;
        assert(r@ =~= v@.take(i as int));
    }
    assert(v@.take(v.len() as int) =~= v@);
    r
}

/// Two parameter values are the same: of the same kind, with the same contents.
pub open spec fn same_value(a: ParameterValue, b: ParameterValue) -> bool
    decreases a, 1int,
{
    match a {
        ParameterValue::Number(x) => b == ParameterValue::Number(x),
        ParameterValue::Bool(x) => b == ParameterValue::Bool(x),
        ParameterValue::String(x) => b matches ParameterValue::String(y) && x@ == y@,
        ParameterValue::Array(xs) => b matches ParameterValue::Array(ys) && same_values(xs@, ys@),
        ParameterValue::Dict { keys, values } => b matches ParameterValue::Dict {
            keys: bkeys,
            values: bvalues,
        } && keys@ == bkeys@ && same_values(values@, bvalues@),
    }
}

/// Two sequences of parameter values are the same, position by position.
pub open spec fn same_values(xs: Seq<ParameterValue>, ys: Seq<ParameterValue>) -> bool
    decreases xs, 0int,
{
    if xs.len() == 0 {
        ys.len() == 0
    } else {
        ys.len() == xs.len() && same_value(xs.last(), ys.last()) && same_values(
            xs.drop_last(),
            ys.drop_last(),
        )
    }
}

/// Two parameters are the same: same name, type, and value.
pub open spec fn same_parameter(a: Parameter, b: Parameter) -> bool {
    &&& a.name@ == b.name@
    &&& a.param_type == b.param_type
    &&& match (a.value, b.value) {
        (Some(x), Some(y)) => same_value(x, y),
        (None, None) => true,
        _ => false,
    }
}

/// Two sequences of parameters are the same, position by position.
pub open spec fn same_parameters(a: Seq<Parameter>, b: Seq<Parameter>) -> bool {
    a.len() == b.len() && forall|i: int| 0 <= i < a.len() ==> #[trigger] same_parameter(a[i], b[i])
}

/// Returns a copy of a parameter value.
pub fn copy_value(v: &ParameterValue) -> (r: ParameterValue)
    ensures
        same_value(*v, r),
    decreases v,
{
    match v {
        ParameterValue::Number(n) => ParameterValue::Number(*n),
        ParameterValue::Bool(b) => ParameterValue::Bool(*b),
        ParameterValue::String(bytes) => ParameterValue::String(copy_bytes(bytes)),
        ParameterValue::Array(items) => ParameterValue::Array(copy_values(v, items)),
        ParameterValue::Dict { keys, values } => ParameterValue::Dict {
            keys: copy_strings(keys),
            values: copy_values(v, values),
        },
    }
}

/// The values are those of an array, or those of a map.
pub open spec fn nests(outer: ParameterValue, items: Vec<ParameterValue>) -> bool {
    match outer {
        ParameterValue::Array(xs) => xs == items,
        ParameterValue::Dict { keys, values } => values == items,
        _ => false,
    }
}

/// Returns a copy of the values, which are nested in `outer`.
fn copy_values(outer: &ParameterValue, items: &Vec<ParameterValue>) -> (r: Vec<ParameterValue>)
    requires
        nests(*outer, *items),
    ensures
        same_values(items@, r@),
    decreases outer, 0int,
{
    let mut r: Vec<ParameterValue> = Vec::new();
    let mut i: usize = 0;
    while i < items.len()
        invariant
            i <= items.len(),
            nests(*outer, *items),
            same_values(items@.take(i as int), r@),
        decreases items.len() - i,
    {
        proof {
            vstd::std_specs::vec::axiom_vec_index_decreases(*items, i as int);
            assert(decreases_to!(*outer => items[i as int]));
        }
        let c = copy_value(&items[i]);
        let ghost before = r@;
        r.push(c);
        assert(items@.take(i + 1).drop_last() =~= items@.take(i as int));
        assert(r@.drop_last() =~= before);
        i = i + 1;
    }
    assert(items@.take(items.len() as int) =~= items@);
    r
}

/// Returns a copy of a parameter.
pub fn copy_parameter(p: &Parameter) -> (r: Parameter)
    ensures
        same_parameter(*p, r),
{
    Parameter {
        name: p.name.clone(),
        param_type: p.param_type,
        value: match &p.value {
            Some(v) => Some(copy_value(v)),
            None => None,
        },
    }
}

/// Returns a copy of the parameters.
pub fn copy_parameters(v: &Vec<Parameter>) -> (r: Vec<Parameter>)
    ensures
        same_parameters(v@, r@),
{
    let mut r: Vec<Parameter> = Vec::new();
    let mut i: usize = 0;
    while i < v.len()
        invariant
            i <= v.len(),
            r@.len() == i,
            forall|k: int| 0 <= k < i ==> #[trigger] same_parameter(v@[k], r@[k]),
        decreases v.len() - i,
    {
        r.push(copy_parameter(&v[i]));
        i = i + 1;
    }
    r
}

/// The views of a sequence of strings.
pub open spec fn views(v: Seq<String>) -> Seq<Seq<char>> {
    v.map_values(|s: String| s@)
}

} // verus!
