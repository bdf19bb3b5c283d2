//! The websocket server's state and decisions: which capabilities it advertises, which clients
//! are connected, and what each client is sent when something happens. Sending, receiving and
//! calling the user's callbacks happen at the edge, on the messages and events decided here.

use vstd::prelude::*;
use vstd::string::StringExecFns;

use crate::error::FoxgloveError;
use crate::channel::ChannelDescriptor;
use crate::ids::{CallId, ChannelId, ClientChannelId, ClientId, ServiceId, SinkId, SubscriptionId};
use crate::text::{decimal, decimal_spec, owned};
use crate::time::elapsed_since_epoch;
use crate::websocket::parameters::{
    newly_subscribed, newly_unsubscribed, subscribed_positions, subscribed_positions_select_exactly,
    ParameterSubscriptions,
};
use crate::websocket::protocol::{
    copy_parameters, copy_strings, same_client_channel, same_graph, same_parameter, Capability, ChannelView, ClientChannel, ConnectionGraph, Outgoing,
    Parameter, Plane, ServerMessage, Service, Status, StatusLevel, Subscription, ClientMessage, views,
};
use crate::websocket::services::{
    add_services_error, contains_string, copy_service, same_service, service_ids, service_names, ServiceMap,
};
use crate::websocket::session::{
    MAX_REQUESTS_IN_FLIGHT,
    accepted, advertise_notes, advertised_channels_are_new, after_advertise, after_requests, after_unsubscribe, channel_numbers, known_ids,
    newly_advertised, pruned, request_notes, status_is, unadvertise_run, unknown_notes, unsubscribed, views_match,
    ClientSession, Note, UnsubscribeOutcome,
};

verus! {

/// The number of messages that a client's queue holds by default before messages are dropped.
pub const DEFAULT_MESSAGE_BACKLOG_SIZE: usize = 1024;

/// How many of the oldest queued messages may be dropped to make room for a new data message.
pub const MAX_SEND_RETRIES: usize = 10;

/// How the server is set up.
pub struct ServerOptions {
    /// The session ID; generated from the clock when absent.
    pub session_id: Option<String>,
    /// The server's name; empty when absent.
    pub name: Option<String>,
    /// The size of each client's message queues.
    pub message_backlog_size: Option<usize>,
    /// The capabilities to advertise.
    pub capabilities: Option<Vec<Capability>>,
    /// The services to offer; no two share a name or an ID.
    pub services: Vec<Service>,
    /// The encodings that the server accepts from clients.
    pub supported_encodings: Option<Vec<String>>,
    /// Whether a handler for fetch asset requests is set up.
    pub has_fetch_asset_handler: bool,
}

/// The encodings that services declare for their requests, in order.
pub open spec fn request_encodings(services: Seq<Service>) -> Seq<Seq<char>>
    decreases services.len(),
{
    if services.len() == 0 {
        Seq::empty()
    } else {
        match services.last().spec_request_encoding() {
            Some(e) => request_encodings(services.drop_last()).push(e@),
            None => request_encodings(services.drop_last()),
        }
    }
}

/// The session ID made from the time elapsed since the unix epoch: the number of whole
/// milliseconds in decimal, or empty if the clock reads a time before the epoch.
pub open spec fn session_id_spec(elapsed: Option<(u64, u32)>) -> Seq<char> {
    match elapsed {
        Some(p) => decimal_spec((p.0 * 1000 + p.1 / 1_000_000) as nat),
        None => Seq::empty(),
    }
}

/// Makes a session ID from the time elapsed since the unix epoch, in whole seconds and
/// nanoseconds.
pub fn session_id_from_elapsed(elapsed: Option<(u64, u32)>) -> (r: String)
    ensures
        r@ == session_id_spec(elapsed),
{
    match elapsed {
        Some(p) => {
            let millis: u128 = p.0 as u128 * 1000 + (p.1 / 1_000_000) as u128;
            decimal(millis)
        },
        None => String::new(),
    }
}

/// Generates a session ID from the current time.
pub fn generate_session_id() -> (r: String)
    ensures
        exists|elapsed: Option<(u64, u32)>| r@ == session_id_spec(elapsed),
{
    let elapsed = elapsed_since_epoch();
    session_id_from_elapsed(elapsed)
}

/// Returns whether the capability is in the list.
fn contains_capability(v: &Vec<Capability>, c: Capability) -> (r: bool)
    ensures
        r == v@.contains(c),
{
    let mut i: usize = 0;
    while i < v.len()
        invariant
            i <= v@.len(),
            forall|k: int| 0 <= k < i ==> v@[k] != c,
        decreases v@.len() - i,
    {
        if v[i] == c {
            return true;
        }
        i = i + 1;
    }
    false
}

/// Adds the capability to the list, unless it is already there.
fn add_capability(v: &mut Vec<Capability>, c: Capability)
    requires
        old(v)@.no_duplicates(),
    ensures
        final(v)@.no_duplicates(),
        final(v)@.to_set() == old(v)@.to_set().insert(c),
{
    if !contains_capability(v, c) {
        let ghost before = v@;
        v.push(c);
        proof {
            lemma_to_set_push(before, c);
            lemma_push_unique(before, c);
        }
    } else {
        assert(v@.to_set() =~= old(v)@.to_set().insert(c));
    }
}

/// Adds the string to the list, unless it is already there.
fn add_string(v: &mut Vec<String>, s: &String)
    requires
        views(old(v)@).no_duplicates(),
    ensures
        views(final(v)@).no_duplicates(),
        views(final(v)@).to_set() == views(old(v)@).to_set().insert(s@),
{
    let ghost before = views(v@);
    if !contains_string(v, s) {
        v.push(s.clone());
        assert(views(v@) =~= before.push(s@));
        proof {
            lemma_to_set_push(before, s@);
            lemma_push_unique(before, s@);
        }
    } else {
        assert(views(v@).to_set() =~= before.to_set().insert(s@));
    }
}

/// The websocket server.
pub struct Server {
    started: bool,
    port: u16,
    message_backlog_size: u32,
    session_id: String,
    name: String,
    clients: Vec<ClientSession>,
    capabilities: Vec<Capability>,
    parameters: ParameterSubscriptions,
    supported_encodings: Vec<String>,
    graph: ConnectionGraph,
    graph_subscribers: Vec<ClientId>,
    services: ServiceMap,
    has_fetch_asset_handler: bool,
}

/// The IDs of the clients, in order.
pub open spec fn ids_of(sessions: Seq<ClientSession>) -> Seq<ClientId> {
    sessions.map_values(|c: ClientSession| c.spec_id())
}

/// The messages go, one each and in order, to the clients, on the plane, and each is `m`.
pub open spec fn to_each(out: Seq<Outgoing>, clients: Seq<ClientId>, plane: Plane, m: ServerMessage) -> bool {
    &&& out.len() == clients.len()
    &&& forall|k: int|
        0 <= k < clients.len() ==> (#[trigger] out[k]).client == clients[k] && out[k].plane == plane && out[k].message
            == m
}

/// The message describes a server with this name, these capabilities and encodings, and this
/// session.
pub open spec fn is_server_info(
    m: ServerMessage,
    name: Seq<char>,
    capabilities: Seq<Capability>,
    encodings: Seq<Seq<char>>,
    session_id: Seq<char>,
) -> bool {
    m matches ServerMessage::ServerInfo { name: n, capabilities: c, supported_encodings: e, session_id: s }
        && n@ == name && c@ == capabilities && views(e@) == encodings && s@ == session_id
}

/// The message removes the status messages with these IDs.
pub open spec fn removes_statuses(m: ServerMessage, ids: Seq<String>) -> bool {
    m matches ServerMessage::RemoveStatus { status_ids } && status_ids@ == ids
}

/// The plane that carries a status message of this level: informational ones may be dropped.
pub open spec fn status_plane(level: StatusLevel) -> Plane {
    match level {
        StatusLevel::Info => Plane::Data,
        _ => Plane::Control,
    }
}

impl Server {
    /// Whether the server has been started and not stopped since.
    pub closed spec fn is_started(&self) -> bool {
        self.started
    }

    /// The port that the server listens on; zero when it does not.
    pub closed spec fn spec_port(&self) -> u16 {
        self.port
    }

    /// The size of each client's message queues.
    pub closed spec fn backlog(&self) -> u32 {
        self.message_backlog_size
    }

    /// The session ID.
    pub closed spec fn session(&self) -> Seq<char> {
        self.session_id@
    }

    /// The server's name.
    pub closed spec fn spec_name(&self) -> Seq<char> {
        self.name@
    }

    /// The capabilities advertised, in order, each once.
    pub closed spec fn capability_list(&self) -> Seq<Capability> {
        self.capabilities@
    }

    /// Whether the server advertises the capability.
    pub open spec fn has(&self, c: Capability) -> bool {
        self.capability_list().contains(c)
    }

    /// The encodings accepted from clients, in order, each once.
    pub closed spec fn encodings(&self) -> Seq<Seq<char>> {
        views(self.supported_encodings@)
    }

    /// The connected clients, in the order in which they connected.
    pub closed spec fn sessions(&self) -> Seq<ClientSession> {
        self.clients@
    }

    /// The IDs of the connected clients, in order.
    pub open spec fn client_ids(&self) -> Seq<ClientId> {
        ids_of(self.sessions())
    }

    /// The registered services.
    pub closed spec fn service_list(&self) -> Seq<Service> {
        self.services.registered()
    }

    /// The clients' subscriptions to parameter updates.
    pub closed spec fn parameter_subscriptions(&self) -> ParameterSubscriptions {
        self.parameters
    }

    /// The clients subscribed to connection graph updates.
    pub closed spec fn graph_subscribers(&self) -> Seq<ClientId> {
        self.graph_subscribers@
    }

    /// The current connection graph.
    pub closed spec fn graph(&self) -> ConnectionGraph {
        self.graph
    }

    /// Whether a handler for fetch asset requests is set up.
    pub closed spec fn has_asset_handler(&self) -> bool {
        self.has_fetch_asset_handler
    }

    /// The state is well formed: capabilities, encodings, clients and graph subscribers each
    /// occur once, every client's state is well formed, and so are the services and parameter
    /// subscriptions.
    pub closed spec fn wf(&self) -> bool {
        &&& self.capabilities@.no_duplicates()
        &&& views(self.supported_encodings@).no_duplicates()
        &&& ids_of(self.clients@).no_duplicates()
        &&& forall|k: int| 0 <= k < self.clients@.len() ==> (#[trigger] self.clients@[k]).wf()
        &&& self.graph_subscribers@.no_duplicates()
        &&& self.services.wf()
        &&& self.parameters.wf()
    }

    /// Creates a server. Where services are given, the services capability is added, and so are
    /// the request encodings that they declare; where a fetch asset handler is set up, the
    /// assets capability is added.
    pub fn new(opts: ServerOptions) -> (s: Server)
        requires
            service_names(opts.services@).no_duplicates(),
            service_ids(opts.services@).no_duplicates(),
        ensures
            s.wf(),
            !s.is_started(),
            s.spec_port() == 0,
            s.backlog() == (match opts.message_backlog_size {
                Some(n) => n,
                None => DEFAULT_MESSAGE_BACKLOG_SIZE,
            }) as u32,
            opts.session_id matches Some(id) ==> s.session() == id@,
            opts.session_id is None ==> exists|elapsed: Option<(u64, u32)>| s.session() == session_id_spec(elapsed),
            s.spec_name() == (match opts.name {
                Some(n) => n@,
                None => Seq::<char>::empty(),
            }),
            s.capability_list().to_set() == (match opts.capabilities {
                Some(c) => c@.to_set(),
                None => Set::<Capability>::empty(),
            }).union(if opts.services@.len() > 0 {
                set![Capability::Services]
            } else {
                Set::<Capability>::empty()
            }).union(if opts.has_fetch_asset_handler {
                set![Capability::Assets]
            } else {
                Set::<Capability>::empty()
            }),
            s.encodings().to_set() == (match opts.supported_encodings {
                Some(e) => views(e@).to_set(),
                None => Set::<Seq<char>>::empty(),
            }).union(request_encodings(opts.services@).to_set()),
            s.sessions().len() == 0,
            s.service_list() == opts.services@,
            s.graph_subscribers().len() == 0,
            forall|n: Seq<char>, c: ClientId| !s.parameter_subscriptions().subscribed(n, c),
            s.has_asset_handler() == opts.has_fetch_asset_handler,
    {
        let mut capabilities: Vec<Capability> = Vec::new();
        match &opts.capabilities {
            Some(given) => {
                let mut i: usize = 0;
                while i < given.len()
                    invariant
                        i <= given@.len(),
                        capabilities@.no_duplicates(),
                        capabilities@.to_set() == given@.take(i as int).to_set(),
                    decreases given@.len() - i,
                {
                    add_capability(&mut capabilities, given[i]);
                    assert(given@.take(i + 1) == given@.take(i as int).push(given@[i as int]));
                    proof {
                        lemma_to_set_push(given@.take(i as int), given@[i as int]);
                    }
                    i = i + 1;
                }
                assert(given@.take(i as int) =~= given@);
            },
            None => {
                assert(capabilities@.to_set() =~= Set::<Capability>::empty());
            },
        }
        let ghost base = capabilities@.to_set();
        let mut encodings: Vec<String> = Vec::new();
        match &opts.supported_encodings {
            Some(given) => {
                let mut i: usize = 0;
                while i < given.len()
                    invariant
                        i <= given@.len(),
                        views(encodings@).no_duplicates(),
                        views(encodings@).to_set() == views(given@.take(i as int)).to_set(),
                    decreases given@.len() - i,
                {
                    add_string(&mut encodings, &given[i]);
                    assert(views(given@.take(i + 1)) =~= views(given@.take(i as int)).push(given@[i as int]@));
                    proof {
                        lemma_to_set_push(views(given@.take(i as int)), given@[i as int]@);
                    }
                    i = i + 1;
                }
                assert(given@.take(i as int) =~= given@);
            },
            None => {
                assert(views(encodings@).to_set() =~= Set::<Seq<char>>::empty());
            },
        }
        let ghost base_encodings = views(encodings@).to_set();
        if opts.services.len() > 0 {
            add_capability(&mut capabilities, Capability::Services);
            assert(capabilities@.to_set() =~= base.union(set![Capability::Services]));
        } else {
            assert(capabilities@.to_set() =~= base.union(Set::<Capability>::empty()));
        }
        let mut i: usize = 0;
        while i < opts.services.len()
            invariant
                i <= opts.services@.len(),
                views(encodings@).no_duplicates(),
                views(encodings@).to_set() == base_encodings.union(
                    request_encodings(opts.services@.take(i as int)).to_set(),
                ),
            decreases opts.services@.len() - i,
        {
            let ghost before = views(encodings@).to_set();
            assert(opts.services@.take(i + 1).drop_last() =~= opts.services@.take(i as int));
            match opts.services[i].request_encoding() {
                Some(e) => {
                    add_string(&mut encodings, e);
                    proof {
                        lemma_to_set_push(request_encodings(opts.services@.take(i as int)), e@);
                    }
                    assert(views(encodings@).to_set() =~= base_encodings.union(
                        request_encodings(opts.services@.take(i + 1)).to_set(),
                    ));
                },
                None => {},
            }
            i = i + 1;
        }
        assert(opts.services@.take(i as int) =~= opts.services@);
        let ghost with_services = capabilities@.to_set();
        if opts.has_fetch_asset_handler {
            add_capability(&mut capabilities, Capability::Assets);
            assert(capabilities@.to_set() =~= with_services.union(set![Capability::Assets]));
        } else {
            assert(capabilities@.to_set() =~= with_services.union(Set::<Capability>::empty()));
        }
        let size: usize = match opts.message_backlog_size {
            Some(n) => n,
            None => DEFAULT_MESSAGE_BACKLOG_SIZE,
        };
        let session_id = match opts.session_id {
            Some(id) => id,
            None => generate_session_id(),
        };
        let name = match opts.name {
            Some(n) => n,
            None => String::new(),
        };
        let parameters = ParameterSubscriptions::new();
        let s = Server {
            started: false,
            port: 0,
            message_backlog_size: size as u32,
            session_id,
            name,
            clients: Vec::new(),
            capabilities,
            parameters,
            supported_encodings: encodings,
            graph: ConnectionGraph::new(),
            graph_subscribers: Vec::new(),
            services: ServiceMap::from_services(opts.services),
            has_fetch_asset_handler: opts.has_fetch_asset_handler,
        };
        assert(ids_of(s.clients@) =~= Seq::<ClientId>::empty());
        s
    }

    /// Returns the port that the server listens on; zero when it does not.
    pub fn port(&self) -> (r: u16)
        ensures
            r == self.spec_port(),
    {
        self.port
    }

    /// Returns the size of each client's message queues.
    pub fn message_backlog_size(&self) -> (r: u32)
        ensures
            r == self.backlog(),
    {
        self.message_backlog_size
    }

    /// Returns whether the server advertises the capability.
    pub fn has_capability(&self, c: Capability) -> (r: bool)
        ensures
            r == self.has(c),
    {
        contains_capability(&self.capabilities, c)
    }

    /// Marks the server as started, unless it already is. Listening happens at the edge, which
    /// reports the port with `set_port`; the server stays marked as started if that fails.
    pub fn start(&mut self) -> (r: Result<(), FoxgloveError>)
        requires
            old(self).wf(),
        ensures
            final(self).wf(),
            r is Err <==> old(self).is_started(),
            r matches Err(e) ==> e == FoxgloveError::ServerAlreadyStarted,
            final(self).is_started(),
            final(self).spec_port() == old(self).spec_port(),
            final(self).sessions() == old(self).sessions(),
    {
        if self.started {
            return Err(FoxgloveError::ServerAlreadyStarted);
        }
        self.started = true;
        Ok(())
    }

    /// Records the port that the server listens on.
    pub fn set_port(&mut self, port: u16)
        requires
            old(self).wf(),
        ensures
            final(self).wf(),
            final(self).spec_port() == port,
            final(self).is_started() == old(self).is_started(),
            final(self).sessions() == old(self).sessions(),
    {
        self.port = port;
    }

    /// Stops the server, if it is started: the port is reset, every client is dropped, and
    /// their IDs are returned, in order, so that each connection can be closed. Returns `None`,
    /// and changes nothing, if the server is not started.
    pub fn stop(&mut self) -> (r: Option<Vec<ClientId>>)
        requires
            old(self).wf(),
        ensures
            final(self).wf(),
            r is None <==> !old(self).is_started(),
            r is None ==> *final(self) == *old(self),
            r matches Some(ids) ==> ids@ == old(self).client_ids() && !final(self).is_started()
                && final(self).spec_port() == 0 && final(self).sessions().len() == 0,
            !final(self).is_started(),
            final(self).same_but_connections(*old(self)),
            final(self).spec_name() == old(self).spec_name(),
            final(self).session() == old(self).session(),
            final(self).capability_list() == old(self).capability_list(),
            final(self).encodings() == old(self).encodings(),
            final(self).service_list() == old(self).service_list(),
            final(self).graph() == old(self).graph(),
            final(self).backlog() == old(self).backlog(),
            final(self).has_asset_handler() == old(self).has_asset_handler(),
            final(self).parameter_subscriptions() == old(self).parameter_subscriptions(),
            final(self).graph_subscribers() == old(self).graph_subscribers(),
    {
        if !self.started {
            return None;
        }
        self.started = false;
        self.port = 0;
        let ids = self.client_id_list();
        self.clients = Vec::new();
        assert(ids_of(self.clients@) =~= Seq::<ClientId>::empty());
        Some(ids)
    }

    /// Returns the IDs of the connected clients, in order.
    pub fn client_id_list(&self) -> (r: Vec<ClientId>)
        ensures
            r@ == self.client_ids(),
    {
        let mut r: Vec<ClientId> = Vec::new();
        let mut i: usize = 0;
        while i < self.clients.len()
            invariant
                i <= self.clients@.len(),
                r@ == ids_of(self.clients@.take(i as int)),
            decreases self.clients@.len() - i,
        {
            r.push(self.clients[i].id());
            i = i + 1;
            assert(r@ =~= ids_of(self.clients@.take(i as int)));
        }
        assert(self.clients@.take(i as int) =~= self.clients@);
        r
    }

    /// Returns the message that describes the server to its clients.
    pub fn server_info(&self) -> (m: ServerMessage)
        ensures
            is_server_info(m, self.spec_name(), self.capability_list(), self.encodings(), self.session()),
    {
        let mut capabilities: Vec<Capability> = Vec::new();
        let mut i: usize = 0;
        while i < self.capabilities.len()
            invariant
                i <= self.capabilities@.len(),
                capabilities@ == self.capabilities@.take(i as int),
            decreases self.capabilities@.len() - i,
        {
            capabilities.push(self.capabilities[i]);
            i = i + 1;
            assert(capabilities@ =~= self.capabilities@.take(i as int));
        }
        assert(self.capabilities@.take(i as int) =~= self.capabilities@);
        ServerMessage::ServerInfo {
            name: self.name.clone(),
            capabilities,
            supported_encodings: copy_strings(&self.supported_encodings),
            session_id: self.session_id.clone(),
        }
    }

    /// Sets a new session ID, generated from the clock if none is given, and returns the
    /// server info to send to every client, which makes them reset their state.
    pub fn clear_session(&mut self, new_session_id: Option<String>) -> (out: Vec<Outgoing>)
        requires
            old(self).wf(),
        ensures
            final(self).wf(),
            new_session_id matches Some(id) ==> final(self).session() == id@,
            new_session_id is None ==> exists|elapsed: Option<(u64, u32)>| final(self).session() == session_id_spec(elapsed),
            final(self).sessions() == old(self).sessions(),
            final(self).capability_list() == old(self).capability_list(),
            final(self).encodings() == old(self).encodings(),
            final(self).spec_name() == old(self).spec_name(),
            out@.len() == old(self).client_ids().len(),
            forall|k: int|
                0 <= k < out@.len() ==> (#[trigger] out@[k]).client == old(self).client_ids()[k] && out@[k].plane
                    == Plane::Control && is_server_info(
                    out@[k].message,
                    final(self).spec_name(),
                    final(self).capability_list(),
                    final(self).encodings(),
                    final(self).session(),
                ),
    {
        self.session_id = match new_session_id {
            Some(id) => id,
            None => generate_session_id(),
        };
        let mut out: Vec<Outgoing> = Vec::new();
        let mut i: usize = 0;
        while i < self.clients.len()
            invariant
                i <= self.clients@.len(),
                out@.len() == i,
                forall|k: int|
                    0 <= k < i ==> (#[trigger] out@[k]).client == ids_of(self.clients@)[k] && out@[k].plane
                        == Plane::Control && is_server_info(
                        out@[k].message,
                        self.spec_name(),
                        self.capability_list(),
                        self.encodings(),
                        self.session(),
                    ),
            decreases self.clients@.len() - i,
        {
            let message = self.server_info();
            out.push(Outgoing { client: self.clients[i].id(), plane: Plane::Control, message });
            i = i + 1;
        }
        out
    }

    /// Returns the status message to send to every client: informational ones on the data
    /// plane, the others on the control plane.
    pub fn publish_status(&self, status: &Status) -> (out: Vec<Outgoing>)
        ensures
            to_each(out@, self.client_ids(), status_plane(status.level), ServerMessage::Status(*status)),
    {
        let plane = match status.level {
            StatusLevel::Info => Plane::Data,
            _ => Plane::Control,
        };
        let mut out: Vec<Outgoing> = Vec::new();
        let mut i: usize = 0;
        while i < self.clients.len()
            invariant
                i <= self.clients@.len(),
                plane == status_plane(status.level),
                to_each(out@, ids_of(self.clients@).take(i as int), plane, ServerMessage::Status(*status)),
            decreases self.clients@.len() - i,
        {
            out.push(Outgoing { client: self.clients[i].id(), plane, message: ServerMessage::Status(status.copy()) });
            i = i + 1;
        }
        assert(ids_of(self.clients@).take(i as int) =~= ids_of(self.clients@));
        out
    }

    /// Returns the message, to send to every client, that removes the status messages with
    /// these IDs.
    pub fn remove_status(&self, status_ids: &Vec<String>) -> (out: Vec<Outgoing>)
        ensures
            out@.len() == self.client_ids().len(),
            forall|k: int|
                0 <= k < out@.len() ==> (#[trigger] out@[k]).client == self.client_ids()[k] && out@[k].plane
                    == Plane::Control && removes_statuses(out@[k].message, status_ids@),
    {
        let mut out: Vec<Outgoing> = Vec::new();
        let mut i: usize = 0;
        while i < self.clients.len()
            invariant
                i <= self.clients@.len(),
                out@.len() == i,
                forall|k: int|
                    0 <= k < i ==> (#[trigger] out@[k]).client == ids_of(self.clients@)[k] && out@[k].plane
                        == Plane::Control && removes_statuses(out@[k].message, status_ids@),
            decreases self.clients@.len() - i,
        {
            let ids = copy_strings(status_ids);
            out.push(
                Outgoing {
                    client: self.clients[i].id(),
                    plane: Plane::Control,
                    message: ServerMessage::RemoveStatus { status_ids: ids },
                },
            );
            i = i + 1;
        }
        out
    }

    /// Returns the current time, to send to every client; nothing if the server lacks the time
    /// capability.
    pub fn broadcast_time(&self, timestamp: u64) -> (out: Vec<Outgoing>)
        ensures
            !self.has(Capability::Time) ==> out@.len() == 0,
            self.has(Capability::Time) ==> to_each(
                out@,
                self.client_ids(),
                Plane::Control,
                ServerMessage::Time { timestamp },
            ),
    {
        let mut out: Vec<Outgoing> = Vec::new();
        if !self.has_capability(Capability::Time) {
            return out;
        }
        let mut i: usize = 0;
        while i < self.clients.len()
            invariant
                i <= self.clients@.len(),
                to_each(out@, ids_of(self.clients@).take(i as int), Plane::Control, ServerMessage::Time { timestamp }),
            decreases self.clients@.len() - i,
        {
            out.push(
                Outgoing { client: self.clients[i].id(), plane: Plane::Control, message: ServerMessage::Time { timestamp } },
            );
            i = i + 1;
        }
        assert(ids_of(self.clients@).take(i as int) =~= ids_of(self.clients@));
        out
    }

    /// Returns the position of the client with this ID.
    fn position(&self, id: ClientId) -> (r: Option<usize>)
        ensures
            r matches Some(k) ==> k < self.sessions().len() && self.client_ids()[k as int] == id,
            r is None <==> !self.client_ids().contains(id),
    {
        let mut i: usize = 0;
        while i < self.clients.len()
            invariant
                i <= self.clients@.len(),
                forall|k: int| 0 <= k < i ==> ids_of(self.clients@)[k] != id,
            decreases self.clients@.len() - i,
        {
            if self.clients[i].id() == id {
                assert(ids_of(self.clients@)[i as int] == id);
                return Some(i);
            }
            i = i + 1;
        }
        None
    }

    /// Registers a newly connected client, and returns the advertisement of the registered
    /// services to send it, if there are any.
    pub fn register_client(&mut self, id: ClientId, sink_id: SinkId) -> (out: Vec<Outgoing>)
        requires
            old(self).wf(),
            !old(self).client_ids().contains(id),
        ensures
            final(self).wf(),
            final(self).sessions().len() == old(self).sessions().len() + 1,
            final(self).sessions().drop_last() == old(self).sessions(),
            final(self).client_ids() == old(self).client_ids().push(id),
            final(self).sessions().last().spec_sink_id() == sink_id,
            final(self).sessions().last().channel_topics().len() == 0,
            final(self).sessions().last().subscriptions().len() == 0,
            final(self).sessions().last().advertised().len() == 0,
            final(self).service_list() == old(self).service_list(),
            final(self).parameter_subscriptions() == old(self).parameter_subscriptions(),
            final(self).graph_subscribers() == old(self).graph_subscribers(),
            old(self).service_list().len() == 0 ==> out@.len() == 0,
            old(self).service_list().len() > 0 ==> out@.len() == 1 && out@[0].client == id && out@[0].plane
                == Plane::Control && advertises(out@[0].message, old(self).service_list()),
    {
        let session = ClientSession::new(id, sink_id);
        let ghost before = self.clients@;
        self.clients.push(session);
        proof {
            assert(ids_of(self.clients@) =~= ids_of(before).push(id));
            lemma_push_unique(ids_of(before), id);
            assert(self.clients@.drop_last() =~= before);
            assert(session.channel_topics().dom() =~= Set::<crate::ids::ChannelId>::empty());
            assert(session.subscriptions().dom() =~= Set::<u64>::empty());
            assert(session.advertised().dom() =~= Set::<u32>::empty());
        }
        let mut out: Vec<Outgoing> = Vec::new();
        let services = self.services.all();
        if services.len() > 0 {
            out.push(Outgoing { client: id, plane: Plane::Control, message: ServerMessage::AdvertiseServices { services } });
        }
        out
    }

    /// Forgets a disconnected client: its subscriptions to parameters (where the server has the
    /// parameters capability) and to the connection graph (where it has that capability), and
    /// its subscriptions to channels.
    pub fn remove_client(&mut self, id: ClientId) -> (out: DisconnectOutcome)
        requires
            old(self).wf(),
        ensures
            final(self).wf(),
            final(self).client_ids() == old(self).client_ids().filter(|c: ClientId| c != id),
            !final(self).client_ids().contains(id),
            old(self).has(Capability::Parameters) ==> views(out.parameters_unsubscribed@).to_set() == Set::new(
                |n: Seq<char>| old(self).parameter_subscriptions().subscribed(n, id)
                    && old(self).parameter_subscriptions().sole_subscriber(n, id),
            ) && forall|n: Seq<char>, c: ClientId| #[trigger] final(self).parameter_subscriptions().subscribed(n, c)
                <==> old(self).parameter_subscriptions().subscribed(n, c) && c != id,
            !old(self).has(Capability::Parameters) ==> out.parameters_unsubscribed@.len() == 0
                && final(self).parameter_subscriptions() == old(self).parameter_subscriptions(),
            old(self).has(Capability::ConnectionGraph) ==> final(self).graph_subscribers().to_set()
                == old(self).graph_subscribers().to_set().remove(id) && out.graph_unsubscribed == (
                old(self).graph_subscribers().contains(id) && final(self).graph_subscribers().len() == 0),
            !old(self).has(Capability::ConnectionGraph) ==> !out.graph_unsubscribed
                && final(self).graph_subscribers() == old(self).graph_subscribers(),
            !old(self).client_ids().contains(id) ==> out.channels.channel_ids@.len() == 0 && out.channels.channels@.len()
                == 0,
            forall|k: int|
                0 <= k < old(self).sessions().len() && old(self).client_ids()[k] == id ==> channel_numbers(
                    out.channels.channel_ids@,
                ).to_set() == old(self).sessions()[k].subscriptions().dom() && out.channels.channel_ids@.no_duplicates()
                    && views_match(
                    out.channels.channels@,
                    known_ids(old(self).sessions()[k].channel_topics(), out.channels.channel_ids@),
                    old(self).sessions()[k].channel_topics(),
                ),
    {
        let ghost ids0 = self.client_ids();
        let channels = match self.position(id) {
            Some(k) => {
                let ghost before = self.clients@;
                let session = self.clients.remove(k);
                proof {
                    lemma_remove_client(before, k as int, id);
                    assert(before[k as int] == session);
                }
                session.on_disconnect()
            },
            None => {
                proof {
                    assert(ids0.filter(|c: ClientId| c != id) =~= ids0) by {
                        lemma_filter_absent(ids0, id);
                    }
                }
                UnsubscribeOutcome { channel_ids: Vec::new(), channels: Vec::new() }
            },
        };
        let parameters_unsubscribed = if self.has_capability(Capability::Parameters) {
            let names = self.parameters.unsubscribe_all(id);
            proof {
                let old_params = old(self).parameter_subscriptions();
                assert(views(names@).to_set() =~= Set::new(
                    |n: Seq<char>| old_params.subscribed(n, id) && old_params.sole_subscriber(n, id),
                ));
            }
            names
        } else {
            Vec::new()
        };
        let graph_unsubscribed = if self.has_capability(Capability::ConnectionGraph) {
            let removed = self.remove_graph_subscriber(id);
            removed && self.graph_subscribers.len() == 0
        } else {
            false
        };
        DisconnectOutcome { parameters_unsubscribed, graph_unsubscribed, channels }
    }

    /// Removes the client from the subscribers to connection graph updates, and returns
    /// whether it was one.
    fn remove_graph_subscriber(&mut self, id: ClientId) -> (removed: bool)
        requires
            old(self).wf(),
        ensures
            final(self).wf(),
            removed == old(self).graph_subscribers().contains(id),
            final(self).graph_subscribers().to_set() == old(self).graph_subscribers().to_set().remove(id),
            !final(self).graph_subscribers().contains(id),
            final(self).same_but_graph(*old(self)),
            final(self).graph() == old(self).graph(),
    {
        let mut i: usize = 0;
        while i < self.graph_subscribers.len()
            invariant
                *self == *old(self),
                self.wf(),
                i <= self.graph_subscribers@.len(),
                forall|k: int| 0 <= k < i ==> self.graph_subscribers@[k] != id,
            decreases self.graph_subscribers@.len() - i,
        {
            if self.graph_subscribers[i] == id {
                let ghost before = self.graph_subscribers@;
                self.graph_subscribers.remove(i);
                proof {
                    lemma_remove_unique(before, i as int);
                }
                return true;
            }
            i = i + 1;
        }
        assert(!self.graph_subscribers@.contains(id));
        assert(self.graph_subscribers@.to_set() =~= old(self).graph_subscribers@.to_set().remove(id));
        false
    }

    /// Everything but whether the server runs, its port and its clients is as in `other`:
    /// name, session, capabilities, encodings, services, parameter and graph subscriptions,
    /// graph, queue size and asset handler.
    pub closed spec fn same_but_connections(&self, other: Server) -> bool {
        &&& self.message_backlog_size == other.message_backlog_size
        &&& self.session_id == other.session_id
        &&& self.name == other.name
        &&& self.capabilities == other.capabilities
        &&& self.parameters == other.parameters
        &&& self.supported_encodings == other.supported_encodings
        &&& self.graph == other.graph
        &&& self.graph_subscribers == other.graph_subscribers
        &&& self.services == other.services
        &&& self.has_fetch_asset_handler == other.has_fetch_asset_handler
    }

    /// Everything but the connected clients' states is as in `other`.
    pub closed spec fn same_but_sessions(&self, other: Server) -> bool {
        &&& self.started == other.started
        &&& self.port == other.port
        &&& self.message_backlog_size == other.message_backlog_size
        &&& self.session_id == other.session_id
        &&& self.name == other.name
        &&& self.capabilities == other.capabilities
        &&& self.parameters == other.parameters
        &&& self.supported_encodings == other.supported_encodings
        &&& self.graph == other.graph
        &&& self.graph_subscribers == other.graph_subscribers
        &&& self.services == other.services
        &&& self.has_fetch_asset_handler == other.has_fetch_asset_handler
    }

    /// Advertises a channel to a client, and returns the advertisement to send it; `None` if
    /// no client has this ID.
    pub fn advertise_channel(&mut self, client: ClientId, channel: &ChannelDescriptor) -> (r: Option<Outgoing>)
        requires
            old(self).wf(),
        ensures
            final(self).wf(),
            final(self).same_but_sessions(*old(self)),
            final(self).client_ids() == old(self).client_ids(),
            r is None <==> !old(self).client_ids().contains(client),
            r is None ==> final(self).sessions() == old(self).sessions(),
            r matches Some(o) ==> {
                let k = index_of(old(self).client_ids(), client);
                &&& replaced(old(self).sessions(), final(self).sessions(), k)
                &&& final(self).sessions()[k].same_but_channels(old(self).sessions()[k])
                &&& final(self).sessions()[k].channel_topics() == old(self).sessions()[k].channel_topics().insert(
                    channel.id,
                    channel.topic@,
                )
                &&& o.client == client
                &&& o.plane == Plane::Control
                &&& o.message matches ServerMessage::Advertise { channels } && channels@.len() == 1
                    && channels@[0].id == channel.id && channels@[0].topic@ == channel.topic@
            },
    {
        match self.position(client) {
            Some(k) => {
                proof {
                    lemma_index_of(self.client_ids(), k as int);
                }
                let ghost before = self.clients@;
                let mut session = self.clients.remove(k);
                assert(session == before[k as int]);
                let message = session.advertise_channel(channel);
                self.clients.insert(k, session);
                proof {
                    lemma_replace_session(before, k as int, session);
                }
                Some(Outgoing { client, plane: Plane::Control, message })
            },
            None => None,
        }
    }

    /// Unadvertises a channel to a client, and returns the unadvertisement to send it; `None`
    /// if no client has this ID.
    pub fn unadvertise_channel(&mut self, client: ClientId, channel_id: ChannelId) -> (r: Option<Outgoing>)
        requires
            old(self).wf(),
        ensures
            final(self).wf(),
            final(self).same_but_sessions(*old(self)),
            final(self).client_ids() == old(self).client_ids(),
            r is None <==> !old(self).client_ids().contains(client),
            r is None ==> final(self).sessions() == old(self).sessions(),
            r matches Some(o) ==> {
                let k = index_of(old(self).client_ids(), client);
                &&& replaced(old(self).sessions(), final(self).sessions(), k)
                &&& final(self).sessions()[k].same_but_channels(old(self).sessions()[k])
                &&& final(self).sessions()[k].channel_topics() == old(self).sessions()[k].channel_topics().remove(
                    channel_id,
                )
                &&& o.client == client
                &&& o.plane == Plane::Control
                &&& o.message matches ServerMessage::Unadvertise { channel_ids } && channel_ids@ == seq![channel_id]
            },
    {
        match self.position(client) {
            Some(k) => {
                proof {
                    lemma_index_of(self.client_ids(), k as int);
                }
                let ghost before = self.clients@;
                let mut session = self.clients.remove(k);
                assert(session == before[k as int]);
                let message = session.unadvertise_channel(channel_id);
                self.clients.insert(k, session);
                proof {
                    lemma_replace_session(before, k as int, session);
                }
                Some(Outgoing { client, plane: Plane::Control, message })
            },
            None => None,
        }
    }

    /// Returns the message data to send a client for a message logged on a channel, on the data
    /// plane; `None` if no client has this ID or it is not subscribed to the channel.
    pub fn log(&self, client: ClientId, channel_id: ChannelId, log_time: u64, payload: &[u8]) -> (r: Option<Outgoing>)
        requires
            self.wf(),
        ensures
            r is None <==> !self.client_ids().contains(client) || !self.sessions()[index_of(
                self.client_ids(),
                client,
            )].subscriptions().dom().contains(channel_id.0),
            r matches Some(o) ==> {
                let subs = self.sessions()[index_of(self.client_ids(), client)].subscriptions();
                &&& o.client == client
                &&& o.plane == Plane::Data
                &&& o.message matches ServerMessage::MessageData { subscription_id, log_time: t, payload: p }
                    && subscription_id.0 == subs[channel_id.0] && t == log_time && p@ == payload@
            },
    {
        match self.position(client) {
            Some(k) => {
                proof {
                    lemma_index_of(self.client_ids(), k as int);
                }
                match self.clients[k].log(channel_id, log_time, payload) {
                    Some(message) => Some(Outgoing { client, plane: Plane::Data, message }),
                    None => None,
                }
            },
            None => None,
        }
    }

    /// Subscribes the client to connection graph updates, and returns whether it is the first
    /// subscriber, with the complete graph to send it; `None` if it is already subscribed.
    pub fn subscribe_connection_graph(&mut self, client: ClientId) -> (r: Option<(bool, ServerMessage)>)
        requires
            old(self).wf(),
        ensures
            final(self).wf(),
            final(self).same_but_graph(*old(self)),
            final(self).graph() == old(self).graph(),
            r is None <==> old(self).graph_subscribers().contains(client),
            r is None ==> *final(self) == *old(self),
            r matches Some(p) ==> final(self).graph_subscribers() == old(self).graph_subscribers().push(client) && p.0
                == (old(self).graph_subscribers().len() == 0) && updates_graph(p.1, old(self).graph()),
    {
        let first = self.graph_subscribers.len() == 0;
        let mut i: usize = 0;
        while i < self.graph_subscribers.len()
            invariant
                *self == *old(self),
                self.wf(),
                i <= self.graph_subscribers@.len(),
                forall|k: int| 0 <= k < i ==> self.graph_subscribers@[k] != client,
            decreases self.graph_subscribers@.len() - i,
        {
            if self.graph_subscribers[i] == client {
                return None;
            }
            i = i + 1;
        }
        let ghost before = self.graph_subscribers@;
        self.graph_subscribers.push(client);
        proof {
            lemma_push_unique(before, client);
        }
        Some((first, ServerMessage::ConnectionGraphUpdate { graph: self.graph.copy() }))
    }

    /// Unsubscribes the client from connection graph updates, and returns whether it was
    /// subscribed, and whether it was the last subscriber.
    pub fn unsubscribe_connection_graph(&mut self, client: ClientId) -> (r: (bool, bool))
        requires
            old(self).wf(),
        ensures
            final(self).wf(),
            final(self).same_but_graph(*old(self)),
            final(self).graph() == old(self).graph(),
            r.0 == old(self).graph_subscribers().contains(client),
            final(self).graph_subscribers().to_set() == old(self).graph_subscribers().to_set().remove(client),
            r.1 == (r.0 && final(self).graph_subscribers().len() == 0),
    {
        let removed = self.remove_graph_subscriber(client);
        (removed, removed && self.graph_subscribers.len() == 0)
    }

    /// Replaces the connection graph, and returns the new graph to send each client that is
    /// subscribed to connection graph updates. Fails where the server lacks the connection graph
    /// capability.
    pub fn replace_connection_graph(&mut self, graph: ConnectionGraph) -> (r: Result<Vec<Outgoing>, FoxgloveError>)
        requires
            old(self).wf(),
        ensures
            final(self).wf(),
            r is Err <==> !old(self).has(Capability::ConnectionGraph),
            r matches Err(e) ==> e == FoxgloveError::ConnectionGraphNotSupported && *final(self) == *old(self),
            r matches Ok(out) ==> {
                let to = old(self).client_ids().filter(among(old(self).graph_subscribers()));
                &&& final(self).graph() == graph
                &&& final(self).graph_subscribers() == old(self).graph_subscribers()
                &&& final(self).sessions() == old(self).sessions()
                &&& out@.len() == to.len()
                &&& forall|k: int|
                    0 <= k < to.len() ==> (#[trigger] out@[k]).client == to[k] && out@[k].plane == Plane::Control
                        && updates_graph(out@[k].message, graph)
            },
    {
        if !self.has_capability(Capability::ConnectionGraph) {
            return Err(FoxgloveError::ConnectionGraphNotSupported);
        }
        let ghost subscribers = self.graph_subscribers@;
        let ghost f = among(subscribers);
        let mut out: Vec<Outgoing> = Vec::new();
        let mut i: usize = 0;
        while i < self.clients.len()
            invariant
                i <= self.clients@.len(),
                *self == *old(self),
                subscribers == self.graph_subscribers@,
                f == among(subscribers),
                out@.len() == ids_of(self.clients@).take(i as int).filter(f).len(),
                forall|k: int|
                    0 <= k < out@.len() ==> (#[trigger] out@[k]).client == ids_of(self.clients@).take(i as int).filter(f)[k]
                        && out@[k].plane == Plane::Control && updates_graph(out@[k].message, graph),
            decreases self.clients@.len() - i,
        {
            let id = self.clients[i].id();
            let ghost prefix = ids_of(self.clients@).take(i as int);
            assert(ids_of(self.clients@).take(i + 1) =~= prefix.push(id));
            proof {
                prefix.lemma_filter_push(id, f);
            }
            if self.is_graph_subscriber(id) {
                assert(f(id));
                out.push(Outgoing { client: id, plane: Plane::Control, message: ServerMessage::ConnectionGraphUpdate { graph: graph.copy() } });
            }
            i = i + 1;
        }
        assert(ids_of(self.clients@).take(i as int) =~= ids_of(self.clients@));
        self.graph = graph;
        Ok(out)
    }

    /// Returns whether the client is subscribed to connection graph updates.
    fn is_graph_subscriber(&self, client: ClientId) -> (r: bool)
        ensures
            r == self.graph_subscribers().contains(client),
    {
        let mut i: usize = 0;
        while i < self.graph_subscribers.len()
            invariant
                i <= self.graph_subscribers@.len(),
                forall|k: int| 0 <= k < i ==> self.graph_subscribers@[k] != client,
            decreases self.graph_subscribers@.len() - i,
        {
            if self.graph_subscribers[i] == client {
                return true;
            }
            i = i + 1;
        }
        false
    }

    /// Subscribes the client to updates of the parameters `names`, and returns, in order and
    /// once each, the names that had no subscriber before.
    pub fn subscribe_parameters(&mut self, client: ClientId, names: &Vec<String>) -> (new_names: Vec<String>)
        requires
            old(self).wf(),
        ensures
            final(self).wf(),
            final(self).same_but_parameters(*old(self)),
            forall|n: Seq<char>, c: ClientId| #[trigger] final(self).parameter_subscriptions().subscribed(n, c)
                <==> old(self).parameter_subscriptions().subscribed(n, c) || (c == client && views(names@).contains(n)),
            views(new_names@) == newly_subscribed(old(self).parameter_subscriptions(), views(names@)),
    {
        self.parameters.subscribe(client, names)
    }

    /// Unsubscribes the client from updates of the parameters `names`, and returns, in order
    /// and once each, the names that no longer have a subscriber.
    pub fn unsubscribe_parameters(&mut self, client: ClientId, names: &Vec<String>) -> (old_names: Vec<String>)
        requires
            old(self).wf(),
        ensures
            final(self).wf(),
            final(self).same_but_parameters(*old(self)),
            forall|n: Seq<char>, c: ClientId| #[trigger] final(self).parameter_subscriptions().subscribed(n, c)
                <==> old(self).parameter_subscriptions().subscribed(n, c) && !(c == client && views(names@).contains(n)),
            views(old_names@) == newly_unsubscribed(old(self).parameter_subscriptions(), client, views(names@)),
    {
        self.parameters.unsubscribe(client, names)
    }

    /// Returns the parameter values to send each client, in order, that is subscribed to at
    /// least one of them: to each, those of them it is subscribed to, in order. Nothing is sent
    /// where the server lacks the parameters capability.
    pub fn publish_parameter_values(&self, parameters: &Vec<Parameter>) -> (out: Vec<Outgoing>)
        ensures
            !self.has(Capability::Parameters) ==> out@.len() == 0,
            self.has(Capability::Parameters) ==> {
                let subs = self.parameter_subscriptions();
                let to = self.client_ids().filter(interested(subs, parameters@));
                &&& out@.len() == to.len()
                &&& forall|k: int|
                    0 <= k < to.len() ==> (#[trigger] out@[k]).client == to[k] && out@[k].plane == Plane::Control
                        && carries_parameters(out@[k].message, subs, parameters@, to[k])
            },
    {
        let mut out: Vec<Outgoing> = Vec::new();
        if !self.has_capability(Capability::Parameters) {
            return out;
        }
        let ghost f = interested(self.parameters, parameters@);
        let mut i: usize = 0;
        while i < self.clients.len()
            invariant
                i <= self.clients@.len(),
                f == interested(self.parameters, parameters@),
                out@.len() == ids_of(self.clients@).take(i as int).filter(f).len(),
                forall|k: int|
                    0 <= k < out@.len() ==> (#[trigger] out@[k]).client == ids_of(self.clients@).take(i as int).filter(f)[k]
                        && out@[k].plane == Plane::Control && carries_parameters(
                        out@[k].message,
                        self.parameters,
                        parameters@,
                        out@[k].client,
                    ),
            decreases self.clients@.len() - i,
        {
            let id = self.clients[i].id();
            let ghost prefix = ids_of(self.clients@).take(i as int);
            assert(ids_of(self.clients@).take(i + 1) =~= prefix.push(id));
            proof {
                prefix.lemma_filter_push(id, f);
            }
            let filtered = self.parameters.filter_for(parameters, id);
            if filtered.len() > 0 {
                assert(f(id));
                out.push(
                    Outgoing {
                        client: id,
                        plane: Plane::Control,
                        message: ServerMessage::ParameterValues { parameters: filtered, id: None },
                    },
                );
            } else {
                assert(!f(id));
            }
            i = i + 1;
        }
        assert(ids_of(self.clients@).take(i as int) =~= ids_of(self.clients@));
        out
    }

    /// Registers new services, and returns their advertisement to send every client. Fails,
    /// changing nothing, where the server lacks the services capability, two new services share
    /// a name, one declares no request encoding while the server accepts none, or one shares
    /// its name or ID with a registered service. Nothing is sent when there are no new services.
    pub fn add_services(&mut self, new: Vec<Service>) -> (r: Result<Vec<Outgoing>, FoxgloveError>)
        requires
            old(self).wf(),
        ensures
            final(self).wf(),
            final(self).same_but_services(*old(self)),
            r matches Err(e) ==> server_add_services_error(
                old(self).service_list(),
                old(self).has(Capability::Services),
                old(self).encodings().len() == 0,
                new@,
            ) == Some(e) && final(self).service_list() == old(self).service_list(),
            r matches Ok(out) ==> server_add_services_error(
                old(self).service_list(),
                old(self).has(Capability::Services),
                old(self).encodings().len() == 0,
                new@,
            ) is None && final(self).service_list() == old(self).service_list() + new@ && (new@.len() == 0
                ==> out@.len() == 0) && (new@.len() > 0 ==> out@.len() == old(self).client_ids().len()
                && forall|k: int|
                0 <= k < out@.len() ==> (#[trigger] out@[k]).client == old(self).client_ids()[k] && out@[k].plane
                    == Plane::Control && advertises(out@[k].message, new@)),
    {
        let capable = self.has_capability(Capability::Services);
        let encodings_empty = self.supported_encodings.len() == 0;
        if !capable {
            return Err(FoxgloveError::ServicesNotSupported);
        }
        match first_repeated_service_id(&new) {
            Some(j) => {
                return Err(FoxgloveError::DuplicateService(new[j].name.clone()));
            },
            None => {},
        }
        proof {
            lemma_no_repeated_id(new@);
        }
        let ghost added = new@;
        let mut copies: Vec<Service> = Vec::new();
        let mut i: usize = 0;
        while i < new.len()
            invariant
                i <= new@.len(),
                copies@.len() == i,
                forall|k: int| 0 <= k < i ==> #[trigger] same_service(new@[k], copies@[k]),
            decreases new@.len() - i,
        {
            copies.push(copy_service(&new[i]));
            i = i + 1;
        }
        proof {
            assert forall|a: int, b: int| 0 <= a < b < new@.len() implies new@[a].id != new@[b].id by {
                assert(service_ids(new@)[a] == new@[a].id);
                assert(service_ids(new@)[b] == new@[b].id);
            }
        }
        let count = new.len();
        match self.services.add_services(capable, encodings_empty, new) {
            Err(e) => Err(e),
            Ok(()) => {
                let mut out: Vec<Outgoing> = Vec::new();
                if count == 0 {
                    return Ok(out);
                }
                let mut j: usize = 0;
                while j < self.clients.len()
                    invariant
                        j <= self.clients@.len(),
                        out@.len() == j,
                        copies@.len() == added.len(),
                        forall|k: int| 0 <= k < added.len() ==> #[trigger] same_service(added[k], copies@[k]),
                        forall|k: int|
                            0 <= k < j ==> (#[trigger] out@[k]).client == ids_of(self.clients@)[k] && out@[k].plane
                                == Plane::Control && advertises(out@[k].message, added),
                    decreases self.clients@.len() - j,
                {
                    let services = copy_services(&copies);
                    proof {
                        assert forall|k: int| 0 <= k < added.len() implies #[trigger] same_service(added[k], services@[k]) by {
                            assert(same_service(added[k], copies@[k]));
                            assert(same_service(copies@[k], services@[k]));
                        }
                    }
                    out.push(
                        Outgoing {
                            client: self.clients[j].id(),
                            plane: Plane::Control,
                            message: ServerMessage::AdvertiseServices { services },
                        },
                    );
                    j = j + 1;
                }
                Ok(out)
            },
        }
    }

    /// Removes the services with these names, and returns their unadvertisement, naming the IDs
    /// of the services removed, to send every client. Unknown names are ignored; nothing is
    /// sent when no service was removed.
    pub fn remove_services(&mut self, names: &Vec<String>) -> (out: Vec<Outgoing>)
        requires
            old(self).wf(),
        ensures
            final(self).wf(),
            final(self).same_but_services(*old(self)),
            forall|s: Service| #[trigger] final(self).service_list().contains(s) <==> old(self).service_list().contains(s)
                && !views(names@).contains(s.name@),
            !(exists|k: int| 0 <= k < old(self).service_list().len() && views(names@).contains(
                #[trigger] old(self).service_list()[k].name@,
            )) ==> out@.len() == 0,
            (exists|k: int| 0 <= k < old(self).service_list().len() && views(names@).contains(
                #[trigger] old(self).service_list()[k].name@,
            )) ==> out@.len() == old(self).client_ids().len(),
            forall|k: int|
                0 <= k < out@.len() ==> (#[trigger] out@[k]).client == old(self).client_ids()[k] && out@[k].plane
                    == Plane::Control && unadvertises(out@[k].message, old(self).service_list(), views(names@)),
    {
        let removed = self.services.remove_services(names);
        let mut out: Vec<Outgoing> = Vec::new();
        if removed.len() == 0 {
            proof {
                if exists|k: int| 0 <= k < old(self).service_list().len() && views(names@).contains(
                    #[trigger] old(self).service_list()[k].name@,
                ) {
                    let k = choose|k: int| 0 <= k < old(self).service_list().len() && views(names@).contains(
                        #[trigger] old(self).service_list()[k].name@,
                    );
                    assert(removed@.contains(old(self).service_list()[k].id));
                }
            }
            return out;
        }
        proof {
            assert(removed@.contains(removed@[0]));
        }
        let mut j: usize = 0;
        while j < self.clients.len()
            invariant
                j <= self.clients@.len(),
                out@.len() == j,
                forall|id: ServiceId| #[trigger] removed@.contains(id) <==> exists|k: int|
                    0 <= k < old(self).service_list().len() && old(self).service_list()[k].id == id && views(
                        names@,
                    ).contains(old(self).service_list()[k].name@),
                forall|k: int|
                    0 <= k < j ==> (#[trigger] out@[k]).client == ids_of(self.clients@)[k] && out@[k].plane
                        == Plane::Control && unadvertises(out@[k].message, old(self).service_list(), views(names@)),
            decreases self.clients@.len() - j,
        {
            let mut ids: Vec<ServiceId> = Vec::new();
            let mut q: usize = 0;
            while q < removed.len()
                invariant
                    q <= removed@.len(),
                    ids@ == removed@.take(q as int),
                decreases removed@.len() - q,
            {
                ids.push(removed[q]);
                q = q + 1;
                assert(ids@ =~= removed@.take(q as int));
            }
            assert(removed@.take(q as int) =~= removed@);
            out.push(
                Outgoing {
                    client: self.clients[j].id(),
                    plane: Plane::Control,
                    message: ServerMessage::UnadvertiseServices { service_ids: ids },
                },
            );
            j = j + 1;
        }
        out
    }

    /// Returns a copy of the service with this ID, if one is registered.
    pub fn get_service(&self, id: ServiceId) -> (r: Option<Service>)
        ensures
            r matches Some(s) ==> exists|k: int| 0 <= k < self.service_list().len() && self.service_list()[k].id == id
                && same_service(self.service_list()[k], s),
            r is None <==> !service_ids(self.service_list()).contains(id),
    {
        let r = self.services.get_by_id(id);
        proof {
            if r is Some {
                let k = choose|k: int| 0 <= k < self.service_list().len() && self.service_list()[k].id == id;
                assert(service_ids(self.service_list())[k] == id);
            }
        }
        r
    }

    /// Everything but the parameter subscriptions is as in `other`.
    pub closed spec fn same_but_parameters(&self, other: Server) -> bool {
        &&& self.started == other.started
        &&& self.port == other.port
        &&& self.message_backlog_size == other.message_backlog_size
        &&& self.session_id == other.session_id
        &&& self.name == other.name
        &&& self.clients == other.clients
        &&& self.capabilities == other.capabilities
        &&& self.supported_encodings == other.supported_encodings
        &&& self.graph == other.graph
        &&& self.graph_subscribers == other.graph_subscribers
        &&& self.services == other.services
        &&& self.has_fetch_asset_handler == other.has_fetch_asset_handler
    }

    /// Everything but the registered services is as in `other`.
    pub closed spec fn same_but_services(&self, other: Server) -> bool {
        &&& self.started == other.started
        &&& self.port == other.port
        &&& self.message_backlog_size == other.message_backlog_size
        &&& self.session_id == other.session_id
        &&& self.name == other.name
        &&& self.clients == other.clients
        &&& self.capabilities == other.capabilities
        &&& self.parameters == other.parameters
        &&& self.supported_encodings == other.supported_encodings
        &&& self.graph == other.graph
        &&& self.graph_subscribers == other.graph_subscribers
        &&& self.has_fetch_asset_handler == other.has_fetch_asset_handler
    }

    /// Takes out the state of the client at position `k`, to be put back with `put_session`.
    fn take_session(&mut self, k: usize) -> (s: ClientSession)
        requires
            old(self).wf(),
            k < old(self).sessions().len(),
        ensures
            s == old(self).sessions()[k as int],
            s.wf(),
            final(self).sessions() == old(self).sessions().remove(k as int),
            final(self).same_but_sessions(*old(self)),
    {
        let ghost before = self.clients@;
        let s = self.clients.remove(k);
        assert(s == before[k as int]);
        s
    }

    /// Puts back, at position `k`, the state of a client taken out with `take_session`.
    fn put_session(&mut self, k: usize, s: ClientSession, Ghost(before): Ghost<Server>)
        requires
            before.wf(),
            k < before.sessions().len(),
            old(self).sessions() == before.sessions().remove(k as int),
            old(self).same_but_sessions(before),
            s.wf(),
            s.spec_id() == before.sessions()[k as int].spec_id(),
        ensures
            final(self).wf(),
            final(self).sessions() == before.sessions().update(k as int, s),
            final(self).client_ids() == before.client_ids(),
            final(self).same_but_sessions(before),
            replaced(before.sessions(), final(self).sessions(), k as int),
    {
        self.clients.insert(k, s);
        proof {
            lemma_replace_session(before.clients@, k as int, s);
        }
    }

    /// Handles a subscription request of a client: answers it with the status messages that the
    /// client's state gives, and reports the channels subscribed to, one by one and then all
    /// together for the context. Nothing happens for an unknown client.
    pub fn on_subscribe(&mut self, client: ClientId, requests: &Vec<Subscription>) -> (r: Reaction)
        requires
            old(self).wf(),
        ensures
            final(self).wf(),
            subscribe_reaction(*old(self), *final(self), client, requests@, r),
    {
        let mut r = Reaction { outgoing: Vec::new(), events: Vec::new() };
        let k = match self.position(client) {
            Some(k) => k,
            None => {
                return r;
            },
        };
        proof {
            lemma_index_of(self.client_ids(), k as int);
        }
        let ghost before = *self;
        let mut session = self.take_session(k);
        let outcome = session.on_subscribe(requests);
        self.put_session(k, session, Ghost(before));
        r.outgoing = statuses_out(client, outcome.statuses);
        let mut ids: Vec<ChannelId> = Vec::new();
        let mut events: Vec<Event> = Vec::new();
        let subscribed = outcome.subscribed;
        let ghost views = subscribed@;
        let ghost topics = before.sessions()[k as int].channel_topics();
        let ghost acc = accepted(before.sessions()[k as int].subscriptions(), pruned(topics, requests@, 0));
        assert(views_match(views, acc, topics));
        let mut i: usize = 0;
        while i < subscribed.len()
            invariant
                subscribed@ == views,
                views_match(views, acc, topics),
                i <= views.len(),
                events@.len() == i,
                ids@.len() == i,
                forall|j: int| 0 <= j < i ==> (#[trigger] events@[j]) == Event::Subscribed(views[j]),
                forall|j: int| 0 <= j < i ==> (#[trigger] ids@[j]) == views[j].spec_id(),
            decreases views.len() - i,
        {
            let v = subscribed[i].clone_view();
            ids.push(v.id());
            events.push(Event::Subscribed(v));
            i = i + 1;
        }
        let ghost prefix = events@;
        events.push(Event::SubscribeChannels(ids));
        proof {
            assert(ids@ =~= acc);
            assert forall|j: int| 0 <= j < acc.len() implies is_subscribed_event(
                #[trigger] events@[j],
                acc[j],
                topics[acc[j]],
            ) by {
                assert(events@[j] == prefix[j]);
            }
        }
        r.events = events;
        r
    }

    /// Handles a request of a client to unsubscribe: the channels given up are reported to the
    /// context, and then those still advertised to the client one by one.
    pub fn on_unsubscribe(&mut self, client: ClientId, ids: &Vec<SubscriptionId>) -> (r: Reaction)
        requires
            old(self).wf(),
        ensures
            final(self).wf(),
            unsubscribe_reaction(*old(self), *final(self), client, ids@, r),
    {
        let k = match self.position(client) {
            Some(k) => k,
            None => {
                return Reaction { outgoing: Vec::new(), events: Vec::new() };
            },
        };
        proof {
            lemma_index_of(self.client_ids(), k as int);
        }
        let ghost before = *self;
        let mut session = self.take_session(k);
        let outcome = session.on_unsubscribe(ids);
        self.put_session(k, session, Ghost(before));
        Reaction { outgoing: Vec::new(), events: unsubscribe_events(outcome) }
    }

    /// Handles a client's advertisement of channels: answered as the client's state says, and
    /// each channel added is reported.
    pub fn on_advertise(&mut self, client: ClientId, channels: Vec<ClientChannel>) -> (r: Reaction)
        requires
            old(self).wf(),
        ensures
            final(self).wf(),
            advertise_reaction(*old(self), *final(self), client, channels@, r),
    {
        let k = match self.position(client) {
            Some(k) => k,
            None => {
                return Reaction { outgoing: Vec::new(), events: Vec::new() };
            },
        };
        proof {
            lemma_index_of(self.client_ids(), k as int);
        }
        let publish = self.has_capability(Capability::ClientPublish);
        let ghost before = *self;
        let mut session = self.take_session(k);
        let ghost channel_list = channels@;
        let outcome = session.on_advertise(publish, channels);
        self.put_session(k, session, Ghost(before));
        proof {
            advertised_channels_are_new(before.sessions()[k as int].advertised(), channel_list);
        }
        let outgoing = statuses_out(client, outcome.statuses);
        let added = outcome.advertised;
        let mut events: Vec<Event> = Vec::new();
        let mut i: usize = 0;
        while i < added.len()
            invariant
                i <= added@.len(),
                events@.len() == i,
                k < self.clients@.len(),
                self.clients@[k as int].wf(),
                forall|j: int| 0 <= j < added@.len() ==> self.clients@[k as int].advertised().contains_key(
                    #[trigger] added@[j].0,
                ),
                forall|j: int| 0 <= j < i ==> advertised_event(
                    #[trigger] events@[j],
                    added@[j],
                    self.clients@[k as int].advertised(),
                ),
            decreases added@.len() - i,
        {
            let c = self.clients[k].advertised_channel(added[i]).unwrap();
            let ghost prefix = events@;
            events.push(Event::ClientAdvertised(c));
            assert forall|j: int| 0 <= j < i + 1 implies advertised_event(
                #[trigger] events@[j],
                added@[j],
                self.clients@[k as int].advertised(),
            ) by {
                if j < i {
                    assert(events@[j] == prefix[j]);
                }
            }
            i = i + 1;
        }
        Reaction { outgoing, events }
    }

    /// Handles a client's unadvertisement of channels: answered as the client's state says, and
    /// each channel removed is reported.
    pub fn on_unadvertise(&mut self, client: ClientId, ids: &Vec<ClientChannelId>) -> (r: Reaction)
        requires
            old(self).wf(),
        ensures
            final(self).wf(),
            unadvertise_reaction(*old(self), *final(self), client, ids@, r),
    {
        let k = match self.position(client) {
            Some(k) => k,
            None => {
                return Reaction { outgoing: Vec::new(), events: Vec::new() };
            },
        };
        proof {
            lemma_index_of(self.client_ids(), k as int);
        }
        let ghost before = *self;
        let mut session = self.take_session(k);
        let outcome = session.on_unadvertise(ids);
        self.put_session(k, session, Ghost(before));
        let outgoing = statuses_out(client, outcome.statuses);
        let ghost removed = outcome.removed@;
        let n = outcome.removed.len();
        let mut rest = outcome.removed;
        let mut events: Vec<Event> = Vec::new();
        let mut i: usize = 0;
        while rest.len() > 0
            invariant
                i + rest@.len() == n,
                n == removed.len(),
                rest@ == removed.skip(i as int),
                events@.len() == i,
                forall|j: int| 0 <= j < i ==> (#[trigger] events@[j]) == Event::ClientUnadvertised(removed[j]),
            decreases rest@.len(),
        {
            let c = rest.remove(0);
            assert(c == removed[i as int]);
            events.push(Event::ClientUnadvertised(c));
            i = i + 1;
            assert(rest@ =~= removed.skip(i as int));
        }
        Reaction { outgoing, events }
    }

    /// Handles a message that a client sent on one of its channels: reported where the client
    /// advertises the channel, else answered with an error.
    pub fn on_message_data(&self, client: ClientId, channel_id: ClientChannelId, payload: Vec<u8>) -> (r: Reaction)
        requires
            self.wf(),
        ensures
            message_data_reaction(*self, client, channel_id, payload, r),
    {
        let mut r = Reaction { outgoing: Vec::new(), events: Vec::new() };
        let k = match self.position(client) {
            Some(k) => k,
            None => {
                return r;
            },
        };
        proof {
            lemma_index_of(self.client_ids(), k as int);
        }
        let found = match self.clients[k].on_message_data(channel_id) {
            Ok(c) => Ok(c.copy()),
            Err(st) => Err(st),
        };
        match found {
            Ok(channel) => {
                r.events.push(Event::MessageData { channel, payload });
            },
            Err(st) => {
                r.outgoing.push(Outgoing { client, plane: Plane::Control, message: ServerMessage::Status(st) });
            },
        }
        r
    }

    /// Handles a client's request for parameters: reported where the server has the parameters
    /// capability, else answered with an error.
    pub fn on_get_parameters(&self, client: ClientId, names: Vec<String>, id: Option<String>) -> (r: Reaction)
        ensures
            parameters_request_reaction(*self, client, Event::GetParameters { names, id }, r),
    {
        let mut r = Reaction { outgoing: Vec::new(), events: Vec::new() };
        if !self.has_capability(Capability::Parameters) {
            r.outgoing.push(error_to(client, owned("Server does not support parameters capability")));
        } else {
            r.events.push(Event::GetParameters { names, id });
        }
        r
    }

    /// Returns the parameter values that answer a client's request for parameters.
    pub fn parameter_values_reply(&self, client: ClientId, parameters: Vec<Parameter>, id: Option<String>) -> (o: Outgoing)
        ensures
            o.client == client,
            o.plane == Plane::Control,
            o.message == (ServerMessage::ParameterValues { parameters, id }),
    {
        Outgoing { client, plane: Plane::Control, message: ServerMessage::ParameterValues { parameters, id } }
    }

    /// Handles a client's setting of parameters: reported where the server has the parameters
    /// capability, else answered with an error.
    pub fn on_set_parameters(&self, client: ClientId, parameters: Vec<Parameter>, id: Option<String>) -> (r: Reaction)
        ensures
            parameters_request_reaction(*self, client, Event::SetParameters { parameters, id }, r),
    {
        let mut r = Reaction { outgoing: Vec::new(), events: Vec::new() };
        if !self.has_capability(Capability::Parameters) {
            r.outgoing.push(error_to(client, owned("Server does not support parameters capability")));
        } else {
            r.events.push(Event::SetParameters { parameters, id });
        }
        r
    }

    /// What follows the setting of parameters: where a reply ID is given, the updated
    /// parameters go back to the client with it; then they go to every client subscribed to
    /// them.
    pub fn set_parameters_outcome(&self, client: ClientId, updated: &Vec<Parameter>, reply_id: Option<String>) -> (out: Vec<
        Outgoing,
    >)
        ensures
            reply_id is None ==> out@.len() == publish_count(*self, updated@),
            reply_id matches Some(i) ==> out@.len() == publish_count(*self, updated@) + 1 && out@[0].client == client
                && out@[0].plane == Plane::Control && replies_with(out@[0].message, updated@, i),
    {
        let mut out: Vec<Outgoing> = Vec::new();
        match reply_id {
            Some(i) => {
                out.push(
                    Outgoing {
                        client,
                        plane: Plane::Control,
                        message: ServerMessage::ParameterValues { parameters: copy_parameters(updated), id: Some(i) },
                    },
                );
            },
            None => {},
        }
        let mut published = self.publish_parameter_values(updated);
        out.append(&mut published);
        out
    }

    /// Handles a client's subscription to parameter updates: where the server has the
    /// parameters capability, the client is subscribed and the names that gained their first
    /// subscriber are reported, if there are any; else it is answered with an error.
    pub fn on_parameters_subscribe(&mut self, client: ClientId, names: &Vec<String>) -> (r: Reaction)
        requires
            old(self).wf(),
        ensures
            final(self).wf(),
            parameters_subscribe_reaction(*old(self), *final(self), client, views(names@), true, r),
    {
        let mut r = Reaction { outgoing: Vec::new(), events: Vec::new() };
        if !self.has_capability(Capability::Parameters) {
            r.outgoing.push(error_to(client, owned("Server does not support parametersSubscribe capability")));
            return r;
        }
        let new_names = self.subscribe_parameters(client, names);
        if new_names.len() > 0 {
            r.events.push(Event::ParametersSubscribed(new_names));
        }
        r
    }

    /// Handles a client's unsubscription from parameter updates: where the server has the
    /// parameters capability, the client is unsubscribed and the names that lost their last
    /// subscriber are reported, if there are any; else it is answered with an error.
    pub fn on_parameters_unsubscribe(&mut self, client: ClientId, names: &Vec<String>) -> (r: Reaction)
        requires
            old(self).wf(),
        ensures
            final(self).wf(),
            parameters_subscribe_reaction(*old(self), *final(self), client, views(names@), false, r),
    {
        let mut r = Reaction { outgoing: Vec::new(), events: Vec::new() };
        if !self.has_capability(Capability::Parameters) {
            r.outgoing.push(error_to(client, owned("Server does not support parametersSubscribe capability")));
            return r;
        }
        let old_names = self.unsubscribe_parameters(client, names);
        if old_names.len() > 0 {
            r.events.push(Event::ParametersUnsubscribed(old_names));
        }
        r
    }

    /// Handles a client's subscription to connection graph updates: where the server has the
    /// capability and the client is not yet subscribed, it gets the complete graph, and the first
    /// subscriber is reported; else an error answers it, or nothing happens.
    pub fn on_connection_graph_subscribe(&mut self, client: ClientId) -> (r: Reaction)
        requires
            old(self).wf(),
        ensures
            final(self).wf(),
            graph_subscribe_reaction(*old(self), *final(self), client, r),
    {
        let mut r = Reaction { outgoing: Vec::new(), events: Vec::new() };
        if !self.has_capability(Capability::ConnectionGraph) {
            r.outgoing.push(error_to(client, owned("Server does not support connection graph capability")));
            return r;
        }
        match self.subscribe_connection_graph(client) {
            Some((first, message)) => {
                r.outgoing.push(Outgoing { client, plane: Plane::Control, message });
                if first {
                    r.events.push(Event::GraphSubscribed);
                    assert(r.events@ =~= seq![Event::GraphSubscribed]);
                }
            },
            None => {},
        }
        r
    }

    /// Handles a client's unsubscription from connection graph updates: where the server has
    /// the capability, the client is unsubscribed, and the last subscriber leaving is reported;
    /// else it is answered with an error.
    pub fn on_connection_graph_unsubscribe(&mut self, client: ClientId) -> (r: Reaction)
        requires
            old(self).wf(),
        ensures
            final(self).wf(),
            graph_unsubscribe_reaction(*old(self), *final(self), client, r),
    {
        let mut r = Reaction { outgoing: Vec::new(), events: Vec::new() };
        if !self.has_capability(Capability::ConnectionGraph) {
            r.outgoing.push(error_to(client, owned("Server does not support connection graph capability")));
            return r;
        }
        let (_, last) = self.unsubscribe_connection_graph(client);
        if last {
            r.events.push(Event::GraphUnsubscribed);
            assert(r.events@ =~= seq![Event::GraphUnsubscribed]);
        }
        r
    }

    /// Handles a client's service call. It fails, with a failure message to the client, where
    /// the server lacks the services capability, the service is unknown, the encoding is not
    /// the one the service declares (or, where it declares none, not one the server accepts),
    /// or the client has too many calls in flight; else the call takes a slot and is reported,
    /// to be answered in the service's response encoding, or the request's where it declares
    /// none.
    pub fn on_service_call(
        &mut self,
        client: ClientId,
        service_id: ServiceId,
        call_id: CallId,
        encoding: String,
        payload: Vec<u8>,
    ) -> (r: Reaction)
        requires
            old(self).wf(),
        ensures
            final(self).wf(),
            service_call_reaction(*old(self), *final(self), client, service_id, call_id, encoding, payload, r),
    {
        let mut r = Reaction { outgoing: Vec::new(), events: Vec::new() };
        let k = match self.position(client) {
            Some(k) => k,
            None => {
                return r;
            },
        };
        proof {
            lemma_index_of(self.client_ids(), k as int);
        }
        if !self.has_capability(Capability::Services) {
            r.outgoing.push(call_failure(client, service_id, call_id, owned("Server does not support services")));
            return r;
        }
        let service = match self.get_service(service_id) {
            Some(s) => s,
            None => {
                proof {
                    if has_service(self.service_list(), service_id) {
                        let j = choose|j: int| 0 <= j < self.service_list().len() && self.service_list()[j].id == service_id;
                        assert(service_ids(self.service_list())[j] == service_id);
                    }
                }
                r.outgoing.push(call_failure(client, service_id, call_id, owned("Unknown service")));
                return r;
            },
        };
        proof {
            lemma_service_with(self.service_list(), service_id);
            let j = choose|j: int|
                0 <= j < self.service_list().len() && self.service_list()[j].id == service_id && same_service(
                    self.service_list()[j],
                    service,
                );
            assert(self.service_list()[j] == service_with(self.service_list(), service_id));
            assert(has_service(self.service_list(), service_id));
        }
        let supported = match service.request_encoding() {
            Some(e) => e.eq(&encoding),
            None => contains_string(&self.supported_encodings, &encoding),
        };
        assert(supported == accepts_encoding(service_with(self.service_list(), service_id), self.encodings(), encoding@));
        if !supported {
            r.outgoing.push(call_failure(client, service_id, call_id, owned("Unsupported encoding")));
            return r;
        }
        let ghost before = *self;
        let mut session = self.take_session(k);
        let taken = session.try_begin_service_call();
        self.put_session(k, session, Ghost(before));
        if !taken {
            r.outgoing.push(call_failure(client, service_id, call_id, owned("Too many requests")));
            return r;
        }
        let response_encoding = match service.response_encoding() {
            Some(e) => e.clone(),
            None => encoding.clone(),
        };
        r.events.push(Event::ServiceCall { service, call_id, encoding, response_encoding, payload });
        r
    }

    /// Gives back the slot that a service call of the client held, once it is answered.
    pub fn end_service_call(&mut self, client: ClientId)
        requires
            old(self).wf(),
        ensures
            final(self).wf(),
            final(self).same_but_sessions(*old(self)),
            final(self).client_ids() == old(self).client_ids(),
            !old(self).client_ids().contains(client) || session_of(*old(self), client).service_calls() == 0
                ==> final(self).sessions() == old(self).sessions(),
            old(self).client_ids().contains(client) && session_of(*old(self), client).service_calls() > 0 ==> {
                let s0 = session_of(*old(self), client);
                let s1 = session_of(*final(self), client);
                &&& replaced(old(self).sessions(), final(self).sessions(), index_of(old(self).client_ids(), client))
                &&& s1.same_but_requests(s0)
                &&& s1.service_calls() == s0.service_calls() - 1
                &&& s1.asset_fetches() == s0.asset_fetches()
            },
    {
        let k = match self.position(client) {
            Some(k) => k,
            None => {
                return;
            },
        };
        proof {
            lemma_index_of(self.client_ids(), k as int);
        }
        if !self.clients[k].has_service_calls() {
            return;
        }
        let ghost before = *self;
        let mut session = self.take_session(k);
        session.end_service_call();
        self.put_session(k, session, Ghost(before));
    }

    /// Handles a client's request for an asset. Where the server lacks the assets capability an
    /// error status answers it; where the client has too many requests in flight, or the server
    /// has no handler for them, an asset error does; else the request takes a slot and is
    /// reported.
    pub fn on_fetch_asset(&mut self, client: ClientId, uri: String, request_id: u32) -> (r: Reaction)
        requires
            old(self).wf(),
        ensures
            final(self).wf(),
            fetch_asset_reaction(*old(self), *final(self), client, uri, request_id, r),
    {
        let mut r = Reaction { outgoing: Vec::new(), events: Vec::new() };
        let k = match self.position(client) {
            Some(k) => k,
            None => {
                return r;
            },
        };
        proof {
            lemma_index_of(self.client_ids(), k as int);
        }
        if !self.has_capability(Capability::Assets) {
            r.outgoing.push(error_to(client, owned("Server does not support assets capability")));
            return r;
        }
        if !self.clients[k].has_asset_fetch_slot() {
            r.outgoing.push(asset_error(client, request_id, owned("Too many concurrent fetch asset requests")));
            return r;
        }
        if !self.has_fetch_asset_handler {
            r.outgoing.push(asset_error(client, request_id, owned("Server does not have a fetch asset handler")));
            return r;
        }
        let ghost before = *self;
        let mut session = self.take_session(k);
        session.try_begin_asset_fetch();
        self.put_session(k, session, Ghost(before));
        r.events.push(Event::FetchAsset { uri, request_id });
        r
    }

    /// Answers a client's request for an asset, with the asset or the error, and gives back
    /// the slot that the request held. Nothing happens for an unknown client.
    pub fn finish_asset_fetch(&mut self, client: ClientId, request_id: u32, result: Result<Vec<u8>, String>) -> (o: Option<
        Outgoing,
    >)
        requires
            old(self).wf(),
        ensures
            final(self).wf(),
            final(self).same_but_sessions(*old(self)),
            final(self).client_ids() == old(self).client_ids(),
            o is None <==> !old(self).client_ids().contains(client),
            o is None ==> final(self).sessions() == old(self).sessions(),
            o matches Some(m) ==> {
                let s0 = session_of(*old(self), client);
                let s1 = session_of(*final(self), client);
                &&& replaced(old(self).sessions(), final(self).sessions(), index_of(old(self).client_ids(), client))
                &&& s1.same_but_requests(s0)
                &&& s1.service_calls() == s0.service_calls()
                &&& s0.asset_fetches() > 0 ==> s1.asset_fetches() == s0.asset_fetches() - 1
                &&& s0.asset_fetches() == 0 ==> s1.asset_fetches() == 0
                &&& m.client == client && m.plane == Plane::Control
                &&& result matches Ok(data) ==> m.message == (ServerMessage::FetchAssetData { request_id, data })
                &&& result matches Err(e) ==> m.message == (ServerMessage::FetchAssetError { request_id, message: e })
            },
    {
        let k = match self.position(client) {
            Some(k) => k,
            None => {
                return None;
            },
        };
        proof {
            lemma_index_of(self.client_ids(), k as int);
        }
        let ghost before = *self;
        let mut session = self.take_session(k);
        session.release_asset_fetch();
        self.put_session(k, session, Ghost(before));
        let message = match result {
            Ok(data) => ServerMessage::FetchAssetData { request_id, data },
            Err(e) => ServerMessage::FetchAssetError { request_id, message: e },
        };
        Some(Outgoing { client, plane: Plane::Control, message })
    }

    /// Handles a message from a client, by its kind.
    pub fn handle_message(&mut self, client: ClientId, msg: ClientMessage) -> (r: Reaction)
        requires
            old(self).wf(),
        ensures
            final(self).wf(),
            msg matches ClientMessage::Subscribe { subscriptions } ==> subscribe_reaction(
                *old(self),
                *final(self),
                client,
                subscriptions@,
                r,
            ),
            msg matches ClientMessage::Unsubscribe { subscription_ids } ==> unsubscribe_reaction(
                *old(self),
                *final(self),
                client,
                subscription_ids@,
                r,
            ),
            msg matches ClientMessage::Advertise { channels } ==> advertise_reaction(
                *old(self),
                *final(self),
                client,
                channels@,
                r,
            ),
            msg matches ClientMessage::Unadvertise { channel_ids } ==> unadvertise_reaction(
                *old(self),
                *final(self),
                client,
                channel_ids@,
                r,
            ),
            msg matches ClientMessage::MessageData { channel_id, data } ==> *final(self) == *old(self)
                && message_data_reaction(*old(self), client, channel_id, data, r),
            msg matches ClientMessage::GetParameters { parameter_names, id } ==> *final(self) == *old(self)
                && parameters_request_reaction(
                *old(self),
                client,
                Event::GetParameters { names: parameter_names, id },
                r,
            ),
            msg matches ClientMessage::SetParameters { parameters, id } ==> *final(self) == *old(self)
                && parameters_request_reaction(*old(self), client, Event::SetParameters { parameters, id }, r),
            msg matches ClientMessage::SubscribeParameterUpdates { parameter_names } ==> parameters_subscribe_reaction(
                *old(self),
                *final(self),
                client,
                views(parameter_names@),
                true,
                r,
            ),
            msg matches ClientMessage::UnsubscribeParameterUpdates { parameter_names }
                ==> parameters_subscribe_reaction(
                *old(self),
                *final(self),
                client,
                views(parameter_names@),
                false,
                r,
            ),
            msg matches ClientMessage::ServiceCallRequest { service_id, call_id, encoding, payload }
                ==> service_call_reaction(*old(self), *final(self), client, service_id, call_id, encoding, payload, r),
            msg matches ClientMessage::FetchAsset { uri, request_id } ==> fetch_asset_reaction(
                *old(self),
                *final(self),
                client,
                uri,
                request_id,
                r,
            ),
            msg is SubscribeConnectionGraph ==> graph_subscribe_reaction(*old(self), *final(self), client, r),
            msg is UnsubscribeConnectionGraph ==> graph_unsubscribe_reaction(*old(self), *final(self), client, r),
    {
        match msg {
            ClientMessage::Subscribe { subscriptions } => self.on_subscribe(client, &subscriptions),
            ClientMessage::Unsubscribe { subscription_ids } => self.on_unsubscribe(client, &subscription_ids),
            ClientMessage::Advertise { channels } => self.on_advertise(client, channels),
            ClientMessage::Unadvertise { channel_ids } => self.on_unadvertise(client, &channel_ids),
            ClientMessage::MessageData { channel_id, data } => self.on_message_data(client, channel_id, data),
            ClientMessage::GetParameters { parameter_names, id } => self.on_get_parameters(client, parameter_names, id),
            ClientMessage::SetParameters { parameters, id } => self.on_set_parameters(client, parameters, id),
            ClientMessage::SubscribeParameterUpdates { parameter_names } => self.on_parameters_subscribe(
                client,
                &parameter_names,
            ),
            ClientMessage::UnsubscribeParameterUpdates { parameter_names } => self.on_parameters_unsubscribe(
                client,
                &parameter_names,
            ),
            ClientMessage::ServiceCallRequest { service_id, call_id, encoding, payload } => self.on_service_call(
                client,
                service_id,
                call_id,
                encoding,
                payload,
            ),
            ClientMessage::FetchAsset { uri, request_id } => self.on_fetch_asset(client, uri, request_id),
            ClientMessage::SubscribeConnectionGraph => self.on_connection_graph_subscribe(client),
            ClientMessage::UnsubscribeConnectionGraph => self.on_connection_graph_unsubscribe(client),
        }
    }

    /// Everything but the connection graph and its subscribers is as in `other`.
    pub closed spec fn same_but_graph(&self, other: Server) -> bool {
        &&& self.started == other.started
        &&& self.port == other.port
        &&& self.message_backlog_size == other.message_backlog_size
        &&& self.session_id == other.session_id
        &&& self.name == other.name
        &&& self.clients == other.clients
        &&& self.capabilities == other.capabilities
        &&& self.parameters == other.parameters
        &&& self.supported_encodings == other.supported_encodings
        &&& self.services == other.services
        &&& self.has_fetch_asset_handler == other.has_fetch_asset_handler
    }
}

/// The message advertises services that are the same as these, in order.
pub open spec fn advertises(m: ServerMessage, services: Seq<Service>) -> bool {
    m matches ServerMessage::AdvertiseServices { services: sent } && sent@.len() == services.len() && forall|k: int|
        0 <= k < services.len() ==> #[trigger] same_service(services[k], sent@[k])
}

/// What became of a client's subscriptions when it disconnected.
pub struct DisconnectOutcome {
    /// The parameters that no longer have a subscriber.
    pub parameters_unsubscribed: Vec<String>,
    /// Whether the last subscriber to connection graph updates left.
    pub graph_unsubscribed: bool,
    /// The channels that the client was subscribed to.
    pub channels: UnsubscribeOutcome,
}

/// Removing the client at position `k` removes its ID from the IDs, which stay unique.
proof fn lemma_remove_client(before: Seq<ClientSession>, k: int, id: ClientId)
    requires
        0 <= k < before.len(),
        before[k].spec_id() == id,
        ids_of(before).no_duplicates(),
        forall|j: int| 0 <= j < before.len() ==> (#[trigger] before[j]).wf(),
    ensures
        ids_of(before.remove(k)) == ids_of(before).filter(|c: ClientId| c != id),
        ids_of(before.remove(k)).no_duplicates(),
        forall|j: int| 0 <= j < before.remove(k).len() ==> (#[trigger] before.remove(k)[j]).wf(),
{
    let after = before.remove(k);
    let ids = ids_of(before);
    assert(ids_of(after) =~= ids.remove(k));
    lemma_remove_unique(ids, k);
    assert forall|j: int| 0 <= j < after.len() implies (#[trigger] after[j]).wf() by {
        if j < k {
            assert(after[j] == before[j]);
        } else {
            assert(after[j] == before[j + 1]);
        }
    }
    lemma_filter_remove(ids, k, id);
}

/// In a sequence without duplicates, removing the element at `k` keeps it so, leaves the
/// other elements, and is the same as filtering that element out.
proof fn lemma_remove_unique<A>(s: Seq<A>, k: int)
    requires
        0 <= k < s.len(),
        s.no_duplicates(),
    ensures
        s.remove(k).no_duplicates(),
        s.remove(k).to_set() == s.to_set().remove(s[k]),
        !s.remove(k).contains(s[k]),
{
    let t = s.remove(k);
    assert forall|i: int, j: int| 0 <= i < t.len() && 0 <= j < t.len() && i != j implies t[i] != t[j] by {
        let pi = if i < k { i } else { i + 1 };
        let pj = if j < k { j } else { j + 1 };
        assert(t[i] == s[pi] && t[j] == s[pj]);
    }
    assert forall|y: A| #[trigger] t.to_set().contains(y) == s.to_set().remove(s[k]).contains(y) by {
        if t.contains(y) {
            let i = choose|i: int| 0 <= i < t.len() && t[i] == y;
            let pi = if i < k { i } else { i + 1 };
            assert(s[pi] == y);
            assert(pi != k);
        }
        if s.contains(y) && y != s[k] {
            let i = choose|i: int| 0 <= i < s.len() && s[i] == y;
            assert(i != k);
            let q = if i < k { i } else { i - 1 };
            assert(t[q] == y);
        }
    }
    assert(t.to_set() =~= s.to_set().remove(s[k]));
    if t.contains(s[k]) {
        let i = choose|i: int| 0 <= i < t.len() && t[i] == s[k];
        let pi = if i < k { i } else { i + 1 };
        assert(s[pi] == s[k]);
    }
}

/// In a sequence without duplicates, removing the element at `k` filters it out.
proof fn lemma_filter_remove(s: Seq<ClientId>, k: int, id: ClientId)
    requires
        0 <= k < s.len(),
        s[k] == id,
        s.no_duplicates(),
    ensures
        s.remove(k) == s.filter(|c: ClientId| c != id),
    decreases s.len(),
{
    let f = |c: ClientId| c != id;
    if k == s.len() - 1 {
        lemma_filter_absent(s.drop_last(), id);
        assert(s =~= s.drop_last().push(id));
        assert(!s.drop_last().contains(id)) by {
            if s.drop_last().contains(id) {
                let i = choose|i: int| 0 <= i < s.drop_last().len() && s.drop_last()[i] == id;
                assert(s[i] == s[k]);
            }
        }
        s.drop_last().lemma_filter_push(id, f);
        assert(s.remove(k) =~= s.drop_last());
    } else {
        let last = s.last();
        assert(s.drop_last().no_duplicates());
        lemma_filter_remove(s.drop_last(), k, id);
        assert(s =~= s.drop_last().push(last));
        s.drop_last().lemma_filter_push(last, f);
        assert(s[s.len() - 1] != s[k]);
        assert(s.remove(k) =~= s.drop_last().remove(k).push(last));
    }
}

/// Filtering out an element that does not occur changes nothing.
proof fn lemma_filter_absent(s: Seq<ClientId>, id: ClientId)
    requires
        s.no_duplicates() || !s.contains(id),
    ensures
        !s.contains(id) ==> s.filter(|c: ClientId| c != id) == s,
    decreases s.len(),
{
    if !s.contains(id) {
        let f = |c: ClientId| c != id;
        if s.len() > 0 {
            let last = s.last();
            assert(s =~= s.drop_last().push(last));
            assert(!s.drop_last().contains(id)) by {
                if s.drop_last().contains(id) {
                    let i = choose|i: int| 0 <= i < s.drop_last().len() && s.drop_last()[i] == id;
                    assert(s[i] == id);
                }
            }
            lemma_filter_absent(s.drop_last(), id);
            s.drop_last().lemma_filter_push(last, f);
            assert(s[s.len() - 1] == last);
        } else {
            assert(s.filter(f) =~= s);
        }
    }
}

/// The message carries a graph that is the same as `graph`.
pub open spec fn updates_graph(m: ServerMessage, graph: ConnectionGraph) -> bool {
    m matches ServerMessage::ConnectionGraphUpdate { graph: g } && same_graph(g, graph)
}

/// Whether a client is among these.
pub open spec fn among(clients: Seq<ClientId>) -> spec_fn(ClientId) -> bool {
    |c: ClientId| clients.contains(c)
}

/// Whether a client is subscribed to at least one of the parameters.
pub open spec fn interested(subs: ParameterSubscriptions, parameters: Seq<Parameter>) -> spec_fn(ClientId) -> bool {
    |c: ClientId| subscribed_positions(subs, parameters, c).len() > 0
}

/// The message carries, in order, the parameters that the client is subscribed to.
pub open spec fn carries_parameters(
    m: ServerMessage,
    subs: ParameterSubscriptions,
    parameters: Seq<Parameter>,
    client: ClientId,
) -> bool {
    m matches ServerMessage::ParameterValues { parameters: sent, id } && id is None && sent@.len()
        == subscribed_positions(subs, parameters, client).len() && forall|j: int|
        0 <= j < sent@.len() ==> #[trigger] same_parameter(
            parameters[subscribed_positions(subs, parameters, client)[j]],
            sent@[j],
        )
}

/// The message unadvertises exactly the services, among `registered`, whose names are among
/// `names`.
pub open spec fn unadvertises(m: ServerMessage, registered: Seq<Service>, names: Seq<Seq<char>>) -> bool {
    m matches ServerMessage::UnadvertiseServices { service_ids } && forall|id: ServiceId|
        #[trigger] service_ids@.contains(id) <==> exists|k: int|
            0 <= k < registered.len() && registered[k].id == id && names.contains(registered[k].name@)
}

/// Returns copies of the services.
fn copy_services(v: &Vec<Service>) -> (r: Vec<Service>)
    ensures
        r@.len() == v@.len(),
        forall|k: int| 0 <= k < v@.len() ==> #[trigger] same_service(v@[k], r@[k]),
{
    let mut r: Vec<Service> = Vec::new();
    let mut i: usize = 0;
    while i < v.len()
        invariant
            i <= v@.len(),
            r@.len() == i,
            forall|k: int| 0 <= k < i ==> #[trigger] same_service(v@[k], r@[k]),
        decreases v@.len() - i,
    {
        r.push(copy_service(&v[i]));
        i = i + 1;
    }
    r
}

/// What the server reports to the user's callbacks, to the context, or to the handlers at the
/// edge.
#[derive(Debug)]
pub enum Event {
    /// The client subscribed to a channel.
    Subscribed(ChannelView),
    /// The client unsubscribed from a channel.
    Unsubscribed(ChannelView),
    /// The client's sink subscribes to these channels in the context.
    SubscribeChannels(Vec<ChannelId>),
    /// The client's sink unsubscribes from these channels in the context.
    UnsubscribeChannels(Vec<ChannelId>),
    /// The client advertised a channel.
    ClientAdvertised(ClientChannel),
    /// The client unadvertised a channel.
    ClientUnadvertised(ClientChannel),
    /// The client sent a message on one of its channels.
    MessageData { channel: ClientChannel, payload: Vec<u8> },
    /// The client asked for parameters; all of them where no names are given.
    GetParameters { names: Vec<String>, id: Option<String> },
    /// The client set parameters.
    SetParameters { parameters: Vec<Parameter>, id: Option<String> },
    /// These parameters gained their first subscriber.
    ParametersSubscribed(Vec<String>),
    /// These parameters lost their last subscriber.
    ParametersUnsubscribed(Vec<String>),
    /// The first client subscribed to connection graph updates.
    GraphSubscribed,
    /// The last client unsubscribed from connection graph updates.
    GraphUnsubscribed,
    /// The client called a service; the response is to be given in `response_encoding`.
    ServiceCall {
        service: Service,
        call_id: CallId,
        encoding: String,
        response_encoding: String,
        payload: Vec<u8>,
    },
    /// The client asked for an asset.
    FetchAsset { uri: String, request_id: u32 },
}

/// What the server does in answer to a client: the messages to send, and the events to report.
#[derive(Debug)]
pub struct Reaction {
    /// Messages to send, in order.
    pub outgoing: Vec<Outgoing>,
    /// Events to report, in order.
    pub events: Vec<Event>,
}

/// The messages are the status messages of the notes, in order, to the client.
pub open spec fn statuses_to(out: Seq<Outgoing>, client: ClientId, notes: Seq<Note>) -> bool {
    &&& out.len() == notes.len()
    &&& forall|k: int|
        0 <= k < notes.len() ==> (#[trigger] out[k]).client == client && out[k].plane == status_plane(notes[k].0)
            && is_status(out[k].message, notes[k])
}

/// The message is a status message with the note's level and text, and no ID.
pub open spec fn is_status(m: ServerMessage, note: Note) -> bool {
    m matches ServerMessage::Status(st) && status_is(st, note)
}

/// The event reports a subscription to the channel with this ID and topic.
pub open spec fn is_subscribed_event(e: Event, id: ChannelId, topic: Seq<char>) -> bool {
    e matches Event::Subscribed(v) && v.spec_id() == id && v.spec_topic() == topic
}

/// The events report each channel subscribed to, in order, and then all of them for the context.
pub open spec fn reports_subscribed(events: Seq<Event>, ids: Seq<ChannelId>, topics: Map<ChannelId, Seq<char>>) -> bool {
    &&& events.len() == ids.len() + 1
    &&& forall|k: int|
        0 <= k < ids.len() ==> is_subscribed_event(#[trigger] events[k], ids[k], topics[ids[k]])
    &&& events.last() matches Event::SubscribeChannels(c) && c@ == ids
}

/// Sends a status message to one client: an informational one on the data plane, any other on
/// the control plane.
pub fn send_status(client: ClientId, status: Status) -> (o: Outgoing)
    ensures
        o.client == client,
        o.plane == status_plane(status.level),
        o.message == ServerMessage::Status(status),
{
    let plane = match status.level {
        StatusLevel::Info => Plane::Data,
        _ => Plane::Control,
    };
    Outgoing { client, plane, message: ServerMessage::Status(status) }
}

/// Why a message from a client could not be read.
#[derive(Debug)]
pub enum MessageError {
    /// A binary message without content.
    EmptyBinaryMessage,
    /// A kind of websocket message that carries no protocol message.
    UnhandledMessageType,
    /// A message that does not follow the protocol, and why.
    Invalid(String),
}

/// The answer to a message that could not be read: none for an empty binary message or one of
/// a kind that carries no protocol message; else an error status that says why.
pub fn answer_message_error(client: ClientId, error: MessageError) -> (o: Option<Outgoing>)
    ensures
        error is EmptyBinaryMessage || error is UnhandledMessageType ==> o is None,
        error matches MessageError::Invalid(why) ==> o is Some && o.unwrap().client == client && o.unwrap().plane
            == Plane::Control && is_status(o.unwrap().message, (StatusLevel::Error, "Invalid message: "@ + why@)),
{
    match error {
        MessageError::Invalid(why) => {
            let mut text = owned("Invalid message: ");
            text.append(why.as_str());
            Some(send_status(client, Status::error(text)))
        },
        _ => None,
    }
}

/// Sends each status message to the client, in order: informational ones on the data plane, the
/// others on the control plane.
fn statuses_out(client: ClientId, statuses: Vec<Status>) -> (out: Vec<Outgoing>)
    ensures
        out@.len() == statuses@.len(),
        forall|k: int|
            0 <= k < statuses@.len() ==> (#[trigger] out@[k]).client == client && out@[k].plane == status_plane(
                statuses@[k].level,
            ) && out@[k].message == ServerMessage::Status(statuses@[k]),
{
    let ghost all = statuses@;
    let n = statuses.len();
    let mut rest = statuses;
    let mut out: Vec<Outgoing> = Vec::new();
    let mut i: usize = 0;
    while rest.len() > 0
        invariant
            i + rest@.len() == n,
            n == all.len(),
            rest@ == all.skip(i as int),
            out@.len() == i,
            forall|k: int|
                0 <= k < i ==> (#[trigger] out@[k]).client == client && out@[k].plane == status_plane(all[k].level)
                    && out@[k].message == ServerMessage::Status(all[k]),
        decreases rest@.len(),
    {
        let st = rest.remove(0);
        assert(st == all[i as int]);
        out.push(send_status(client, st));
        i = i + 1;
        assert(rest@ =~= all.skip(i as int));
    }
    out
}

/// The server after a client's request, as a request of its own state: only the client's state
/// changes, and nothing happens for an unknown client.
pub open spec fn client_step(before: Server, after: Server, client: ClientId, r: Reaction) -> bool {
    &&& after.same_but_sessions(before)
    &&& after.client_ids() == before.client_ids()
    &&& !before.client_ids().contains(client) ==> after.sessions() == before.sessions() && r.outgoing@.len() == 0
        && r.events@.len() == 0
    &&& before.client_ids().contains(client) ==> replaced(
        before.sessions(),
        after.sessions(),
        index_of(before.client_ids(), client),
    )
}

/// The state of the client before a request.
pub open spec fn session_of(server: Server, client: ClientId) -> ClientSession {
    server.sessions()[index_of(server.client_ids(), client)]
}

/// What a subscription request does: the client's subscriptions change as its state says, the
/// client is answered with the status messages that its state gives, and the channels
/// subscribed to are reported.
pub open spec fn subscribe_reaction(
    before: Server,
    after: Server,
    client: ClientId,
    requests: Seq<Subscription>,
    r: Reaction,
) -> bool {
    &&& client_step(before, after, client, r)
    &&& before.client_ids().contains(client) ==> {
        let s0 = session_of(before, client);
        let s1 = session_of(after, client);
        let topics = s0.channel_topics();
        let kept = pruned(topics, requests, 0);
        &&& s1.same_but_subscriptions(s0)
        &&& s1.subscriptions() == after_requests(s0.subscriptions(), kept)
        &&& statuses_to(r.outgoing@, client, unknown_notes(topics, requests, 0) + request_notes(s0.subscriptions(), kept))
        &&& reports_subscribed(r.events@, accepted(s0.subscriptions(), kept), topics)
    }
}

/// The events that report giving up subscriptions: all the channels for the context, then
/// each of those still advertised to the client.
pub fn unsubscribe_events(outcome: UnsubscribeOutcome) -> (events: Vec<Event>)
    ensures
        reports_unsubscribed(events@, outcome.channel_ids@, outcome.channels@),
{
    let ghost views = outcome.channels@;
    let n = outcome.channels.len();
    let mut rest = outcome.channels;
    let mut events: Vec<Event> = Vec::new();
    events.push(Event::UnsubscribeChannels(outcome.channel_ids));
    let mut i: usize = 0;
    while rest.len() > 0
        invariant
            i + rest@.len() == n,
            n == views.len(),
            rest@ == views.skip(i as int),
            events@.len() == i + 1,
            events@[0] == Event::UnsubscribeChannels(outcome.channel_ids),
            forall|j: int| 0 <= j < i ==> (#[trigger] events@[j + 1]) == Event::Unsubscribed(views[j]),
        decreases rest@.len(),
    {
        let v = rest.remove(0);
        assert(v == views[i as int]);
        let ghost prefix = events@;
        events.push(Event::Unsubscribed(v));
        assert forall|j: int| 0 <= j < i + 1 implies (#[trigger] events@[j + 1]) == Event::Unsubscribed(views[j]) by {
            if j < i {
                assert(events@[j + 1] == prefix[j + 1]);
            }
        }
        i = i + 1;
        assert(rest@ =~= views.skip(i as int));
    }
    events
}

/// The events report the channels given up, for the context, and then each of the views, in
/// order.
pub open spec fn reports_unsubscribed(events: Seq<Event>, ids: Seq<ChannelId>, views: Seq<ChannelView>) -> bool {
    &&& events.len() == views.len() + 1
    &&& events[0] matches Event::UnsubscribeChannels(c) && c@ == ids
    &&& forall|k: int| 0 <= k < views.len() ==> (#[trigger] events[k + 1]) == Event::Unsubscribed(views[k])
}

/// What a request to unsubscribe does: the client's subscriptions change as its state says, and
/// the channels given up are reported.
pub open spec fn unsubscribe_reaction(
    before: Server,
    after: Server,
    client: ClientId,
    ids: Seq<SubscriptionId>,
    r: Reaction,
) -> bool {
    &&& client_step(before, after, client, r)
    &&& before.client_ids().contains(client) ==> {
        let s0 = session_of(before, client);
        let s1 = session_of(after, client);
        let gone = unsubscribed(s0.subscriptions(), ids);
        &&& s1.same_but_subscriptions(s0)
        &&& s1.subscriptions() == after_unsubscribe(s0.subscriptions(), ids)
        &&& r.outgoing@.len() == 0
        &&& r.events@.len() > 0
        &&& r.events@[0] matches Event::UnsubscribeChannels(c) && c@ == gone
        &&& unsubscribed_views(r.events@.skip(1), known_ids(s0.channel_topics(), gone), s0.channel_topics())
    }
}

/// The events report, in order, the channels with these IDs and topics as given up.
pub open spec fn unsubscribed_views(events: Seq<Event>, ids: Seq<ChannelId>, topics: Map<ChannelId, Seq<char>>) -> bool {
    &&& events.len() == ids.len()
    &&& forall|k: int| 0 <= k < ids.len() ==> is_unsubscribed_event(#[trigger] events[k], ids[k], topics[ids[k]])
}

/// The event reports giving up the channel with this ID and topic.
pub open spec fn is_unsubscribed_event(e: Event, id: ChannelId, topic: Seq<char>) -> bool {
    e matches Event::Unsubscribed(v) && v.spec_id() == id && v.spec_topic() == topic
}

/// What an advertisement of channels by a client does.
pub open spec fn advertise_reaction(
    before: Server,
    after: Server,
    client: ClientId,
    channels: Seq<ClientChannel>,
    r: Reaction,
) -> bool {
    &&& client_step(before, after, client, r)
    &&& before.client_ids().contains(client) ==> {
        let s0 = session_of(before, client);
        let s1 = session_of(after, client);
        &&& s1.same_but_advertised(s0)
        &&& !before.has(Capability::ClientPublish) ==> s1.advertised() == s0.advertised() && r.events@.len() == 0
            && statuses_to(
            r.outgoing@,
            client,
            seq![(StatusLevel::Error, "Server does not support clientPublish capability"@)],
        )
        &&& before.has(Capability::ClientPublish) ==> s1.advertised() == after_advertise(s0.advertised(), channels)
            && statuses_to(r.outgoing@, client, advertise_notes(s0.advertised(), channels)) && advertised_events(
            r.events@,
            newly_advertised(s0.advertised(), channels),
            s1.advertised(),
        )
    }
}

/// The events report each of these channels as advertised, in order, each with a copy of the
/// channel that the client now advertises.
pub open spec fn advertised_events(
    events: Seq<Event>,
    ids: Seq<ClientChannelId>,
    advertised: Map<u32, ClientChannel>,
) -> bool {
    &&& events.len() == ids.len()
    &&& forall|k: int| 0 <= k < ids.len() ==> advertised_event(#[trigger] events[k], ids[k], advertised)
}

/// The event reports the channel advertised under this ID, with a copy of it.
pub open spec fn advertised_event(e: Event, id: ClientChannelId, advertised: Map<u32, ClientChannel>) -> bool {
    e matches Event::ClientAdvertised(c) && same_client_channel(advertised[id.0], c)
}

/// What an unadvertisement of channels by a client does.
pub open spec fn unadvertise_reaction(
    before: Server,
    after: Server,
    client: ClientId,
    ids: Seq<ClientChannelId>,
    r: Reaction,
) -> bool {
    &&& client_step(before, after, client, r)
    &&& before.client_ids().contains(client) ==> {
        let s0 = session_of(before, client);
        let s1 = session_of(after, client);
        let run = unadvertise_run(s0.advertised(), ids, 0);
        &&& s1.same_but_advertised(s0)
        &&& s1.advertised() == run.0
        &&& statuses_to(r.outgoing@, client, run.2)
        &&& r.events@.len() == run.1.len()
        &&& forall|k: int| 0 <= k < run.1.len() ==> (#[trigger] r.events@[k]) == Event::ClientUnadvertised(run.1[k])
    }
}

/// The events report these names as subscribed to for the first time, or as given up for the
/// last time.
pub open spec fn reports_names(e: Event, names: Seq<Seq<char>>, subscribed: bool) -> bool {
    if subscribed {
        e matches Event::ParametersSubscribed(v) && views(v@) == names
    } else {
        e matches Event::ParametersUnsubscribed(v) && views(v@) == names
    }
}

/// The number of messages that publishing these parameter values sends.
pub open spec fn publish_count(server: Server, parameters: Seq<Parameter>) -> int {
    if server.has(Capability::Parameters) {
        server.client_ids().filter(interested(server.parameter_subscriptions(), parameters)).len() as int
    } else {
        0
    }
}

/// The message carries the parameters, with the ID of the request it answers.
pub open spec fn replies_with(m: ServerMessage, parameters: Seq<Parameter>, id: String) -> bool {
    &&& m matches ServerMessage::ParameterValues { parameters: p, id: i }
    &&& m->parameters@.len() == parameters.len()
    &&& forall|k: int| 0 <= k < parameters.len() ==> #[trigger] same_parameter(parameters[k], m->parameters@[k])
    &&& m->id == Some(id)
}

/// An error status message to the client, on the control plane.
fn error_to(client: ClientId, message: String) -> (o: Outgoing)
    ensures
        o.client == client,
        o.plane == Plane::Control,
        is_status(o.message, (StatusLevel::Error, message@)),
{
    Outgoing { client, plane: Plane::Control, message: ServerMessage::Status(Status::error(message)) }
}

/// What a message that a client sent on one of its channels does: it is reported where the
/// client advertises the channel, else answered with an error.
pub open spec fn message_data_reaction(
    server: Server,
    client: ClientId,
    channel_id: ClientChannelId,
    payload: Vec<u8>,
    r: Reaction,
) -> bool {
    &&& !server.client_ids().contains(client) ==> r.outgoing@.len() == 0 && r.events@.len() == 0
    &&& server.client_ids().contains(client) ==> {
        let s0 = session_of(server, client);
        &&& s0.advertised().contains_key(channel_id.0) ==> r.outgoing@.len() == 0 && r.events@.len() == 1
            && carries_message_data(r.events@[0], s0.advertised()[channel_id.0], payload)
        &&& !s0.advertised().contains_key(channel_id.0) ==> r.events@.len() == 0 && statuses_to(
            r.outgoing@,
            client,
            seq![(StatusLevel::Error, "Unknown channel ID: "@ + decimal_spec(channel_id.0 as nat))],
        )
    }
}

/// The event reports a message on a copy of this channel, with this payload.
pub open spec fn carries_message_data(e: Event, channel: ClientChannel, payload: Vec<u8>) -> bool {
    e matches Event::MessageData { channel: c, payload: p } && p == payload && same_client_channel(channel, c)
}

/// What a request to get or set parameters does: it is reported where the server has the
/// parameters capability, else answered with an error.
pub open spec fn parameters_request_reaction(server: Server, client: ClientId, event: Event, r: Reaction) -> bool {
    &&& !server.has(Capability::Parameters) ==> r.events@.len() == 0 && statuses_to(
        r.outgoing@,
        client,
        seq![(StatusLevel::Error, "Server does not support parameters capability"@)],
    )
    &&& server.has(Capability::Parameters) ==> r.outgoing@.len() == 0 && r.events@ == seq![event]
}

/// What a subscription (or, where `subscribe` is false, an unsubscription) to parameter
/// updates does.
pub open spec fn parameters_subscribe_reaction(
    before: Server,
    after: Server,
    client: ClientId,
    names: Seq<Seq<char>>,
    subscribe: bool,
    r: Reaction,
) -> bool {
    let subs0 = before.parameter_subscriptions();
    let subs1 = after.parameter_subscriptions();
    let changed = if subscribe {
        newly_subscribed(subs0, names)
    } else {
        newly_unsubscribed(subs0, client, names)
    };
    &&& !before.has(Capability::Parameters) ==> after == before && r.events@.len() == 0 && statuses_to(
        r.outgoing@,
        client,
        seq![(StatusLevel::Error, "Server does not support parametersSubscribe capability"@)],
    )
    &&& before.has(Capability::Parameters) ==> {
        &&& after.same_but_parameters(before)
        &&& subscribe ==> forall|n: Seq<char>, c: ClientId| #[trigger] subs1.subscribed(n, c) <==> subs0.subscribed(n, c)
            || (c == client && names.contains(n))
        &&& !subscribe ==> forall|n: Seq<char>, c: ClientId| #[trigger] subs1.subscribed(n, c) <==> subs0.subscribed(n, c)
            && !(c == client && names.contains(n))
        &&& r.outgoing@.len() == 0
        &&& changed.len() == 0 ==> r.events@.len() == 0
        &&& changed.len() > 0 ==> r.events@.len() == 1 && reports_names(r.events@[0], changed, subscribe)
    }
}

/// What a subscription to connection graph updates does.
pub open spec fn graph_subscribe_reaction(before: Server, after: Server, client: ClientId, r: Reaction) -> bool {
    &&& after.graph() == before.graph()
    &&& !before.has(Capability::ConnectionGraph) ==> after == before && r.events@.len() == 0 && statuses_to(
        r.outgoing@,
        client,
        seq![(StatusLevel::Error, "Server does not support connection graph capability"@)],
    )
    &&& before.has(Capability::ConnectionGraph) && before.graph_subscribers().contains(client) ==> after == before
        && r.outgoing@.len() == 0 && r.events@.len() == 0
    &&& before.has(Capability::ConnectionGraph) && !before.graph_subscribers().contains(client) ==> {
        &&& after.same_but_graph(before)
        &&& after.graph_subscribers() == before.graph_subscribers().push(client)
        &&& r.outgoing@.len() == 1 && r.outgoing@[0].client == client && r.outgoing@[0].plane == Plane::Control
            && updates_graph(r.outgoing@[0].message, before.graph())
        &&& before.graph_subscribers().len() == 0 ==> r.events@ == seq![Event::GraphSubscribed]
        &&& before.graph_subscribers().len() > 0 ==> r.events@.len() == 0
    }
}

/// What an unsubscription from connection graph updates does.
pub open spec fn graph_unsubscribe_reaction(before: Server, after: Server, client: ClientId, r: Reaction) -> bool {
    let last = before.graph_subscribers().contains(client) && after.graph_subscribers().len() == 0;
    &&& after.graph() == before.graph()
    &&& !before.has(Capability::ConnectionGraph) ==> after == before && r.events@.len() == 0 && statuses_to(
        r.outgoing@,
        client,
        seq![(StatusLevel::Error, "Server does not support connection graph capability"@)],
    )
    &&& before.has(Capability::ConnectionGraph) ==> {
        &&& after.same_but_graph(before)
        &&& after.graph_subscribers().to_set() == before.graph_subscribers().to_set().remove(client)
        &&& r.outgoing@.len() == 0
        &&& last ==> r.events@ == seq![Event::GraphUnsubscribed]
        &&& !last ==> r.events@.len() == 0
    }
}

/// The registered service with this ID.
pub open spec fn service_with(services: Seq<Service>, id: ServiceId) -> Service {
    services[choose|k: int| 0 <= k < services.len() && services[k].id == id]
}

/// A service with this ID is registered.
pub open spec fn has_service(services: Seq<Service>, id: ServiceId) -> bool {
    exists|k: int| 0 <= k < services.len() && services[k].id == id
}

/// Among services with unique IDs, the one with an ID is the one at the position where it
/// stands.
proof fn lemma_service_with(services: Seq<Service>, id: ServiceId)
    requires
        service_ids(services).no_duplicates(),
    ensures
        forall|k: int| 0 <= k < services.len() && services[k].id == id ==> #[trigger] services[k] == service_with(
            services,
            id,
        ),
{
    assert forall|k: int| 0 <= k < services.len() && services[k].id == id implies #[trigger] services[k]
        == service_with(services, id) by {
        let j = choose|j: int| 0 <= j < services.len() && services[j].id == id;
        assert(service_ids(services)[j] == service_ids(services)[k]);
    }
}

/// The service accepts requests in this encoding: the one it declares, or, where it declares
/// none, one that the server accepts.
pub open spec fn accepts_encoding(service: Service, encodings: Seq<Seq<char>>, encoding: Seq<char>) -> bool {
    match service.spec_request_encoding() {
        Some(e) => e@ == encoding,
        None => encodings.contains(encoding),
    }
}

/// The reaction is a single failure message of the service call, with this text.
pub open spec fn fails_call(r: Reaction, client: ClientId, service_id: ServiceId, call_id: CallId, text: Seq<char>) -> bool {
    &&& r.events@.len() == 0
    &&& r.outgoing@.len() == 1
    &&& r.outgoing@[0].client == client
    &&& r.outgoing@[0].plane == Plane::Control
    &&& r.outgoing@[0].message matches ServerMessage::ServiceCallFailure { service_id: s, call_id: c, message }
    &&& r.outgoing@[0].message->ServiceCallFailure_service_id == service_id
    &&& r.outgoing@[0].message->ServiceCallFailure_call_id == call_id
    &&& r.outgoing@[0].message->ServiceCallFailure_message@ == text
}

/// What a service call does.
pub open spec fn service_call_reaction(
    before: Server,
    after: Server,
    client: ClientId,
    service_id: ServiceId,
    call_id: CallId,
    encoding: String,
    payload: Vec<u8>,
    r: Reaction,
) -> bool {
    let services = before.service_list();
    let service = service_with(services, service_id);
    let s0 = session_of(before, client);
    let s1 = session_of(after, client);
    let accepted = before.has(Capability::Services) && has_service(services, service_id) && accepts_encoding(
        service,
        before.encodings(),
        encoding@,
    ) && s0.service_calls() < MAX_REQUESTS_IN_FLIGHT;
    &&& client_step(before, after, client, r)
    &&& before.client_ids().contains(client) ==> {
        &&& !before.has(Capability::Services) ==> fails_call(r, client, service_id, call_id, "Server does not support services"@)
        &&& before.has(Capability::Services) && !has_service(services, service_id) ==> fails_call(
            r,
            client,
            service_id,
            call_id,
            "Unknown service"@,
        )
        &&& before.has(Capability::Services) && has_service(services, service_id) && !accepts_encoding(
            service,
            before.encodings(),
            encoding@,
        ) ==> fails_call(r, client, service_id, call_id, "Unsupported encoding"@)
        &&& before.has(Capability::Services) && has_service(services, service_id) && accepts_encoding(
            service,
            before.encodings(),
            encoding@,
        ) && s0.service_calls() >= MAX_REQUESTS_IN_FLIGHT ==> fails_call(r, client, service_id, call_id, "Too many requests"@)
        &&& !accepted ==> after.sessions() == before.sessions() || s1.service_calls() == s0.service_calls()
        &&& accepted ==> {
            &&& s1.same_but_requests(s0)
            &&& s1.service_calls() == s0.service_calls() + 1
            &&& s1.asset_fetches() == s0.asset_fetches()
            &&& r.outgoing@.len() == 0
            &&& r.events@.len() == 1
            &&& is_service_call(r.events@[0], service, call_id, encoding, payload)
        }
    }
}

/// The event reports a call of a service that is the same as `service`, to be answered in its
/// response encoding, or the request's where it declares none.
pub open spec fn is_service_call(e: Event, service: Service, call_id: CallId, encoding: String, payload: Vec<u8>) -> bool {
    &&& e matches Event::ServiceCall { service: s, call_id: c, encoding: en, response_encoding: re, payload: p }
    &&& same_service(service, e->ServiceCall_service)
    &&& e->ServiceCall_call_id == call_id
    &&& e->ServiceCall_encoding == encoding
    &&& e->ServiceCall_payload == payload
    &&& service.schema.response matches Some(m) ==> e->ServiceCall_response_encoding@ == m.encoding@
    &&& service.schema.response is None ==> e->ServiceCall_response_encoding@ == encoding@
}

/// What a request for an asset does.
pub open spec fn fetch_asset_reaction(
    before: Server,
    after: Server,
    client: ClientId,
    uri: String,
    request_id: u32,
    r: Reaction,
) -> bool {
    let s0 = session_of(before, client);
    let s1 = session_of(after, client);
    &&& client_step(before, after, client, r)
    &&& before.client_ids().contains(client) ==> {
        &&& !before.has(Capability::Assets) ==> after == before && r.events@.len() == 0 && statuses_to(
            r.outgoing@,
            client,
            seq![(StatusLevel::Error, "Server does not support assets capability"@)],
        )
        &&& before.has(Capability::Assets) && s0.asset_fetches() >= MAX_REQUESTS_IN_FLIGHT ==> after == before
            && asset_error_only(r, client, request_id, "Too many concurrent fetch asset requests"@)
        &&& before.has(Capability::Assets) && s0.asset_fetches() < MAX_REQUESTS_IN_FLIGHT && !before.has_asset_handler()
            ==> after == before && asset_error_only(r, client, request_id, "Server does not have a fetch asset handler"@)
        &&& before.has(Capability::Assets) && s0.asset_fetches() < MAX_REQUESTS_IN_FLIGHT && before.has_asset_handler()
            ==> {
            &&& s1.same_but_requests(s0)
            &&& s1.asset_fetches() == s0.asset_fetches() + 1
            &&& s1.service_calls() == s0.service_calls()
            &&& r.outgoing@.len() == 0
            &&& r.events@ == seq![Event::FetchAsset { uri, request_id }]
        }
    }
}

/// The reaction is a single asset error with this text.
pub open spec fn asset_error_only(r: Reaction, client: ClientId, request_id: u32, text: Seq<char>) -> bool {
    &&& r.events@.len() == 0
    &&& r.outgoing@.len() == 1
    &&& r.outgoing@[0].client == client
    &&& r.outgoing@[0].plane == Plane::Control
    &&& r.outgoing@[0].message matches ServerMessage::FetchAssetError { request_id: q, message }
    &&& r.outgoing@[0].message->FetchAssetError_request_id == request_id
    &&& r.outgoing@[0].message->FetchAssetError_message@ == text
}

/// The failure message of a service call.
fn call_failure(client: ClientId, service_id: ServiceId, call_id: CallId, message: String) -> (o: Outgoing)
    ensures
        o.client == client,
        o.plane == Plane::Control,
        o.message == (ServerMessage::ServiceCallFailure { service_id, call_id, message }),
{
    Outgoing { client, plane: Plane::Control, message: ServerMessage::ServiceCallFailure { service_id, call_id, message } }
}

/// The error that answers a request for an asset.
fn asset_error(client: ClientId, request_id: u32, message: String) -> (o: Outgoing)
    ensures
        o.client == client,
        o.plane == Plane::Control,
        o.message == (ServerMessage::FetchAssetError { request_id, message }),
{
    Outgoing { client, plane: Plane::Control, message: ServerMessage::FetchAssetError { request_id, message } }
}

/// The service at position `j` has the ID of an earlier one.
pub open spec fn repeats_earlier_id(new: Seq<Service>, j: int) -> bool {
    exists|i: int| 0 <= i < j && new[i].id == new[j].id
}

/// The first of the first `k` services that has the ID of an earlier one.
pub open spec fn first_repeated_id(new: Seq<Service>, k: int) -> Option<int>
    decreases k,
{
    if k <= 0 {
        None
    } else {
        match first_repeated_id(new, k - 1) {
            Some(j) => Some(j),
            None => if repeats_earlier_id(new, k - 1) {
                Some(k - 1)
            } else {
                None
            },
        }
    }
}

/// The error with which the server refuses new services, if it does: where it lacks the
/// services capability; where two new services share an ID, naming the later one; else as the
/// registry refuses them.
pub open spec fn server_add_services_error(
    registered: Seq<Service>,
    capable: bool,
    encodings_empty: bool,
    new: Seq<Service>,
) -> Option<FoxgloveError> {
    if !capable {
        Some(FoxgloveError::ServicesNotSupported)
    } else {
        match first_repeated_id(new, new.len() as int) {
            Some(j) => Some(FoxgloveError::DuplicateService(new[j].name)),
            None => add_services_error(registered, capable, encodings_empty, new),
        }
    }
}

/// Once a repeated ID is found, it stays the first among more services.
proof fn lemma_first_repeated_stable(new: Seq<Service>, k: int, n: int)
    requires
        0 < k <= n,
        first_repeated_id(new, k) is Some,
    ensures
        first_repeated_id(new, n) == first_repeated_id(new, k),
    decreases n - k,
{
    if n > k {
        lemma_first_repeated_stable(new, k, n - 1);
    }
}

/// Where no ID repeats among the first `k` services, none of them repeats an earlier one.
proof fn lemma_none_repeated(new: Seq<Service>, k: int)
    requires
        0 <= k,
        first_repeated_id(new, k) is None,
    ensures
        forall|j: int| 0 <= j < k ==> !repeats_earlier_id(new, j),
    decreases k,
{
    if k > 0 {
        lemma_none_repeated(new, k - 1);
    }
}

/// Where no ID repeats, the IDs are unique.
proof fn lemma_no_repeated_id(new: Seq<Service>)
    requires
        first_repeated_id(new, new.len() as int) is None,
    ensures
        service_ids(new).no_duplicates(),
{
    lemma_none_repeated(new, new.len() as int);
    assert forall|a: int, b: int|
        0 <= a < service_ids(new).len() && 0 <= b < service_ids(new).len() && a != b implies service_ids(new)[a]
            != service_ids(new)[b] by {
        if new[a].id == new[b].id {
            if a < b {
                assert(repeats_earlier_id(new, b));
            } else {
                assert(repeats_earlier_id(new, a));
            }
        }
    }
}

/// Returns the position of the first new service that has the ID of an earlier one.
fn first_repeated_service_id(new: &Vec<Service>) -> (r: Option<usize>)
    ensures
        r matches Some(j) ==> j < new@.len() && first_repeated_id(new@, new@.len() as int) == Some(j as int),
        r is None ==> first_repeated_id(new@, new@.len() as int) is None,
{
    let mut j: usize = 0;
    while j < new.len()
        invariant
            j <= new@.len(),
            first_repeated_id(new@, j as int) is None,
        decreases new@.len() - j,
    {
        let mut i: usize = 0;
        while i < j
            invariant
                i <= j < new@.len(),
                first_repeated_id(new@, j as int) is None,
                forall|q: int| 0 <= q < i ==> new@[q].id != new@[j as int].id,
            decreases j - i,
        {
            if new[i].id == new[j].id {
                assert(repeats_earlier_id(new@, j as int));
                assert(first_repeated_id(new@, j + 1) == Some(j as int));
                proof {
                    lemma_first_repeated_stable(new@, j + 1, new@.len() as int);
                }
                return Some(j);
            }
            i = i + 1;
        }
        j = j + 1;
    }
    None
}

/// The parameter values that the server sends a client hold only parameters whose names the
/// client is subscribed to, and every given parameter whose name it is subscribed to.
pub proof fn published_parameters_are_subscribed(
    subs: ParameterSubscriptions,
    parameters: Seq<Parameter>,
    client: ClientId,
    m: ServerMessage,
)
    requires
        carries_parameters(m, subs, parameters, client),
    ensures
        m matches ServerMessage::ParameterValues { parameters: sent, id } && (forall|j: int|
            0 <= j < sent@.len() ==> subs.subscribed(#[trigger] sent@[j].name@, client)) && (forall|i: int|
            0 <= i < parameters.len() && subs.subscribed(#[trigger] parameters[i].name@, client) ==> exists|j: int|
                0 <= j < sent@.len() && same_parameter(parameters[i], sent@[j])),
{
    subscribed_positions_select_exactly(subs, parameters, client);
    let sent = m->parameters;
    let pos = subscribed_positions(subs, parameters, client);
    assert forall|j: int| 0 <= j < sent@.len() implies subs.subscribed(#[trigger] sent@[j].name@, client) by {
        assert(same_parameter(parameters[pos[j]], sent@[j]));
    }
    assert forall|i: int|
        0 <= i < parameters.len() && subs.subscribed(#[trigger] parameters[i].name@, client) implies exists|j: int|
            0 <= j < sent@.len() && same_parameter(parameters[i], sent@[j]) by {
        let k = choose|k: int| 0 <= k < pos.len() && pos[k] == i;
        assert(same_parameter(parameters[pos[k]], sent@[k]));
    }
}

/// The position of the client with this ID.
pub open spec fn index_of(ids: Seq<ClientId>, id: ClientId) -> int {
    choose|k: int| 0 <= k < ids.len() && ids[k] == id
}

/// Only the client at position `k` may differ.
pub open spec fn replaced(before: Seq<ClientSession>, after: Seq<ClientSession>, k: int) -> bool {
    &&& after.len() == before.len()
    &&& 0 <= k < before.len()
    &&& forall|j: int| 0 <= j < before.len() && j != k ==> #[trigger] after[j] == before[j]
}

/// In a sequence without duplicates, the position of an element is the one it stands at.
proof fn lemma_index_of(ids: Seq<ClientId>, k: int)
    requires
        ids.no_duplicates(),
        0 <= k < ids.len(),
    ensures
        index_of(ids, ids[k]) == k,
{
    let j = index_of(ids, ids[k]);
    assert(0 <= j < ids.len() && ids[j] == ids[k]);
}

/// Putting back, at position `k`, a client state with the same ID and well formed keeps the
/// IDs and the states well formed.
proof fn lemma_replace_session(before: Seq<ClientSession>, k: int, s: ClientSession)
    requires
        0 <= k < before.len(),
        s.spec_id() == before[k].spec_id(),
        s.wf(),
        ids_of(before).no_duplicates(),
        forall|j: int| 0 <= j < before.len() ==> (#[trigger] before[j]).wf(),
    ensures
        before.remove(k).insert(k, s) == before.update(k, s),
        ids_of(before.update(k, s)) == ids_of(before),
        forall|j: int| 0 <= j < before.len() ==> (#[trigger] before.update(k, s)[j]).wf(),
        replaced(before, before.update(k, s), k),
{
    assert(before.remove(k).insert(k, s) =~= before.update(k, s));
    assert(ids_of(before.update(k, s)) =~= ids_of(before));
}

/// Pushing an element onto a sequence adds it to the set of its elements.
proof fn lemma_to_set_push<A>(s: Seq<A>, x: A)
    ensures
        s.push(x).to_set() == s.to_set().insert(x),
{
    assert forall|y: A| #[trigger] s.push(x).to_set().contains(y) == s.to_set().insert(x).contains(y) by {
        if s.push(x).contains(y) {
            let k = choose|k: int| 0 <= k < s.push(x).len() && s.push(x)[k] == y;
            if k < s.len() {
                assert(s[k] == y);
            }
        }
        if s.contains(y) {
            let k = choose|k: int| 0 <= k < s.len() && s[k] == y;
            assert(s.push(x)[k] == y);
        }
        if y == x {
            assert(s.push(x)[s.len() as int] == y);
        }
    }
    assert(s.push(x).to_set() =~= s.to_set().insert(x));
}

/// Pushing an element that does not occur keeps a sequence free of duplicates.
proof fn lemma_push_unique<A>(s: Seq<A>, x: A)
    requires
        s.no_duplicates(),
        !s.contains(x),
    ensures
        s.push(x).no_duplicates(),
{
    let t = s.push(x);
    assert forall|i: int, j: int| 0 <= i < t.len() && 0 <= j < t.len() && i != j implies t[i] != t[j] by {
        if i < s.len() && j < s.len() {
            assert(t[i] == s[i] && t[j] == s[j]);
        } else if i < s.len() {
            assert(t[i] == s[i]);
        } else if j < s.len() {
            assert(t[j] == s[j]);
        }
    }
}

} // verus!
