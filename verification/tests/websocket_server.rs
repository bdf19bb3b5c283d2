use std::collections::BTreeMap;

use foxglove::channel::ChannelDescriptor;
use foxglove::error::FoxgloveError;
use foxglove::ids::{CallId, ChannelId, ClientChannelId, ClientId, ServiceId, SinkId, SubscriptionId};
use foxglove::websocket::protocol::{
    Capability, ClientChannel, ClientMessage, ConnectionGraph, GraphEntry, MessageSchema, Outgoing, Parameter,
    Plane, ServerMessage, Service, ServiceSchema, Status, StatusLevel, Subscription,
};
use foxglove::websocket::server::{answer_message_error, session_id_from_elapsed, Event, MessageError, Server, ServerOptions};
use foxglove::websocket::queue::{lossy_step, send_lossy, Queue, SendLossyResult};

fn options(capabilities: Vec<Capability>) -> ServerOptions {
    ServerOptions {
        session_id: Some("session".to_string()),
        name: Some("server".to_string()),
        message_backlog_size: None,
        capabilities: Some(capabilities),
        services: Vec::new(),
        supported_encodings: Some(vec!["json".to_string()]),
        has_fetch_asset_handler: false,
    }
}

fn descriptor(id: u64, topic: &str) -> ChannelDescriptor {
    ChannelDescriptor {
        id: ChannelId(id),
        topic: topic.to_string(),
        message_encoding: "json".to_string(),
        schema: None,
        metadata: BTreeMap::new(),
    }
}

fn service(id: u32, name: &str, request_encoding: Option<&str>) -> Service {
    Service {
        id: ServiceId(id),
        name: name.to_string(),
        schema: ServiceSchema {
            name: "schema".to_string(),
            request: request_encoding.map(|e| MessageSchema {
                encoding: e.to_string(),
                schema_name: "req".to_string(),
                schema_encoding: "jsonschema".to_string(),
                schema_data: vec![],
            }),
            response: None,
        },
    }
}

fn status_text(o: &Outgoing) -> (StatusLevel, String) {
    match &o.message {
        ServerMessage::Status(s) => (s.level, s.message.clone()),
        other => panic!("not a status: {:?}", other),
    }
}

fn server_with_client(capabilities: Vec<Capability>) -> Server {
    let mut server = Server::new(options(capabilities));
    server.register_client(ClientId(1), SinkId(10));
    server
}

#[test]
fn new_server_adds_capabilities_for_services_and_assets() {
    let mut opts = options(vec![Capability::Time, Capability::Time]);
    opts.services = vec![service(1, "a", Some("cbor")), service(2, "b", None)];
    opts.has_fetch_asset_handler = true;
    let server = Server::new(opts);
    assert!(server.has_capability(Capability::Time));
    assert!(server.has_capability(Capability::Services));
    assert!(server.has_capability(Capability::Assets));
    assert!(!server.has_capability(Capability::Parameters));
    assert_eq!(server.message_backlog_size(), 1024);
    assert_eq!(server.port(), 0);
    match server.server_info() {
        ServerMessage::ServerInfo { name, capabilities, supported_encodings, session_id } => {
            assert_eq!(name, "server");
            assert_eq!(capabilities, vec![Capability::Time, Capability::Services, Capability::Assets]);
            assert_eq!(supported_encodings, vec!["json".to_string(), "cbor".to_string()]);
            assert_eq!(session_id, "session");
        }
        other => panic!("unexpected {:?}", other),
    }
}

#[test]
fn session_id_is_milliseconds() {
    assert_eq!(session_id_from_elapsed(Some((1, 234_567_890))), "1234");
    assert_eq!(session_id_from_elapsed(Some((0, 0))), "0");
    assert_eq!(session_id_from_elapsed(None), "");
}

#[test]
fn start_twice_fails() {
    let mut server = Server::new(options(vec![]));
    assert_eq!(server.start(), Ok(()));
    assert_eq!(server.start(), Err(FoxgloveError::ServerAlreadyStarted));
    server.set_port(8765);
    assert_eq!(server.port(), 8765);
}

#[test]
fn stop_drops_clients_once() {
    let mut server = server_with_client(vec![]);
    assert!(server.stop().is_none());
    server.start().unwrap();
    assert_eq!(server.stop(), Some(vec![ClientId(1)]));
    assert!(server.stop().is_none());
    assert_eq!(server.port(), 0);
    assert!(server.client_id_list().is_empty());
}

#[test]
fn broadcast_time_needs_capability() {
    let server = server_with_client(vec![]);
    assert!(server.broadcast_time(5).is_empty());
    let server = server_with_client(vec![Capability::Time]);
    let out = server.broadcast_time(5);
    assert_eq!(out.len(), 1);
    assert_eq!(out[0].plane, Plane::Control);
    assert!(matches!(out[0].message, ServerMessage::Time { timestamp: 5 }));
}

#[test]
fn publish_status_planes() {
    let server = server_with_client(vec![]);
    let info = server.publish_status(&Status::new(StatusLevel::Info, "hello".to_string()));
    assert_eq!(info[0].plane, Plane::Data);
    let warning = server.publish_status(&Status::warning("careful".to_string()).with_id("w".to_string()));
    assert_eq!(warning[0].plane, Plane::Control);
    match &warning[0].message {
        ServerMessage::Status(s) => {
            assert_eq!(s.message, "careful");
            assert_eq!(s.id, Some("w".to_string()));
        }
        other => panic!("unexpected {:?}", other),
    }
    let removed = server.remove_status(&vec!["w".to_string()]);
    assert!(matches!(&removed[0].message, ServerMessage::RemoveStatus { status_ids } if status_ids == &vec!["w".to_string()]));
}

#[test]
fn clear_session_notifies_every_client() {
    let mut server = server_with_client(vec![]);
    server.register_client(ClientId(2), SinkId(11));
    let out = server.clear_session(Some("next".to_string()));
    assert_eq!(out.len(), 2);
    assert_eq!(out[1].client, ClientId(2));
    assert!(matches!(&out[0].message, ServerMessage::ServerInfo { session_id, .. } if session_id == "next"));
}

#[test]
fn add_services_errors() {
    let mut server = server_with_client(vec![]);
    assert_eq!(server.add_services(vec![service(1, "a", None)]).err(), Some(FoxgloveError::ServicesNotSupported));
    let mut server = server_with_client(vec![Capability::Services]);
    assert_eq!(
        server.add_services(vec![service(1, "a", Some("json")), service(2, "a", Some("json"))]).err(),
        Some(FoxgloveError::DuplicateService("a".to_string()))
    );
    let out = server.add_services(vec![service(1, "a", Some("json"))]).unwrap();
    assert_eq!(out.len(), 1);
    assert!(matches!(&out[0].message, ServerMessage::AdvertiseServices { services } if services.len() == 1));
    assert_eq!(
        server.add_services(vec![service(3, "a", Some("json"))]).err(),
        Some(FoxgloveError::DuplicateService("a".to_string()))
    );
    assert_eq!(
        server.add_services(vec![service(1, "b", Some("json"))]).err(),
        Some(FoxgloveError::DuplicateService("b".to_string()))
    );
    assert!(server.add_services(vec![]).unwrap().is_empty());
    let mut opts = options(vec![Capability::Services]);
    opts.supported_encodings = None;
    let mut bare = Server::new(opts);
    assert_eq!(
        bare.add_services(vec![service(4, "c", None)]).err(),
        Some(FoxgloveError::MissingRequestEncoding("c".to_string()))
    );
}

#[test]
fn remove_services_ignores_unknown_names() {
    let mut server = server_with_client(vec![Capability::Services]);
    server.add_services(vec![service(1, "a", Some("json")), service(2, "b", None)]).unwrap();
    assert!(server.remove_services(&vec!["zzz".to_string()]).is_empty());
    let out = server.remove_services(&vec!["b".to_string()]);
    assert!(matches!(&out[0].message, ServerMessage::UnadvertiseServices { service_ids } if service_ids == &vec![ServiceId(2)]));
    assert!(server.get_service(ServiceId(2)).is_none());
    assert!(server.get_service(ServiceId(1)).is_some());
}

#[test]
fn register_client_advertises_services() {
    let mut opts = options(vec![]);
    opts.services = vec![service(1, "a", Some("json"))];
    let mut server = Server::new(opts);
    let out = server.register_client(ClientId(7), SinkId(1));
    assert_eq!(out.len(), 1);
    assert_eq!(out[0].client, ClientId(7));
}

#[test]
fn subscribe_and_unsubscribe() {
    let mut server = server_with_client(vec![]);
    server.advertise_channel(ClientId(1), &descriptor(5, "/a")).unwrap();
    server.advertise_channel(ClientId(1), &descriptor(6, "/b")).unwrap();
    let r = server.on_subscribe(
        ClientId(1),
        &vec![
            Subscription { id: SubscriptionId(1), channel_id: ChannelId(5) },
            Subscription { id: SubscriptionId(2), channel_id: ChannelId(9) },
            Subscription { id: SubscriptionId(3), channel_id: ChannelId(5) },
            Subscription { id: SubscriptionId(1), channel_id: ChannelId(6) },
        ],
    );
    let texts: Vec<_> = r.outgoing.iter().map(status_text).collect();
    assert_eq!(
        texts,
        vec![
            (StatusLevel::Error, "Unknown channel ID: 9".to_string()),
            (StatusLevel::Error, "Subscription ID was already used: 1; ignoring subscription".to_string()),
            (StatusLevel::Warning, "Client is already subscribed to channel: 5; ignoring subscription".to_string()),
        ]
    );
    assert_eq!(r.events.len(), 2);
    assert!(matches!(&r.events[0], Event::Subscribed(v) if v.id() == ChannelId(5) && v.topic() == "/a"));
    assert!(matches!(&r.events[1], Event::SubscribeChannels(ids) if ids == &vec![ChannelId(5)]));

    let data = server.log(ClientId(1), ChannelId(5), 99, b"payload").unwrap();
    assert_eq!(data.plane, Plane::Data);
    assert!(matches!(&data.message, ServerMessage::MessageData { subscription_id, log_time: 99, payload }
        if *subscription_id == SubscriptionId(1) && payload == &b"payload".to_vec()));
    assert!(server.log(ClientId(1), ChannelId(6), 99, b"payload").is_none());

    let r = server.on_unsubscribe(ClientId(1), &vec![SubscriptionId(1), SubscriptionId(1)]);
    assert!(r.outgoing.is_empty());
    assert_eq!(r.events.len(), 2);
    assert!(matches!(&r.events[0], Event::UnsubscribeChannels(ids) if ids == &vec![ChannelId(5)]));
    assert!(matches!(&r.events[1], Event::Unsubscribed(v) if v.id() == ChannelId(5)));
    assert!(server.log(ClientId(1), ChannelId(5), 99, b"payload").is_none());
}

#[test]
fn unadvertised_channel_is_not_reported_on_unsubscribe() {
    let mut server = server_with_client(vec![]);
    server.advertise_channel(ClientId(1), &descriptor(5, "/a")).unwrap();
    server.on_subscribe(ClientId(1), &vec![Subscription { id: SubscriptionId(1), channel_id: ChannelId(5) }]);
    let out = server.unadvertise_channel(ClientId(1), ChannelId(5)).unwrap();
    assert!(matches!(&out.message, ServerMessage::Unadvertise { channel_ids } if channel_ids == &vec![ChannelId(5)]));
    let r = server.on_unsubscribe(ClientId(1), &vec![SubscriptionId(1)]);
    assert_eq!(r.events.len(), 1);
    assert!(matches!(&r.events[0], Event::UnsubscribeChannels(ids) if ids == &vec![ChannelId(5)]));
}

#[test]
fn subscribe_prunes_unknown_channels_by_swapping() {
    let mut server = server_with_client(vec![]);
    server.advertise_channel(ClientId(1), &descriptor(1, "/a")).unwrap();
    server.advertise_channel(ClientId(1), &descriptor(2, "/b")).unwrap();
    let r = server.on_subscribe(
        ClientId(1),
        &vec![
            Subscription { id: SubscriptionId(10), channel_id: ChannelId(7) },
            Subscription { id: SubscriptionId(11), channel_id: ChannelId(1) },
            Subscription { id: SubscriptionId(12), channel_id: ChannelId(2) },
        ],
    );
    // The unknown request is replaced by the last one, so channel 2 is taken before channel 1.
    assert!(matches!(&r.events[0], Event::Subscribed(v) if v.id() == ChannelId(2)));
    assert!(matches!(&r.events[1], Event::Subscribed(v) if v.id() == ChannelId(1)));
}

fn client_channel(id: u32) -> ClientChannel {
    ClientChannel {
        id: ClientChannelId(id),
        topic: "/in".to_string(),
        encoding: "json".to_string(),
        schema_name: "s".to_string(),
        schema_encoding: None,
        schema: None,
    }
}

#[test]
fn client_advertise_needs_capability() {
    let mut server = server_with_client(vec![]);
    let r = server.on_advertise(ClientId(1), vec![client_channel(1)]);
    assert_eq!(status_text(&r.outgoing[0]), (StatusLevel::Error, "Server does not support clientPublish capability".to_string()));
    assert!(r.events.is_empty());
}

#[test]
fn client_advertise_and_unadvertise() {
    let mut server = server_with_client(vec![Capability::ClientPublish]);
    let r = server.on_advertise(ClientId(1), vec![client_channel(1), client_channel(1), client_channel(2)]);
    assert_eq!(
        r.outgoing.iter().map(status_text).collect::<Vec<_>>(),
        vec![(StatusLevel::Warning, "Client is already advertising channel: 1; ignoring advertisement".to_string())]
    );
    assert_eq!(r.events.len(), 2);
    assert!(matches!(&r.events[1], Event::ClientAdvertised(c) if c.id == ClientChannelId(2) && c.topic == "/in"));
    let r = server.on_message_data(ClientId(1), ClientChannelId(2), vec![1, 2]);
    assert!(matches!(&r.events[0], Event::MessageData { channel, payload } if channel.id == ClientChannelId(2) && payload == &vec![1, 2]));
    let r = server.on_unadvertise(ClientId(1), &vec![ClientChannelId(3), ClientChannelId(1), ClientChannelId(2)]);
    assert_eq!(
        r.outgoing.iter().map(status_text).collect::<Vec<_>>(),
        vec![(StatusLevel::Warning, "Client is not advertising channel: 3; ignoring unadvertisement".to_string())]
    );
    // The missing ID is replaced by the last one, so channel 2 goes before channel 1.
    assert!(matches!(&r.events[0], Event::ClientUnadvertised(c) if c.id == ClientChannelId(2)));
    assert!(matches!(&r.events[1], Event::ClientUnadvertised(c) if c.id == ClientChannelId(1)));
    let r = server.on_message_data(ClientId(1), ClientChannelId(2), vec![]);
    assert_eq!(status_text(&r.outgoing[0]), (StatusLevel::Error, "Unknown channel ID: 2".to_string()));
}

#[test]
fn parameters_flow() {
    let mut server = server_with_client(vec![Capability::Parameters]);
    server.register_client(ClientId(2), SinkId(11));
    let r = server.handle_message(
        ClientId(1),
        ClientMessage::SubscribeParameterUpdates { parameter_names: vec!["a".to_string(), "b".to_string(), "a".to_string()] },
    );
    assert!(matches!(&r.events[0], Event::ParametersSubscribed(n) if n == &vec!["a".to_string(), "b".to_string()]));
    let r = server.handle_message(ClientId(2), ClientMessage::SubscribeParameterUpdates { parameter_names: vec!["a".to_string()] });
    assert!(r.events.is_empty());
    let params = vec![
        Parameter { name: "a".to_string(), param_type: None, value: None },
        Parameter { name: "c".to_string(), param_type: None, value: None },
    ];
    let out = server.publish_parameter_values(&params);
    assert_eq!(out.len(), 2);
    assert!(matches!(&out[0].message, ServerMessage::ParameterValues { parameters, id: None } if parameters.len() == 1 && parameters[0].name == "a"));
    let r = server.handle_message(ClientId(1), ClientMessage::UnsubscribeParameterUpdates { parameter_names: vec!["a".to_string(), "b".to_string()] });
    assert!(matches!(&r.events[0], Event::ParametersUnsubscribed(n) if n == &vec!["b".to_string()]));
    let d = server.remove_client(ClientId(2));
    assert_eq!(d.parameters_unsubscribed, vec!["a".to_string()]);
    let out = server.set_parameters_outcome(ClientId(1), &params, Some("req".to_string()));
    assert_eq!(out.len(), 1);
    assert!(matches!(&out[0].message, ServerMessage::ParameterValues { id: Some(i), .. } if i == "req"));
}

#[test]
fn parameters_need_capability() {
    let mut server = server_with_client(vec![]);
    let r = server.handle_message(ClientId(1), ClientMessage::GetParameters { parameter_names: vec![], id: None });
    assert_eq!(status_text(&r.outgoing[0]).1, "Server does not support parameters capability");
    let r = server.handle_message(ClientId(1), ClientMessage::SubscribeParameterUpdates { parameter_names: vec![] });
    assert_eq!(status_text(&r.outgoing[0]).1, "Server does not support parametersSubscribe capability");
    assert!(server.publish_parameter_values(&vec![Parameter { name: "a".to_string(), param_type: None, value: None }]).is_empty());
}

fn call(server: &mut Server, service_id: u32, encoding: &str) -> Outgoing {
    let r = server.handle_message(
        ClientId(1),
        ClientMessage::ServiceCallRequest {
            service_id: ServiceId(service_id),
            call_id: CallId(9),
            encoding: encoding.to_string(),
            payload: vec![],
        },
    );
    r.outgoing.into_iter().next().unwrap()
}

fn failure_text(o: &Outgoing) -> String {
    match &o.message {
        ServerMessage::ServiceCallFailure { message, call_id, .. } => {
            assert_eq!(*call_id, CallId(9));
            message.clone()
        }
        other => panic!("unexpected {:?}", other),
    }
}

#[test]
fn service_call_failures() {
    let mut server = server_with_client(vec![]);
    assert_eq!(failure_text(&call(&mut server, 1, "json")), "Server does not support services");
    let mut server = server_with_client(vec![Capability::Services]);
    server.add_services(vec![service(1, "a", Some("cbor")), service(2, "b", None)]).unwrap();
    assert_eq!(failure_text(&call(&mut server, 3, "json")), "Unknown service");
    assert_eq!(failure_text(&call(&mut server, 1, "json")), "Unsupported encoding");
    assert_eq!(failure_text(&call(&mut server, 2, "proto")), "Unsupported encoding");
}

#[test]
fn service_calls_are_limited() {
    let mut server = server_with_client(vec![Capability::Services]);
    server.add_services(vec![service(2, "b", None)]).unwrap();
    for _ in 0..32 {
        let r = server.on_service_call(ClientId(1), ServiceId(2), CallId(9), "json".to_string(), vec![]);
        assert!(matches!(&r.events[0], Event::ServiceCall { response_encoding, .. } if response_encoding == "json"));
    }
    assert_eq!(failure_text(&call(&mut server, 2, "json")), "Too many requests");
    server.end_service_call(ClientId(1));
    let r = server.on_service_call(ClientId(1), ServiceId(2), CallId(9), "json".to_string(), vec![]);
    assert_eq!(r.events.len(), 1);
}

#[test]
fn fetch_asset_flow() {
    let mut server = server_with_client(vec![]);
    let r = server.on_fetch_asset(ClientId(1), "file".to_string(), 4);
    assert_eq!(status_text(&r.outgoing[0]).1, "Server does not support assets capability");
    let mut server = server_with_client(vec![Capability::Assets]);
    let r = server.on_fetch_asset(ClientId(1), "file".to_string(), 4);
    assert!(matches!(&r.outgoing[0].message, ServerMessage::FetchAssetError { request_id: 4, message } if message == "Server does not have a fetch asset handler"));
    let mut opts = options(vec![]);
    opts.has_fetch_asset_handler = true;
    let mut server = Server::new(opts);
    server.register_client(ClientId(1), SinkId(1));
    for _ in 0..32 {
        let r = server.on_fetch_asset(ClientId(1), "file".to_string(), 4);
        assert!(matches!(&r.events[0], Event::FetchAsset { request_id: 4, .. }));
    }
    let r = server.on_fetch_asset(ClientId(1), "file".to_string(), 5);
    assert!(matches!(&r.outgoing[0].message, ServerMessage::FetchAssetError { request_id: 5, message } if message == "Too many concurrent fetch asset requests"));
    let done = server.finish_asset_fetch(ClientId(1), 4, Ok(vec![1])).unwrap();
    assert!(matches!(&done.message, ServerMessage::FetchAssetData { request_id: 4, data } if data == &vec![1]));
    let r = server.on_fetch_asset(ClientId(1), "file".to_string(), 6);
    assert_eq!(r.events.len(), 1);
}

#[test]
fn connection_graph_subscribers() {
    let mut server = server_with_client(vec![]);
    let r = server.handle_message(ClientId(1), ClientMessage::SubscribeConnectionGraph);
    assert_eq!(status_text(&r.outgoing[0]).1, "Server does not support connection graph capability");
    let graph = ConnectionGraph::new();
    assert_eq!(server.replace_connection_graph(graph).err(), Some(FoxgloveError::ConnectionGraphNotSupported));

    let mut server = server_with_client(vec![Capability::ConnectionGraph]);
    server.register_client(ClientId(2), SinkId(11));
    let r = server.handle_message(ClientId(1), ClientMessage::SubscribeConnectionGraph);
    assert_eq!(r.outgoing.len(), 1);
    assert!(matches!(r.events[..], [Event::GraphSubscribed]));
    let r = server.handle_message(ClientId(1), ClientMessage::SubscribeConnectionGraph);
    assert!(r.outgoing.is_empty() && r.events.is_empty());
    let r = server.handle_message(ClientId(2), ClientMessage::SubscribeConnectionGraph);
    assert!(r.events.is_empty());
    let mut graph = ConnectionGraph::new();
    graph.published_topics.push(GraphEntry { name: "/t".to_string(), ids: vec!["n".to_string()] });
    let out = server.replace_connection_graph(graph).unwrap();
    assert_eq!(out.len(), 2);
    let r = server.handle_message(ClientId(1), ClientMessage::UnsubscribeConnectionGraph);
    assert!(r.events.is_empty());
    let d = server.remove_client(ClientId(2));
    assert!(d.graph_unsubscribed);
}

#[test]
fn disconnect_gives_up_channel_subscriptions() {
    let mut server = server_with_client(vec![]);
    server.advertise_channel(ClientId(1), &descriptor(5, "/a")).unwrap();
    server.on_subscribe(ClientId(1), &vec![Subscription { id: SubscriptionId(1), channel_id: ChannelId(5) }]);
    let d = server.remove_client(ClientId(1));
    assert_eq!(d.channels.channel_ids, vec![ChannelId(5)]);
    assert_eq!(d.channels.channels.len(), 1);
    assert!(server.client_id_list().is_empty());
    let again = server.remove_client(ClientId(1));
    assert!(again.channels.channel_ids.is_empty());
}

#[test]
fn lossy_send_drops_oldest() {
    let queue: Queue<u32> = Queue::bounded(1);
    assert_eq!(send_lossy(&queue, 1, 10), SendLossyResult::Sent);
    assert_eq!(send_lossy(&queue, 2, 10), SendLossyResult::SentLossy(1));
    assert_eq!(queue.try_recv(), Some(2));
    assert_eq!(send_lossy(&queue, 3, 0), SendLossyResult::Sent);
    assert_eq!(send_lossy(&queue, 4, 0), SendLossyResult::ExhaustedRetries);
    assert!(!queue.send_control(5));
    assert_eq!(queue.try_recv(), Some(3));
    assert!(queue.send_control(6));
}

#[test]
fn lossy_step_decisions() {
    assert_eq!(lossy_step(0, 10, true), Some(SendLossyResult::Sent));
    assert_eq!(lossy_step(3, 10, true), Some(SendLossyResult::SentLossy(3)));
    assert_eq!(lossy_step(10, 10, false), Some(SendLossyResult::ExhaustedRetries));
    assert_eq!(lossy_step(2, 10, false), None);
}

#[test]
fn status_to_one_client() {
    let o = foxglove::websocket::server::send_status(ClientId(3), Status::new(StatusLevel::Info, "x".to_string()));
    assert_eq!(o.client, ClientId(3));
    assert_eq!(o.plane, Plane::Data);
    let o = foxglove::websocket::server::send_status(ClientId(3), Status::error("x".to_string()));
    assert_eq!(o.plane, Plane::Control);
}

#[test]
fn every_request_is_answered_once() {
    let mut server = server_with_client(vec![Capability::ClientPublish]);
    server.advertise_channel(ClientId(1), &descriptor(1, "/a")).unwrap();
    server.advertise_channel(ClientId(1), &descriptor(2, "/b")).unwrap();
    let requests = vec![
        Subscription { id: SubscriptionId(1), channel_id: ChannelId(1) },
        Subscription { id: SubscriptionId(1), channel_id: ChannelId(2) },
        Subscription { id: SubscriptionId(2), channel_id: ChannelId(3) },
        Subscription { id: SubscriptionId(3), channel_id: ChannelId(1) },
        Subscription { id: SubscriptionId(4), channel_id: ChannelId(2) },
    ];
    let r = server.on_subscribe(ClientId(1), &requests);
    // One event per accepted request, and the last one for the context.
    assert_eq!(r.outgoing.len() + r.events.len() - 1, requests.len());
    let r = server.on_advertise(ClientId(1), vec![client_channel(1), client_channel(1), client_channel(2)]);
    assert_eq!(r.outgoing.len() + r.events.len(), 3);
    let r = server.on_unadvertise(ClientId(1), &vec![ClientChannelId(1), ClientChannelId(1), ClientChannelId(9)]);
    assert_eq!(r.outgoing.len() + r.events.len(), 3);
}

#[test]
fn services_sharing_an_id_are_refused() {
    let mut server = server_with_client(vec![]);
    assert_eq!(
        server.add_services(vec![service(1, "a", Some("json")), service(1, "b", Some("json"))]).err(),
        Some(FoxgloveError::ServicesNotSupported)
    );
    let mut server = server_with_client(vec![Capability::Services]);
    assert_eq!(
        server.add_services(vec![service(1, "a", Some("json")), service(1, "b", Some("json"))]).err(),
        Some(FoxgloveError::DuplicateService("b".to_string()))
    );
    assert!(server.get_service(ServiceId(1)).is_none());
}

#[test]
fn unreadable_messages_are_answered() {

    assert!(answer_message_error(ClientId(1), MessageError::EmptyBinaryMessage).is_none());
    assert!(answer_message_error(ClientId(1), MessageError::UnhandledMessageType).is_none());
    let o = answer_message_error(ClientId(1), MessageError::Invalid("bad".to_string())).unwrap();
    assert_eq!(o.plane, Plane::Control);
    assert_eq!(status_text(&o), (StatusLevel::Error, "Invalid message: bad".to_string()));
}
