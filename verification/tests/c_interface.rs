use foxglove::capi::{
    self,
    channel_get_id, channel_log, raw_channel_create, result_to_c, server_broadcast_time, server_clear_session,
    server_get_port, server_publish_status, server_remove_status, server_start_options, server_stop, utf8_text,
    FoxgloveChannel, FoxgloveDuration, FoxgloveError, FoxgloveLogLevel, FoxgloveMcapCompression, FoxgloveMcapOptions,
    FoxgloveSchema, FoxgloveServerCapability, FoxgloveServerCapabilityBitFlags, FoxgloveServerStatusLevel,
    FoxgloveTimestamp, FoxgloveWebSocketServer, ChunkCompression, FOXGLOVE_SERVER_CAPABILITY_ASSETS,
    FOXGLOVE_SERVER_CAPABILITY_CLIENT_PUBLISH, FOXGLOVE_SERVER_CAPABILITY_TIME,
};
use foxglove::error::FoxgloveError as SdkError;
use foxglove::ids::{ClientId, IdCounter, SinkId};
use foxglove::time::{Duration, Timestamp};
use foxglove::websocket::protocol::{Capability, Plane, ServerMessage, StatusLevel};
use foxglove::websocket::server::{Server, ServerOptions};

fn running_server() -> FoxgloveWebSocketServer {
    let mut server = Server::new(ServerOptions {
        session_id: Some("s".to_string()),
        name: None,
        message_backlog_size: Some(8),
        capabilities: Some(vec![Capability::Time]),
        services: Vec::new(),
        supported_encodings: None,
        has_fetch_asset_handler: false,
    });
    server.start().unwrap();
    server.set_port(1234);
    server.register_client(ClientId(1), SinkId(1));
    FoxgloveWebSocketServer::new(server)
}

#[test]
fn capability_flags_in_declared_order() {
    let caps = FoxgloveServerCapability {
        flags: FOXGLOVE_SERVER_CAPABILITY_ASSETS | FOXGLOVE_SERVER_CAPABILITY_CLIENT_PUBLISH | 0x80,
    };
    let list = FoxgloveServerCapabilityBitFlags::from_capability(caps).iter_websocket_capabilities();
    assert_eq!(list, vec![Capability::ClientPublish, Capability::Assets]);
    let all = FoxgloveServerCapability { flags: 0x3f };
    assert_eq!(FoxgloveServerCapabilityBitFlags::from_capability(all).iter_websocket_capabilities().len(), 6);
    let none = FoxgloveServerCapability { flags: 0 };
    assert!(FoxgloveServerCapabilityBitFlags::from_capability(none).iter_websocket_capabilities().is_empty());
    assert_eq!(FOXGLOVE_SERVER_CAPABILITY_TIME, 1 << 3);
}

#[test]
fn error_codes_and_texts() {
    assert_eq!(FoxgloveError::from_sdk(&SdkError::Bind("x".to_string())), FoxgloveError::Bind);
    assert_eq!(FoxgloveError::from_sdk(&SdkError::Unspecified("x".to_string())), FoxgloveError::Unspecified);
    assert_eq!(FoxgloveError::from_sdk(&SdkError::ConnectionGraphNotSupported), FoxgloveError::ConnectionGraphNotSupported);
    assert_eq!(FoxgloveError::Success.to_str(), "Ok");
    assert_eq!(FoxgloveError::Bind.to_str(), "Bind Error");
    assert_eq!(FoxgloveError::Utf8Error.to_str(), "UTF-8 Error");
    assert_eq!(FoxgloveError::Base64DecodeError.to_str(), "Base64 decode error");
    assert_eq!(FoxgloveError::Unspecified.to_str(), "Unspecified Error");
}

#[test]
fn result_to_c_splits_result() {
    assert_eq!(result_to_c::<u8>(Ok(3)), (FoxgloveError::Success, Some(3)));
    assert_eq!(result_to_c::<u8>(Err(SdkError::SinkClosed)), (FoxgloveError::SinkClosed, None));
}

#[test]
fn utf8_errors_carry_their_cause() {
    assert_eq!(utf8_text(b"ok", "name is invalid: "), Ok("ok".to_string()));
    assert_eq!(
        utf8_text(&[0xff], "name is invalid: "),
        Err("name is invalid: invalid utf-8 sequence of 1 bytes from index 0".to_string())
    );
}

#[test]
fn status_level_and_log_level_names() {
    assert_eq!(FoxgloveServerStatusLevel::Warning.to_status_level(), StatusLevel::Warning);
    assert_eq!(FoxgloveLogLevel::Off.initial_level(), "off");
    assert_eq!(FoxgloveLogLevel::Warn.initial_level(), "warn");
    assert_eq!(FoxgloveLogLevel::Debug.initial_level(), "debug");
}

#[test]
fn time_values_convert_field_by_field() {
    assert_eq!(FoxgloveTimestamp { sec: 1, nsec: 2 }.to_timestamp(), Timestamp::new(1, 2));
    assert_eq!(FoxgloveDuration { sec: -1, nsec: 2 }.to_duration(), Duration::new(-1, 2));
}

fn mcap_options(profile: Vec<u8>, compression: FoxgloveMcapCompression, chunk_size: u64) -> FoxgloveMcapOptions {
    FoxgloveMcapOptions {
        path: b"out.mcap".to_vec(),
        truncate: true,
        compression,
        profile,
        chunk_size,
        use_chunks: true,
        disable_seeking: false,
        emit_statistics: true,
        emit_summary_offsets: true,
        emit_message_indexes: true,
        emit_chunk_indexes: true,
        emit_attachment_indexes: false,
        emit_metadata_indexes: false,
        repeat_channels: true,
        repeat_schemas: false,
    }
}

#[test]
fn mcap_options_to_settings() {
    let s = mcap_options(b"ros2".to_vec(), FoxgloveMcapCompression::Lz4, 0).to_write_options().unwrap();
    assert_eq!(s.profile, "ros2");
    assert_eq!(s.compression, Some(ChunkCompression::Lz4));
    assert_eq!(s.chunk_size, None);
    assert!(s.repeat_channels && !s.repeat_schemas);
    let s = mcap_options(vec![], FoxgloveMcapCompression::Uncompressed, 1024).to_write_options().unwrap();
    assert_eq!(s.compression, None);
    assert_eq!(s.chunk_size, Some(1024));
    match mcap_options(vec![0xc3], FoxgloveMcapCompression::Zstd, 0).to_write_options() {
        Err(SdkError::ValueError(m)) => assert!(m.starts_with("profile is invalid: ")),
        _ => panic!("expected a value error"),
    }
    let mut bad_path = mcap_options(vec![], FoxgloveMcapCompression::Zstd, 0);
    bad_path.path = vec![0xff];
    assert!(matches!(bad_path.open_plan(), Err(SdkError::Utf8Error(m)) if m.starts_with("path is invalid: ")));
    let (path, settings) = mcap_options(vec![], FoxgloveMcapCompression::Zstd, 0).open_plan().unwrap();
    assert_eq!(path, "out.mcap");
    assert_eq!(settings.compression, Some(ChunkCompression::Zstd));
}

#[test]
fn raw_channel_from_c() {
    let mut ids = IdCounter::new();
    let schema = FoxgloveSchema { name: b"P".to_vec(), encoding: b"json".to_vec(), data: vec![1] };
    let mut channel = raw_channel_create(&mut ids, b"/t", b"json", Some(&schema)).unwrap();
    assert_eq!(channel.0.topic(), "/t");
    assert_eq!(channel.0.schema().unwrap().data, vec![1]);
    assert_eq!(channel_get_id(Some(&channel)), 1);
    assert_eq!(channel_get_id(None), 0);
    assert_eq!(channel_log(Some(&mut channel), Some(b"x"), Some(5)), FoxgloveError::Success);
    assert_eq!(channel_log(Some(&mut channel), Some(b""), None), FoxgloveError::ValueError);
    assert_eq!(channel_log(Some(&mut channel), None, None), FoxgloveError::ValueError);
    assert_eq!(channel_log(None, Some(b"x"), None), FoxgloveError::ValueError);
    let bad = FoxgloveSchema { name: b"P".to_vec(), encoding: vec![0xff], data: vec![] };
    assert!(matches!(raw_channel_create(&mut ids, b"/t", b"json", Some(&bad)),
        Err(SdkError::Utf8Error(m)) if m.starts_with("schema encoding invalid: ")));
    assert!(matches!(raw_channel_create(&mut ids, &[0xff], b"json", None),
        Err(SdkError::Utf8Error(m)) if m.starts_with("topic invalid: ")));
    let next: FoxgloveChannel = raw_channel_create(&mut ids, b"/u", b"json", None).unwrap();
    assert_eq!(next.0.id().as_u64(), 2);
}

#[test]
fn server_functions_check_their_arguments() {
    let mut handle = running_server();
    assert_eq!(server_get_port(Some(&handle)), 1234);
    assert_eq!(server_get_port(None), 0);
    let (code, out) = server_broadcast_time(Some(&handle), 7);
    assert_eq!(code, FoxgloveError::Success);
    assert!(matches!(out[0].message, ServerMessage::Time { timestamp: 7 }));
    assert_eq!(server_broadcast_time(None, 7).0, FoxgloveError::ValueError);
    let (code, out) = server_publish_status(Some(&handle), FoxgloveServerStatusLevel::Info, b"hi", Some(b"id"));
    assert_eq!(code, FoxgloveError::Success);
    assert_eq!(out[0].plane, Plane::Data);
    assert_eq!(server_publish_status(Some(&handle), FoxgloveServerStatusLevel::Info, &[0xff], None).0, FoxgloveError::Utf8Error);
    assert_eq!(server_remove_status(Some(&handle), None).0, FoxgloveError::ValueError);
    assert_eq!(server_remove_status(Some(&handle), Some(&vec![vec![0xff]])).0, FoxgloveError::Utf8Error);
    assert_eq!(server_remove_status(Some(&handle), Some(&vec![b"id".to_vec()])).1.len(), 1);
    assert_eq!(server_clear_session(&mut handle, Some(&[0xff])).0, FoxgloveError::Utf8Error);
    let (code, out) = server_clear_session(&mut handle, Some(b"new"));
    assert_eq!(code, FoxgloveError::Success);
    assert!(matches!(&out[0].message, ServerMessage::ServerInfo { session_id, .. } if session_id == "new"));
    let (code, closed) = server_stop(&mut handle);
    assert_eq!(code, FoxgloveError::Success);
    assert_eq!(closed, vec![ClientId(1)]);
    assert_eq!(server_stop(&mut handle).0, FoxgloveError::SinkClosed);
    assert_eq!(server_broadcast_time(Some(&handle), 7).0, FoxgloveError::SinkClosed);
    assert_eq!(server_get_port(Some(&handle)), 0);
}

#[test]
fn start_options_from_c() {
    let caps = FoxgloveServerCapability { flags: FOXGLOVE_SERVER_CAPABILITY_TIME };
    let (opts, host) = server_start_options(b"srv", b"127.0.0.1", caps, Some(&vec![Some(b"json".to_vec())]), 1, false).unwrap();
    assert_eq!(host, "127.0.0.1");
    assert_eq!(opts.name, Some("srv".to_string()));
    assert_eq!(opts.capabilities, Some(vec![Capability::Time]));
    assert_eq!(opts.supported_encodings, Some(vec!["json".to_string()]));
    let (opts, _) = server_start_options(b"srv", b"h", caps, None, 0, true).unwrap();
    assert_eq!(opts.supported_encodings, None);
    assert!(opts.has_fetch_asset_handler);
    assert!(matches!(server_start_options(b"srv", b"h", caps, None, 2, false),
        Err(SdkError::ValueError(m)) if m == "supported_encodings is null"));
    assert!(matches!(server_start_options(b"srv", b"h", caps, Some(&vec![Some(b"a".to_vec()), None]), 2, false),
        Err(SdkError::ValueError(m)) if m == "encoding in supported_encodings is null"));
    assert!(matches!(server_start_options(b"srv", b"h", caps, Some(&vec![Some(vec![0xff]), None]), 2, false),
        Err(SdkError::Utf8Error(m)) if m.starts_with("encoding in supported_encodings is invalid: ")));
    assert!(matches!(server_start_options(&[0xff], b"h", caps, None, 0, false),
        Err(SdkError::Utf8Error(m)) if m.starts_with("name is invalid: ")));
    assert!(matches!(server_start_options(b"n", &[0xff], caps, None, 0, false),
        Err(SdkError::Utf8Error(m)) if m.starts_with("host is invalid: ")));
}

#[test]
fn no_sdk_error_is_success() {
    let errors = vec![
        SdkError::Unspecified(String::new()),
        SdkError::ValueError(String::new()),
        SdkError::Utf8Error(String::new()),
        SdkError::SinkClosed,
        SdkError::SchemaRequired,
        SdkError::MessageEncodingRequired,
        SdkError::ServerAlreadyStarted,
        SdkError::Bind(String::new()),
        SdkError::DuplicateService(String::new()),
        SdkError::MissingRequestEncoding(String::new()),
        SdkError::ServicesNotSupported,
        SdkError::ConnectionGraphNotSupported,
        SdkError::IoError(String::new()),
        SdkError::McapError(String::new()),
        SdkError::EncodeError(String::new()),
    ];
    for e in &errors {
        assert_ne!(FoxgloveError::from_sdk(e), FoxgloveError::Success);
    }
}

fn services_server(capabilities: Vec<Capability>) -> FoxgloveWebSocketServer {
    let mut server = Server::new(ServerOptions {
        session_id: None,
        name: None,
        message_backlog_size: None,
        capabilities: Some(capabilities),
        services: Vec::new(),
        supported_encodings: Some(vec!["json".to_string()]),
        has_fetch_asset_handler: false,
    });
    server.register_client(ClientId(1), SinkId(1));
    FoxgloveWebSocketServer::new(server)
}

fn plain_service(id: u32, name: &str) -> foxglove::websocket::protocol::Service {
    foxglove::websocket::protocol::Service {
        id: foxglove::ids::ServiceId(id),
        name: name.to_string(),
        schema: foxglove::websocket::protocol::ServiceSchema { name: "t".to_string(), request: None, response: None },
    }
}

#[test]
fn add_and_remove_service_from_c() {
    let mut handle = services_server(vec![]);
    assert_eq!(capi::server_add_service(&mut handle, plain_service(1, "a")).0, FoxgloveError::ServicesNotSupported);
    let mut handle = services_server(vec![Capability::Services]);
    let (code, out) = capi::server_add_service(&mut handle, plain_service(1, "a"));
    assert_eq!(code, FoxgloveError::Success);
    assert_eq!(out.len(), 1);
    assert_eq!(capi::server_add_service(&mut handle, plain_service(2, "a")).0, FoxgloveError::DuplicateService);
    assert_eq!(capi::server_remove_service(&mut handle, &[0xff]).0, FoxgloveError::Utf8Error);
    let (code, out) = capi::server_remove_service(&mut handle, b"a");
    assert_eq!(code, FoxgloveError::Success);
    assert!(matches!(&out[0].message, ServerMessage::UnadvertiseServices { service_ids } if service_ids.len() == 1));
    let (code, _) = capi::server_stop(&mut handle);
    assert_eq!(code, FoxgloveError::Success);
    assert_eq!(capi::server_add_service(&mut handle, plain_service(3, "c")).0, FoxgloveError::SinkClosed);
}

#[test]
fn publish_parameters_and_graph_from_c() {
    let handle = services_server(vec![Capability::Parameters]);
    assert_eq!(capi::server_publish_parameter_values(Some(&handle), None).0, FoxgloveError::ValueError);
    assert_eq!(capi::server_publish_parameter_values(None, Some(vec![])).0, FoxgloveError::ValueError);
    let (code, out) = capi::server_publish_parameter_values(Some(&handle), Some(vec![]));
    assert_eq!(code, FoxgloveError::Success);
    assert!(out.is_empty());
    let mut handle = services_server(vec![]);
    assert_eq!(capi::server_publish_connection_graph(&mut handle, None).0, FoxgloveError::ValueError);
    let graph = foxglove::websocket::protocol::ConnectionGraph::new();
    assert_eq!(
        capi::server_publish_connection_graph(&mut handle, Some(graph)).0,
        FoxgloveError::ConnectionGraphNotSupported
    );
    let mut handle = services_server(vec![Capability::ConnectionGraph]);
    let graph = foxglove::websocket::protocol::ConnectionGraph::new();
    assert_eq!(capi::server_publish_connection_graph(&mut handle, Some(graph)).0, FoxgloveError::Success);
}

#[test]
fn refused_log_leaves_channel_unchanged() {
    let mut ids = IdCounter::new();
    let mut channel = raw_channel_create(&mut ids, b"/t", b"json", None).unwrap();
    assert_eq!(channel.log_message(Some(b""), None), FoxgloveError::ValueError);
    assert_eq!(channel.log_message(None, None), FoxgloveError::ValueError);
    assert_eq!(channel.0.next_sequence(), 1);
    assert_eq!(channel.log_message(Some(b"x"), Some(1)), FoxgloveError::Success);
    let second = raw_channel_create(&mut ids, b"/u", b"json", None).unwrap();
    assert_eq!(second.0.id().as_u64(), channel.0.id().as_u64() + 1);
}
