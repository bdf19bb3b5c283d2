use foxglove::ids::{CallId, ClientChannelId, ServiceId, SubscriptionId};
use foxglove::websocket::frames::{
    encode_fetch_asset_data, encode_fetch_asset_error, encode_message_data, encode_service_call_response,
    encode_time, parse_client_frame, FrameError,
};
use foxglove::websocket::protocol::ClientMessage;

#[test]
fn server_frames_are_little_endian() {
    assert_eq!(
        encode_message_data(SubscriptionId(0x01020304), 0x1122334455667788, b"ab"),
        vec![1, 4, 3, 2, 1, 0x88, 0x77, 0x66, 0x55, 0x44, 0x33, 0x22, 0x11, b'a', b'b']
    );
    assert_eq!(encode_time(1), vec![2, 1, 0, 0, 0, 0, 0, 0, 0]);
    assert_eq!(
        encode_service_call_response(ServiceId(1), CallId(2), "json", b"x"),
        vec![3, 1, 0, 0, 0, 2, 0, 0, 0, 4, 0, 0, 0, b'j', b's', b'o', b'n', b'x']
    );
    assert_eq!(encode_fetch_asset_data(7, b"d"), vec![4, 7, 0, 0, 0, 0, 0, 0, 0, 0, b'd']);
    assert_eq!(encode_fetch_asset_error(7, "no"), vec![4, 7, 0, 0, 0, 1, 2, 0, 0, 0, b'n', b'o']);
}

#[test]
fn client_frames_are_read() {
    assert_eq!(parse_client_frame(&[]).err(), Some(FrameError::Empty));
    assert_eq!(parse_client_frame(&[1, 0, 0]).err(), Some(FrameError::TooShort));
    assert_eq!(parse_client_frame(&[9]).err(), Some(FrameError::UnknownOpcode(9)));
    match parse_client_frame(&[1, 5, 0, 0, 0, 9, 8]).unwrap() {
        ClientMessage::MessageData { channel_id, data } => {
            assert_eq!(channel_id, ClientChannelId(5));
            assert_eq!(data, vec![9, 8]);
        }
        other => panic!("unexpected {:?}", other),
    }
    let call = [2, 1, 0, 0, 0, 2, 0, 0, 0, 2, 0, 0, 0, b'j', b's', 7];
    match parse_client_frame(&call).unwrap() {
        ClientMessage::ServiceCallRequest { service_id, call_id, encoding, payload } => {
            assert_eq!(service_id, ServiceId(1));
            assert_eq!(call_id, CallId(2));
            assert_eq!(encoding, "js");
            assert_eq!(payload, vec![7]);
        }
        other => panic!("unexpected {:?}", other),
    }
    assert_eq!(parse_client_frame(&[2, 1, 0, 0, 0, 2, 0, 0, 0, 5, 0, 0, 0, b'j']).err(), Some(FrameError::TooShort));
    assert!(matches!(
        parse_client_frame(&[2, 1, 0, 0, 0, 2, 0, 0, 0, 1, 0, 0, 0, 0xff]),
        Err(FrameError::InvalidEncoding(m)) if m == "invalid utf-8 sequence of 1 bytes from index 0"
    ));
}
