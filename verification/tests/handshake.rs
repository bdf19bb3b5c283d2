use foxglove::websocket::handshake::{accepts_subprotocol, offers_subprotocol, SUBPROTOCOL};

#[test]
fn subprotocol_among_comma_separated_names() {
    assert_eq!(SUBPROTOCOL, "foxglove.sdk.v1");
    assert!(offers_subprotocol("foxglove.sdk.v1"));
    assert!(offers_subprotocol("other, foxglove.sdk.v1"));
    assert!(offers_subprotocol(" foxglove.sdk.v1 ,other"));
    assert!(offers_subprotocol("a,\tfoxglove.sdk.v1\t,b"));
    assert!(!offers_subprotocol("foxglove.websocket.v1"));
    assert!(!offers_subprotocol("foxglove.sdk.v1x"));
    assert!(!offers_subprotocol("foxglove .sdk.v1"));
    assert!(!offers_subprotocol(""));
    assert!(!offers_subprotocol(","));
}

#[test]
fn any_header_may_offer_it() {
    assert!(accepts_subprotocol(&vec!["x".to_string(), "y, foxglove.sdk.v1".to_string()]));
    assert!(!accepts_subprotocol(&vec!["x".to_string()]));
    assert!(!accepts_subprotocol(&vec![]));
}

#[test]
fn agrees_with_split_and_trim() {
    let samples = [
        "\u{3000}foxglove.sdk.v1\u{a0}",
        "\u{200b}foxglove.sdk.v1",
        "x,\u{85}foxglove.sdk.v1\u{2029},y",
        "foxglove.sdk.v1,",
        ",,foxglove.sdk.v1,,",
        "\u{1680}\u{2000}\u{200a}foxglove.sdk.v1\u{202f}\u{205f}\u{2028}",
        "\u{1c}foxglove.sdk.v1",
        "foxglove.sdk.v1\u{feff}",
    ];
    for s in samples {
        let expected = s.split(',').any(|v| v.trim() == SUBPROTOCOL);
        assert_eq!(offers_subprotocol(s), expected, "{:?}", s);
    }
}
