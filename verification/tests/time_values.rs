use foxglove::time::{nanoseconds_from_elapsed, normalize, Duration, RangeError, Timestamp};

#[test]
fn normalize_carries_whole_seconds() {
    assert_eq!(normalize(1, 1_500_000_000), (2, 500_000_000));
    assert_eq!(normalize(-4, 858_407_346), (-4, 858_407_346));
    assert_eq!(normalize(0, u32::MAX), (4, 294_967_295));
}

#[test]
fn duration_from_std_micros() {
    let d = Duration::try_from_std(std::time::Duration::from_micros(577_215)).unwrap();
    assert_eq!(d, Duration::new(0, 577_215_000));
}

#[test]
fn duration_from_std_too_large() {
    let r = Duration::try_from_std(std::time::Duration::from_secs(u64::MAX));
    assert_eq!(r, Err(RangeError::UpperBound));
}

#[test]
fn duration_saturates_at_maximum() {
    let d = Duration::saturating_from_std(std::time::Duration::from_secs(u64::MAX));
    assert_eq!(d, Duration::max_value());
    assert_eq!(d, Duration::new(i32::MAX, 999_999_999));
}

#[test]
fn duration_saturate_keeps_success() {
    let d = Duration::new(3, 4);
    assert_eq!(Duration::saturate(Ok(d)), d);
    assert_eq!(Duration::saturate(Err(RangeError::LowerBound)), Duration::min_value());
}

#[test]
fn timestamp_from_unix_epoch_is_minimum() {
    let t = Timestamp::try_from_system_time(std::time::SystemTime::UNIX_EPOCH).unwrap();
    assert_eq!(t, Timestamp::min_value());
}

#[test]
fn timestamp_before_epoch_saturates_to_minimum() {
    let before = std::time::SystemTime::UNIX_EPOCH
        .checked_sub(std::time::Duration::from_secs(1))
        .unwrap();
    assert_eq!(Timestamp::saturating_from_system_time(before), Timestamp::min_value());
    assert_eq!(Timestamp::try_from_system_time(before), Err(RangeError::LowerBound));
}

#[test]
fn timestamp_prost_fields_carry_nanoseconds() {
    let t = Timestamp::new(1, 2_000_000_001);
    assert_eq!(t.into_prost(), (3, 1));
}

#[test]
fn timestamp_encoding_matches_protobuf() {
    let t = Timestamp::new(1, 2);
    let mut buf = Vec::new();
    t.encode_raw(&mut buf);
    assert_eq!(buf, vec![0x08, 0x01, 0x10, 0x02]);
    assert_eq!(t.encoded_len(), 4);
}

#[test]
fn duration_encoding_matches_protobuf() {
    let d = Duration::new(0, 1_000_000_005);
    let mut buf = vec![0xff];
    d.encode_raw(&mut buf);
    assert_eq!(buf, vec![0xff, 0x08, 0x01, 0x10, 0x05]);
    assert_eq!(d.encoded_len(), 4);
    let zero = Duration::new(0, 0);
    assert_eq!(zero.encoded_len(), 0);
}

#[test]
fn clear_resets_fields() {
    let mut t = Timestamp::new(5, 6);
    t.clear();
    assert_eq!(t, Timestamp::new(0, 0));
    let mut d = Duration::new(-5, 6);
    d.clear();
    assert_eq!(d, Duration::new(0, 0));
}

#[test]
fn clock_reads_after_epoch() {
    let now = foxglove::time::nanoseconds_since_epoch();
    assert!(now > 1_600_000_000_000_000_000);
    let (secs, nanos) = foxglove::time::elapsed_since_epoch().unwrap();
    assert!(secs > 1_600_000_000);
    assert!(nanos < 1_000_000_000);
    let id = foxglove::websocket::server::generate_session_id();
    assert!(!id.is_empty() && id.chars().all(|c| c.is_ascii_digit()));
    assert!(id.parse::<u128>().unwrap() > 1_600_000_000_000);
}

#[test]
fn nanoseconds_of_an_offset() {
    assert_eq!(nanoseconds_from_elapsed(Some((2, 5))), 2_000_000_005);
    assert_eq!(nanoseconds_from_elapsed(None), 0);
    let big = u64::MAX / 1_000_000_000 + 1;
    let expected = ((big as u128 * 1_000_000_000 + 7) % (1u128 << 64)) as u64;
    assert_eq!(nanoseconds_from_elapsed(Some((big, 7))), expected);
}

#[test]
fn multi_byte_and_negative_encodings() {
    let mut buf = Vec::new();
    Timestamp::new(300, 0).encode_raw(&mut buf);
    assert_eq!(buf, vec![0x08, 0xac, 0x02]);
    let mut buf = Vec::new();
    Duration::new(-1, 0).encode_raw(&mut buf);
    assert_eq!(buf, vec![0x08, 0xff, 0xff, 0xff, 0xff, 0xff, 0xff, 0xff, 0xff, 0xff, 0x01]);
    assert_eq!(Duration::new(-1, 0).encoded_len(), 11);
}
