//! Timestamps and durations in the Foxglove schema, and their translation to the protobuf
//! well-known types.
//!
//! The Foxglove schema keeps nanoseconds unsigned and always in the positive direction, while
//! protobuf expects at most one second's worth of nanoseconds. The translation is infallible: it
//! carries excess nanoseconds into the seconds field.

use vstd::prelude::*;

verus! {

/// Number of nanoseconds in one second.
pub const NANOS_PER_SEC: u32 = 1_000_000_000;

/// The instant, in nanoseconds, that a pair of seconds and nanoseconds stands for.
pub open spec fn total_nanos(sec: int, nsec: int) -> int {
    sec * 1_000_000_000 + nsec
}

/// Splitting a count of nanoseconds into whole seconds and a remainder keeps the total.
proof fn lemma_carry_keeps_total(sec: int, nsec: int)
    requires
        nsec >= 0,
    ensures
        total_nanos(sec + nsec / 1_000_000_000, nsec % 1_000_000_000) == total_nanos(sec, nsec),
        0 <= nsec % 1_000_000_000 < 1_000_000_000,
{
    vstd::arithmetic::div_mod::lemma_fundamental_div_mod(nsec, 1_000_000_000);
    assert(total_nanos(sec + nsec / 1_000_000_000, nsec % 1_000_000_000) == sec * 1_000_000_000
        + (nsec / 1_000_000_000) * 1_000_000_000 + nsec % 1_000_000_000) by (nonlinear_arith);
}

/// Converts time integers and carries excess nanoseconds into the seconds.
///
/// The result has fewer than one second's worth of nanoseconds, and stands for the same instant.
pub fn normalize(sec: i64, nsec: u32) -> (r: (i64, i32))
    requires
        sec <= i64::MAX - 4,
    ensures
        r.0 == sec + nsec / 1_000_000_000,
        r.1 == nsec % 1_000_000_000,
        0 <= r.1 < 1_000_000_000,
        total_nanos(r.0 as int, r.1 as int) == total_nanos(sec as int, nsec as int),
{
    proof {
        lemma_carry_keeps_total(sec as int, nsec as int);
    }
    if nsec < NANOS_PER_SEC {
        (sec, nsec as i32)
    } else {
        // Seconds come from a 32-bit integer, so adding at most four more cannot overflow.
        let div = nsec / NANOS_PER_SEC;
        let rem = nsec % NANOS_PER_SEC;
        (sec + div as i64, rem as i32)
    }
}

/// The error returned when a conversion falls outside the representable range.
#[derive(Debug, Clone, Copy, PartialEq, Eq, Structural)]
pub enum RangeError {
    /// The value is below the smallest representable value.
    LowerBound,
    /// The value is above the largest representable value.
    UpperBound,
}

/// The base-128 varint encoding of `v`: seven bits per byte, lowest first, the high bit set on
/// every byte but the last.
pub open spec fn varint(v: u64) -> Seq<u8>
    decreases v,
{
    if v < 128 {
        seq![v as u8]
    } else {
        seq![(v % 128 + 128) as u8] + varint(v / 128)
    }
}

/// The bits of a signed 64-bit integer read as an unsigned one.
pub open spec fn as_unsigned(v: int) -> u64 {
    if v >= 0 {
        v as u64
    } else {
        (v + 0x1_0000_0000_0000_0000) as u64
    }
}

/// The protobuf encoding of a message whose field 1 is the `int64` seconds and whose field 2 is
/// the `int32` nanoseconds: each field as its key and its varint, left out when zero; a negative
/// value is encoded as its 64-bit two's complement.
pub open spec fn seconds_nanos_wire(seconds: i64, nanos: i32) -> Seq<u8> {
    (if seconds != 0 {
        seq![0x08u8] + varint(as_unsigned(seconds as int))
    } else {
        Seq::empty()
    }) + (if nanos != 0 {
        seq![0x10u8] + varint(as_unsigned(nanos as int))
    } else {
        Seq::empty()
    })
}

/// The protobuf encoding of a `google.protobuf.Duration` with the given fields.
pub open spec fn prost_duration_wire(seconds: i64, nanos: i32) -> Seq<u8> {
    seconds_nanos_wire(seconds, nanos)
}

/// The protobuf encoding of a `google.protobuf.Timestamp` with the given fields.
pub open spec fn prost_timestamp_wire(seconds: i64, nanos: i32) -> Seq<u8> {
    seconds_nanos_wire(seconds, nanos)
}

/// Calls `prost::Message::encode_raw` on a `prost_types::Duration` built from the two fields.
/// The contract claims that its derived encoding appends `prost_duration_wire` of the fields, and
/// that nothing already in `buf` changes.
#[verifier::external_body]
fn prost_duration_encode_raw(seconds: i64, nanos: i32, buf: &mut Vec<u8>)
    ensures
        final(buf)@ == old(buf)@ + prost_duration_wire(seconds, nanos),
{
    prost::Message::encode_raw(&prost_types::Duration { seconds, nanos }, buf)
}

/// Calls `prost::Message::encoded_len` on a `prost_types::Duration` built from the two fields.
/// The contract claims that it is the number of bytes that `encode_raw` appends, as prost's own
/// `encode_to_vec` presumes.
#[verifier::external_body]
fn prost_duration_encoded_len(seconds: i64, nanos: i32) -> (r: usize)
    ensures
        r == prost_duration_wire(seconds, nanos).len(),
{
    prost::Message::encoded_len(&prost_types::Duration { seconds, nanos })
}

/// Calls `prost::Message::encode_raw` on a `prost_types::Timestamp` built from the two fields.
/// The contract claims that its derived encoding appends `prost_timestamp_wire` of the fields,
/// and that nothing already in `buf` changes.
#[verifier::external_body]
fn prost_timestamp_encode_raw(seconds: i64, nanos: i32, buf: &mut Vec<u8>)
    ensures
        final(buf)@ == old(buf)@ + prost_timestamp_wire(seconds, nanos),
{
    prost::Message::encode_raw(&prost_types::Timestamp { seconds, nanos }, buf)
}

/// Calls `prost::Message::encoded_len` on a `prost_types::Timestamp` built from the two fields.
/// The contract claims that it is the number of bytes that `encode_raw` appends.
#[verifier::external_body]
fn prost_timestamp_encoded_len(seconds: i64, nanos: i32) -> (r: usize)
    ensures
        r == prost_timestamp_wire(seconds, nanos).len(),
{
    prost::Message::encoded_len(&prost_types::Timestamp { seconds, nanos })
}

/// The whole seconds of a standard library duration, as `core::time::Duration::as_secs` gives
/// them.
pub uninterp spec fn std_duration_secs(d: core::time::Duration) -> u64;

/// The nanoseconds beyond the whole seconds of a standard library duration, as
/// `core::time::Duration::subsec_nanos` gives them.
pub uninterp spec fn std_duration_nanos(d: core::time::Duration) -> u32;

/// The time elapsed from the unix epoch to a system time, as
/// `std::time::SystemTime::duration_since` gives it; `None` for a time before the epoch.
pub uninterp spec fn system_time_elapsed(t: std::time::SystemTime) -> Option<core::time::Duration>;

/// Calls `core::time::Duration::as_secs`, whose result depends on the duration alone.
#[verifier::external_body]
fn std_duration_as_secs(d: &core::time::Duration) -> (r: u64)
    ensures
        r == std_duration_secs(*d),
{
    d.as_secs()
}

/// Calls `core::time::Duration::subsec_nanos`. As its documentation says, the result is the
/// fractional part of a second, under one billion; it depends on the duration alone.
#[verifier::external_body]
fn std_duration_subsec_nanos(d: &core::time::Duration) -> (r: u32)
    ensures
        r == std_duration_nanos(*d),
        r < 1_000_000_000,
{
    d.subsec_nanos()
}

#[verifier::external_type_specification]
#[verifier::external_body]
pub struct ExSystemTime(std::time::SystemTime);

/// Calls `std::time::SystemTime::duration_since` with the unix epoch. It returns `None` when the
/// time lies before the epoch; the result depends on the given time alone.
#[verifier::external_body]
fn system_time_since_epoch(time: &std::time::SystemTime) -> (r: Option<core::time::Duration>)
    ensures
        r == system_time_elapsed(*time),
{
    time.duration_since(std::time::UNIX_EPOCH).ok()
}

/// Calls `std::time::SystemTime::now`. Nothing is claimed of the result.
#[verifier::external_body]
fn system_time_now() -> (r: std::time::SystemTime) {
    std::time::SystemTime::now()
}

/// The offset of a system time from the unix epoch, as whole seconds and the nanoseconds
/// beyond them; `None` for a time before the epoch.
pub open spec fn unix_offset(t: std::time::SystemTime) -> Option<(u64, u32)> {
    match system_time_elapsed(t) {
        Some(d) => Some((std_duration_secs(d), std_duration_nanos(d))),
        None => None,
    }
}

/// Reads the clock: the whole seconds and the nanoseconds of the time elapsed since the unix
/// epoch, or `None` if the clock reads a time before the epoch.
pub fn elapsed_since_epoch() -> (r: Option<(u64, u32)>)
    ensures
        r matches Some(p) ==> p.1 < 1_000_000_000,
        exists|t: std::time::SystemTime| r == unix_offset(t),
{
    let now = system_time_now();
    let r = match system_time_since_epoch(&now) {
        Some(d) => Some((std_duration_as_secs(&d), std_duration_subsec_nanos(&d))),
        None => None,
    };
    assert(r == unix_offset(now));
    r
}

/// The nanoseconds of an offset from the unix epoch, given as whole seconds and the
/// nanoseconds beyond them, truncated to 64 bits; zero for a time before the epoch.
pub open spec fn nanoseconds_spec(elapsed: Option<(u64, u32)>) -> u64 {
    match elapsed {
        Some(p) => ((p.0 as int * 1_000_000_000 + p.1 as int) % 0x1_0000_0000_0000_0000) as u64,
        None => 0,
    }
}

/// Returns the nanoseconds of an offset from the unix epoch, truncated to 64 bits; zero for a
/// time before the epoch.
pub fn nanoseconds_from_elapsed(elapsed: Option<(u64, u32)>) -> (r: u64)
    ensures
        r == nanoseconds_spec(elapsed),
{
    match elapsed {
        Some(p) => {
            let total: u128 = p.0 as u128 * 1_000_000_000u128 + p.1 as u128;
            let r: u64 = (total % 0x1_0000_0000_0000_0000u128) as u64;
            r
        },
        None => 0,
    }
}

/// Returns the current time in nanoseconds since the unix epoch, truncated to 64 bits, or zero
/// if the clock reads a time before the epoch.
pub fn nanoseconds_since_epoch() -> (r: u64)
    ensures
        exists|e: Option<(u64, u32)>| (e matches Some(p) ==> p.1 < 1_000_000_000) && r == nanoseconds_spec(e),
{
    nanoseconds_from_elapsed(elapsed_since_epoch())
}

/// A signed, fixed-length span of time.
///
/// The duration is represented by a count of seconds (which may be negative), and a count of
/// fractional seconds at nanosecond resolution (which are always positive).
#[derive(Debug, Clone, Copy, PartialEq, Eq, Structural)]
pub struct Duration {
    /// Seconds offset.
    pub sec: i32,
    /// Nanoseconds offset in the positive direction.
    pub nsec: u32,
}

impl Duration {
    /// The maximum representable duration.
    pub open spec fn maximum() -> Duration {
        Duration { sec: i32::MAX, nsec: 999_999_999 }
    }

    /// The minimum representable duration.
    pub open spec fn minimum() -> Duration {
        Duration { sec: i32::MIN, nsec: 0 }
    }

    /// Returns the maximum representable duration.
    pub fn max_value() -> (d: Duration)
        ensures
            d == Duration::maximum(),
    {
        Duration { sec: 2147483647i32, nsec: 999_999_999u32 }
    }

    /// Returns the minimum representable duration.
    pub fn min_value() -> (d: Duration)
        ensures
            d == Duration::minimum(),
    {
        Duration { sec: -2147483648i32, nsec: 0u32 }
    }

    /// Creates a duration from its fields.
    pub fn new(sec: i32, nsec: u32) -> (d: Duration)
        ensures
            d.sec == sec,
            d.nsec == nsec,
    {
        Duration { sec, nsec }
    }

    /// The fields of the equivalent `google.protobuf.Duration`: nanoseconds beyond one second
    /// are carried into the seconds.
    pub open spec fn prost_fields(self) -> (i64, i32) {
        (
            (self.sec + self.nsec / 1_000_000_000) as i64,
            (self.nsec % 1_000_000_000) as i32,
        )
    }

    /// Returns the fields of the equivalent `google.protobuf.Duration`.
    pub fn into_prost(self) -> (r: (i64, i32))
        ensures
            r == self.prost_fields(),
            total_nanos(r.0 as int, r.1 as int) == total_nanos(self.sec as int, self.nsec as int),
    {
        normalize(self.sec as i64, self.nsec)
    }

    /// Appends the protobuf encoding of this duration to `buf`.
    pub fn encode_raw(&self, buf: &mut Vec<u8>)
        ensures
            final(buf)@ == old(buf)@ + prost_duration_wire(self.prost_fields().0, self.prost_fields().1),
    {
        let (seconds, nanos) = self.into_prost();
        prost_duration_encode_raw(seconds, nanos, buf);
    }

    /// Returns the length of the protobuf encoding of this duration.
    pub fn encoded_len(&self) -> (r: usize)
        ensures
            r == prost_duration_wire(self.prost_fields().0, self.prost_fields().1).len(),
    {
        let (seconds, nanos) = self.into_prost();
        prost_duration_encoded_len(seconds, nanos)
    }

    /// Resets the duration to zero.
    pub fn clear(&mut self)
        ensures
            final(self).sec == 0,
            final(self).nsec == 0,
    {
        self.sec = 0;
        self.nsec = 0;
    }

    /// Converts a count of whole seconds and the nanoseconds beyond them.
    ///
    /// Fails with `UpperBound` when the seconds do not fit in 32 signed bits.
    pub fn try_from_secs_nanos(secs: u64, subsec_nanos: u32) -> (r: Result<Duration, RangeError>)
        ensures
            secs > i32::MAX ==> r == Err::<Duration, RangeError>(RangeError::UpperBound),
            secs <= i32::MAX ==> r == Ok::<Duration, RangeError>(
                Duration { sec: secs as i32, nsec: subsec_nanos },
            ),
    {
        if secs > 2147483647u64 {
            return Err(RangeError::UpperBound);
        }
        Ok(Duration { sec: secs as i32, nsec: subsec_nanos })
    }

    /// Converts a standard library duration.
    ///
    /// Fails with `UpperBound` when its seconds do not fit in 32 signed bits.
    pub fn try_from_std(duration: core::time::Duration) -> (r: Result<Duration, RangeError>)
        ensures
            std_duration_secs(duration) > i32::MAX ==> r == Err::<Duration, RangeError>(RangeError::UpperBound),
            std_duration_secs(duration) <= i32::MAX ==> r == Ok::<Duration, RangeError>(
                Duration { sec: std_duration_secs(duration) as i32, nsec: std_duration_nanos(duration) },
            ),
            r matches Ok(d) ==> d.sec >= 0 && d.nsec < 1_000_000_000,
    {
        let secs = std_duration_as_secs(&duration);
        let nanos = std_duration_subsec_nanos(&duration);
        Self::try_from_secs_nanos(secs, nanos)
    }

    /// The nearest representable duration to the result of a conversion.
    pub open spec fn saturated(result: Result<Duration, RangeError>) -> Duration {
        match result {
            Ok(v) => v,
            Err(RangeError::LowerBound) => Duration::minimum(),
            Err(RangeError::UpperBound) => Duration::maximum(),
        }
    }

    /// The conversion of a standard library duration.
    pub open spec fn from_std_spec(duration: core::time::Duration) -> Result<Duration, RangeError> {
        if std_duration_secs(duration) > i32::MAX {
            Err(RangeError::UpperBound)
        } else {
            Ok(Duration { sec: std_duration_secs(duration) as i32, nsec: std_duration_nanos(duration) })
        }
    }

    /// Maps the result of a conversion to the nearest representable duration.
    pub fn saturate(result: Result<Duration, RangeError>) -> (d: Duration)
        ensures
            d == Duration::saturated(result),
            result matches Ok(v) ==> d == v,
            result == Err::<Duration, RangeError>(RangeError::LowerBound) ==> d == Duration::minimum(),
            result == Err::<Duration, RangeError>(RangeError::UpperBound) ==> d == Duration::maximum(),
    {
        match result {
            Ok(d) => d,
            Err(RangeError::LowerBound) => Duration::min_value(),
            Err(RangeError::UpperBound) => Duration::max_value(),
        }
    }

    /// Converts a standard library duration, saturating at the maximum.
    pub fn saturating_from_std(duration: core::time::Duration) -> (d: Duration)
        ensures
            d == Duration::saturated(Duration::from_std_spec(duration)),
            d.sec >= 0,
            d.nsec < 1_000_000_000,
    {
        let r = Self::try_from_std(duration);
        proof {
            match r {
                Ok(v) => {},
                Err(e) => { assert(r == Err::<Duration, RangeError>(e)); },
            }
        }
        Self::saturate(r)
    }
}

/// A timestamp, represented as an offset from a user-defined epoch.
#[derive(Debug, Clone, Copy, PartialEq, Eq, Structural)]
pub struct Timestamp {
    /// Seconds since epoch.
    pub sec: u32,
    /// Additional nanoseconds since epoch.
    pub nsec: u32,
}

impl Timestamp {
    /// The maximum representable timestamp.
    pub open spec fn maximum() -> Timestamp {
        Timestamp { sec: u32::MAX, nsec: 999_999_999 }
    }

    /// The minimum representable timestamp, the epoch itself.
    pub open spec fn minimum() -> Timestamp {
        Timestamp { sec: 0, nsec: 0 }
    }

    /// Returns the maximum representable timestamp.
    pub fn max_value() -> (t: Timestamp)
        ensures
            t == Timestamp::maximum(),
    {
        Timestamp { sec: 4294967295u32, nsec: 999_999_999u32 }
    }

    /// Returns the minimum representable timestamp.
    pub fn min_value() -> (t: Timestamp)
        ensures
            t == Timestamp::minimum(),
    {
        Timestamp { sec: 0u32, nsec: 0u32 }
    }

    /// Creates a timestamp from its fields.
    pub fn new(sec: u32, nsec: u32) -> (t: Timestamp)
        ensures
            t.sec == sec,
            t.nsec == nsec,
    {
        Timestamp { sec, nsec }
    }

    /// The fields of the equivalent `google.protobuf.Timestamp`: nanoseconds beyond one second
    /// are carried into the seconds.
    pub open spec fn prost_fields(self) -> (i64, i32) {
        (
            (self.sec + self.nsec / 1_000_000_000) as i64,
            (self.nsec % 1_000_000_000) as i32,
        )
    }

    /// Returns the fields of the equivalent `google.protobuf.Timestamp`.
    pub fn into_prost(self) -> (r: (i64, i32))
        ensures
            r == self.prost_fields(),
            total_nanos(r.0 as int, r.1 as int) == total_nanos(self.sec as int, self.nsec as int),
    {
        normalize(self.sec as i64, self.nsec)
    }

    /// Appends the protobuf encoding of this timestamp to `buf`.
    pub fn encode_raw(&self, buf: &mut Vec<u8>)
        ensures
            final(buf)@ == old(buf)@ + prost_timestamp_wire(self.prost_fields().0, self.prost_fields().1),
    {
        let (seconds, nanos) = self.into_prost();
        prost_timestamp_encode_raw(seconds, nanos, buf);
    }

    /// Returns the length of the protobuf encoding of this timestamp.
    pub fn encoded_len(&self) -> (r: usize)
        ensures
            r == prost_timestamp_wire(self.prost_fields().0, self.prost_fields().1).len(),
    {
        let (seconds, nanos) = self.into_prost();
        prost_timestamp_encoded_len(seconds, nanos)
    }

    /// Resets the timestamp to the epoch.
    pub fn clear(&mut self)
        ensures
            final(self).sec == 0,
            final(self).nsec == 0,
    {
        self.sec = 0;
        self.nsec = 0;
    }

    /// Converts the offset of a time from the unix epoch, given as whole seconds and the
    /// nanoseconds beyond them, or `None` for a time before the epoch.
    pub fn try_from_unix_offset(offset: Option<(u64, u32)>) -> (r: Result<Timestamp, RangeError>)
        ensures
            r == Timestamp::from_unix_offset_spec(offset),
            offset is None ==> r == Err::<Timestamp, RangeError>(RangeError::LowerBound),
            offset is Some && offset.unwrap().0 > u32::MAX ==> r == Err::<Timestamp, RangeError>(
                RangeError::UpperBound,
            ),
            offset is Some && offset.unwrap().0 <= u32::MAX ==> r == Ok::<Timestamp, RangeError>(
                Timestamp { sec: offset.unwrap().0 as u32, nsec: offset.unwrap().1 },
            ),
    {
        match offset {
            None => Err(RangeError::LowerBound),
            Some((secs, nanos)) => {
                if secs > 4294967295u64 {
                    Err(RangeError::UpperBound)
                } else {
                    Ok(Timestamp { sec: secs as u32, nsec: nanos })
                }
            },
        }
    }

    /// Converts a system time, presuming the unix epoch as the reference time.
    ///
    /// Fails with `LowerBound` for a time before the epoch, and with `UpperBound` for a time
    /// whose seconds do not fit in 32 unsigned bits.
    pub fn try_from_system_time(time: std::time::SystemTime) -> (r: Result<Timestamp, RangeError>)
        ensures
            r == Timestamp::from_unix_offset_spec(unix_offset(time)),
            system_time_elapsed(time) is None ==> r == Err::<Timestamp, RangeError>(RangeError::LowerBound),
            system_time_elapsed(time) matches Some(d) ==> (std_duration_secs(d) > u32::MAX ==> r == Err::<
                Timestamp,
                RangeError,
            >(RangeError::UpperBound)),
            system_time_elapsed(time) matches Some(d) ==> (std_duration_secs(d) <= u32::MAX ==> r == Ok::<
                Timestamp,
                RangeError,
            >(Timestamp { sec: std_duration_secs(d) as u32, nsec: std_duration_nanos(d) })),
            r matches Ok(t) ==> t.nsec < 1_000_000_000,
    {
        let offset = match system_time_since_epoch(&time) {
            Some(d) => Some((std_duration_as_secs(&d), std_duration_subsec_nanos(&d))),
            None => None,
        };
        Self::try_from_unix_offset(offset)
    }

    /// The nearest representable timestamp to the result of a conversion.
    pub open spec fn saturated(result: Result<Timestamp, RangeError>) -> Timestamp {
        match result {
            Ok(v) => v,
            Err(RangeError::LowerBound) => Timestamp::minimum(),
            Err(RangeError::UpperBound) => Timestamp::maximum(),
        }
    }

    /// The conversion of an offset from the unix epoch, as `try_from_unix_offset` makes it.
    pub open spec fn from_unix_offset_spec(offset: Option<(u64, u32)>) -> Result<Timestamp, RangeError> {
        match offset {
            None => Err(RangeError::LowerBound),
            Some(p) => if p.0 > u32::MAX {
                Err(RangeError::UpperBound)
            } else {
                Ok(Timestamp { sec: p.0 as u32, nsec: p.1 })
            },
        }
    }

    /// Maps the result of a conversion to the nearest representable timestamp.
    pub fn saturate(result: Result<Timestamp, RangeError>) -> (t: Timestamp)
        ensures
            t == Timestamp::saturated(result),
            result matches Ok(v) ==> t == v,
            result == Err::<Timestamp, RangeError>(RangeError::LowerBound) ==> t == Timestamp::minimum(),
            result == Err::<Timestamp, RangeError>(RangeError::UpperBound) ==> t == Timestamp::maximum(),
    {
        match result {
            Ok(t) => t,
            Err(RangeError::LowerBound) => Timestamp::min_value(),
            Err(RangeError::UpperBound) => Timestamp::max_value(),
        }
    }

    /// Converts a system time, saturating at the minimum and the maximum.
    pub fn saturating_from_system_time(time: std::time::SystemTime) -> (t: Timestamp)
        ensures
            t == Timestamp::saturated(Timestamp::from_unix_offset_spec(unix_offset(time))),
            t.nsec < 1_000_000_000,
    {
        let r = Self::try_from_system_time(time);
        proof {
            match r {
                Ok(v) => {},
                Err(e) => { assert(r == Err::<Timestamp, RangeError>(e)); },
            }
        }
        Self::saturate(r)
    }
}

} // verus!
