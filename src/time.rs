use vstd::prelude::*;

use chrono::{DateTime, FixedOffset, Local};

verus! {

/// Whether chrono accepts `secs` seconds and `nanos` nanoseconds since the
/// Unix epoch as an instant (`DateTime::from_timestamp` returns `Some`).
pub uninterp spec fn utc_representable(secs: i64, nanos: u32) -> bool;

/// The RFC 3339 text chrono writes for an instant shown at a fixed offset.
pub uninterp spec fn rfc3339_of(secs: i64, nanos: u32, offset: i32) -> Seq<char>;

pub open spec fn decimal_digit(d: int) -> char {
    seq!['0', '1', '2', '3', '4', '5', '6', '7', '8', '9'][d]
}

/// A number below 100 written with two digits.
pub open spec fn two_digits(n: int) -> Seq<char> {
    seq![decimal_digit(n / 10), decimal_digit(n % 10)]
}

/// `HH:MM:SS` of the local wall-clock time; a leap second shows as second 60.
pub open spec fn clock_text(secs: i64, nanos: u32, offset: i32) -> Seq<char> {
    let day_secs = (secs + offset) % 86400;
    let leap: int = if nanos >= 1_000_000_000 { 1 } else { 0 };
    two_digits(day_secs / 3600) + seq![':'] + two_digits((day_secs % 3600) / 60) + seq![':']
        + two_digits(day_secs % 60 + leap)
}

/// Reads the clock: chrono's `Local::now`, split into seconds and nanoseconds since
/// the epoch and the local offset east of UTC. `DateTime::from_timestamp` is
/// documented to round-trip with `timestamp` and `timestamp_subsec_nanos`, and a
/// `FixedOffset` lies strictly within one day.
#[verifier::external_body]
fn local_now() -> (r: (i64, u32, i32))
    ensures
        utc_representable(r.0, r.1),
        -86400 < r.2 < 86400,
{
    let now = Local::now();
    (now.timestamp(), now.timestamp_subsec_nanos(), now.offset().local_minus_utc())
}

/// Relies on chrono's `DateTime::from_timestamp`, which tells whether it accepts
/// the instant.
#[verifier::external_body]
fn representable(secs: i64, nanos: u32) -> (r: bool)
    ensures
        r == utc_representable(secs, nanos),
{
    DateTime::from_timestamp(secs, nanos).is_some()
}

/// Relies on chrono's `DateTime::to_rfc3339` for the instant shown at the offset.
#[verifier::external_body]
fn format_rfc3339(secs: i64, nanos: u32, offset: i32) -> (r: String)
    requires
        utc_representable(secs, nanos),
        -86400 < offset < 86400,
    ensures
        r@ == rfc3339_of(secs, nanos, offset),
{
    match (DateTime::from_timestamp(secs, nanos), FixedOffset::east_opt(offset)) {
        (Some(utc), Some(off)) => utc.with_timezone(&off).to_rfc3339(),
        _ => String::new(),
    }
}

/// Relies on chrono's `format("%H:%M:%S")` of the local time at the offset: two
/// digits each of hour, minute and second, the second counting a leap second.
#[verifier::external_body]
fn format_clock(secs: i64, nanos: u32, offset: i32) -> (r: String)
    requires
        utc_representable(secs, nanos),
        -86400 < offset < 86400,
    ensures
        r@ == clock_text(secs, nanos, offset),
{
    match (DateTime::from_timestamp(secs, nanos), FixedOffset::east_opt(offset)) {
        (Some(utc), Some(off)) => utc.with_timezone(&off).format("%H:%M:%S").to_string(),
        _ => String::new(),
    }
}

/// An instant with the local offset it was observed at.
#[derive(Clone, Copy, Debug, PartialEq, Eq, Structural)]
pub struct Timestamp {
    /// Whole seconds since the Unix epoch.
    pub secs: i64,
    /// Nanoseconds past `secs`; at or above one second only within a leap second.
    pub nanos: u32,
    /// Local offset east of UTC, in seconds.
    pub offset: i32,
}

impl Timestamp {
    pub open spec fn wf(self) -> bool {
        utc_representable(self.secs, self.nanos) && -86400 < self.offset < 86400
    }

    /// Strictly earlier instant; the offset plays no part.
    pub open spec fn before(self, other: Timestamp) -> bool {
        self.secs < other.secs || (self.secs == other.secs && self.nanos < other.nanos)
    }

    /// A timestamp from its parts, or `None` where they name no instant.
    pub fn new(secs: i64, nanos: u32, offset: i32) -> (r: Option<Timestamp>)
        ensures
            r is Some <==> (utc_representable(secs, nanos) && -86400 < offset < 86400),
            r matches Some(t) ==> t.secs == secs && t.nanos == nanos && t.offset == offset,
    {
        if -86400 < offset && offset < 86400 && representable(secs, nanos) {
            Some(Timestamp { secs, nanos, offset })
        } else {
            None
        }
    }

    /// The current time.
    pub fn now() -> (r: Timestamp)
        ensures
            r.wf(),
    {
        let (secs, nanos, offset) = local_now();
        Timestamp { secs, nanos, offset }
    }

    pub fn is_before(&self, other: &Timestamp) -> (r: bool)
        ensures
            r == self.before(*other),
    {
        self.secs < other.secs || (self.secs == other.secs && self.nanos < other.nanos)
    }

    pub fn to_rfc3339(&self) -> (r: String)
        requires
            self.wf(),
        ensures
            r@ == rfc3339_of(self.secs, self.nanos, self.offset),
    {
        format_rfc3339(self.secs, self.nanos, self.offset)
    }

    /// The local wall-clock time as `HH:MM:SS`.
    pub fn clock(&self) -> (r: String)
        requires
            self.wf(),
        ensures
            r@ == clock_text(self.secs, self.nanos, self.offset),
    {
        format_clock(self.secs, self.nanos, self.offset)
    }
}

} // verus!
