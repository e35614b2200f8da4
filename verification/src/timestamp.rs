//! Instants in UTC.

use vstd::prelude::*;
use chrono::TimeZone;

verus! {

/// An instant: whole seconds since 1970-01-01T00:00:00Z, and nanoseconds
/// within the second (a leap second reaches past one thousand million).
#[derive(Clone, Copy, Debug, PartialEq, Eq, Structural)]
pub struct Timestamp {
    pub secs: i64,
    pub nanos: u32,
}

/// The first millisecond that is an instant: the year 262144 BCE begins.
pub const MIN_MILLIS: i64 = -8334601228800000;

/// The last millisecond that is an instant: the year 262142 CE ends.
pub const MAX_MILLIS: i64 = 8210266876799999;

impl Timestamp {
    /// Whether the clock may give this instant: it lies in the calendar and in no
    /// leap second.
    pub open spec fn may_be_now(self) -> bool {
        MIN_MILLIS <= self.secs * 1000 <= MAX_MILLIS && self.nanos < 1_000_000_000
    }

    /// Whether this instant comes later than `other`.
    pub open spec fn after(self, other: Timestamp) -> bool {
        self.secs > other.secs || (self.secs == other.secs && self.nanos > other.nanos)
    }

    /// Whether this instant comes later than `other`.
    pub fn is_after(self, other: Timestamp) -> (r: bool)
        ensures
            r == self.after(other),
    {
        self.secs > other.secs || (self.secs == other.secs && self.nanos > other.nanos)
    }

    /// The instant that lies `ms` milliseconds after 1970-01-01T00:00:00Z.
    pub fn from_millis(ms: i64) -> (instant: Option<Timestamp>)
        ensures
            instant == instant_of_millis(ms),
    {
        match utc_of_millis(ms) {
            Some((secs, nanos)) => Some(Timestamp { secs, nanos }),
            None => None,
        }
    }

    /// The instant that an RFC 3339 text names.
    pub fn from_rfc3339(s: &str) -> (instant: Option<Timestamp>)
        ensures
            instant == instant_of_rfc3339(s@),
    {
        match utc_of_rfc3339(s) {
            Some((secs, nanos)) => Some(Timestamp { secs, nanos }),
            None => None,
        }
    }

    /// The present instant. Which one it is, is for the clock to say; it lies
    /// in the calendar and in no leap second.
    pub fn now() -> (instant: Timestamp)
        ensures
            instant.may_be_now(),
    {
        let (secs, nanos) = utc_now();
        Timestamp { secs, nanos }
    }
}

/// The instant at a count of milliseconds, none outside the calendar.
pub open spec fn instant_of_millis(ms: i64) -> Option<Timestamp> {
    if MIN_MILLIS <= ms <= MAX_MILLIS {
        Some(Timestamp { secs: (ms as int / 1000) as i64, nanos: ((ms as int % 1000) * 1_000_000) as u32 })
    } else {
        None
    }
}

/// The seconds and nanoseconds of the instant that
/// `chrono::DateTime::parse_from_rfc3339` reads out of a text, none where it
/// fails.
pub uninterp spec fn rfc3339_utc(s: Seq<char>) -> Option<(i64, u32)>;

/// The instant that an RFC 3339 text names.
pub open spec fn instant_of_rfc3339(s: Seq<char>) -> Option<Timestamp> {
    match rfc3339_utc(s) {
        Some((secs, nanos)) => Some(Timestamp { secs, nanos }),
        None => None,
    }
}

/// The order of instants is strict and total.
pub proof fn instants_are_ordered(a: Timestamp, b: Timestamp, c: Timestamp)
    ensures
        !a.after(a),
        a == b || a.after(b) || b.after(a),
        a.after(b) ==> !b.after(a),
        a.after(b) && b.after(c) ==> a.after(c),
{
}

/// Later milliseconds are later instants.
pub proof fn millis_keep_their_order(a: i64, b: i64)
    requires
        instant_of_millis(a) is Some,
        instant_of_millis(b) is Some,
    ensures
        (instant_of_millis(a)->0).after(instant_of_millis(b)->0) <==> a > b,
{
}

/// Calls `chrono::TimeZone::timestamp_millis_opt` on `chrono::Utc` and takes
/// the single result. Trusted: there is one for each millisecond of chrono's
/// calendar and for no other, at the count's whole seconds, rounded down, and
/// the rest in nanoseconds.
#[verifier::external_body]
fn utc_of_millis(ms: i64) -> (utc: Option<(i64, u32)>)
    ensures
        utc is Some <==> MIN_MILLIS <= ms <= MAX_MILLIS,
        utc matches Some((secs, nanos)) ==> secs == ms as int / 1000 && nanos == (ms as int % 1000)
            * 1_000_000,
{
    chrono::Utc.timestamp_millis_opt(ms).single().map(|t| (t.timestamp(), t.timestamp_subsec_nanos()))
}

/// Calls `chrono::DateTime::parse_from_rfc3339` and takes the result to UTC.
/// Trusted: whether it succeeds, and the instant it then gives, follow from the
/// text alone.
#[verifier::external_body]
fn utc_of_rfc3339(s: &str) -> (utc: Option<(i64, u32)>)
    ensures
        utc == rfc3339_utc(s@),
{
    let parsed = chrono::DateTime::parse_from_rfc3339(s).ok();
    parsed.map(|t| t.with_timezone(&chrono::Utc)).map(|t| (t.timestamp(), t.timestamp_subsec_nanos()))
}

/// Calls `chrono::Utc::now`. Trusted: the second lies in chrono's calendar, and
/// the nanoseconds stay within the second. Which second it is depends on the
/// clock and is left open. The call takes the clock to stand after 1970 began
/// and before the calendar ends, and panics where it does not.
#[verifier::external_body]
fn utc_now() -> (utc: (i64, u32))
    ensures
        MIN_MILLIS <= utc.0 * 1000 <= MAX_MILLIS,
        utc.1 < 1_000_000_000,
{
    let t = chrono::Utc::now();
    (t.timestamp(), t.timestamp_subsec_nanos())
}

/// Instants are ordered by their seconds, and within a second by their
/// nanoseconds.
pub proof fn seconds_come_before_nanoseconds(a: Timestamp, b: Timestamp)
    ensures
        a.secs > b.secs ==> a.after(b),
        a.secs < b.secs ==> !a.after(b),
        a.secs == b.secs ==> (a.after(b) <==> a.nanos > b.nanos),
{
}

/// The instant at a count of milliseconds lies that many milliseconds from the
/// start of 1970, and there is one for each millisecond of the calendar.
pub proof fn millis_are_counted(ms: i64)
    ensures
        instant_of_millis(ms) is Some <==> -8334601228800000 <= ms <= 8210266876799999,
        instant_of_millis(ms) matches Some(t) ==> {
            &&& t.secs * 1_000_000_000 + t.nanos == ms * 1_000_000
            &&& t.nanos < 1_000_000_000
        },
{
}

/// The instant of an RFC 3339 text is what chrono reads.
pub proof fn texts_are_read_by_chrono(s: Seq<char>)
    ensures
        rfc3339_utc(s) matches Some((secs, nanos)) ==> instant_of_rfc3339(s) == Some(
            Timestamp { secs, nanos },
        ),
        rfc3339_utc(s) is None ==> instant_of_rfc3339(s) is None,
{
}

/// The clock gives an instant of the calendar that lies in no leap second.
pub proof fn the_clock_keeps_to_the_calendar(t: Timestamp)
    ensures
        t.may_be_now() <==> -8334601228800000 <= t.secs * 1000 <= 8210266876799999 && t.nanos
            < 1_000_000_000,
{
}

} // verus!
