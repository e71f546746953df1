//! Points in time and spans of time.
use vstd::prelude::*;

verus! {

/// First second, counted from the Unix epoch, that a calendar time can have.
pub const MIN_SECS: i64 = -8_334_601_228_800;

/// Last second, counted from the Unix epoch, that a calendar time can have.
pub const MAX_SECS: i64 = 8_210_266_876_799;

/// A point in time: seconds since the Unix epoch, and the nanoseconds on top.
#[derive(Debug, Clone, Copy, PartialEq, Eq, Structural)]
pub struct Timestamp {
    pub secs: i64,
    pub nanos: u32,
}

/// A span of time: whole seconds, and the nanoseconds on top.
#[derive(Debug, Clone, Copy, PartialEq, Eq, Structural)]
pub struct TimeSpan {
    pub secs: u64,
    pub nanos: u32,
}

impl Timestamp {
    /// The calendar has this point in time.
    pub open spec fn wf(&self) -> bool {
        &&& MIN_SECS <= self.secs <= MAX_SECS
        &&& self.nanos < 1_000_000_000
    }

    /// Nanoseconds since the Unix epoch.
    pub open spec fn total(&self) -> int {
        self.secs * 1_000_000_000 + self.nanos
    }

    /// The Unix epoch.
    pub fn epoch() -> (r: Self)
        ensures
            r == (Timestamp { secs: 0, nanos: 0 }),
            r.wf(),
    {
        Timestamp { secs: 0, nanos: 0 }
    }

    /// Whether the calendar has this point in time.
    pub fn is_valid(&self) -> (r: bool)
        ensures
            r == self.wf(),
    {
        MIN_SECS <= self.secs && self.secs <= MAX_SECS && self.nanos < 1_000_000_000
    }
}

impl TimeSpan {
    /// Nanoseconds in the span.
    pub open spec fn total(&self) -> int {
        self.secs * 1_000_000_000 + self.nanos
    }

    /// A span of whole seconds.
    pub fn from_secs(secs: u64) -> (r: Self)
        ensures
            r == (TimeSpan { secs, nanos: 0 }),
    {
        TimeSpan { secs, nanos: 0 }
    }
}

/// `a / b`, rounded toward zero, for a positive `b`.
pub open spec fn quotient(a: int, b: int) -> int {
    if a >= 0 {
        a / b
    } else {
        -((-a) / b)
    }
}

/// Whole milliseconds from `then` to `now`, rounded toward zero.
pub open spec fn millis_between(then: Timestamp, now: Timestamp) -> int {
    quotient(now.total() - then.total(), 1_000_000)
}

/// Whole milliseconds from `then` to `now`; a negative number where `then` is
/// later.
pub fn millis_since(then: Timestamp, now: Timestamp) -> (r: i64)
    requires
        then.wf(),
        now.wf(),
    ensures
        r == millis_between(then, now),
{
    let a: i128 = now.secs as i128 * 1_000_000_000 + now.nanos as i128;
    let b: i128 = then.secs as i128 * 1_000_000_000 + then.nanos as i128;
    if a >= b {
        ((a - b) / 1_000_000) as i64
    } else {
        let d: i128 = (b - a) / 1_000_000;
        -(d as i64)
    }
}

/// A time that the clock can show: one of the calendar, without a leap second,
/// and none before the Unix epoch. Which times the clock shows is known here
/// alone: elsewhere a time counts as a reading only where [`utc_now`] gave it.
pub closed spec fn is_reading(t: Timestamp) -> bool {
    t.wf() && t.secs >= 0
}

/// The clock's present time, from [`chrono::Utc::now`], which takes the span since
/// the Unix epoch and does not return where the clock stands before it. All that
/// is known of it is that it is a reading of the clock.
#[verifier::external_body]
pub(crate) fn utc_now() -> (r: Timestamp)
    ensures
        r.wf(),
        is_reading(r),
{
    let now = chrono::Utc::now();
    Timestamp { secs: now.timestamp(), nanos: now.timestamp_subsec_nanos() }
}

/// What [`rfc3339`] gives for a point in time.
pub uninterp spec fn rfc3339_of(secs: i64, nanos: u32) -> Seq<char>;

/// The RFC 3339 text of a point in time, as [`chrono::DateTime::to_rfc3339`]
/// writes it for the UTC offset. The text is a function of the point in time
/// alone; its form is left open here.
#[verifier::external_body]
pub(crate) fn rfc3339(t: Timestamp) -> (r: String)
    requires
        t.wf(),
    ensures
        r@ == rfc3339_of(t.secs, t.nanos),
{
    chrono::DateTime::from_timestamp(t.secs, t.nanos).unwrap_or_default().to_rfc3339()
}

/// The RFC 3339 text of an optional point in time.
pub open spec fn opt_rfc3339(t: Option<Timestamp>) -> Option<Seq<char>> {
    match t {
        Some(t) => Some(rfc3339_of(t.secs, t.nanos)),
        None => None,
    }
}

/// The RFC 3339 text of an optional point in time.
pub(crate) fn rfc3339_opt(t: Option<Timestamp>) -> (r: Option<String>)
    requires
        t matches Some(t) ==> t.wf(),
    ensures
        crate::text::opt_view(r) == opt_rfc3339(t),
{
    match t {
        Some(t) => Some(rfc3339(t)),
        None => None,
    }
}

/// A reading of the clock is a time of the calendar, at or after the Unix epoch.
pub proof fn law_readings_are_of_the_calendar(t: Timestamp)
    requires
        is_reading(t),
    ensures
        t.wf(),
        t.secs >= 0,
{
}

/// From one time to a later one, the milliseconds are those that fit whole into
/// the time between: a second counts a thousand, a million nanoseconds count one,
/// and what is left over counts nothing.
pub proof fn law_whole_milliseconds(then: Timestamp, now: Timestamp)
    requires
        then.secs < now.secs || (then.secs == now.secs && then.nanos <= now.nanos),
        then.nanos < 1_000_000_000,
        now.nanos < 1_000_000_000,
    ensures
        ({
            let apart = (now.secs - then.secs) * 1_000_000_000 + (now.nanos - then.nanos);
            let millis = millis_between(then, now);
            &&& 0 <= millis
            &&& millis * 1_000_000 <= apart < (millis + 1) * 1_000_000
        }),
{
}

/// Looking back from the earlier of two times gives the same milliseconds with
/// the other sign, and none pass between a time and itself.
pub proof fn law_milliseconds_back(then: Timestamp, now: Timestamp)
    ensures
        millis_between(now, then) == -millis_between(then, now),
        millis_between(then, then) == 0,
{
}

/// A time that is there has a text, and the text is that of the time.
pub proof fn law_text_only_where_a_time_is(t: Option<Timestamp>)
    ensures
        opt_rfc3339(t) is Some <==> t is Some,
        t matches Some(at) ==> opt_rfc3339(t) == Some(rfc3339_of(at.secs, at.nanos)),
{
}

}
