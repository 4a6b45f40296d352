//! Instants and the spans between them.

use chrono::Timelike;
use vstd::prelude::*;

verus! {

/// Nanoseconds in a second.
pub const NANOS_PER_SEC: u32 = 1_000_000_000;

/// The first second of the calendar's range, counted from 1970.
pub const FIRST_SECOND: i64 = -8_334_601_228_800;

/// The last second of the calendar's range.
pub const LAST_SECOND: i64 = 8_210_266_876_799;

/// The longest span, in minutes, that the calendar's spans can hold.
pub const MAX_SPAN_MINUTES: u64 = 153_722_867_280_912;

/// Seconds in a day.
pub const SECS_PER_DAY: u32 = 86_400;

/// An instant in UTC within the calendar's range. In a leap second the seconds
/// stand still and the nanoseconds run on to two billion.
#[derive(Debug, Clone, Copy)]
pub struct UtcTime {
    secs: i64,
    nanos: u32,
}

impl UtcTime {
    #[verifier::type_invariant]
    spec fn in_range(self) -> bool {
        valid_instant(self.secs, self.nanos)
    }
}

/// Whether the parts make an instant of the calendar.
pub open spec fn valid_instant(secs: i64, nanos: u32) -> bool {
    FIRST_SECOND <= secs <= LAST_SECOND && nanos < 2 * NANOS_PER_SEC
}

/// Whether an instant with these nanoseconds lies in a leap second.
pub open spec fn is_leap(nanos: u32) -> bool {
    nanos >= NANOS_PER_SEC
}

/// An instant's model: the seconds since 1970, leap seconds not counted, and the
/// nanoseconds after them.
pub struct InstantView {
    pub secs: i64,
    pub nanos: u32,
}

impl View for UtcTime {
    type V = InstantView;

    closed spec fn view(&self) -> InstantView {
        InstantView { secs: self.secs, nanos: self.nanos }
    }
}

/// Whether the first instant comes before the second.
pub open spec fn earlier(a: InstantView, b: InstantView) -> bool {
    a.secs < b.secs || (a.secs == b.secs && a.nanos < b.nanos)
}

/// The nanoseconds from one instant to another, negative where the order is the
/// other way. A leap second that one of the two lies in counts where the later
/// time of day is past it; no other leap second does.
pub open spec fn elapsed(at: InstantView, since: InstantView) -> int {
    let time = at.secs as int % SECS_PER_DAY as int;
    let since_time = since.secs as int % SECS_PER_DAY as int;
    (at.secs - since.secs) * NANOS_PER_SEC + (at.nanos - since.nanos) + if time > since_time
        && is_leap(since.nanos) {
        NANOS_PER_SEC as int
    } else if time < since_time && is_leap(at.nanos) {
        -(NANOS_PER_SEC as int)
    } else {
        0
    }
}

/// A span of time.
#[derive(Debug, Clone, Copy)]
pub struct TimeSpan {
    pub secs: i64,
    pub nanos: i32,
}

impl View for TimeSpan {
    type V = int;

    /// Its nanoseconds.
    open spec fn view(&self) -> int {
        self.secs * NANOS_PER_SEC + self.nanos
    }
}

/// `DateTime::signed_duration_since`: the nanoseconds that [`elapsed`] says, leap
/// seconds as there. The two instants are made by `DateTime::from_timestamp` and
/// `NaiveDateTime::with_nanosecond`, which succeed within the calendar's range
/// and below two billion nanoseconds.
#[verifier::external_body]
fn signed_duration_since(secs: i64, nanos: u32, since_secs: i64, since_nanos: u32) -> (span: TimeSpan)
    requires
        valid_instant(secs, nanos),
        valid_instant(since_secs, since_nanos),
    ensures
        span@ == elapsed(
            (InstantView { secs, nanos }),
            (InstantView { secs: since_secs, nanos: since_nanos }),
        ),
{
    let at = chrono::DateTime::from_timestamp(secs, 0).expect("in range").naive_utc();
    let at = at.with_nanosecond(nanos).expect("in range").and_utc();
    let since = chrono::DateTime::from_timestamp(since_secs, 0).expect("in range").naive_utc();
    let since = since.with_nanosecond(since_nanos).expect("in range").and_utc();
    let delta = at.signed_duration_since(since);
    TimeSpan { secs: delta.num_seconds(), nanos: delta.subsec_nanos() }
}

/// `TimeDelta::minutes`: a span of so many minutes. It panics beyond the span's
/// range, which the precondition leaves out.
#[verifier::external_body]
fn span_of_minutes(minutes: i64) -> (span: TimeSpan)
    requires
        0 <= minutes <= MAX_SPAN_MINUTES,
    ensures
        span@ == minutes * 60 * NANOS_PER_SEC,
{
    let delta = chrono::TimeDelta::minutes(minutes);
    TimeSpan { secs: delta.num_seconds(), nanos: delta.subsec_nanos() }
}

impl UtcTime {
    /// The instant of so many seconds and nanoseconds since 1970; none outside
    /// the calendar's range.
    pub fn new(secs: i64, nanos: u32) -> (t: Option<UtcTime>)
        ensures
            t is Some <==> valid_instant(secs, nanos),
            t matches Some(at) ==> at@ == (InstantView { secs, nanos }),
    {
        if FIRST_SECOND <= secs && secs <= LAST_SECOND && nanos < 2 * NANOS_PER_SEC {
            Some(UtcTime { secs, nanos })
        } else {
            None
        }
    }

    /// The whole seconds since 1970, rounded down.
    pub fn secs(&self) -> (secs: i64)
        ensures
            secs == self@.secs,
            FIRST_SECOND <= secs <= LAST_SECOND,
    {
        proof {
            use_type_invariant(self);
        }
        self.secs
    }

    /// The nanoseconds after the whole seconds, one billion and more in a leap
    /// second.
    pub fn nanos(&self) -> (nanos: u32)
        ensures
            nanos == self@.nanos,
            valid_instant(self@.secs, nanos),
    {
        proof {
            use_type_invariant(self);
        }
        self.nanos
    }

    /// Whether this instant comes before `other`.
    pub fn before(&self, other: &UtcTime) -> (first: bool)
        ensures
            first == earlier(self@, other@),
    {
        self.secs < other.secs || (self.secs == other.secs && self.nanos < other.nanos)
    }

    /// Whether fewer than `minutes` minutes have passed since `last`.
    pub fn within_minutes_of(&self, last: &UtcTime, minutes: u64) -> (within: bool)
        ensures
            within == (elapsed(self@, last@) < minutes * 60 * NANOS_PER_SEC),
    {
        proof {
            use_type_invariant(self);
            use_type_invariant(last);
        }
        if minutes > MAX_SPAN_MINUTES {
            return true;
        }
        let elapsed = signed_duration_since(self.secs, self.nanos, last.secs, last.nanos);
        let limit = span_of_minutes(minutes as i64);
        let elapsed_nanos: i128 = elapsed.secs as i128 * NANOS_PER_SEC as i128
            + elapsed.nanos as i128;
        let limit_nanos: i128 = limit.secs as i128 * NANOS_PER_SEC as i128 + limit.nanos as i128;
        elapsed_nanos < limit_nanos
    }
}

/// Outside leap seconds the time between two instants is their distance: turning
/// it round changes its sign, by way of a third instant it adds up, and it is
/// positive exactly where the first of the two comes before.
pub proof fn law_time_is_a_distance(a: InstantView, b: InstantView, c: InstantView)
    requires
        a.nanos < 1_000_000_000,
        b.nanos < 1_000_000_000,
        c.nanos < 1_000_000_000,
    ensures
        elapsed(a, a) == 0,
        elapsed(b, a) == -elapsed(a, b),
        elapsed(c, a) == elapsed(c, b) + elapsed(b, a),
        elapsed(b, a) > 0 <==> earlier(a, b),
        a.secs == b.secs ==> elapsed(b, a) == b.nanos - a.nanos,
        a.nanos == b.nanos ==> elapsed(b, a) == (b.secs - a.secs) * 1_000_000_000,
{
}

/// From within a leap second to a later time of day the leap second counts, and
/// so it does the other way; to one that is not later it does not.
pub proof fn law_a_leap_second_counts_to_a_later_time(at: InstantView, leap: InstantView)
    requires
        at.nanos < 1_000_000_000,
        1_000_000_000 <= leap.nanos < 2_000_000_000,
    ensures
        at.secs as int % 86_400 > leap.secs as int % 86_400 ==> elapsed(at, leap) == (at.secs
            - leap.secs) * 1_000_000_000 + at.nanos - (leap.nanos - 1_000_000_000),
        at.secs as int % 86_400 > leap.secs as int % 86_400 ==> elapsed(leap, at) == -elapsed(
            at,
            leap,
        ),
        at.secs as int % 86_400 <= leap.secs as int % 86_400 ==> elapsed(at, leap) == (at.secs
            - leap.secs) * 1_000_000_000 + at.nanos - leap.nanos,
{
}

/// Of two instants that differ one is earlier, never both, and the order is
/// transitive.
pub proof fn law_instants_are_ordered(a: InstantView, b: InstantView, c: InstantView)
    ensures
        !earlier(a, a),
        a != b ==> earlier(a, b) || earlier(b, a),
        !(earlier(a, b) && earlier(b, a)),
        earlier(a, b) && earlier(b, c) ==> earlier(a, c),
        a.secs < b.secs ==> earlier(a, b),
        a.secs == b.secs && a.nanos < b.nanos ==> earlier(a, b),
{
}

} // verus!
