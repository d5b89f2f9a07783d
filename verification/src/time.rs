//! Points in time and spans of time, as plain numbers.

use vstd::prelude::*;

verus! {

/// Nanoseconds in a second.
pub const NANOS_PER_SECOND: u32 = 1_000_000_000;

/// The first second that a [`Timestamp`] can name.
pub const FIRST_SECOND: i64 = -8_334_601_228_800;

/// The last second that a [`Timestamp`] can name.
pub const LAST_SECOND: i64 = 8_210_266_876_799;

/// A point in time: seconds since 1970-01-01T00:00:00Z, not counting leap
/// seconds, and nanoseconds within the second. Within a leap second the
/// nanoseconds are a full second or more.
#[derive(Debug, Clone, Copy, PartialEq, Eq, Structural)]
pub struct Timestamp {
    pub seconds: i64,
    pub nanos: u32,
}

impl Timestamp {
    /// The calendar can express the point in time.
    pub open spec fn valid(self) -> bool {
        &&& FIRST_SECOND <= self.seconds <= LAST_SECOND
        &&& self.nanos < 2 * NANOS_PER_SECOND
        &&& self.nanos >= NANOS_PER_SECOND ==> self.seconds % 60 == 59
    }

    /// The system clock can show the point in time: one that the calendar can
    /// express, not before 1970 and not within a leap second.
    pub open spec fn on_clock(self) -> bool {
        &&& self.valid()
        &&& self.seconds >= 0
        &&& !self.in_leap_second()
    }

    /// The point in time lies within a leap second.
    pub open spec fn in_leap_second(self) -> bool {
        self.nanos >= NANOS_PER_SECOND
    }

    /// Nanoseconds since 1970-01-01T00:00:00Z, not counting leap seconds.
    pub open spec fn total(self) -> int {
        self.seconds * NANOS_PER_SECOND + self.nanos
    }

    /// Whether the calendar can express the point in time.
    pub fn is_valid(self) -> (r: bool)
        ensures
            r == self.valid(),
    {
        if self.seconds < FIRST_SECOND || self.seconds > LAST_SECOND {
            return false;
        }
        if self.nanos < 1_000_000_000 {
            return true;
        }
        // A count of seconds that is never negative, with the same place in its minute.
        let shifted: i64 = self.seconds - FIRST_SECOND;
        self.nanos < 2_000_000_000 && shifted % 60 == 59
    }
}

/// A span of time that is not negative: seconds and nanoseconds.
#[derive(Debug, Clone, Copy, PartialEq, Eq, Structural)]
pub struct Span {
    pub seconds: u64,
    pub nanos: u32,
}

impl Span {
    /// The nanoseconds are less than a second.
    pub open spec fn valid(self) -> bool {
        self.nanos < NANOS_PER_SECOND
    }

    /// The span in nanoseconds.
    pub open spec fn total(self) -> int {
        self.seconds * NANOS_PER_SECOND + self.nanos
    }
}

/// The seconds since midnight.
pub open spec fn second_of_day(time: Timestamp) -> int {
    time.seconds as int % 86_400
}

/// The leap seconds to count from `earlier` to `later` beyond those that their
/// nanoseconds show: one, where `earlier` lies within a leap second and `later`
/// is later in its day; minus one, the other way round.
pub open spec fn leap_seconds_between(later: Timestamp, earlier: Timestamp) -> int {
    if second_of_day(later) > second_of_day(earlier) && earlier.in_leap_second() {
        1
    } else if second_of_day(later) < second_of_day(earlier) && later.in_leap_second() {
        -1
    } else {
        0
    }
}

/// The nanoseconds from `earlier` to `later`.
pub open spec fn nanos_between(later: Timestamp, earlier: Timestamp) -> int {
    later.total() - earlier.total() + leap_seconds_between(later, earlier) * NANOS_PER_SECOND
}

/// More time than `timeout` lies between `since` and `now`.
pub open spec fn longer_than(since: Timestamp, now: Timestamp, timeout: Span) -> bool {
    nanos_between(now, since) > timeout.total()
}

/// Whether more time than `timeout` lies between `since` and `now`.
pub fn elapsed_longer_than(since: Timestamp, now: Timestamp, timeout: Span) -> (r: bool)
    requires
        since.valid(),
        now.valid(),
        timeout.valid(),
    ensures
        r == longer_than(since, now, timeout),
{
    let (seconds, nanos): (i64, i32) = time_since(now, since);
    let passed: i128 = seconds as i128 * 1_000_000_000 + nanos as i128;
    match delta_from_span(timeout) {
        Some((s, n)) => passed > s as i128 * 1_000_000_000 + n as i128,
        // No two points of the calendar lie that far apart.
        None => false,
    }
}

/// Outside leap seconds, the time between two points is the difference of their
/// seconds and nanoseconds. Within them too, it is the same in both directions but
/// for the sign, and a point lies no time away from itself.
pub proof fn law_time_between(later: Timestamp, earlier: Timestamp)
    ensures
        later.nanos < 1_000_000_000 && earlier.nanos < 1_000_000_000 ==> nanos_between(
            later,
            earlier,
        ) == (later.seconds - earlier.seconds) * 1_000_000_000 + later.nanos - earlier.nanos,
        nanos_between(later, earlier) == -nanos_between(earlier, later),
        nanos_between(later, later) == 0,
{
}

/// A span is exceeded by the nanoseconds that go beyond its seconds and
/// nanoseconds, and by none up to them.
pub proof fn law_longer_is_strictly_longer(since: Timestamp, now: Timestamp, timeout: Span)
    ensures
        longer_than(since, now, timeout) <==> nanos_between(now, since) > timeout.seconds
            * 1_000_000_000 + timeout.nanos,
{
}

/// Within a day, a leap second counts for the time after it: from a point within
/// one, to a second later in the day, one second more goes by than the seconds and
/// nanoseconds show; and so it does from a second earlier in the day to a point
/// within one, whose nanoseconds show it.
pub proof fn law_leap_seconds_count(point: Timestamp, other: Timestamp)
    requires
        point.seconds / 86_400 == other.seconds / 86_400,
        1_000_000_000 <= point.nanos < 2_000_000_000,
        other.nanos < 1_000_000_000,
    ensures
        other.seconds > point.seconds ==> nanos_between(other, point) == (other.seconds
            - point.seconds + 1) * 1_000_000_000 + other.nanos - point.nanos,
        other.seconds <= point.seconds ==> nanos_between(point, other) == (point.seconds
            - other.seconds) * 1_000_000_000 + point.nanos - other.nanos,
{
}

/// The calendar expresses the seconds between its bounds, with less than a second's
/// nanoseconds, or less than two at the end of a minute.
pub proof fn law_calendar(time: Timestamp)
    ensures
        time.valid() <==> {
            &&& -8_334_601_228_800 <= time.seconds <= 8_210_266_876_799
            &&& time.nanos < 1_000_000_000 || (time.nanos < 2_000_000_000 && time.seconds % 60
                == 59)
        },
        time.on_clock() <==> 0 <= time.seconds <= 8_210_266_876_799 && time.nanos < 1_000_000_000,
{
}

/// From one day to another, leap seconds count by the times of day: one second more
/// goes by than the seconds and nanoseconds show where the earlier point lies within
/// a leap second and the later one is later in its day, one less where the later
/// point lies within one and is earlier in its day, and no more and no less
/// otherwise.
pub proof fn law_leap_seconds_go_by_the_time_of_day(later: Timestamp, earlier: Timestamp)
    ensures
        ({
            let shown = (later.seconds - earlier.seconds) * 1_000_000_000 + later.nanos
                - earlier.nanos;
            let ahead = later.seconds as int % 86_400 - earlier.seconds as int % 86_400;
            &&& ahead > 0 && earlier.nanos >= 1_000_000_000 ==> nanos_between(later, earlier)
                == shown + 1_000_000_000
            &&& ahead < 0 && later.nanos >= 1_000_000_000 ==> nanos_between(later, earlier)
                == shown - 1_000_000_000
            &&& ahead == 0 || (ahead > 0 && earlier.nanos < 1_000_000_000) || (ahead < 0
                && later.nanos < 1_000_000_000) ==> nanos_between(later, earlier) == shown
        }),
{
}

/// The point in time that `chrono` reads from a text in the format of RFC 3339,
/// as seconds and nanoseconds.
pub uninterp spec fn rfc3339_instant(text: Seq<char>) -> Option<(i64, u32)>;

/// `chrono::Utc::now`: the current time, of which nothing is known but that it is
/// one that the clock can show.
#[verifier::external_body]
pub(crate) fn utc_now() -> (now: Timestamp)
    ensures
        now.on_clock(),
{
    let now = chrono::Utc::now();
    Timestamp { seconds: now.timestamp(), nanos: now.timestamp_subsec_nanos() }
}

/// `chrono::DateTime::parse_from_rfc3339`, the result taken to UTC: the point in
/// time is the one that [`rfc3339_instant`] names, a function of the text, and
/// the calendar can express it.
#[verifier::external_body]
pub(crate) fn parse_rfc3339(text: &str) -> (r: Option<Timestamp>)
    ensures
        match r {
            Some(t) => rfc3339_instant(text@) == Some((t.seconds, t.nanos)) && t.valid(),
            None => rfc3339_instant(text@) is None,
        },
{
    match chrono::DateTime::parse_from_rfc3339(text) {
        Ok(local) => {
            let time = local.with_timezone(&chrono::Utc);
            Some(Timestamp { seconds: time.timestamp(), nanos: time.timestamp_subsec_nanos() })
        },
        Err(_) => None,
    }
}

/// The difference of two `chrono::DateTime<Utc>` (`signed_duration_since`), as
/// whole seconds and nanoseconds of one sign: it takes the days and the times of
/// day apart, and counts a leap second where [`leap_seconds_between`] does.
#[verifier::external_body]
fn time_since(later: Timestamp, earlier: Timestamp) -> (r: (i64, i32))
    requires
        later.valid(),
        earlier.valid(),
    ensures
        r.0 * NANOS_PER_SECOND + r.1 == nanos_between(later, earlier),
{
    let later = chrono::DateTime::from_timestamp(later.seconds, later.nanos).unwrap();
    let earlier = chrono::DateTime::from_timestamp(earlier.seconds, earlier.nanos).unwrap();
    let delta = later - earlier;
    (delta.num_seconds(), delta.subsec_nanos())
}

/// `chrono::Duration::from_std`, as whole seconds and nanoseconds: it fails on
/// spans longer than `i64::MAX` milliseconds and keeps all others as they are.
#[verifier::external_body]
fn delta_from_span(span: Span) -> (r: Option<(i64, i32)>)
    requires
        span.valid(),
    ensures
        match r {
            Some((seconds, nanos)) => {
                &&& span.total() <= i64::MAX * 1_000_000
                &&& seconds * NANOS_PER_SECOND + nanos == span.total()
            },
            None => span.total() > i64::MAX * 1_000_000,
        },
{
    match chrono::Duration::from_std(std::time::Duration::new(span.seconds, span.nanos)) {
        Ok(delta) => Some((delta.num_seconds(), delta.subsec_nanos())),
        Err(_) => None,
    }
}

} // verus!
