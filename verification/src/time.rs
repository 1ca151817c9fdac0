//! Moments in UTC and spans of time, held as plain numbers.
use vstd::prelude::*;

verus! {

/// Nanoseconds in a second.
pub const NANOS_PER_SEC: u32 = 1_000_000_000;

/// First second that has a date in the calendar: the start of the year -262143.
pub const MIN_SECS: i64 = -8_334_601_228_800;

/// Last second that has a date in the calendar: the end of the year 262142.
pub const MAX_SECS: i64 = 8_210_266_876_799;

/// The longest span in either direction: `i64::MAX` milliseconds, in nanoseconds.
pub open spec fn max_span() -> int {
    i64::MAX * 1_000_000
}

/// A moment in UTC: seconds since the Unix epoch, and nanoseconds since that second began.
///
/// A leap second belongs to the last second of its minute: there `nanos` goes on
/// counting from one thousand million upwards.
#[derive(Debug, Clone, Copy, PartialEq, Eq, PartialOrd, Ord, Hash, Structural)]
pub struct DateTime {
    pub secs: i64,
    pub nanos: u32,
}

/// A span of time, which may be negative: `secs` whole seconds (rounded down) and `nanos`
/// nanoseconds.
#[derive(Debug, Clone, Copy, PartialEq, Eq, PartialOrd, Ord, Hash, Structural)]
pub struct Duration {
    pub secs: i64,
    pub nanos: u32,
}

impl Duration {
    /// The length in nanoseconds.
    pub open spec fn total(self) -> int {
        self.secs * NANOS_PER_SEC + self.nanos
    }

    /// The fraction is below a second and the whole does not exceed the longest span.
    pub open spec fn wf(self) -> bool {
        &&& self.nanos < NANOS_PER_SEC
        &&& -max_span() <= self.total() <= max_span()
    }

    /// A span of `seconds` whole seconds.
    pub fn seconds(seconds: i64) -> (span: Duration)
        requires
            -(i64::MAX / 1000) <= seconds <= i64::MAX / 1000,
        ensures
            span.wf(),
            span == (Duration { secs: seconds, nanos: 0 }),
    {
        Duration { secs: seconds, nanos: 0 }
    }

    /// A span of `secs` seconds and `nanos` nanoseconds, if there is such a span.
    pub fn new(secs: i64, nanos: u32) -> (span: Option<Duration>)
        ensures
            span == (if (Duration { secs, nanos }).wf() {
                Some(Duration { secs, nanos })
            } else {
                None
            }),
    {
        let total: i128 = secs as i128 * 1_000_000_000 + nanos as i128;
        let limit: i128 = i64::MAX as i128 * 1_000_000;
        if nanos < NANOS_PER_SEC && -limit <= total && total <= limit {
            Some(Duration { secs, nanos })
        } else {
            None
        }
    }
}

impl DateTime {
    /// The moment has a date, and `nanos` leaves its second only in a leap second.
    pub open spec fn wf(self) -> bool {
        &&& MIN_SECS <= self.secs <= MAX_SECS
        &&& self.nanos < 2 * NANOS_PER_SEC
        &&& self.nanos >= NANOS_PER_SEC ==> self.secs % 60 == 59
    }

    /// `self` lies strictly before `other`.
    pub open spec fn precedes(self, other: DateTime) -> bool {
        self.secs < other.secs || (self.secs == other.secs && self.nanos < other.nanos)
    }

    /// The later of two moments.
    pub open spec fn latest(self, other: DateTime) -> DateTime {
        if self.precedes(other) {
            other
        } else {
            self
        }
    }

    /// The moment that lies `span` earlier, or nothing where that moment has no date.
    ///
    /// Time runs without leap seconds, except that a moment inside a leap second counts
    /// that one: it spans the second after `self.secs`, and what comes later is a second late.
    pub open spec fn minus(self, span: Duration) -> Option<DateTime> {
        let second = NANOS_PER_SEC as int;
        let at = self.secs * second + self.nanos - span.total();
        let leap_begins = (self.secs + 1) * second;
        let (secs, nanos) = if self.nanos < second || at < leap_begins {
            (at / second, at % second)
        } else if at < leap_begins + second {
            (self.secs as int, at - self.secs * second)
        } else {
            (at / second - 1, at % second)
        };
        if MIN_SECS <= secs <= MAX_SECS {
            Some(DateTime { secs: secs as i64, nanos: nanos as u32 })
        } else {
            None
        }
    }

    /// The moment `secs` seconds and `nanos` nanoseconds after the Unix epoch, if there is one.
    pub fn new(secs: i64, nanos: u32) -> (moment: Option<DateTime>)
        ensures
            moment == (if (DateTime { secs, nanos }).wf() {
                Some(DateTime { secs, nanos })
            } else {
                None
            }),
    {
        let has_date = MIN_SECS <= secs && secs <= MAX_SECS;
        let leap = nanos >= NANOS_PER_SEC;
        if has_date && nanos < 2 * NANOS_PER_SEC && (!leap || last_second_of_minute(secs)) {
            Some(DateTime { secs, nanos })
        } else {
            None
        }
    }

    /// Whether `self` lies strictly before `other`.
    pub fn is_before(&self, other: &DateTime) -> (before: bool)
        ensures
            before == self.precedes(*other),
    {
        self.secs < other.secs || (self.secs == other.secs && self.nanos < other.nanos)
    }

    /// The moment that lies `span` earlier, or `None` where that moment has no date.
    pub fn checked_sub_signed(&self, span: Duration) -> (earlier: Option<DateTime>)
        requires
            self.wf(),
            span.wf(),
        ensures
            earlier == self.minus(span),
            earlier is Some ==> earlier->0.wf(),
    {
        proof {
            lemma_minus_wf(*self, span);
        }
        date_time_checked_sub(*self, span)
    }
}

/// Whether `secs` is the last second of a minute.
fn last_second_of_minute(secs: i64) -> (last: bool)
    requires
        MIN_SECS <= secs <= MAX_SECS,
    ensures
        last == (secs % 60 == 59),
{
    // Counted from a whole minute before the first date, so that nothing is negative.
    let since: i64 = secs + 8_334_601_228_800;
    since % 60 == 59
}

/// Going back in time from a moment with a date ends at a well-formed moment.
pub proof fn lemma_minus_wf(moment: DateTime, span: Duration)
    requires
        moment.wf(),
        span.wf(),
    ensures
        moment.minus(span) is Some ==> moment.minus(span)->0.wf(),
{
}

/// `chrono::DateTime::<Utc>::checked_sub_signed`: exact arithmetic on the calendar, which
/// has dates from [`MIN_SECS`] to [`MAX_SECS`]; only the leap second that the moment
/// itself lies in, if it lies in one, is counted. `from_timestamp` and `TimeDelta::new`
/// take every well-formed moment and span.
#[verifier::external_body]
fn date_time_checked_sub(moment: DateTime, span: Duration) -> (earlier: Option<DateTime>)
    requires
        moment.wf(),
        span.wf(),
    ensures
        earlier == moment.minus(span),
{
    let moment = chrono::DateTime::from_timestamp(moment.secs, moment.nanos)?;
    let span = chrono::TimeDelta::new(span.secs, span.nanos)?;
    let earlier = moment.checked_sub_signed(span)?;
    Some(DateTime { secs: earlier.timestamp(), nanos: earlier.timestamp_subsec_nanos() })
}

/// A moment lies before another if it has fewer seconds, or as many and fewer nanoseconds:
/// moments are ordered as the numbers that these two make up.
pub proof fn law_precedes_orders_by_number(a: DateTime, b: DateTime)
    ensures
        a.precedes(b) <==> a.secs * 0x1_0000_0000 + a.nanos < b.secs * 0x1_0000_0000 + b.nanos,
        !a.precedes(b) && !b.precedes(a) <==> a == b,
{
}

/// The later of two moments is one of them, and neither lies behind it.
pub proof fn law_latest_is_last(a: DateTime, b: DateTime)
    ensures
        a.latest(b) == a || a.latest(b) == b,
        a.secs <= a.latest(b).secs && b.secs <= a.latest(b).secs,
        a.secs == a.latest(b).secs ==> a.nanos <= a.latest(b).nanos,
        b.secs == a.latest(b).secs ==> b.nanos <= a.latest(b).nanos,
{
}

/// Outside of leap seconds, going back takes the span off the nanoseconds since the epoch,
/// and fails only where the calendar has no such second.
pub proof fn law_minus_is_exact(moment: DateTime, span: Duration)
    requires
        moment.nanos < 1_000_000_000,
    ensures
        ({
            let at = (moment.secs - span.secs) * 1_000_000_000 + moment.nanos - span.nanos;
            match moment.minus(span) {
                Some(earlier) => {
                    &&& earlier.secs * 1_000_000_000 + earlier.nanos == at
                    &&& earlier.nanos < 1_000_000_000
                },
                None => at < MIN_SECS * 1_000_000_000 || at >= (MAX_SECS + 1) * 1_000_000_000,
            }
        }),
{
}

/// Going back by no time leads nowhere, also inside a leap second.
pub proof fn law_minus_nothing(moment: DateTime, span: Duration)
    requires
        moment.wf(),
        span.secs == 0,
        span.nanos == 0,
    ensures
        moment.minus(span) == Some(moment),
{
}

/// Outside of leap seconds, going back by the same span keeps moments in their order.
pub proof fn law_minus_keeps_order(a: DateTime, b: DateTime, span: Duration)
    requires
        a.nanos < 1_000_000_000,
        b.nanos < 1_000_000_000,
        a.minus(span) is Some,
        b.minus(span) is Some,
    ensures
        a.precedes(b) <==> a.minus(span)->0.precedes(b.minus(span)->0),
{
    law_minus_is_exact(a, span);
    law_minus_is_exact(b, span);
}

/// A moment is made of the numbers it was asked for, and refused only where the calendar has
/// no such second or the fraction fits neither a second nor a leap second.
pub proof fn law_new_moment(secs: i64, nanos: u32, moment: Option<DateTime>)
    requires
        call_ensures(DateTime::new, (secs, nanos), moment),
    ensures
        moment is Some ==> moment->0.secs == secs && moment->0.nanos == nanos,
        nanos < 1_000_000_000 ==> (moment is Some <==> -8_334_601_228_800 <= secs
            <= 8_210_266_876_799),
        1_000_000_000 <= nanos < 2_000_000_000 ==> (moment is Some <==> -8_334_601_228_800 <= secs
            <= 8_210_266_876_799 && secs % 60 == 59),
        nanos >= 2_000_000_000 ==> moment is None,
{
}

/// A span is made of the numbers it was asked for, and refused only where the fraction makes
/// up a second or the whole exceeds `i64::MAX` milliseconds in either direction.
pub proof fn law_new_span(secs: i64, nanos: u32, span: Option<Duration>)
    requires
        call_ensures(Duration::new, (secs, nanos), span),
    ensures
        span is Some ==> span->0.secs == secs && span->0.nanos == nanos,
        span is Some <==> nanos < 1_000_000_000 && -i64::MAX * 1_000_000 <= secs * 1_000_000_000
            + nanos <= i64::MAX * 1_000_000,
{
}

/// Inside a leap second, going back counts that second: a span that does not lead out of it
/// comes off the nanoseconds, and one that leads back over its beginning comes off the
/// nanoseconds since the epoch as anywhere else.
pub proof fn law_minus_from_leap_second(moment: DateTime, span: Duration)
    requires
        moment.wf(),
        moment.nanos >= 1_000_000_000,
    ensures
        ({
            let back = span.secs * 1_000_000_000 + span.nanos;
            let into_leap = moment.nanos - 1_000_000_000;
            &&& 0 <= back <= into_leap ==> moment.minus(span) == Some(
                DateTime { secs: moment.secs, nanos: (moment.nanos - back) as u32 },
            )
            &&& back > into_leap ==> match moment.minus(span) {
                Some(earlier) => {
                    &&& earlier.secs * 1_000_000_000 + earlier.nanos == moment.secs * 1_000_000_000
                        + moment.nanos - back
                    &&& earlier.nanos < 1_000_000_000
                },
                None => moment.secs * 1_000_000_000 + moment.nanos - back < MIN_SECS
                    * 1_000_000_000,
            }
        }),
{
}

} // verus!
