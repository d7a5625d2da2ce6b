use vstd::prelude::*;

verus! {

/// One billion: nanoseconds in a second.
pub const NANOS_PER_SEC: i128 = 1_000_000_000;

/// Seconds since the Unix epoch of the first instant that the calendar of the
/// time library represents (the first day of year -262143).
pub const CALENDAR_MIN_SECS: i64 = -8_334_601_315_200;

/// Seconds since the Unix epoch of the last whole second that the calendar of
/// the time library represents (the last second of year 262142).
pub const CALENDAR_MAX_SECS: i64 = 8_210_266_876_799;

/// The instant, in nanoseconds since the Unix epoch, lies in the calendar's
/// range: adding a span to an instant fails outside it.
pub open spec fn in_calendar(instant: int) -> bool {
    CALENDAR_MIN_SECS * 1_000_000_000 <= instant < (CALENDAR_MAX_SECS + 1) * 1_000_000_000
}

/// Whole seconds since the Unix epoch that the calendar represents.
pub open spec fn in_calendar_secs(secs: int) -> bool {
    CALENDAR_MIN_SECS <= secs <= CALENDAR_MAX_SECS
}

/// An instant in UTC: whole seconds since the Unix epoch and the nanoseconds
/// past that second (from one to two billion inside a leap second, which the
/// time library puts in the last second of a minute).
#[derive(Clone, Copy, Debug, PartialEq, Eq, Structural)]
pub struct DateTime {
    pub secs: i64,
    pub nanos: u32,
}

/// A signed span of time: whole seconds and the nanoseconds added to them,
/// below one billion.
#[derive(Clone, Copy, Debug, PartialEq, Eq, Structural)]
pub struct Duration {
    pub secs: i64,
    pub nanos: u32,
}

impl DateTime {
    /// Nanoseconds since the Unix epoch, a leap second counted as the second
    /// before it prolonged.
    pub open spec fn instant(self) -> int {
        self.secs * 1_000_000_000 + self.nanos
    }

    /// The instant lies inside a leap second.
    pub open spec fn is_leap(self) -> bool {
        self.nanos >= 1_000_000_000
    }

    /// The second of the day, from 0 to 86399.
    pub open spec fn second_of_day(self) -> int {
        (self.secs as int) % 86_400
    }

    /// The instant `instant` nanoseconds after the Unix epoch, outside any leap
    /// second.
    pub open spec fn from_instant(instant: int) -> DateTime {
        DateTime { secs: (instant / 1_000_000_000) as i64, nanos: (instant % 1_000_000_000) as u32 }
    }

    /// `self + span` stays inside the leap second that `self` lies in.
    pub open spec fn stays_in_leap(self, span: Duration) -> bool {
        self.is_leap() && span.span() > -1_000_000_000 && self.nanos + span.span() < 2_000_000_000
    }

    /// `self + span` carries `self` out of its leap second forwards; the time
    /// library then counts the leap second as the start of the next second.
    pub open spec fn leaves_leap_forwards(self, span: Duration) -> bool {
        self.is_leap() && self.nanos + span.span() >= 2_000_000_000
    }

    /// `self + span` as the time library adds a span to a time
    /// (`chrono::DateTime + chrono::TimeDelta`): inside the leap second while
    /// the sum stays there; one second less than the plain sum when it carries
    /// a leap second forwards; else the plain sum.
    pub open spec fn plus(self, span: Duration) -> DateTime {
        if self.stays_in_leap(span) {
            DateTime { secs: self.secs, nanos: (self.nanos + span.span()) as u32 }
        } else if self.leaves_leap_forwards(span) {
            DateTime::from_instant(self.instant() - 1_000_000_000 + span.span())
        } else {
            DateTime::from_instant(self.instant() + span.span())
        }
    }

    /// `self + span` lies in the calendar, so that the time library can add the
    /// span without failing.
    pub open spec fn plus_in_calendar(self, span: Duration) -> bool {
        if self.stays_in_leap(span) {
            in_calendar_secs(self.secs as int)
        } else if self.leaves_leap_forwards(span) {
            in_calendar(self.instant() - 1_000_000_000 + span.span())
        } else {
            in_calendar(self.instant() + span.span())
        }
    }

    /// `self - other` in nanoseconds, as the time library subtracts two times
    /// (`chrono::DateTime - chrono::DateTime`): the plain difference, one
    /// second more when `other` lies in a leap second and `self` at a later
    /// second of the day, one second less when `self` lies in a leap second and
    /// `other` at a later second of the day.
    pub open spec fn since(self, other: DateTime) -> int {
        self.instant() - other.instant() + if self.second_of_day() > other.second_of_day()
            && other.is_leap() {
            1_000_000_000
        } else if self.second_of_day() < other.second_of_day() && self.is_leap() {
            -1_000_000_000
        } else {
            0
        }
    }

    /// Nanoseconds since the Unix epoch.
    pub fn timestamp_nanos(&self) -> (r: i128)
        ensures
            r == self.instant(),
    {
        self.secs as i128 * NANOS_PER_SEC + self.nanos as i128
    }

    /// The instant `instant` nanoseconds after the Unix epoch.
    fn from_timestamp_nanos(instant: i128) -> (r: DateTime)
        requires
            in_calendar(instant as int),
        ensures
            r == DateTime::from_instant(instant as int),
    {
        let secs = match instant.checked_div_euclid(NANOS_PER_SEC) {
            Some(secs) => secs,
            None => 0,
        };
        let nanos = match instant.checked_rem_euclid(NANOS_PER_SEC) {
            Some(nanos) => nanos,
            None => 0,
        };
        DateTime { secs: secs as i64, nanos: nanos as u32 }
    }

    /// `self + span`, as the time library adds them (see `plus`).
    pub fn add_span(&self, span: &Duration) -> (r: DateTime)
        requires
            self.plus_in_calendar(*span),
        ensures
            r == self.plus(*span),
    {
        let nanos = self.nanos as i128;
        let span_nanos = span.total_nanos();
        if nanos >= NANOS_PER_SEC && span_nanos > -NANOS_PER_SEC && nanos + span_nanos < 2
            * NANOS_PER_SEC {
            DateTime { secs: self.secs, nanos: (nanos + span_nanos) as u32 }
        } else if nanos >= NANOS_PER_SEC && nanos + span_nanos >= 2 * NANOS_PER_SEC {
            DateTime::from_timestamp_nanos(self.timestamp_nanos() - NANOS_PER_SEC + span_nanos)
        } else {
            DateTime::from_timestamp_nanos(self.timestamp_nanos() + span_nanos)
        }
    }

    /// The second of the day.
    fn day_second(&self) -> (r: i64)
        ensures
            r == self.second_of_day(),
    {
        match self.secs.checked_rem_euclid(86_400) {
            Some(second) => second,
            None => 0,
        }
    }

    /// `self - other` in nanoseconds, as the time library subtracts them (see
    /// `since`).
    pub fn signed_duration_since(&self, other: &DateTime) -> (r: i128)
        ensures
            r == self.since(*other),
    {
        let plain = self.timestamp_nanos() - other.timestamp_nanos();
        let (mine, theirs) = (self.day_second(), other.day_second());
        if mine > theirs && other.nanos as i128 >= NANOS_PER_SEC {
            plain + NANOS_PER_SEC
        } else if mine < theirs && self.nanos as i128 >= NANOS_PER_SEC {
            plain - NANOS_PER_SEC
        } else {
            plain
        }
    }
}

impl Duration {
    /// The span in nanoseconds.
    pub open spec fn span(self) -> int {
        self.secs * 1_000_000_000 + self.nanos
    }

    /// The nanoseconds part is below one second.
    pub open spec fn wf(self) -> bool {
        self.nanos < 1_000_000_000
    }

    /// The span of `secs` whole seconds and `subsec_nanos` nanoseconds, where the
    /// nanoseconds carry the sign of the span (as the parts that a time library
    /// reports for a negative span do).
    pub fn from_parts(secs: i64, subsec_nanos: i32) -> (r: Option<Duration>)
        requires
            -1_000_000_000 < subsec_nanos < 1_000_000_000,
        ensures
            r matches Some(d) ==> d.wf() && d.span() == secs * 1_000_000_000 + subsec_nanos,
            r is None <==> (subsec_nanos < 0 && secs == i64::MIN),
    {
        if subsec_nanos >= 0 {
            Some(Duration { secs, nanos: subsec_nanos as u32 })
        } else if secs == i64::MIN {
            None
        } else {
            Some(Duration { secs: secs - 1, nanos: (subsec_nanos + 1_000_000_000) as u32 })
        }
    }

    /// The span in nanoseconds.
    pub fn total_nanos(&self) -> (r: i128)
        ensures
            r == self.span(),
    {
        self.secs as i128 * NANOS_PER_SEC + self.nanos as i128
    }
}

/// The current time, read from the system clock by `chrono::Utc::now`; its
/// parts are those that chrono reports: `timestamp` and
/// `timestamp_subsec_nanos`. Its source takes the clock's time since the Unix
/// epoch (panicking when the clock reads before 1970, which no argument can
/// rule out) and builds the instant from those whole seconds and their
/// nanoseconds, below one billion; so the seconds are not negative and lie
/// within the calendar that every chrono time lies in. Nothing more is stated
/// of which instant it is: that depends on the clock.
#[verifier::external_body]
pub(crate) fn utc_now() -> (r: DateTime)
    ensures
        0 <= r.secs <= CALENDAR_MAX_SECS,
        r.nanos < 1_000_000_000,
{
    let now = chrono::Utc::now();
    DateTime { secs: now.timestamp(), nanos: now.timestamp_subsec_nanos() }
}

/// A wait of `nanos` nanoseconds as whole seconds and the nanoseconds past them,
/// the seconds saturating at the largest `u64`.
pub fn wait_parts(nanos: u128) -> (r: (u64, u32))
    ensures
        r.0 == (if nanos / 1_000_000_000 <= u64::MAX {
            nanos / 1_000_000_000
        } else {
            u64::MAX as u128
        }),
        r.1 == nanos % 1_000_000_000,
        r.1 < 1_000_000_000,
{
    let secs = nanos / 1_000_000_000;
    let sub = (nanos % 1_000_000_000) as u32;
    if secs <= u64::MAX as u128 {
        (secs as u64, sub)
    } else {
        (u64::MAX, sub)
    }
}

} // verus!
