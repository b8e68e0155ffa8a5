//! Calendar dates and times of day as plain integers, as chrono counts
//! them, with the chrono operations the store relies on.

use vstd::prelude::*;

verus! {

/// Nanoseconds in one second.
pub const NANOS_PER_SEC: u32 = 1_000_000_000;

/// Seconds in one day.
pub const SECS_PER_DAY: u32 = 86_400;

/// Day number of the earliest date chrono can hold (January 1 of year -262143).
pub const MIN_DAYS_FROM_CE: i32 = -95_746_129;

/// Day number of the latest date chrono can hold (December 31 of year 262142).
pub const MAX_DAYS_FROM_CE: i32 = 95_745_399;

/// Whether a pair of seconds since midnight and nanoseconds is a time of day.
/// The nanosecond part may reach into a second thousand million only to
/// stand for a leap second, which follows the 59th second of a minute.
pub open spec fn valid_reading(secs: int, nanos: int) -> bool {
    &&& 0 <= secs < 86_400
    &&& 0 <= nanos < 2_000_000_000
    &&& (nanos >= 1_000_000_000 ==> secs % 60 == 59)
}

/// A time of day without a time zone, to the nanosecond.
#[derive(Clone, Copy, Debug, PartialEq, Eq, Structural, Hash)]
pub struct TimeOfDay {
    secs: u32,
    nanos: u32,
}

impl TimeOfDay {
    #[verifier::type_invariant]
    pub closed spec fn inv(self) -> bool {
        valid_reading(self.secs as int, self.nanos as int)
    }

    /// Whole seconds since midnight.
    pub closed spec fn secs(self) -> int {
        self.secs as int
    }

    /// Nanoseconds since the last whole second.
    pub closed spec fn nanos(self) -> int {
        self.nanos as int
    }

    /// The time of day with these seconds and nanoseconds.
    pub closed spec fn at(secs: int, nanos: int) -> TimeOfDay {
        TimeOfDay { secs: secs as u32, nanos: nanos as u32 }
    }

    /// A time is the one that its seconds and nanoseconds give.
    pub proof fn lemma_at(t: TimeOfDay)
        ensures
            TimeOfDay::at(t.secs(), t.nanos()) == t,
    {
    }

    /// Position of this time on a line on which times stand in their order.
    pub open spec fn rank(self) -> int {
        self.secs() * 2_000_000_000 + self.nanos()
    }

    /// Whether the time is an ordinary one, outside any leap second.
    pub open spec fn is_plain(self) -> bool {
        self.nanos() < 1_000_000_000
    }

    /// Makes a time of day, or `None` where the pair is not one.
    pub fn new(secs: u32, nanos: u32) -> (r: Option<TimeOfDay>)
        ensures
            r is Some <==> valid_reading(secs as int, nanos as int),
            r matches Some(t) ==> t.secs() == secs && t.nanos() == nanos && t == TimeOfDay::at(
                secs as int,
                nanos as int,
            ),
    {
        if secs >= SECS_PER_DAY || nanos >= 2_000_000_000 || (nanos >= NANOS_PER_SEC && secs % 60
            != 59) {
            None
        } else {
            Some(TimeOfDay { secs, nanos })
        }
    }

    pub fn num_seconds_from_midnight(&self) -> (r: u32)
        ensures
            r == self.secs(),
            valid_reading(self.secs(), self.nanos()),
    {
        proof {
            use_type_invariant(self);
        }
        self.secs
    }

    pub fn nanosecond(&self) -> (r: u32)
        ensures
            r == self.nanos(),
            valid_reading(self.secs(), self.nanos()),
    {
        proof {
            use_type_invariant(self);
        }
        self.nanos
    }

    /// Whether this time comes no later than `other`.
    pub fn is_at_or_before(&self, other: &TimeOfDay) -> (r: bool)
        ensures
            r == (self.rank() <= other.rank()),
    {
        proof {
            use_type_invariant(self);
            use_type_invariant(other);
        }
        self.secs < other.secs || (self.secs == other.secs && self.nanos <= other.nanos)
    }

    /// Two times with the same seconds and nanoseconds are the same time.
    pub proof fn lemma_same_reading(a: TimeOfDay, b: TimeOfDay)
        requires
            a.secs() == b.secs(),
            a.nanos() == b.nanos(),
        ensures
            a == b,
    {
    }
}

/// The span from `b` to `a` in nanoseconds, below zero where `a` is the
/// earlier one, as chrono's `NaiveTime::signed_duration_since` gives it. A
/// leap second held by the earlier of two times that lie in different
/// seconds counts as one second more between them.
pub open spec fn span_nanos(a: TimeOfDay, b: TimeOfDay) -> int {
    let leap: int = if a.secs() > b.secs() && b.nanos() >= 1_000_000_000 {
        1
    } else if a.secs() < b.secs() && a.nanos() >= 1_000_000_000 {
        -1
    } else {
        0
    };
    (a.secs() - b.secs() + leap) * 1_000_000_000 + (a.nanos() - b.nanos())
}

/// The size of a span, whatever its direction.
pub open spec fn abs_nanos(span: int) -> int {
    if span < 0 {
        -span
    } else {
        span
    }
}

/// How far `a` and `b` lie apart, in nanoseconds.
pub open spec fn distance(a: TimeOfDay, b: TimeOfDay) -> int {
    abs_nanos(span_nanos(a, b))
}

/// A span between two times of day stays within a day and a second.
pub proof fn lemma_span_bounds(a: TimeOfDay, b: TimeOfDay)
    requires
        valid_reading(a.secs(), a.nanos()),
        valid_reading(b.secs(), b.nanos()),
    ensures
        -86_401_000_000_000 < span_nanos(a, b) < 86_401_000_000_000,
        span_nanos(a, b) == -span_nanos(b, a),
{
}

/// Seen from a fixed time, the span to a reading shrinks as the reading
/// moves later, as long as no reading is a leap second.
pub proof fn lemma_span_falls(t: TimeOfDay, a: TimeOfDay, b: TimeOfDay)
    requires
        a.is_plain(),
        b.is_plain(),
        a.rank() <= b.rank(),
    ensures
        span_nanos(t, a) >= span_nanos(t, b),
{
}

impl TimeOfDay {
    /// The span from `rhs` to this time in nanoseconds.
    pub fn signed_nanos_since(&self, rhs: &TimeOfDay) -> (r: i64)
        ensures
            r == span_nanos(*self, *rhs),
    {
        proof {
            use_type_invariant(self);
            use_type_invariant(rhs);
        }
        let leap: i64 = if self.secs > rhs.secs && rhs.nanos >= NANOS_PER_SEC {
            1
        } else if self.secs < rhs.secs && self.nanos >= NANOS_PER_SEC {
            -1
        } else {
            0
        };
        let secs: i64 = self.secs as i64 - rhs.secs as i64 + leap;
        secs * 1_000_000_000 + (self.nanos as i64 - rhs.nanos as i64)
    }

    /// How far this time lies from `other`, in nanoseconds.
    pub fn distance_to(&self, other: &TimeOfDay) -> (r: i64)
        ensures
            r == distance(*self, *other),
            r >= 0,
    {
        proof {
            use_type_invariant(self);
            use_type_invariant(other);
            lemma_span_bounds(*self, *other);
        }
        duration_abs(self.signed_nanos_since(other))
    }
}

/// The size of a span of nanoseconds.
pub fn duration_abs(dur: i64) -> (r: i64)
    requires
        dur > i64::MIN,
    ensures
        r == abs_nanos(dur as int),
{
    if dur < 0 {
        -dur
    } else {
        dur
    }
}

/// Whether a day number is one of a date chrono can hold.
pub open spec fn valid_day_number(days: int) -> bool {
    -95_746_129 <= days <= 95_745_399
}

/// A calendar date without a time zone, held as the number of its day in
/// the proleptic Gregorian calendar, where day 1 is January 1 of year 1.
#[derive(Clone, Copy, Debug, PartialEq, Eq, Structural, Hash)]
pub struct Date {
    days: i32,
}

impl Date {
    #[verifier::type_invariant]
    pub closed spec fn inv(self) -> bool {
        valid_day_number(self.days as int)
    }

    /// The number of the day.
    pub closed spec fn days(self) -> int {
        self.days as int
    }

    /// The date with this day number.
    pub closed spec fn of_days(days: int) -> Date {
        Date { days: days as i32 }
    }

    /// A date is the one that its day number gives.
    pub proof fn lemma_of_days(d: Date)
        ensures
            Date::of_days(d.days()) == d,
    {
    }

    /// Makes a date from its day number, or `None` where no date has it.
    pub fn from_num_days_from_ce(days: i32) -> (r: Option<Date>)
        ensures
            r is Some <==> valid_day_number(days as int),
            r matches Some(d) ==> d.days() == days && d == Date::of_days(days as int),
    {
        if days < MIN_DAYS_FROM_CE || days > MAX_DAYS_FROM_CE {
            None
        } else {
            Some(Date { days })
        }
    }

    pub fn num_days_from_ce(&self) -> (r: i32)
        ensures
            r == self.days(),
            valid_day_number(self.days()),
    {
        proof {
            use_type_invariant(self);
        }
        self.days
    }

    /// Two dates with the same day number are the same date.
    pub proof fn lemma_same_day(a: Date, b: Date)
        requires
            a.days() == b.days(),
        ensures
            a == b,
    {
    }

    /// The date as text, year, month and day.
    pub fn text(&self) -> (r: String)
        ensures
            r@ == chrono_date_text(self.days()),
    {
        proof {
            use_type_invariant(self);
        }
        chrono_format_date(self.days).unwrap()
    }
}

/// What chrono's `Display` writes for the date with a given day number.
pub uninterp spec fn chrono_date_text(days: int) -> Seq<char>;

/// Calls chrono's `NaiveDate::from_num_days_from_ce_opt` and `to_string` on
/// the date that it gives. Trusted: every day number of a date chrono can
/// hold gives a text, and the same number always the same text.
#[verifier::external_body]
fn chrono_format_date(days: i32) -> (r: Option<String>)
    ensures
        valid_day_number(days as int) ==> r is Some,
        r matches Some(s) ==> s@ == chrono_date_text(days as int),
{
    chrono::NaiveDate::from_num_days_from_ce_opt(days).map(|d| d.to_string())
}

/// What chrono's `NaiveDate::parse_from_str` makes of a text under a format:
/// the day number of the date, or what its error says.
pub uninterp spec fn chrono_date_from_text(text: Seq<char>, format: Seq<char>) -> Result<
    int,
    Seq<char>,
>;

/// Calls chrono's `NaiveDate::parse_from_str`. Trusted: the outcome depends
/// on the text and the format alone, and a date that comes out is one that
/// chrono can hold.
#[verifier::external_body]
pub(crate) fn chrono_parse_date(text: &str, format: &str) -> (r: Result<Date, String>)
    ensures
        match r {
            Ok(d) => chrono_date_from_text(text@, format@) == Ok::<int, Seq<char>>(d.days()),
            Err(e) => chrono_date_from_text(text@, format@) == Err::<int, Seq<char>>(e@),
        },
{
    match chrono::NaiveDate::parse_from_str(text, format) {
        Ok(d) => Ok(Date { days: chrono::Datelike::num_days_from_ce(&d) }),
        Err(e) => Err(e.to_string()),
    }
}

/// What chrono's `NaiveTime::parse_from_str` makes of a text under a format:
/// the seconds since midnight and the nanoseconds of the time, or what its
/// error says.
pub uninterp spec fn chrono_time_from_text(text: Seq<char>, format: Seq<char>) -> Result<
    (int, int),
    Seq<char>,
>;

/// Calls chrono's `NaiveTime::parse_from_str`. Trusted: the outcome depends
/// on the text and the format alone.
#[verifier::external_body]
pub(crate) fn chrono_parse_time(text: &str, format: &str) -> (r: Result<TimeOfDay, String>)
    ensures
        match r {
            Ok(t) => chrono_time_from_text(text@, format@) == Ok::<(int, int), Seq<char>>(
                (t.secs(), t.nanos()),
            ),
            Err(e) => chrono_time_from_text(text@, format@) == Err::<(int, int), Seq<char>>(e@),
        },
{
    match chrono::NaiveTime::parse_from_str(text, format) {
        Ok(t) => Ok(
            TimeOfDay {
                secs: chrono::Timelike::num_seconds_from_midnight(&t),
                nanos: chrono::Timelike::nanosecond(&t),
            },
        ),
        Err(e) => Err(e.to_string()),
    }
}

/// The earliest second, counted from the start of 1970 in universal time,
/// of a moment chrono can hold.
pub const MIN_MOMENT_SECS: i64 = -8_334_601_228_800;

/// The latest such second.
pub const MAX_MOMENT_SECS: i64 = 8_210_266_876_799;

/// Whether seconds since the start of 1970 and nanoseconds make a moment.
pub open spec fn valid_moment(secs: int, nanos: int) -> bool {
    &&& -8_334_601_228_800 <= secs <= 8_210_266_876_799
    &&& 0 <= nanos < 1_000_000_000
}

/// A moment on the calendar clock in universal time: whole seconds since
/// the start of 1970, and nanoseconds since the last whole second.
#[derive(Clone, Copy, Debug, PartialEq, Eq, Structural, Hash)]
pub struct Moment {
    secs: i64,
    nanos: u32,
}

impl Moment {
    #[verifier::type_invariant]
    pub closed spec fn inv(self) -> bool {
        valid_moment(self.secs as int, self.nanos as int)
    }

    /// Whole seconds since the start of 1970.
    pub closed spec fn secs(self) -> int {
        self.secs as int
    }

    /// Nanoseconds since the last whole second.
    pub closed spec fn nanos(self) -> int {
        self.nanos as int
    }

    /// Nanoseconds since the start of 1970.
    pub open spec fn at(self) -> int {
        self.secs() * 1_000_000_000 + self.nanos()
    }

    /// Makes a moment, or `None` where the pair is not one.
    pub fn new(secs: i64, nanos: u32) -> (r: Option<Moment>)
        ensures
            r is Some <==> valid_moment(secs as int, nanos as int),
            r matches Some(m) ==> m.secs() == secs && m.nanos() == nanos,
    {
        if secs < MIN_MOMENT_SECS || secs > MAX_MOMENT_SECS || nanos >= NANOS_PER_SEC {
            None
        } else {
            Some(Moment { secs, nanos })
        }
    }

    pub fn timestamp(&self) -> (r: i64)
        ensures
            r == self.secs(),
            valid_moment(self.secs(), self.nanos()),
    {
        proof {
            use_type_invariant(self);
        }
        self.secs
    }

    pub fn timestamp_subsec_nanos(&self) -> (r: u32)
        ensures
            r == self.nanos(),
            valid_moment(self.secs(), self.nanos()),
    {
        proof {
            use_type_invariant(self);
        }
        self.nanos
    }

    /// Two moments with the same seconds and nanoseconds are the same.
    pub proof fn lemma_same_moment(a: Moment, b: Moment)
        requires
            a.secs() == b.secs(),
            a.nanos() == b.nanos(),
        ensures
            a == b,
    {
    }

    /// The span from `earlier` to this moment.
    pub fn since(&self, earlier: &Moment) -> (r: Span)
        ensures
            r.length() == self.at() - earlier.at(),
    {
        proof {
            use_type_invariant(self);
            use_type_invariant(earlier);
        }
        if self.nanos >= earlier.nanos {
            Span { secs: self.secs - earlier.secs, nanos: self.nanos - earlier.nanos }
        } else {
            Span {
                secs: self.secs - earlier.secs - 1,
                nanos: self.nanos + NANOS_PER_SEC - earlier.nanos,
            }
        }
    }

    /// The moment that lies `span` behind this one, or `None` where no
    /// moment does.
    pub fn checked_add(&self, span: &Span) -> (r: Option<Moment>)
        ensures
            match r {
                Some(m) => m.at() == self.at() + span.length(),
                None => self.at() + span.length() < -8_334_601_228_800 * 1_000_000_000
                    || self.at() + span.length() >= 8_210_266_876_800 * 1_000_000_000,
            },
    {
        proof {
            use_type_invariant(self);
            use_type_invariant(span);
        }
        let sum: u32 = self.nanos + span.nanos;
        let (carry, nanos): (i64, u32) = if sum >= NANOS_PER_SEC {
            (1, sum - NANOS_PER_SEC)
        } else {
            (0, sum)
        };
        if span.secs > MAX_MOMENT_SECS - MIN_MOMENT_SECS + 1 || span.secs < MIN_MOMENT_SECS
            - MAX_MOMENT_SECS - 2 {
            return None;
        }
        let secs: i64 = self.secs + span.secs + carry;
        Moment::new(secs, nanos)
    }
}

/// A signed length of time: whole seconds, rounded down, and the
/// nanoseconds above them.
#[derive(Clone, Copy, Debug, PartialEq, Eq, Structural, Hash)]
pub struct Span {
    secs: i64,
    nanos: u32,
}

impl Span {
    #[verifier::type_invariant]
    pub closed spec fn inv(self) -> bool {
        self.nanos < 1_000_000_000
    }

    /// Whole seconds, rounded down.
    pub closed spec fn secs(self) -> int {
        self.secs as int
    }

    /// Nanoseconds above the whole seconds.
    pub closed spec fn nanos(self) -> int {
        self.nanos as int
    }

    /// The length in nanoseconds.
    pub open spec fn length(self) -> int {
        self.secs() * 1_000_000_000 + self.nanos()
    }

    /// Makes a span, or `None` where the nanoseconds make a whole second.
    pub fn new(secs: i64, nanos: u32) -> (r: Option<Span>)
        ensures
            r is Some <==> nanos < 1_000_000_000,
            r matches Some(s) ==> s.secs() == secs && s.nanos() == nanos,
    {
        if nanos >= NANOS_PER_SEC {
            None
        } else {
            Some(Span { secs, nanos })
        }
    }

    pub fn whole_seconds(&self) -> (r: i64)
        ensures
            r == self.secs(),
            0 <= self.nanos() < 1_000_000_000,
    {
        proof {
            use_type_invariant(self);
        }
        self.secs
    }

    pub fn subsec_nanos(&self) -> (r: u32)
        ensures
            r == self.nanos(),
            0 <= self.nanos() < 1_000_000_000,
    {
        proof {
            use_type_invariant(self);
        }
        self.nanos
    }

    /// Whether the span is no longer than a number of whole seconds.
    pub fn is_at_most_seconds(&self, seconds: i64) -> (r: bool)
        ensures
            r == (self.length() <= seconds * 1_000_000_000),
    {
        proof {
            use_type_invariant(self);
        }
        self.secs < seconds || (self.secs == seconds && self.nanos == 0)
    }
}

/// A date together with a time of day: the moment a reading was taken, on
/// the local clock.
#[derive(Clone, Copy, Debug, PartialEq, Eq, Structural, Hash)]
pub struct DateTime {
    pub date: Date,
    pub time: TimeOfDay,
}

/// Splits a moment into its date and its time of day.
pub fn make_dateime_naive(datetime: DateTime) -> (r: (Date, TimeOfDay))
    ensures
        r == (datetime.date, datetime.time),
{
    (datetime.date, datetime.time)
}

} // verus!
