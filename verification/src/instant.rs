//! Instants of the UTC calendar: the expiry of a license and the readings of
//! the clock it is held against.
//!
//! A `Timestamp` holds calendar fields. Order and ISO-8601 text are computed
//! from the fields here; whatever needs calendar arithmetic or lenient parsing
//! is asked of `chrono`.

use crate::encoding::{decimal, fixed_digits, push_char, write_decimal, write_fixed};
use chrono::{Datelike, Timelike};
use vstd::prelude::*;

verus! {

/// The mathematical value of a `Timestamp`: its calendar fields in UTC.
///
/// `nanos` of a thousand million or more stands for a leap second after
/// second 59, as in `chrono`.
pub struct Instant {
    pub year: int,
    pub month: int,
    pub day: int,
    pub hour: int,
    pub minute: int,
    pub second: int,
    pub nanos: int,
}

/// An instant of the proleptic Gregorian calendar in UTC.
#[derive(Clone, Copy, Debug, PartialEq, Eq)]
pub struct Timestamp {
    year: i32,
    month: u32,
    day: u32,
    hour: u32,
    minute: u32,
    second: u32,
    nanos: u32,
}

/// The first year that a `Timestamp` can hold.
pub const MIN_YEAR: i32 = -262_143;

/// The last year that a `Timestamp` can hold.
pub const MAX_YEAR: i32 = 262_142;

/// Whether `year` has a 29th of February.
pub open spec fn is_leap_year(year: int) -> bool {
    year % 4 == 0 && (year % 100 != 0 || year % 400 == 0)
}

/// The number of days of `month` in `year`, for a month from 1 to 12.
pub open spec fn days_in_month(year: int, month: int) -> int {
    if month == 2 {
        if is_leap_year(year) {
            29
        } else {
            28
        }
    } else if month == 4 || month == 6 || month == 9 || month == 11 {
        30
    } else {
        31
    }
}

/// Whether the three numbers name a day of the calendar.
pub open spec fn valid_date(year: int, month: int, day: int) -> bool {
    &&& MIN_YEAR <= year <= MAX_YEAR
    &&& 1 <= month <= 12
    &&& 1 <= day <= days_in_month(year, month)
}

/// Whether the fields name an instant: a day of the calendar and a time of
/// day, a leap second only after second 59.
pub open spec fn valid_instant(t: Instant) -> bool {
    &&& valid_date(t.year, t.month, t.day)
    &&& 0 <= t.hour <= 23
    &&& 0 <= t.minute <= 59
    &&& 0 <= t.second <= 59
    &&& 0 <= t.nanos <= 1_999_999_999
    &&& (t.nanos >= 1_000_000_000 ==> t.second == 59)
}

/// The start of the given day.
pub open spec fn midnight(year: int, month: int, day: int) -> Instant {
    Instant { year, month, day, hour: 0, minute: 0, second: 0, nanos: 0 }
}

/// The earliest instant that a `Timestamp` can hold.
pub open spec fn earliest() -> Instant {
    midnight(MIN_YEAR as int, 1, 1)
}

/// Whether `a` comes strictly after `b`: the fields compared in order, from
/// the year down to the nanoseconds.
pub open spec fn later(a: Instant, b: Instant) -> bool {
    if a.year != b.year {
        a.year > b.year
    } else if a.month != b.month {
        a.month > b.month
    } else if a.day != b.day {
        a.day > b.day
    } else if a.hour != b.hour {
        a.hour > b.hour
    } else if a.minute != b.minute {
        a.minute > b.minute
    } else if a.second != b.second {
        a.second > b.second
    } else {
        a.nanos > b.nanos
    }
}

/// The year of an ISO-8601 date: four digits from 0 to 9999, else a sign and
/// at least four digits.
pub open spec fn year_text(year: int) -> Seq<char> {
    if 0 <= year <= 9999 {
        fixed_digits(year as nat, 4)
    } else if year < 0 {
        if -year <= 9999 {
            seq!['-'] + fixed_digits((-year) as nat, 4)
        } else {
            seq!['-'] + decimal((-year) as nat)
        }
    } else {
        seq!['+'] + decimal(year as nat)
    }
}

/// The fraction of a second: nothing for a whole second, else a point and
/// three, six or nine digits, the fewest that lose nothing.
pub open spec fn fraction_text(nanos: int) -> Seq<char> {
    if nanos == 0 {
        Seq::empty()
    } else if nanos % 1_000_000 == 0 {
        seq!['.'] + fixed_digits((nanos / 1_000_000) as nat, 3)
    } else if nanos % 1_000 == 0 {
        seq!['.'] + fixed_digits((nanos / 1_000) as nat, 6)
    } else {
        seq!['.'] + fixed_digits(nanos as nat, 9)
    }
}

/// The seconds field as written: 60 for a leap second.
pub open spec fn written_second(t: Instant) -> int {
    if t.nanos >= 1_000_000_000 {
        t.second + 1
    } else {
        t.second
    }
}

/// The nanoseconds as written: those within the leap second, for one.
pub open spec fn written_nanos(t: Instant) -> int {
    if t.nanos >= 1_000_000_000 {
        t.nanos - 1_000_000_000
    } else {
        t.nanos
    }
}

/// The ISO-8601 text of an instant in UTC, such as `2024-02-28T00:00:00Z`.
pub open spec fn iso_text(t: Instant) -> Seq<char> {
    year_text(t.year) + seq!['-'] + fixed_digits(t.month as nat, 2) + seq!['-'] + fixed_digits(
        t.day as nat,
        2,
    ) + seq!['T'] + fixed_digits(t.hour as nat, 2) + seq![':'] + fixed_digits(t.minute as nat, 2)
        + seq![':'] + fixed_digits(written_second(t) as nat, 2) + fraction_text(written_nanos(t))
        + seq!['Z']
}

/// What `chrono` makes of a text as a date in the format `%Y-%m-%d`: the
/// year, month and day, or nothing where it rejects the text.
pub uninterp spec fn parsed_date(text: Seq<char>) -> Option<(int, int, int)>;

/// What `chrono` makes of a text as an RFC 3339 date and time, brought to UTC,
/// or nothing where it rejects the text.
pub uninterp spec fn parsed_instant(text: Seq<char>) -> Option<Instant>;

/// The instant that `chrono` finds the given number of seconds after `t`, or
/// nothing where that leaves the range of its calendar.
pub uninterp spec fn shifted(t: Instant, seconds: int) -> Option<Instant>;

/// The error of `chrono`'s parsers, carried through unopened.
#[verifier::external_type_specification]
#[verifier::external_body]
pub struct ExParseError(chrono::ParseError);

impl View for Timestamp {
    type V = Instant;

    closed spec fn view(&self) -> Instant {
        Instant {
            year: self.year as int,
            month: self.month as int,
            day: self.day as int,
            hour: self.hour as int,
            minute: self.minute as int,
            second: self.second as int,
            nanos: self.nanos as int,
        }
    }
}

/// Whether `year` has a 29th of February.
pub fn leap_year(year: i32) -> (r: bool)
    requires
        MIN_YEAR <= year <= MAX_YEAR,
    ensures
        r == is_leap_year(year as int),
{
    let shifted_year: i32 = year + 262_400;
    shifted_year % 4 == 0 && (shifted_year % 100 != 0 || shifted_year % 400 == 0)
}

/// Whether the three numbers name a day of the calendar.
pub fn date_is_valid(year: i32, month: u32, day: u32) -> (r: bool)
    ensures
        r == valid_date(year as int, month as int, day as int),
{
    if year < MIN_YEAR || year > MAX_YEAR || month < 1 || month > 12 || day < 1 {
        return false;
    }
    let days: u32 = if month == 2 {
        if leap_year(year) {
            29
        } else {
            28
        }
    } else if month == 4 || month == 6 || month == 9 || month == 11 {
        30
    } else {
        31
    };
    day <= days
}

/// Appends the year of an ISO-8601 date.
pub fn write_year(out: &mut String, year: i32)
    requires
        MIN_YEAR <= year <= MAX_YEAR,
    ensures
        final(out)@ == old(out)@ + year_text(year as int),
{
    if 0 <= year && year <= 9999 {
        write_fixed(out, year as u32, 4);
    } else if year < 0 {
        push_char(out, '-');
        let magnitude: u32 = (-year) as u32;
        if magnitude <= 9999 {
            write_fixed(out, magnitude, 4);
        } else {
            write_decimal(out, magnitude as u64);
        }
        assert(out@ =~= old(out)@ + year_text(year as int));
    } else {
        push_char(out, '+');
        write_decimal(out, year as u64);
        assert(out@ =~= old(out)@ + year_text(year as int));
    }
}

/// Appends the fraction of a second.
pub fn write_fraction(out: &mut String, nanos: u32)
    requires
        nanos <= 999_999_999,
    ensures
        final(out)@ == old(out)@ + fraction_text(nanos as int),
{
    if nanos == 0 {
        assert(out@ =~= old(out)@ + fraction_text(nanos as int));
    } else {
        push_char(out, '.');
        if nanos % 1_000_000 == 0 {
            write_fixed(out, nanos / 1_000_000, 3);
        } else if nanos % 1_000 == 0 {
            write_fixed(out, nanos / 1_000, 6);
        } else {
            write_fixed(out, nanos, 9);
        }
        assert(out@ =~= old(out)@ + fraction_text(nanos as int));
    }
}

impl Timestamp {
    #[verifier::type_invariant]
    spec fn well_formed(self) -> bool {
        valid_instant(self@)
    }

    /// The instant with the given fields, where they name one.
    pub fn new(
        year: i32,
        month: u32,
        day: u32,
        hour: u32,
        minute: u32,
        second: u32,
        nanos: u32,
    ) -> (r: Option<Timestamp>)
        ensures
            r is Some <==> valid_instant(
                Instant {
                    year: year as int,
                    month: month as int,
                    day: day as int,
                    hour: hour as int,
                    minute: minute as int,
                    second: second as int,
                    nanos: nanos as int,
                },
            ),
            r matches Some(t) ==> t@ == (Instant {
                year: year as int,
                month: month as int,
                day: day as int,
                hour: hour as int,
                minute: minute as int,
                second: second as int,
                nanos: nanos as int,
            }),
    {
        if !date_is_valid(year, month, day) || hour > 23 || minute > 59 || second > 59 || nanos
            > 1_999_999_999 || (nanos >= 1_000_000_000 && second != 59) {
            None
        } else {
            Some(Timestamp { year, month, day, hour, minute, second, nanos })
        }
    }

    /// The start of the given day, where it is a day of the calendar.
    pub fn at_midnight(year: i32, month: u32, day: u32) -> (r: Option<Timestamp>)
        ensures
            r is Some <==> valid_date(year as int, month as int, day as int),
            r matches Some(t) ==> t@ == midnight(year as int, month as int, day as int),
    {
        Timestamp::new(year, month, day, 0, 0, 0, 0)
    }

    /// The earliest instant that the type can hold.
    pub fn earliest() -> (r: Timestamp)
        ensures
            r@ == earliest(),
    {
        Timestamp { year: MIN_YEAR, month: 1, day: 1, hour: 0, minute: 0, second: 0, nanos: 0 }
    }

    pub fn year(&self) -> (r: i32)
        ensures
            r == self@.year,
    {
        self.year
    }

    pub fn month(&self) -> (r: u32)
        ensures
            r == self@.month,
    {
        self.month
    }

    pub fn day(&self) -> (r: u32)
        ensures
            r == self@.day,
    {
        self.day
    }

    pub fn hour(&self) -> (r: u32)
        ensures
            r == self@.hour,
    {
        self.hour
    }

    pub fn minute(&self) -> (r: u32)
        ensures
            r == self@.minute,
    {
        self.minute
    }

    pub fn second(&self) -> (r: u32)
        ensures
            r == self@.second,
    {
        self.second
    }

    pub fn nanosecond(&self) -> (r: u32)
        ensures
            r == self@.nanos,
    {
        self.nanos
    }

    /// Whether this instant comes strictly after `other`.
    pub fn is_after(&self, other: &Timestamp) -> (r: bool)
        ensures
            r == later(self@, other@),
    {
        if self.year != other.year {
            self.year > other.year
        } else if self.month != other.month {
            self.month > other.month
        } else if self.day != other.day {
            self.day > other.day
        } else if self.hour != other.hour {
            self.hour > other.hour
        } else if self.minute != other.minute {
            self.minute > other.minute
        } else if self.second != other.second {
            self.second > other.second
        } else {
            self.nanos > other.nanos
        }
    }

    /// Appends the ISO-8601 text of this instant.
    pub fn write_iso(&self, out: &mut String)
        ensures
            final(out)@ == old(out)@ + iso_text(self@),
    {
        proof {
            use_type_invariant(self);
        }
        write_year(out, self.year);
        push_char(out, '-');
        write_fixed(out, self.month, 2);
        push_char(out, '-');
        write_fixed(out, self.day, 2);
        push_char(out, 'T');
        write_fixed(out, self.hour, 2);
        push_char(out, ':');
        write_fixed(out, self.minute, 2);
        push_char(out, ':');
        let leap: bool = self.nanos >= 1_000_000_000;
        let second: u32 = if leap {
            self.second + 1
        } else {
            self.second
        };
        let nanos: u32 = if leap {
            self.nanos - 1_000_000_000
        } else {
            self.nanos
        };
        write_fixed(out, second, 2);
        write_fraction(out, nanos);
        push_char(out, 'Z');
        assert(out@ =~= old(out)@ + iso_text(self@));
    }

    /// The ISO-8601 text of this instant.
    pub fn to_text(&self) -> (r: String)
        ensures
            r@ == iso_text(self@),
    {
        let mut out = String::new();
        self.write_iso(&mut out);
        assert(Seq::<char>::empty() + iso_text(self@) == iso_text(self@));
        out
    }
}

/// Reads the clock.
///
/// Trusted: stands for `chrono::Utc::now` and the field getters of `Datelike`
/// and `Timelike`. Nothing is said of which instant comes back, only that its
/// fields name one, as `chrono` documents of every date and time it hands out.
#[verifier::external_body]
pub(crate) fn current_instant() -> (r: Timestamp)
    ensures
        valid_instant(r@),
{
    let t = chrono::Utc::now();
    Timestamp {
        year: t.year(),
        month: t.month(),
        day: t.day(),
        hour: t.hour(),
        minute: t.minute(),
        second: t.second(),
        nanos: t.nanosecond(),
    }
}

/// Reads a date in the format `%Y-%m-%d`.
///
/// Trusted: stands for `chrono::NaiveDate::parse_from_str` with that format.
/// The result is named, not described: it is `parsed_date` of the text. A date
/// that comes back is a day of the calendar.
#[verifier::external_body]
pub(crate) fn parse_date(text: &str) -> (r: Result<(i32, u32, u32), chrono::ParseError>)
    ensures
        match r {
            Ok(d) => parsed_date(text@) == Some((d.0 as int, d.1 as int, d.2 as int))
                && valid_date(d.0 as int, d.1 as int, d.2 as int),
            Err(_) => parsed_date(text@) is None,
        },
{
    match chrono::NaiveDate::parse_from_str(text, "%Y-%m-%d") {
        Ok(d) => Ok((d.year(), d.month(), d.day())),
        Err(e) => Err(e),
    }
}

/// Reads an RFC 3339 date and time and brings it to UTC.
///
/// Trusted: stands for the `FromStr` of `chrono::DateTime<Utc>`. The result is
/// named, not described: it is `parsed_instant` of the text.
#[verifier::external_body]
pub(crate) fn parse_instant(text: &str) -> (r: Result<Timestamp, chrono::ParseError>)
    ensures
        match r {
            Ok(t) => parsed_instant(text@) == Some(t@) && valid_instant(t@),
            Err(_) => parsed_instant(text@) is None,
        },
{
    match text.parse::<chrono::DateTime<chrono::Utc>>() {
        Ok(t) => Ok(Timestamp {
            year: t.year(),
            month: t.month(),
            day: t.day(),
            hour: t.hour(),
            minute: t.minute(),
            second: t.second(),
            nanos: t.nanosecond(),
        }),
        Err(e) => Err(e),
    }
}

/// The instant a number of seconds after `t`.
///
/// Trusted: stands for `chrono::DateTime::checked_add_signed` with
/// `TimeDelta::try_seconds`. The result is named, not described: it is
/// `shifted` of the instant and the seconds.
#[verifier::external_body]
pub(crate) fn shift_seconds(t: &Timestamp, seconds: i64) -> (r: Option<Timestamp>)
    ensures
        match r {
            Some(x) => shifted(t@, seconds as int) == Some(x@) && valid_instant(x@),
            None => shifted(t@, seconds as int) is None,
        },
{
    let date = chrono::NaiveDate::from_ymd_opt(t.year, t.month, t.day)?;
    let start = date.and_hms_nano_opt(t.hour, t.minute, t.second, t.nanos)?.and_utc();
    let end = start.checked_add_signed(chrono::TimeDelta::try_seconds(seconds)?)?;
    Some(Timestamp {
        year: end.year(),
        month: end.month(),
        day: end.day(),
        hour: end.hour(),
        minute: end.minute(),
        second: end.second(),
        nanos: end.nanosecond(),
    })
}

/// The message of a date that could not be read.
///
/// Trusted: stands for the `Display` of `chrono::ParseError`. Nothing is said
/// of the text.
#[verifier::external_body]
pub(crate) fn parse_error_message(e: &chrono::ParseError) -> (r: String) {
    e.to_string()
}

} // verus!
