//! Points in time, and their reading on the Central European clock and calendar.

use chrono::{DateTime, Datelike, NaiveDate, NaiveDateTime, Offset, Utc};
use chrono_tz::Tz;
use vstd::prelude::*;
use vstd::string::*;

use crate::calendar::{date_label, date_of, lemma_date_exists, three_digits, two_digits, Date};
use crate::double::{saturated_signed, whole, Double};
use crate::text::{digits, write_digits};

verus! {

/// The first second that a moment can lie in: the start of the year -262143.
pub const MIN_SECS: i64 = -8_334_601_228_800;

/// The last second that a moment can lie in: the end of the year 262142.
pub const MAX_SECS: i64 = 8_210_266_876_799;

/// The number of the day 1970-01-01, where 0001-01-01 is day 1.
pub const EPOCH_DAY: i64 = 719_163;

pub const DAY_SECS: i64 = 86_400;

pub const HOUR_SECS: i64 = 3_600;

/// A point in time: whole seconds since 1970-01-01 00:00:00 UTC and nanoseconds after that.
///
/// The nanoseconds of a leap second, which has no number of its own, run on past one second.
#[derive(Clone, Copy, Debug, PartialEq, Eq, Structural)]
pub struct Moment {
    pub secs: i64,
    pub nanos: u32,
}

impl Moment {
    /// The moment is at least two days away from the ends of the calendar.
    pub open spec fn valid(self) -> bool {
        &&& MIN_SECS + 2 * DAY_SECS <= self.secs <= MAX_SECS - 2 * DAY_SECS
        &&& self.nanos < 1_000_000_000 || (self.secs % 60 == 59 && self.nanos < 2_000_000_000)
    }

    /// A valid moment as a clock shows it, which is never within a leap second.
    pub open spec fn on_clock(self) -> bool {
        self.valid() && self.nanos < 1_000_000_000
    }

    /// This moment is earlier than `other`.
    pub open spec fn before(self, other: Moment) -> bool {
        self.secs < other.secs || (self.secs == other.secs && self.nanos < other.nanos)
    }

    /// The moment `delta` seconds later. Leaving a leap second in either direction takes it as one
    /// second more.
    pub open spec fn later(self, delta: int) -> Moment {
        if self.nanos < 1_000_000_000 || delta == 0 {
            Moment { secs: (self.secs + delta) as i64, nanos: self.nanos }
        } else if delta > 0 {
            Moment {
                secs: (self.secs + delta) as i64,
                nanos: (self.nanos - 1_000_000_000) as u32,
            }
        } else {
            Moment {
                secs: (self.secs + delta + 1) as i64,
                nanos: (self.nanos - 1_000_000_000) as u32,
            }
        }
    }

    /// `delta` seconds later is within the calendar.
    pub open spec fn can_move(self, delta: int) -> bool {
        &&& MIN_SECS <= self.later(delta).secs <= MAX_SECS
        &&& MIN_SECS - 1 <= self.secs + delta <= MAX_SECS
    }

    /// Nanoseconds since 1970-01-01 00:00:00 UTC.
    pub open spec fn since_epoch(self) -> int {
        self.secs * 1_000_000_000 + self.nanos
    }

    /// Whole milliseconds since 1970-01-01 00:00:00 UTC.
    pub open spec fn millis(self) -> int {
        self.secs * 1_000 + self.nanos as int / 1_000_000
    }

    /// The UTC date.
    pub open spec fn day(self) -> int {
        day_of(self.secs as int)
    }

    /// The date on the Central European calendar.
    pub open spec fn cet_day(self) -> int {
        day_of(self.secs + cet_utc_offset(self.secs))
    }

    /// The second of the day on the Central European clock.
    pub open spec fn cet_second(self) -> int {
        (self.secs + cet_utc_offset(self.secs)) % 86_400
    }

    /// The hour on the Central European clock.
    pub open spec fn cet_hour(self) -> int {
        self.cet_second() / 3_600
    }

    /// The minute on the Central European clock.
    pub open spec fn cet_minute(self) -> int {
        (self.cet_second() / 60) % 60
    }
}

/// The second is at least a day away from the ends of the calendar.
pub open spec fn in_calendar(secs: int) -> bool {
    MIN_SECS + DAY_SECS <= secs <= MAX_SECS - DAY_SECS
}

/// The number of the day that a second lies in.
pub open spec fn day_of(secs: int) -> int {
    secs / 86_400 + EPOCH_DAY
}

/// The calendar has a day of this number.
pub open spec fn is_day(day: int) -> bool {
    day_of(MIN_SECS as int) <= day <= day_of(MAX_SECS as int)
}

/// The start of the local hour, as weather forecasts write it.
pub open spec fn hour_label(at: Moment) -> Seq<char> {
    full_hour_label(at.cet_day(), at.cet_hour())
}

/// The start of the given hour of a day, as weather forecasts write it.
pub open spec fn full_hour_label(day: int, hour: int) -> Seq<char> {
    date_label(day) + "T"@ + two_digits(hour as nat) + ":00"@
}

/// The local time of day.
pub open spec fn clock_label(at: Moment) -> Seq<char> {
    two_digits(at.cet_hour() as nat) + ":"@ + two_digits(at.cet_minute() as nat)
}

/// How far the Central European clock is ahead of UTC at the given second, in seconds.
pub uninterp spec fn cet_utc_offset(secs: i64) -> i32;

/// Calls `chrono::DateTime::with_timezone` for `chrono_tz::Tz::CET`.
///
/// Claims that the offset in force depends on the second alone and is less than a day; what it is
/// for a given second is left to the time zone database.
#[verifier::external_body]
fn cet_offset(secs: i64) -> (r: i32)
    requires
        in_calendar(secs as int),
    ensures
        r == cet_utc_offset(secs),
        -86_400 < r < 86_400,
{
    let utc: DateTime<Utc> = DateTime::from_timestamp(secs, 0).unwrap();
    utc.with_timezone(&Tz::CET).offset().fix().local_minus_utc()
}

/// Calls `chrono::NaiveDate::month`.
///
/// Claims that the month is that of the day's date in the Gregorian calendar.
#[verifier::external_body]
fn month_of_day(day: i32) -> (r: u32)
    requires
        is_day(day as int),
    ensures
        r == date_of(day as int).month,
{
    NaiveDate::from_num_days_from_ce_opt(day).unwrap().month()
}

/// Calls `chrono::NaiveDate::format` with `%Y-%m-%d`.
///
/// Claims that the text is the day's date in the Gregorian calendar: the year with at least four
/// digits, and a sign where it is not one of 0 to 9999, and month and day with two digits each.
#[verifier::external_body]
pub(crate) fn date_text(day: i32) -> (r: String)
    requires
        is_day(day as int),
    ensures
        r@ == date_label(day as int),
{
    NaiveDate::from_num_days_from_ce_opt(day).unwrap().format("%Y-%m-%d").to_string()
}

/// A local time, to the minute.
pub open spec fn minute_label(day: int, hour: int, minute: int) -> Seq<char> {
    date_label(day) + "T"@ + two_digits(hour as nat) + ":"@ + two_digits(minute as nat)
}

/// The local time that a text states, in seconds as if it were UTC.
pub uninterp spec fn local_seconds(text: Seq<char>) -> Option<i64>;

/// Calls `chrono::NaiveDateTime::parse_from_str` with `%Y-%m-%dT%H:%M`.
///
/// Claims that what is read depends on the text alone, lies within the calendar, and is what was
/// meant where the text is a date of the years 0 to 9999, a `T` and a time of day with two digits
/// for hour and minute; which other texts are accepted is not written out.
#[verifier::external_body]
fn read_local(text: &str) -> (r: Option<i64>)
    ensures
        r == local_seconds(text@),
        r matches Some(n) ==> MIN_SECS <= n <= MAX_SECS,
        forall|day: int, hour: int, minute: int|
            0 <= date_of(day).year <= 9999 && 0 <= hour < 24 && 0 <= minute < 60 && text@
                == #[trigger] minute_label(day, hour, minute) ==> r is Some && r->0 == (day
                - EPOCH_DAY) * 86_400 + hour * 3_600 + minute * 60,
{
    NaiveDateTime::parse_from_str(text, "%Y-%m-%dT%H:%M").ok().map(|t| t.and_utc().timestamp())
}

/// The second at which the Central European clock shows the given local time, where there is
/// exactly one.
pub uninterp spec fn cet_to_utc(local: i64) -> Option<i64>;

/// Calls `chrono::NaiveDateTime::and_local_timezone` for `chrono_tz::Tz::CET` and keeps a single
/// result.
///
/// Claims that the result depends on the local time alone, lies within the calendar, and is a
/// second at which the clock shows that local time. Which local times have none, because the clock
/// skips them or shows them twice, is left to the time zone database.
#[verifier::external_body]
fn from_cet(local: i64) -> (r: Option<i64>)
    requires
        MIN_SECS <= local <= MAX_SECS,
    ensures
        r == cet_to_utc(local),
        r matches Some(n) ==> MIN_SECS <= n <= MAX_SECS && n + cet_utc_offset(n) == local,
{
    let naive: NaiveDateTime = DateTime::<Utc>::from_timestamp(local, 0).unwrap().naive_utc();
    naive.and_local_timezone(Tz::CET).single().map(|t| t.timestamp())
}

/// A UTC time to the millisecond as RFC 3339 writes it: the fraction is left out where it is zero.
pub open spec fn rfc3339(secs: int, millis: int) -> Seq<char> {
    let second = secs % 86_400;
    let whole = date_label(day_of(secs)) + "T"@ + two_digits((second / 3_600) as nat) + ":"@
        + two_digits(((second / 60) % 60) as nat) + ":"@ + two_digits((second % 60) as nat);
    if millis == 0 {
        whole + "+00:00"@
    } else {
        whole + "."@ + three_digits(millis as nat) + "+00:00"@
    }
}

/// Calls `chrono::DateTime::to_rfc3339`.
///
/// Claims that the text of a time in whole milliseconds is the date, a `T`, the time of day, three
/// digits of a fraction where there is one, and the offset of UTC.
#[verifier::external_body]
fn format_time(secs: i64, nanos: u32) -> (r: String)
    requires
        MIN_SECS <= secs <= MAX_SECS,
        nanos < 1_000_000_000,
        nanos % 1_000_000 == 0,
    ensures
        r@ == rfc3339(secs as int, nanos as int / 1_000_000),
{
    DateTime::<Utc>::from_timestamp(secs, nanos).unwrap().to_rfc3339()
}

/// The text of a time in seconds since 1970-01-01, empty where the calendar does not reach.
pub open spec fn second_label(secs: int) -> Seq<char> {
    if MIN_SECS <= secs <= MAX_SECS {
        rfc3339(secs, 0)
    } else {
        seq![]
    }
}

/// The text of a time in milliseconds since 1970-01-01, empty where the calendar does not reach.
pub open spec fn milli_label(millis: int) -> Seq<char> {
    if MIN_SECS <= millis / 1_000 <= MAX_SECS {
        rfc3339(millis / 1_000, millis % 1_000)
    } else {
        seq![]
    }
}

/// Formats milliseconds since 1970-01-01 as an ISO 8601 UTC text, empty if out of range.
pub fn iso_from_millis(millis: i64) -> (r: String)
    ensures
        r@ == milli_label(millis as int),
{
    if millis < MIN_SECS * 1_000 || millis > MAX_SECS * 1_000 + 999 {
        return String::new();
    }
    let shifted: i64 = millis + 8_640_000_000_000_000;
    let secs: i64 = shifted / 1_000 - 8_640_000_000_000;
    let thousandths: u32 = (shifted % 1_000) as u32;
    assert(secs == millis as int / 1_000 && thousandths == millis as int % 1_000);
    format_time(secs, thousandths * 1_000_000)
}

/// Formats seconds since 1970-01-01, without their fraction, as an ISO 8601 UTC text, empty if out
/// of range.
pub fn iso_from_seconds(secs: Double) -> (r: String)
    ensures
        r@ == second_label(saturated_signed(secs, whole(secs))),
{
    let n: i64 = secs.truncated_i64();
    if n < MIN_SECS || n > MAX_SECS {
        String::new()
    } else {
        format_time(n, 0)
    }
}

/// A line of a forecast that names a local hour.
#[derive(Clone, Copy, Debug, PartialEq, Eq, Structural)]
pub struct LocalHour {
    /// The date on the Central European calendar.
    pub day: i64,
    /// Seconds since 1970-01-01 00:00:00 UTC.
    pub secs: i64,
}

/// The local date and the second that a forecast's time stands for; `None` where the text cannot
/// be read or the Central European clock does not show that time exactly once.
pub open spec fn local_hour(text: Seq<char>) -> Option<LocalHour> {
    match local_seconds(text) {
        Some(local) => match cet_to_utc(local) {
            Some(secs) => Some(LocalHour { day: day_of(local as int) as i64, secs }),
            None => None,
        },
        None => None,
    }
}

proof fn lemma_full_hour(day: int, hour: int)
    ensures
        full_hour_label(day, hour) == minute_label(day, hour, 0),
{
    reveal_strlit("0");
    reveal_strlit(":");
    reveal_strlit(":00");
    reveal_with_fuel(digits, 2);
    assert(full_hour_label(day, hour) =~= minute_label(day, hour, 0));
}

/// Reads a forecast's time.
///
/// A full hour, where it is read, is found again by its label.
pub fn read_local_hour(text: &str) -> (r: Option<LocalHour>)
    ensures
        r == local_hour(text@),
        r matches Some(h) ==> {
            &&& MIN_SECS <= h.secs <= MAX_SECS
            &&& is_day(h.day as int)
            &&& h.day == (Moment { secs: h.secs, nanos: 0 }).cet_day()
        },
        forall|day: int, hour: int|
            0 <= date_of(day).year <= 9999 && 0 <= hour < 24 && text@ == #[trigger] full_hour_label(
                day,
                hour,
            ) ==> {
                &&& r is Some <==> cet_to_utc(
                    ((day - EPOCH_DAY) * 86_400 + hour * 3_600) as i64,
                ) is Some
                &&& r matches Some(h) ==> h.day == day && hour_label(
                    Moment { secs: h.secs, nanos: 0 },
                ) == text@
            },
{
    proof {
        assert forall|day: int, hour: int| text@ == #[trigger] full_hour_label(day, hour) implies text@
            == minute_label(day, hour, 0) by {
            lemma_full_hour(day, hour);
        }
    }
    match read_local(text) {
        Some(local) => match from_cet(local) {
            Some(secs) => Some(LocalHour { day: day_number(local), secs }),
            None => None,
        },
        None => None,
    }
}

/// The number of the day that a second lies in.
fn day_number(secs: i64) -> (r: i64)
    requires
        MIN_SECS <= secs <= MAX_SECS,
    ensures
        r == day_of(secs as int),
        is_day(r as int),
{
    (secs + 8_640_000_000_000) / 86_400 - 100_000_000 + 719_163
}

/// Writes a number below 100 as two digits.
fn write_two_digits(n: u64) -> (r: String)
    requires
        n < 100,
    ensures
        r@ == two_digits(n as nat),
{
    if n < 10 {
        "0".to_owned().concat(write_digits(n, 10).as_str())
    } else {
        write_digits(n, 10)
    }
}

impl Moment {
    /// Whether this moment is earlier than `other`.
    pub fn is_before(self, other: Moment) -> (r: bool)
        ensures
            r == self.before(other),
    {
        self.secs < other.secs || (self.secs == other.secs && self.nanos < other.nanos)
    }

    /// The moment `delta` seconds later.
    pub fn plus_seconds(self, delta: i64) -> (r: Moment)
        requires
            self.valid(),
            self.can_move(delta as int),
        ensures
            r == self.later(delta as int),
            r.nanos < 1_000_000_000 || r == self,
            self.on_clock() ==> r.nanos < 1_000_000_000,
            self.on_clock() ==> r.since_epoch() == self.since_epoch() + delta * 1_000_000_000,
    {
        if self.nanos < 1_000_000_000 || delta == 0 {
            Moment { secs: self.secs + delta, nanos: self.nanos }
        } else if delta > 0 {
            Moment { secs: self.secs + delta, nanos: self.nanos - 1_000_000_000 }
        } else {
            Moment { secs: self.secs + (delta + 1), nanos: self.nanos - 1_000_000_000 }
        }
    }

    /// The moment one hour later.
    pub fn plus_hour(self) -> (r: Moment)
        requires
            in_calendar(self.secs as int),
            self.nanos < 2_000_000_000,
        ensures
            r == self.later(3_600),
            self.can_move(3_600),
            r.secs == self.secs + 3_600,
            r.nanos < 1_000_000_000,
    {
        Moment {
            secs: self.secs + HOUR_SECS,
            nanos: if self.nanos < 1_000_000_000 {
                self.nanos
            } else {
                self.nanos - 1_000_000_000
            },
        }
    }

    /// The number of the UTC day.
    pub fn utc_day(self) -> (r: i32)
        requires
            in_calendar(self.secs as int),
        ensures
            r == self.day(),
            is_day(r as int),
            is_day(r + 1),
    {
        day_number(self.secs) as i32
    }

    /// The month in UTC.
    pub fn utc_month(self) -> (r: u32)
        requires
            in_calendar(self.secs as int),
        ensures
            r == date_of(self.day()).month,
            1 <= r <= 12,
    {
        proof {
            lemma_date_exists(self.day());
        }
        month_of_day(self.utc_day())
    }

    fn local_second(self) -> (r: i64)
        requires
            in_calendar(self.secs as int),
        ensures
            r == self.secs + cet_utc_offset(self.secs),
            MIN_SECS <= r <= MAX_SECS,
    {
        self.secs + cet_offset(self.secs) as i64
    }

    /// The number of the day on the Central European calendar.
    pub fn local_day(self) -> (r: i64)
        requires
            in_calendar(self.secs as int),
        ensures
            r == self.cet_day(),
            is_day(r as int),
    {
        day_number(self.local_second())
    }

    fn second_of_day(self) -> (r: i64)
        requires
            in_calendar(self.secs as int),
        ensures
            r == self.cet_second(),
            0 <= r < 86_400,
    {
        (self.local_second() + 8_640_000_000_000) % 86_400
    }

    /// The hour on the Central European clock.
    pub fn local_hour_of_day(self) -> (r: u64)
        requires
            in_calendar(self.secs as int),
        ensures
            r == self.cet_hour(),
            r < 24,
    {
        (self.second_of_day() / 3_600) as u64
    }

    /// The start of the local hour, as weather forecasts write it.
    pub fn hour_text(self) -> (r: String)
        requires
            in_calendar(self.secs as int),
        ensures
            r@ == hour_label(self),
    {
        date_text(self.local_day() as i32).concat("T").concat(
            write_two_digits(self.local_hour_of_day()).as_str(),
        ).concat(":00")
    }

    /// The local time of day.
    pub fn clock_text(self) -> (r: String)
        requires
            in_calendar(self.secs as int),
        ensures
            r@ == clock_label(self),
    {
        let minute: u64 = ((self.second_of_day() / 60) % 60) as u64;
        write_two_digits(self.local_hour_of_day()).concat(":").concat(
            write_two_digits(minute).as_str(),
        )
    }

    /// Whole milliseconds since 1970-01-01 00:00:00 UTC.
    pub fn to_millis(self) -> (r: i64)
        requires
            MIN_SECS <= self.secs <= MAX_SECS,
        ensures
            r == self.millis(),
    {
        self.secs * 1_000 + (self.nanos / 1_000_000) as i64
    }

    /// Nanoseconds from `earlier` to this moment.
    pub fn nanos_since(self, earlier: Moment) -> (r: i128)
        ensures
            r == self.since_epoch() - earlier.since_epoch(),
    {
        (self.secs as i128 - earlier.secs as i128) * 1_000_000_000 + (self.nanos as i128
            - earlier.nanos as i128)
    }
}

impl Moment {
    /// The moment of the given second and nanosecond, where it is a valid one.
    pub fn of(secs: i64, nanos: u32) -> (r: Option<Moment>)
        ensures
            r == (if (Moment { secs, nanos }).valid() {
                Some(Moment { secs, nanos })
            } else {
                None
            }),
    {
        let m: Moment = Moment { secs, nanos };
        if m.is_valid() {
            Some(m)
        } else {
            None
        }
    }

    /// Whether the moment is valid.
    pub fn is_valid(self) -> (r: bool)
        ensures
            r == self.valid(),
    {
        if self.secs < MIN_SECS + 2 * DAY_SECS || self.secs > MAX_SECS - 2 * DAY_SECS {
            return false;
        }
        self.nanos < 1_000_000_000 || ((self.secs + 8_640_000_000_000) % 60 == 59 && self.nanos
            < 2_000_000_000)
    }

    /// Whether the moment is a valid one that a clock shows.
    pub fn is_on_clock(self) -> (r: bool)
        ensures
            r == self.on_clock(),
    {
        self.is_valid() && self.nanos < 1_000_000_000
    }

    /// Whether the moment is at least a day away from the ends of the calendar.
    pub fn is_in_calendar(self) -> (r: bool)
        ensures
            r == in_calendar(self.secs as int),
    {
        MIN_SECS + DAY_SECS <= self.secs && self.secs <= MAX_SECS - DAY_SECS
    }

    /// Whether `hours` hours later is within the calendar.
    pub fn can_move_hours(self, hours: i64) -> (r: bool)
        requires
            self.valid(),
        ensures
            r == self.can_move(hours * 3_600),
    {
        self.can_move_by(hours as i128 * 3_600)
    }

    /// Whether `delta` seconds later is within the calendar.
    pub fn can_move_by(self, delta: i128) -> (r: bool)
        requires
            self.valid(),
            -0x1_0000_0000_0000_0000_0000 <= delta <= 0x1_0000_0000_0000_0000_0000,
        ensures
            r == self.can_move(delta as int),
    {
        let low: i128 = MIN_SECS as i128;
        let high: i128 = MAX_SECS as i128;
        let plain: i128 = self.secs as i128 + delta;
        if plain < low - 1 || plain > high {
            return false;
        }
        let moved: i128 = if self.nanos < 1_000_000_000 || delta >= 0 {
            plain
        } else {
            plain + 1
        };
        low <= moved && moved <= high
    }
}

/// Days are counted so that 1970-01-01, on which seconds begin, has its place in the calendar, and
/// each has 24 hours.
pub proof fn lemma_days(at: Moment)
    ensures
        (Date { year: 1970, month: 1, day: 1 }).number() == EPOCH_DAY,
        0 <= at.secs - (at.day() - (Date { year: 1970, month: 1, day: 1 }).number()) * 24 * 3_600
            < 24 * 3_600,
{
    reveal_with_fuel(crate::calendar::days_before_month, 2);
}

/// The Central European day, hour and minute make up the second that the Central European clock
/// shows.
pub proof fn lemma_local_time(at: Moment)
    ensures
        0 <= at.cet_hour() < 24,
        0 <= at.cet_minute() < 60,
        0 <= at.secs + cet_utc_offset(at.secs) - ((at.cet_day() - EPOCH_DAY) * 86_400
            + at.cet_hour() * 3_600 + at.cet_minute() * 60) < 60,
{
}

/// Moving on by seconds adds as many seconds, and what is earlier has passed before.
pub proof fn lemma_time_passes(at: Moment, other: Moment, delta: int)
    requires
        at.nanos < 1_000_000_000,
        other.nanos < 1_000_000_000,
        at.can_move(delta),
    ensures
        at.later(delta).since_epoch() == at.since_epoch() + delta * 1_000_000_000,
        at.before(other) <==> at.since_epoch() < other.since_epoch(),
{
}

/// Milliseconds are those that have passed in full.
pub proof fn lemma_millis(at: Moment)
    requires
        at.nanos < 1_000_000_000,
    ensures
        at.millis() * 1_000_000 <= at.since_epoch() < (at.millis() + 1) * 1_000_000,
{
}

/// A whole second has one text, whether it is given in seconds or in milliseconds.
pub proof fn lemma_labels_agree(secs: int)
    ensures
        milli_label(secs * 1_000) == second_label(secs),
{
}

} // verus!
