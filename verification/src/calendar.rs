//! Calendar dates, Unix seconds and time zones.
//!
//! The conversions are those of `chrono`, and the time zone rules those of
//! `chrono-tz`. The calendar is the proleptic Gregorian one.

use crate::text;
use chrono::{Datelike, NaiveDate, Offset, TimeZone, Timelike, Utc};
use chrono_tz::Tz;
use vstd::prelude::*;

verus! {

/// First year of the calendar.
pub const MIN_YEAR: i32 = -262_143;

/// Last year of the calendar.
pub const MAX_YEAR: i32 = 262_142;

/// Seconds in a day.
pub const DAY_SECONDS: i64 = 86_400;

/// A date and a time of day.
#[derive(Debug, Clone, Copy, PartialEq, Eq, Structural)]
pub struct CivilTime {
    /// Year.
    pub year: i32,
    /// Month, from 1.
    pub month: u32,
    /// Day of the month, from 1.
    pub day: u32,
    /// Hour, up to 23.
    pub hour: u32,
    /// Minute, up to 59.
    pub minute: u32,
    /// Second, up to 59.
    pub second: u32,
}

/// Whether a year has a February 29th.
pub open spec fn is_leap_year(year: int) -> bool {
    year % 4 == 0 && (year % 100 != 0 || year % 400 == 0)
}

/// Number of days in a month.
pub open spec fn days_in_month(year: int, month: int) -> int {
    if month == 2 {
        if is_leap_year(year) {
            29
        } else {
            28
        }
    } else if month == 4 || month == 6 || month == 9 || month == 11 {
        30
    } else {
        31
    }
}

/// Number of days from the beginning of a year to the beginning of a month.
pub open spec fn days_before_month(year: int, month: int) -> int
    decreases month,
{
    if month <= 1 {
        0
    } else {
        days_before_month(year, month - 1) + days_in_month(year, month - 1)
    }
}

/// Number of days from the beginning of year 1 to the beginning of a year.
pub open spec fn days_before_year(year: int) -> int {
    365 * (year - 1) + (year - 1) / 4 - (year - 1) / 100 + (year - 1) / 400
}

/// Number of days from the Unix epoch to a date.
pub open spec fn epoch_days(year: int, month: int, day: int) -> int {
    days_before_year(year) + days_before_month(year, month) + day - 1 - 719_162
}

impl CivilTime {
    /// Whether the date exists and the time of day does.
    pub open spec fn is_valid(self) -> bool {
        &&& MIN_YEAR <= self.year <= MAX_YEAR
        &&& 1 <= self.month <= 12
        &&& 1 <= self.day <= days_in_month(self.year as int, self.month as int)
        &&& self.hour < 24
        &&& self.minute < 60
        &&& self.second < 60
    }

    /// The Unix seconds of this date and time.
    pub open spec fn unix(self) -> int {
        epoch_days(self.year as int, self.month as int, self.day as int) * DAY_SECONDS + self.hour
            * 3600 + self.minute * 60 + self.second
    }
}

/// The first second of the calendar.
pub open spec fn min_unix() -> int {
    epoch_days(MIN_YEAR as int, 1, 1) * DAY_SECONDS
}

/// The last second of the calendar.
pub open spec fn max_unix() -> int {
    epoch_days(MAX_YEAR as int, 12, 31) * DAY_SECONDS + DAY_SECONDS - 1
}

/// Whether Unix seconds lie within the calendar.
pub open spec fn in_calendar(unix: int) -> bool {
    min_unix() <= unix <= max_unix()
}

/// Convert a date and time to Unix seconds with `chrono`: `NaiveDate::from_ymd_opt`,
/// `NaiveDate::and_hms_opt` and `DateTime::timestamp`.
///
/// `None` comes back exactly when the date or the time of day does not exist or
/// the year lies outside the calendar. The seconds are those of the proleptic
/// Gregorian calendar, every day having 86 400 of them.
#[verifier::external_body]
fn chrono_timestamp(t: CivilTime) -> (r: Option<i64>)
    ensures
        r is Some <==> t.is_valid(),
        r matches Some(unix) ==> unix == t.unix(),
{
    let date = NaiveDate::from_ymd_opt(t.year, t.month, t.day)?;
    let time = date.and_hms_opt(t.hour, t.minute, t.second)?;
    Some(time.and_utc().timestamp())
}

/// Convert Unix seconds to a date and time with `chrono`: `TimeZone::timestamp_opt`
/// of `Utc`.
///
/// `None` comes back exactly when the seconds lie outside the calendar. The date
/// and time are the ones that have these Unix seconds.
#[verifier::external_body]
fn chrono_civil(unix: i64) -> (r: Option<CivilTime>)
    ensures
        r is Some <==> in_calendar(unix as int),
        r matches Some(t) ==> t.is_valid() && t.unix() == unix,
{
    let t = Utc.timestamp_opt(unix, 0).single()?;
    Some(
        CivilTime {
            year: t.year(),
            month: t.month(),
            day: t.day(),
            hour: t.hour(),
            minute: t.minute(),
            second: t.second(),
        },
    )
}

/// The date and time that has these Unix seconds.
pub open spec fn civil_at(unix: int) -> CivilTime {
    choose|t: CivilTime| t.is_valid() && #[trigger] t.unix() == unix
}

/// Convert Unix seconds to a date and time. `None` comes back outside the
/// calendar.
pub fn civil_from_unix(unix: i64) -> (r: Option<CivilTime>)
    ensures
        r == if in_calendar(unix as int) {
            Some(civil_at(unix as int))
        } else {
            None
        },
        r matches Some(t) ==> t.is_valid() && t.unix() == unix,
{
    let r = chrono_civil(unix);
    proof {
        if let Some(t) = r {
            law_civil_at(t);
        }
    }
    r
}

/// Convert a date and time to Unix seconds. `None` comes back when the date or the
/// time of day does not exist.
pub fn unix_from_civil(t: CivilTime) -> (r: Option<i64>)
    ensures
        r is Some <==> t.is_valid(),
        r matches Some(unix) ==> unix == t.unix() && in_calendar(unix as int),
{
    proof {
        if t.is_valid() {
            law_dates_lie_in_calendar(t);
        }
    }
    chrono_timestamp(t)
}

/// Converting a date and time to Unix seconds and back gives it again.
pub proof fn law_civil_at(t: CivilTime)
    requires
        t.is_valid(),
    ensures
        civil_at(t.unix()) == t,
{
    let back = civil_at(t.unix());
    assert(back.is_valid() && back.unix() == t.unix());
    law_unix_seconds_are_unique(back, t);
}

/// Whether `chrono-tz` knows a time zone of this name.
pub uninterp spec fn zone_is_known(name: Seq<char>) -> bool;

/// Ask `chrono-tz` whether there is a time zone of this name, by `Tz::from_str`.
///
/// The answer comes from a table that is built into `chrono-tz`.
#[verifier::external_body]
pub(crate) fn zone_known(name: &str) -> (r: bool)
    ensures
        r == zone_is_known(name@),
{
    name.parse::<Tz>().is_ok()
}

/// The seconds by which the clocks of a time zone are ahead of UTC at an instant.
pub uninterp spec fn zone_offset(name: Seq<char>, unix: int) -> int;

/// Whether a number of seconds is less than a day on either side.
pub open spec fn under_a_day(seconds: int) -> bool {
    -DAY_SECONDS < seconds < DAY_SECONDS
}

/// Ask `chrono-tz` by how many seconds a time zone is ahead of UTC, by
/// `DateTime::with_timezone` and `FixedOffset::local_minus_utc`.
///
/// `None` comes back when the name is not known or the instant lies outside the
/// calendar. An offset is less than a day, as `FixedOffset` requires. What it is
/// at a given instant is in the time zone tables and is not stated.
#[verifier::external_body]
pub(crate) fn zone_offset_seconds(name: &str, unix: i64) -> (r: Option<i32>)
    ensures
        (r is Some) == (zone_is_known(name@) && in_calendar(unix as int)),
        r matches Some(offset) ==> offset == zone_offset(name@, unix as int),
        r matches Some(offset) ==> under_a_day(offset as int),
{
    let zone: Tz = name.parse().ok()?;
    let utc = Utc.timestamp_opt(unix, 0).single()?;
    Some(utc.with_timezone(&zone).offset().fix().local_minus_utc())
}

/// A date as year, month and day with hyphens between them, the year as given.
pub open spec fn date_text(year: Seq<char>, month: int, day: int) -> Seq<char> {
    year + "-"@ + text::padded(month, 10, 2) + "-"@ + text::padded(day, 10, 2)
}

/// A time of day as hour, minute and second with colons between them.
pub open spec fn time_text(hour: int, minute: int, second: int) -> Seq<char> {
    text::padded(hour, 10, 2) + ":"@ + text::padded(minute, 10, 2) + ":"@ + text::padded(
        second,
        10,
        2,
    )
}

/// At least four digits; years before 0 or after 9999 have a sign in front.
pub open spec fn signed_year_text(year: int) -> Seq<char> {
    if 0 <= year <= 9999 {
        text::padded(year, 10, 4)
    } else if year > 9999 {
        "+"@ + text::dec(year)
    } else {
        "-"@ + if -year <= 9999 {
            text::padded(-year, 10, 4)
        } else {
            text::dec(-year)
        }
    }
}

/// At least four characters, the minus sign of years before 0 included.
pub open spec fn plain_year_text(year: int) -> Seq<char> {
    if 0 <= year <= 9999 {
        text::padded(year, 10, 4)
    } else if year > 9999 {
        text::dec(year)
    } else {
        "-"@ + if -year <= 999 {
            text::padded(-year, 10, 3)
        } else {
            text::dec(-year)
        }
    }
}

/// Write a year with a sign outside the years 0 to 9999.
pub fn write_signed_year(year: i32) -> (r: String)
    ensures
        r@ == signed_year_text(year as int),
{
    let mut out = String::new();
    if 0 <= year && year <= 9999 {
        text::push_padded(&mut out, year as u64, 10, 4);
    } else if year > 9999 {
        out.append("+");
        text::push_dec(&mut out, year as u128);
    } else {
        out.append("-");
        let size: i64 = -(year as i64);
        if size <= 9999 {
            text::push_padded(&mut out, size as u64, 10, 4);
        } else {
            text::push_dec(&mut out, size as u128);
        }
    }
    assert(out@ == signed_year_text(year as int));
    out
}

/// Write a year in four characters or more.
pub fn write_plain_year(year: i32) -> (r: String)
    ensures
        r@ == plain_year_text(year as int),
{
    let mut out = String::new();
    if 0 <= year && year <= 9999 {
        text::push_padded(&mut out, year as u64, 10, 4);
    } else if year > 9999 {
        text::push_dec(&mut out, year as u128);
    } else {
        out.append("-");
        let size: i64 = -(year as i64);
        if size <= 999 {
            text::push_padded(&mut out, size as u64, 10, 3);
        } else {
            text::push_dec(&mut out, size as u128);
        }
    }
    assert(out@ == plain_year_text(year as int));
    out
}

/// Write a date behind a year that is already written.
pub fn write_date(year: String, month: u32, day: u32) -> (r: String)
    ensures
        r@ == date_text(year@, month as int, day as int),
{
    let mut out = year;
    out.append("-");
    text::push_padded(&mut out, month as u64, 10, 2);
    out.append("-");
    text::push_padded(&mut out, day as u64, 10, 2);
    out
}

/// Write a time of day.
pub fn write_time(hour: u32, minute: u32, second: u32) -> (r: String)
    ensures
        r@ == time_text(hour as int, minute as int, second as int),
{
    let mut out = String::new();
    text::push_padded(&mut out, hour as u64, 10, 2);
    out.append(":");
    text::push_padded(&mut out, minute as u64, 10, 2);
    out.append(":");
    text::push_padded(&mut out, second as u64, 10, 2);
    assert(out@ == time_text(hour as int, minute as int, second as int));
    out
}

/// A year is 365 days long, a leap year 366.
proof fn lemma_year_length(year: int)
    ensures
        days_before_year(year + 1) == days_before_year(year) + 365 + (if is_leap_year(year) {
            1int
        } else {
            0
        }),
        days_before_month(year, 13) == 365 + (if is_leap_year(year) {
            1int
        } else {
            0
        }),
{
    reveal_with_fuel(days_before_month, 13);
}

/// Later months begin later.
proof fn lemma_month_order(year: int, a: int, b: int)
    requires
        1 <= a <= b <= 13,
    ensures
        days_before_month(year, a) <= days_before_month(year, b),
        a < b ==> days_before_month(year, a) + days_in_month(year, a) <= days_before_month(year, b),
    decreases b - a,
{
    if a < b {
        lemma_month_order(year, a, b - 1);
    }
}

/// Dates in earlier years are earlier days.
proof fn lemma_year_order(a: CivilTime, b: CivilTime)
    requires
        a.is_valid(),
        b.is_valid(),
        a.year < b.year,
    ensures
        epoch_days(a.year as int, a.month as int, a.day as int) < epoch_days(
            b.year as int,
            b.month as int,
            b.day as int,
        ),
{
    lemma_year_length(a.year as int);
    lemma_month_order(a.year as int, a.month as int, 13);
    lemma_month_order(b.year as int, 1, b.month as int);
    assert(days_before_year(a.year + 1) <= days_before_year(b.year as int));
}

/// No two dates fall on the same day.
proof fn lemma_days_injective(a: CivilTime, b: CivilTime)
    requires
        a.is_valid(),
        b.is_valid(),
        epoch_days(a.year as int, a.month as int, a.day as int) == epoch_days(
            b.year as int,
            b.month as int,
            b.day as int,
        ),
    ensures
        a.year == b.year && a.month == b.month && a.day == b.day,
{
    if a.year < b.year {
        lemma_year_order(a, b);
    } else if b.year < a.year {
        lemma_year_order(b, a);
    } else if a.month < b.month {
        lemma_month_order(a.year as int, a.month as int, b.month as int);
    } else if b.month < a.month {
        lemma_month_order(a.year as int, b.month as int, a.month as int);
    }
}

/// No two dates and times have the same Unix seconds.
pub proof fn law_unix_seconds_are_unique(a: CivilTime, b: CivilTime)
    requires
        a.is_valid(),
        b.is_valid(),
        a.unix() == b.unix(),
    ensures
        a == b,
{
    let day_a = epoch_days(a.year as int, a.month as int, a.day as int);
    let day_b = epoch_days(b.year as int, b.month as int, b.day as int);
    let time_a = a.hour * 3600 + a.minute * 60 + a.second;
    let time_b = b.hour * 3600 + b.minute * 60 + b.second;
    assert(0 <= time_a < DAY_SECONDS && 0 <= time_b < DAY_SECONDS);
    assert(day_a == day_b && time_a == time_b);
    lemma_days_injective(a, b);
}

/// The calendar fits into 64 bits with room to spare.
pub proof fn lemma_calendar_fits()
    ensures
        -10_000_000_000_000 < min_unix() < -8_000_000_000_000,
        8_000_000_000_000 < max_unix() < 10_000_000_000_000,
{
    reveal_with_fuel(days_before_month, 13);
}

/// Dates of a few centuries around now are far from the ends of the calendar.
pub proof fn lemma_recent_dates(t: CivilTime)
    requires
        t.is_valid(),
        1600 <= t.year <= 2400,
    ensures
        -15_000_000_000 < t.unix() < 15_000_000_000,
{
    lemma_year_length(t.year as int);
    lemma_month_order(t.year as int, 1, t.month as int);
    lemma_month_order(t.year as int, t.month as int, 13);
}

/// Every date and time that exists lies within the calendar.
pub proof fn law_dates_lie_in_calendar(t: CivilTime)
    requires
        t.is_valid(),
    ensures
        in_calendar(t.unix()),
{
    let first = CivilTime { year: MIN_YEAR, month: 1, day: 1, hour: 0, minute: 0, second: 0 };
    let last = CivilTime { year: MAX_YEAR, month: 12, day: 31, hour: 23, minute: 59, second: 59 };
    lemma_month_order(t.year as int, 1, t.month as int);
    if t.year > MIN_YEAR {
        lemma_year_order(first, t);
    }
    if t.year < MAX_YEAR {
        lemma_year_order(t, last);
    } else {
        lemma_month_order(t.year as int, t.month as int, 12);
    }
}

/// Two digits stand for the number that they were written for.
pub proof fn lemma_two_digits(n: int)
    requires
        0 <= n <= 99,
    ensures
        text::padded(n, 10, 2).len() == 2,
        10 * (text::padded(n, 10, 2)[0] as int - 48) + (text::padded(n, 10, 2)[1] as int - 48) == n,
{
    reveal_with_fuel(text::padded, 3);
}

/// A date of the years 0 to 9999 is written as four digits of year, two of month and two
/// of day with hyphens between them, and a time of day as two digits each of hour, minute
/// and second with colons between them.
pub proof fn law_date_and_time_texts(t: CivilTime)
    requires
        t.is_valid(),
        0 <= t.year <= 9999,
    ensures
        ({
            let date = date_text(signed_year_text(t.year as int), t.month as int, t.day as int);
            let time = time_text(t.hour as int, t.minute as int, t.second as int);
            let pair = |s: Seq<char>, from: int, n: int|
                10 * (s[from] as int - 48) + (s[from + 1] as int - 48) == n;
            &&& signed_year_text(t.year as int) == plain_year_text(t.year as int)
            &&& date.len() == 10 && date[4] == '-' && date[7] == '-'
            &&& pair(date, 0, t.year as int / 100) && pair(date, 2, t.year as int % 100)
            &&& pair(date, 5, t.month as int) && pair(date, 8, t.day as int)
            &&& time.len() == 8 && time[2] == ':' && time[5] == ':'
            &&& pair(time, 0, t.hour as int) && pair(time, 3, t.minute as int) && pair(
                time,
                6,
                t.second as int,
            )
        }),
{
    reveal_strlit("-");
    reveal_strlit(":");
    lemma_two_digits(t.month as int);
    lemma_two_digits(t.day as int);
    lemma_two_digits(t.hour as int);
    lemma_two_digits(t.minute as int);
    lemma_two_digits(t.second as int);
    reveal_with_fuel(text::padded, 5);
    let year = text::padded(t.year as int, 10, 4);
    assert(year.len() == 4);
    let date = date_text(year, t.month as int, t.day as int);
    let time = time_text(t.hour as int, t.minute as int, t.second as int);
    assert(date[0] == year[0] && date[1] == year[1] && date[2] == year[2] && date[3] == year[3]);
    assert(date[5] == text::padded(t.month as int, 10, 2)[0]);
    assert(date[6] == text::padded(t.month as int, 10, 2)[1]);
    assert(date[8] == text::padded(t.day as int, 10, 2)[0]);
    assert(date[9] == text::padded(t.day as int, 10, 2)[1]);
    assert(time[0] == text::padded(t.hour as int, 10, 2)[0]);
    assert(time[1] == text::padded(t.hour as int, 10, 2)[1]);
    assert(time[3] == text::padded(t.minute as int, 10, 2)[0]);
    assert(time[4] == text::padded(t.minute as int, 10, 2)[1]);
    assert(time[6] == text::padded(t.second as int, 10, 2)[0]);
    assert(time[7] == text::padded(t.second as int, 10, 2)[1]);
}

/// The calendar goes from the first second of the year -262143 to the last of the year
/// 262142.
pub proof fn law_ends_of_the_calendar(unix: int)
    ensures
        in_calendar(unix) <==> -8_334_601_228_800 <= unix <= 8_210_266_876_799,
{
    reveal_with_fuel(days_before_month, 13);
}

/// The lengths of the months, with a day more in February every fourth year, but not in
/// the centuries that 400 does not divide.
pub proof fn law_lengths_of_months(year: int, month: int)
    requires
        1 <= month <= 12,
    ensures
        ({
            let leap = year % 400 == 0 || (year % 4 == 0 && year % 100 != 0);
            let days = seq![31int, 28, 31, 30, 31, 30, 31, 31, 30, 31, 30, 31];
            days_in_month(year, month) == if month == 2 && leap {
                29
            } else {
                days[month - 1]
            }
        }),
{
}

/// Unix seconds count on from the first second of 1970: an hour is 3600 of them, a minute
/// 60, a day 86400, and after the last day of a month comes the first of the next one.
pub proof fn law_days_follow_each_other(t: CivilTime)
    requires
        t.is_valid(),
    ensures
        ({
            let midnight = CivilTime { hour: 0, minute: 0, second: 0, ..t };
            let tomorrow = CivilTime { day: (t.day + 1) as u32, ..t };
            let next_month = CivilTime { day: 1, month: (t.month + 1) as u32, ..t };
            let next_year = CivilTime { day: 1, month: 1, year: (t.year + 1) as i32, ..t };
            &&& t.unix() == midnight.unix() + 3600 * t.hour + 60 * t.minute + t.second
            &&& tomorrow.unix() == t.unix() + 86_400
            &&& t.day == days_in_month(t.year as int, t.month as int) && t.month < 12
                ==> next_month.unix() == t.unix() + 86_400
            &&& t.day == 31 && t.month == 12 ==> next_year.unix() == t.unix() + 86_400
        }),
        (CivilTime { year: 1970, month: 1, day: 1, hour: 0, minute: 0, second: 0 }).unix() == 0,
{
    lemma_year_length(t.year as int);
    reveal_with_fuel(days_before_month, 13);
}

/// A year is read back from its text. Between 0 and 9999 the text is four digits long.
/// Later years have five digits or more, with a plus in front in the one form. Earlier
/// years have a minus, in front of four digits or more in the one form and of three or
/// more in the other.
pub proof fn law_years_are_read_back(year: int)
    requires
        -262_143 <= year <= 262_142,
    ensures
        ({
            let signed = signed_year_text(year);
            let plain = plain_year_text(year);
            let read = |s: Seq<char>| text::signed_number(s, -300_000, 300_000);
            &&& read(signed) == Some(year)
            &&& read(plain) == Some(year)
            &&& 0 <= year <= 9999 ==> signed.len() == 4 && plain.len() == 4
            &&& 0 <= year <= 9999 ==> '0' <= signed[0] <= '9' && '0' <= plain[0] <= '9'
            &&& year > 9999 ==> signed[0] == '+' && '1' <= plain[0] <= '9'
            &&& year < 0 ==> signed[0] == '-' && plain[0] == '-'
            &&& -9999 <= year < 0 ==> signed.len() == 5
            &&& -999 <= year < 0 ==> plain.len() == 4
            &&& year < -9999 ==> signed[1] != '0'
            &&& year < -999 ==> plain[1] != '0'
        }),
{
    let signed = signed_year_text(year);
    let plain = plain_year_text(year);
    assert("-"@ == seq!['-'] && "+"@ == seq!['+']) by {
        reveal_strlit("-");
        reveal_strlit("+");
    }
    assert(vstd::arithmetic::power::pow(10, 4) == 10_000 && vstd::arithmetic::power::pow(10, 3)
        == 1000) by {
        reveal_with_fuel(vstd::arithmetic::power::pow, 5);
    }
    if 0 <= year <= 9999 {
        text::law_fixed_width(year, 4);
        assert(text::is_digit(signed[0]));
    } else if year > 9999 {
        text::law_decimal(year);
        assert(text::is_digit(plain[0]));
        assert(signed.skip(1) =~= plain);
    } else {
        text::law_decimal(-year);
        text::law_fixed_width(-year, 4);
        text::law_fixed_width(-year, 3);
        assert(signed.skip(1) =~= if -year <= 9999 {
            text::padded(-year, 10, 4)
        } else {
            text::dec(-year)
        });
        assert(plain.skip(1) =~= if -year <= 999 {
            text::padded(-year, 10, 3)
        } else {
            text::dec(-year)
        });
        assert(signed[1] == signed.skip(1)[0]);
        assert(plain[1] == plain.skip(1)[0]);
    }
}

} // verus!
