//! Instants of the UTC calendar, in seconds since 1970.

use chrono::{DateTime, Days, Months, NaiveDate, Utc};
use vstd::prelude::*;
use vstd::string::*;

use crate::format::{decimal, optional, signed_decimal, signed_text};

verus! {

/// The first and the last second of the supported calendar.
pub const FIRST_INSTANT: i64 = -8_334_601_228_800;

pub const LAST_INSTANT: i64 = 8_210_266_876_799;

pub open spec fn is_instant(seconds: int) -> bool {
    FIRST_INSTANT <= seconds <= LAST_INSTANT
}

pub open spec fn is_leap_year(year: int) -> bool {
    year % 4 == 0 && (year % 100 != 0 || year % 400 == 0)
}

pub open spec fn days_in_month(year: int, month: int) -> int {
    if month == 2 {
        if is_leap_year(year) {
            29
        } else {
            28
        }
    } else if month == 4 || month == 6 || month == 9 || month == 11 {
        30
    } else {
        31
    }
}

/// A date of the supported calendar.
pub open spec fn is_date(year: int, month: int, day: int) -> bool {
    -262_143 <= year <= 262_142 && 1 <= month <= 12 && 1 <= day <= days_in_month(year, month)
}

/// A time of day.
pub open spec fn is_time(hour: u32, minute: u32, second: u32) -> bool {
    hour < 24 && minute < 60 && second < 60
}

/// The days from the first day of 1970 to the first day of a year.
pub open spec fn days_before_year(year: int) -> int {
    365 * (year - 1) + (year - 1) / 4 - (year - 1) / 100 + (year - 1) / 400 - 719_162
}

/// The days of a year before a month.
pub open spec fn days_before_month(year: int, month: int) -> int
    decreases month,
{
    if month <= 1 {
        0
    } else {
        days_before_month(year, month - 1) + days_in_month(year, month - 1)
    }
}

/// The days from the first day of 1970 to a date.
pub open spec fn day_number(year: int, month: int, day: int) -> int {
    days_before_year(year) + days_before_month(year, month) + day - 1
}

/// The second at which a date and a time of day stand.
pub open spec fn civil_instant(
    year: i32,
    month: u32,
    day: u32,
    hour: u32,
    minute: u32,
    second: u32,
) -> Option<i64> {
    if is_date(year as int, month as int, day as int) && is_time(hour, minute, second) {
        Some(
            (86_400 * day_number(year as int, month as int, day as int) + 3600 * hour + 60 * minute
                + second) as i64,
        )
    } else {
        None
    }
}

/// The date of a day.
pub open spec fn date_of(days: int) -> (int, int, int) {
    choose|year: int, month: int, day: int|
        is_date(year, month, day) && #[trigger] day_number(year, month, day) == days
}

/// The day of a date so many months before another one: the same day of the
/// month, or the last one of a shorter month. There is none where the calendar
/// does not reach it.
pub open spec fn day_months_before(year: int, month: int, day: int, months: int) -> Option<int> {
    let index = 12 * year + month - 1 - months;
    let (to_year, to_month) = (index / 12, index % 12 + 1);
    let to_day = if day <= days_in_month(to_year, to_month) {
        day
    } else {
        days_in_month(to_year, to_month)
    };
    if is_date(to_year, to_month, to_day) {
        Some(day_number(to_year, to_month, to_day))
    } else {
        None
    }
}

/// The instant so many calendar months before another one, at the same time of
/// day.
pub open spec fn months_earlier(seconds: i64, months: u32) -> Option<i64> {
    let days = seconds as int / 86_400;
    let (year, month, day) = date_of(days);
    match day_months_before(year, month, day, months as int) {
        Some(to) if is_instant(seconds as int) => Some(
            (86_400 * to + seconds as int % 86_400) as i64,
        ),
        _ => None,
    }
}

/// The days before the month that so many months follow the first month of year
/// zero.
spec fn month_start(index: int) -> int {
    days_before_year(index / 12) + days_before_month(index / 12, index % 12 + 1)
}

proof fn lemma_year_days(year: int)
    ensures
        days_before_year(year + 1) == days_before_year(year) + 365 + if is_leap_year(year) {
            1int
        } else {
            0
        },
{
    let y = year - 1;
    assert((y + 1) / 4 - y / 4 == if (y + 1) % 4 == 0 {
        1int
    } else {
        0
    });
    assert((y + 1) / 100 - y / 100 == if (y + 1) % 100 == 0 {
        1int
    } else {
        0
    });
    assert((y + 1) / 400 - y / 400 == if (y + 1) % 400 == 0 {
        1int
    } else {
        0
    });
}

proof fn lemma_month_days(year: int)
    ensures
        days_before_month(year, 12) + 31 == 365 + if is_leap_year(year) {
            1int
        } else {
            0
        },
{
    let february: int = if is_leap_year(year) {
        29
    } else {
        28
    };
    assert(days_before_month(year, 2) == 31) by {
        assert(days_before_month(year, 1) == 0);
    }
    assert(days_before_month(year, 3) == 31 + february);
    assert(days_before_month(year, 4) == 62 + february);
    assert(days_before_month(year, 5) == 92 + february);
    assert(days_before_month(year, 6) == 123 + february);
    assert(days_before_month(year, 7) == 153 + february);
    assert(days_before_month(year, 8) == 184 + february);
    assert(days_before_month(year, 9) == 215 + february);
    assert(days_before_month(year, 10) == 245 + february);
    assert(days_before_month(year, 11) == 276 + february);
    assert(days_before_month(year, 12) == 306 + february);
}

proof fn lemma_month_step(index: int)
    ensures
        month_start(index + 1) == month_start(index) + days_in_month(index / 12, index % 12 + 1),
{
    let (year, month) = (index / 12, index % 12 + 1);
    if month == 12 {
        assert((index + 1) / 12 == year + 1 && (index + 1) % 12 == 0);
        lemma_year_days(year);
        lemma_month_days(year);
    } else {
        assert((index + 1) / 12 == year && (index + 1) % 12 == month);
        assert(days_before_month(year, month + 1) == days_before_month(year, month)
            + days_in_month(year, month));
    }
}

proof fn lemma_months_ascend(a: int, b: int)
    requires
        a <= b,
    ensures
        month_start(a) <= month_start(b),
    decreases b - a,
{
    if a < b {
        lemma_months_ascend(a, b - 1);
        lemma_month_step(b - 1);
    }
}

proof fn lemma_date_start(year: int, month: int, day: int)
    requires
        1 <= month <= 12,
        1 <= day <= days_in_month(year, month),
    ensures
        day_number(year, month, day) == month_start(12 * year + month - 1) + day - 1,
        day_number(year, month, day) < month_start(12 * year + month),
{
    let index = 12 * year + month - 1;
    assert(index / 12 == year && index % 12 == month - 1);
    lemma_month_step(index);
}

/// A date in an earlier month is an earlier day.
proof fn lemma_earlier_month(a: (int, int, int), b: (int, int, int))
    requires
        1 <= a.1 <= 12 && 1 <= a.2 <= days_in_month(a.0, a.1),
        1 <= b.1 <= 12 && 1 <= b.2 <= days_in_month(b.0, b.1),
        12 * a.0 + a.1 < 12 * b.0 + b.1,
    ensures
        day_number(a.0, a.1, a.2) < day_number(b.0, b.1, b.2),
{
    lemma_date_start(a.0, a.1, a.2);
    lemma_date_start(b.0, b.1, b.2);
    lemma_months_ascend(12 * a.0 + a.1, 12 * b.0 + b.1 - 1);
}

/// A day of the supported calendar.
pub open spec fn is_day(days: int) -> bool {
    FIRST_INSTANT / 86_400 <= days <= LAST_INSTANT / 86_400
}

proof fn lemma_calendar_ends()
    ensures
        day_number(-262_143, 1, 1) * 86_400 == FIRST_INSTANT,
        day_number(262_142, 12, 31) * 86_400 + 86_399 == LAST_INSTANT,
{
    reveal_with_fuel(days_before_month, 13);
}

/// The dates of the supported calendar are its days.
proof fn lemma_date_in_calendar(year: int, month: int, day: int)
    requires
        is_date(year, month, day),
    ensures
        is_day(day_number(year, month, day)),
{
    lemma_calendar_ends();
    lemma_date_start(year, month, day);
    lemma_date_start(-262_143, 1, 1);
    lemma_date_start(262_142, 12, 31);
    lemma_months_ascend(-3_145_716, 12 * year + month - 1);
    lemma_months_ascend(12 * year + month, 3_145_716);
    lemma_month_step(3_145_715);
}

/// Every day of the supported calendar has one date.
pub proof fn days_have_one_date(days: int)
    requires
        is_day(days),
    ensures
        ({
            let (year, month, day) = date_of(days);
            is_date(year, month, day) && day_number(year, month, day) == days
        }),
        forall|year: int, month: int, day: int|
            is_date(year, month, day) && #[trigger] day_number(year, month, day) == days
                ==> date_of(days) == (year, month, day),
{
    lemma_some_date(days);
    let found = date_of(days);
    assert forall|year: int, month: int, day: int|
        is_date(year, month, day) && #[trigger] day_number(year, month, day) == days implies found
        == (year, month, day) by {
        if 12 * year + month < 12 * found.0 + found.1 {
            lemma_earlier_month((year, month, day), found);
        } else if 12 * year + month > 12 * found.0 + found.1 {
            lemma_earlier_month(found, (year, month, day));
        } else {
            assert(year == found.0 && month == found.1);
        }
    }
}

proof fn lemma_some_date(days: int)
    requires
        is_day(days),
    ensures
        exists|year: int, month: int, day: int|
            is_date(year, month, day) && #[trigger] day_number(year, month, day) == days,
    decreases days - FIRST_INSTANT / 86_400,
{
    lemma_calendar_ends();
    if days == FIRST_INSTANT / 86_400 {
        assert(is_date(-262_143, 1, 1));
        assert(day_number(-262_143, 1, 1) == days);
    } else {
        lemma_some_date(days - 1);
        let (year, month, day) = date_of(days - 1);
        if day < days_in_month(year, month) {
            assert(day_number(year, month, day + 1) == days);
        } else if month < 12 {
            assert(day_number(year, month + 1, 1) == days);
        } else {
            lemma_year_days(year);
            lemma_month_days(year);
            assert(day_number(year + 1, 1, 1) == days);
            assert(is_date(year + 1, 1, 1));
        }
    }
}

proof fn lemma_months_earlier(seconds: i64, months: u32)
    requires
        is_instant(seconds as int),
    ensures
        months_earlier(seconds, months) matches Some(earlier) ==> is_instant(earlier as int),
        months == 0 ==> months_earlier(seconds, months) == Some(seconds),
        months_earlier(seconds, months) is Some ==> forall|fewer: u32|
            fewer < months ==> #[trigger] months_earlier(seconds, fewer) is Some && months_earlier(
                seconds,
                months,
            )->0 < months_earlier(seconds, fewer)->0,
{
    let days = seconds as int / 86_400;
    days_have_one_date(days);
    let (year, month, day) = date_of(days);
    let index = 12 * year + month - 1;
    assert(index / 12 == year && index % 12 == month - 1);
    assert forall|n: u32| (#[trigger] months_earlier(seconds, n)) is Some implies is_instant(
        months_earlier(seconds, n)->0 as int,
    ) && months_earlier(seconds, n)->0 == 86_400 * day_months_before(
        year,
        month,
        day,
        n as int,
    )->0 + seconds as int % 86_400 by {
        let at = index - n;
        let (y, m) = (at / 12, at % 12 + 1);
        let d = if day <= days_in_month(y, m) {
            day
        } else {
            days_in_month(y, m)
        };
        lemma_date_in_calendar(y, m, d);
    }
    if months_earlier(seconds, months) is Some {
        assert forall|fewer: u32| fewer < months implies #[trigger] months_earlier(
            seconds,
            fewer,
        ) is Some && months_earlier(seconds, months)->0 < months_earlier(seconds, fewer)->0 by {
            let (a, b) = (index - months, index - fewer);
            let (ay, am) = (a / 12, a % 12 + 1);
            let (by, bm) = (b / 12, b % 12 + 1);
            let ad = if day <= days_in_month(ay, am) {
                day
            } else {
                days_in_month(ay, am)
            };
            let bd = if day <= days_in_month(by, bm) {
                day
            } else {
                days_in_month(by, bm)
            };
            assert(is_date(by, bm, bd));
            lemma_earlier_month((ay, am, ad), (by, bm, bd));
        }
    }
}

/// A step of months keeps the time of day and the day of the month, or takes the
/// last day of a shorter month.
pub proof fn month_steps_keep_the_day(
    year: i32,
    month: u32,
    day: u32,
    hour: u32,
    minute: u32,
    second: u32,
    months: u32,
)
    requires
        is_date(year as int, month as int, day as int),
        is_time(hour, minute, second),
    ensures
        ({
            let from = civil_instant(year, month, day, hour, minute, second)->0;
            match day_months_before(year as int, month as int, day as int, months as int) {
                Some(to) => months_earlier(from, months) == Some(
                    (86_400 * to + 3600 * hour + 60 * minute + second) as i64,
                ),
                None => months_earlier(from, months) is None,
            }
        }),
{
    let days = day_number(year as int, month as int, day as int);
    let time = 3600 * hour + 60 * minute + second;
    lemma_date_in_calendar(year as int, month as int, day as int);
    days_have_one_date(days);
    let from = 86_400 * days + time;
    assert(from / 86_400 == days && from % 86_400 == time);
}

/// Calls `chrono::NaiveDate::from_ymd_opt` and `and_hms_opt` and takes the result
/// as UTC. There is an instant for every real date and time of day.
#[verifier::external_body]
fn chrono_instant(
    year: i32,
    month: u32,
    day: u32,
    hour: u32,
    minute: u32,
    second: u32,
) -> (seconds: Option<i64>)
    ensures
        seconds == civil_instant(year, month, day, hour, minute, second),
{
    let date = NaiveDate::from_ymd_opt(year, month, day)?;
    Some(date.and_hms_opt(hour, minute, second)?.and_utc().timestamp())
}

/// The second at which a date and a time of day stand.
pub(crate) fn instant_at(
    year: i32,
    month: u32,
    day: u32,
    hour: u32,
    minute: u32,
    second: u32,
) -> (seconds: Option<i64>)
    ensures
        seconds == civil_instant(year, month, day, hour, minute, second),
        seconds is Some ==> is_instant(seconds->0 as int),
{
    proof {
        if is_date(year as int, month as int, day as int) {
            lemma_date_in_calendar(year as int, month as int, day as int);
        }
    }
    chrono_instant(year, month, day, hour, minute, second)
}

/// Calls `chrono::DateTime::<Utc>::checked_sub_days`: so many days of 24 hours
/// earlier, as far as the calendar reaches.
#[verifier::external_body]
pub(crate) fn days_before(seconds: i64, days: u64) -> (earlier: Option<i64>)
    ensures
        match earlier {
            Some(earlier) => is_instant(seconds as int) && earlier == seconds - 86_400 * days
                && earlier >= FIRST_INSTANT,
            None => !is_instant(seconds as int) || seconds - 86_400 * days < FIRST_INSTANT,
        },
{
    let instant = DateTime::<Utc>::from_timestamp(seconds, 0)?;
    Some(instant.checked_sub_days(Days::new(days))?.timestamp())
}

/// Calls `chrono::DateTime::<Utc>::checked_sub_months`: the same day and time so
/// many months earlier, or the last day of that month where it is shorter, as far
/// as the calendar reaches.
#[verifier::external_body]
fn chrono_months_before(seconds: i64, months: u32) -> (earlier: Option<i64>)
    ensures
        earlier == months_earlier(seconds, months),
{
    let instant = DateTime::<Utc>::from_timestamp(seconds, 0)?;
    Some(instant.checked_sub_months(Months::new(months))?.timestamp())
}

/// The instant so many calendar months before another one. Every month more leads
/// to an earlier instant.
pub(crate) fn months_before(seconds: i64, months: u32) -> (earlier: Option<i64>)
    ensures
        earlier == months_earlier(seconds, months),
        earlier is Some ==> is_instant(seconds as int) && is_instant(earlier->0 as int),
        is_instant(seconds as int) && months == 0 ==> earlier == Some(seconds),
        earlier is Some ==> forall|fewer: u32|
            fewer < months ==> #[trigger] months_earlier(seconds, fewer) is Some && earlier->0
                < months_earlier(seconds, fewer)->0,
{
    proof {
        if is_instant(seconds as int) {
            lemma_months_earlier(seconds, months);
        }
    }
    chrono_months_before(seconds, months)
}

/// A number in decimal digits, with zeros in front up to a width.
pub open spec fn padded(n: nat, width: int) -> Seq<char> {
    let digits = decimal(n);
    Seq::new(
        (if digits.len() < width {
            width - digits.len()
        } else {
            0
        }) as nat,
        |i: int| '0',
    ) + digits
}

/// A year in four digits or more, with a sign where four digits are not enough or
/// the year is negative.
pub open spec fn shown_year(year: int) -> Seq<char> {
    if year < 0 {
        "-"@ + padded((-year) as nat, 4)
    } else if year <= 9999 {
        padded(year as nat, 4)
    } else {
        "+"@ + padded(year as nat, 4)
    }
}

/// The date of a day, as year, month and day.
pub open spec fn shown_day(days: int) -> Seq<char> {
    let (year, month, day) = date_of(days);
    shown_year(year) + "-"@ + padded(month as nat, 2) + "-"@ + padded(day as nat, 2)
}

/// A second of a day, as hour, minute and second.
pub open spec fn shown_time(second: int) -> Seq<char> {
    padded((second / 3600) as nat, 2) + ":"@ + padded((second / 60 % 60) as nat, 2) + ":"@ + padded(
        (second % 60) as nat,
        2,
    )
}

/// An instant as messages show it, where the calendar reaches it.
pub open spec fn instant_display(seconds: i64) -> Option<Seq<char>> {
    if is_instant(seconds as int) {
        Some(
            shown_day(seconds as int / 86_400) + " "@ + shown_time(seconds as int % 86_400)
                + " UTC"@,
        )
    } else {
        None
    }
}

/// Formats a `chrono::DateTime<Utc>` with `{}`: the date, the time of day and the zone,
/// apart by spaces. There is no text for an instant outside the calendar.
#[verifier::external_body]
fn format_instant(seconds: i64) -> (text: Option<String>)
    ensures
        optional(text) == instant_display(seconds),
{
    let instant = DateTime::<Utc>::from_timestamp(seconds, 0)?;
    Some(instant.to_string())
}

/// An instant as messages show it; the plain number outside the calendar.
pub open spec fn shown_instant(seconds: i64) -> Seq<char> {
    match instant_display(seconds) {
        Some(text) => text,
        None => signed_decimal(seconds as int),
    }
}

/// An instant as messages show it; the plain number outside the calendar.
pub fn instant_text(seconds: i64) -> (text: String)
    ensures
        text@ == shown_instant(seconds),
{
    match format_instant(seconds) {
        Some(text) => text,
        None => signed_text(seconds),
    }
}

/// An instant in the format of RFC 3339, where the calendar reaches it.
pub open spec fn rfc3339_display(seconds: i64) -> Option<Seq<char>> {
    if is_instant(seconds as int) {
        Some(
            shown_day(seconds as int / 86_400) + "T"@ + shown_time(seconds as int % 86_400)
                + "+00:00"@,
        )
    } else {
        None
    }
}

/// Calls `chrono::DateTime::<Utc>::to_rfc3339`: the date, the time of day without
/// fractions of a second, and the offset. There is no text for an instant outside the
/// calendar.
#[verifier::external_body]
fn format_rfc3339(seconds: i64) -> (text: Option<String>)
    ensures
        optional(text) == rfc3339_display(seconds),
{
    let instant = DateTime::<Utc>::from_timestamp(seconds, 0)?;
    Some(instant.to_rfc3339())
}

/// An instant in the format of RFC 3339; the plain number outside the calendar.
pub open spec fn shown_rfc3339(seconds: i64) -> Seq<char> {
    match rfc3339_display(seconds) {
        Some(text) => text,
        None => signed_decimal(seconds as int),
    }
}

/// An instant in the format of RFC 3339; the plain number outside the calendar.
pub fn rfc3339_text(seconds: i64) -> (text: String)
    ensures
        text@ == shown_rfc3339(seconds),
{
    match format_rfc3339(seconds) {
        Some(text) => text,
        None => signed_text(seconds),
    }
}

/// The date of an instant, where the calendar reaches it.
pub open spec fn date_display(seconds: i64) -> Option<Seq<char>> {
    if is_instant(seconds as int) {
        Some(shown_day(seconds as int / 86_400))
    } else {
        None
    }
}

/// Calls `chrono::DateTime::<Utc>::format` with `%Y-%m-%d`: the date alone. There is no
/// text for an instant outside the calendar.
#[verifier::external_body]
fn format_date(seconds: i64) -> (text: Option<String>)
    ensures
        optional(text) == date_display(seconds),
{
    let instant = DateTime::<Utc>::from_timestamp(seconds, 0)?;
    Some(instant.format("%Y-%m-%d").to_string())
}

/// The date of an instant; the plain number outside the calendar.
pub open spec fn shown_date(seconds: i64) -> Seq<char> {
    match date_display(seconds) {
        Some(text) => text,
        None => signed_decimal(seconds as int),
    }
}

/// The date of an instant; the plain number outside the calendar.
pub fn date_text(seconds: i64) -> (text: String)
    ensures
        text@ == shown_date(seconds),
{
    match format_date(seconds) {
        Some(text) => text,
        None => signed_text(seconds),
    }
}

} // verus!
