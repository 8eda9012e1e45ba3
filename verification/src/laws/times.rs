//! Dates, spans of time, and the checkpoints of a history.

use vstd::prelude::*;

use crate::calendar::{
    civil_instant, day_months_before, day_number, days_have_one_date, days_in_month, is_date,
    is_instant, is_leap_year, months_earlier, padded, shown_date, shown_instant, shown_rfc3339,
    shown_year, FIRST_INSTANT, LAST_INSTANT,
};
use crate::format::{decimal, digits_value, signed_decimal};
use crate::git::CommitModel;
use crate::history::{
    boundary_of, chain_position, checkpoint_at, commit_point, current_commit, cutoffs_from,
    date_of as parsed_date, day_end, day_start, days_earlier, digits_end, earlier, is_date_shape,
    series, series_cutoffs, series_end, series_start, span_of, steps_from, unit_of, Boundary,
    BoundaryFailure, Date, DateFailure, HistoryFailure, Span, SpanFailure, Unit, MAX_CHECKPOINTS,
};
use crate::laws::numbers::{all_digits, number};

verus! {

proof fn lemma_number(digits: Seq<char>)
    ensures
        number(digits) == digits_value(digits),
    decreases digits.len(),
{
    if digits.len() > 0 {
        lemma_number(digits.drop_last());
    }
}

/// The units of a span, and the texts that are none.
pub proof fn units_of_time(unit: Seq<char>)
    ensures
        unit_of(unit) == Ok::<_, SpanFailure>(Unit::Days) <==> unit == "d"@,
        unit_of(unit) == Ok::<_, SpanFailure>(Unit::Weeks) <==> unit == "w"@,
        unit_of(unit) == Ok::<_, SpanFailure>(Unit::Months) <==> unit == "mo"@,
        unit_of(unit) == Ok::<_, SpanFailure>(Unit::Years) <==> unit == "y"@,
        unit_of(unit) == Err::<Unit, _>(SpanFailure::NoUnit) <==> unit.len() == 0,
        unit_of(unit) == Err::<Unit, _>(SpanFailure::AmbiguousUnit) <==> unit == "m"@,
        unit_of(unit) == Err::<Unit, _>(SpanFailure::UnknownUnit(unit)) <==> !(unit == "d"@ || unit
            == "w"@ || unit == "mo"@ || unit == "y"@ || unit.len() == 0 || unit == "m"@),
{
    reveal_strlit("d");
    reveal_strlit("w");
    reveal_strlit("mo");
    reveal_strlit("y");
    reveal_strlit("");
    reveal_strlit("m");
    assert("d"@.len() == 1 && "d"@[0] == 'd');
    assert("w"@.len() == 1 && "w"@[0] == 'w');
    assert("y"@.len() == 1 && "y"@[0] == 'y');
    assert("m"@.len() == 1 && "m"@[0] == 'm');
    assert("mo"@.len() == 2);
    assert(""@.len() == 0);
    if unit.len() == 0 {
        assert(unit =~= ""@);
    }
}

proof fn lemma_digits_end(text: Seq<char>, k: int, n: int)
    requires
        0 <= k <= n <= text.len(),
        forall|j: int| k <= j < n ==> '0' <= #[trigger] text[j] <= '9',
        n < text.len() ==> !('0' <= text[n] <= '9'),
    ensures
        digits_end(text, k) == n,
    decreases n - k,
{
    if k < n {
        assert('0' <= text[k] <= '9');
        lemma_digits_end(text, k + 1, n);
    }
}

/// A span is a positive whole number and a unit directly behind it.
pub proof fn spans_are_numbers_with_units(count: Seq<char>, unit: Seq<char>)
    requires
        all_digits(count),
        unit.len() > 0 ==> !('0' <= unit[0] <= '9'),
    ensures
        unit_of(unit) is Err ==> span_of(count + unit) == Err::<Span, _>(unit_of(unit)->Err_0),
        unit_of(unit) is Ok && number(count) > 0xffff_ffff ==> span_of(count + unit) == Err::<
            Span,
            _,
        >(SpanFailure::TooLarge(count)),
        unit_of(unit) is Ok && number(count) == 0 ==> span_of(count + unit) == Err::<Span, _>(
            SpanFailure::Zero,
        ),
        unit_of(unit) is Ok && 0 < number(count) <= 0xffff_ffff ==> span_of(count + unit) == Ok::<
            _,
            SpanFailure,
        >(Span { count: number(count) as u32, unit: unit_of(unit)->Ok_0 }),
{
    let text = count + unit;
    let n = count.len() as int;
    assert forall|j: int| 0 <= j < n implies '0' <= #[trigger] text[j] <= '9' by {
        assert(text[j] == count[j]);
    }
    if n < text.len() {
        assert(text[n] == unit[0]);
    }
    lemma_digits_end(text, 0, n);
    assert(text.subrange(0, n) =~= count);
    assert(text.subrange(n, text.len() as int) =~= unit);
    lemma_number(count);
}

/// A text that does not start with a digit is no span.
pub proof fn spans_start_with_a_number(text: Seq<char>)
    requires
        text.len() > 0 ==> !('0' <= text[0] <= '9'),
    ensures
        span_of(text) == Err::<Span, _>(SpanFailure::NoNumber),
{
}

/// A year is a leap year every four years, but not every hundred, but every four
/// hundred.
pub proof fn leap_years(year: int)
    ensures
        year % 400 == 0 ==> is_leap_year(year),
        year % 100 == 0 && year % 400 != 0 ==> !is_leap_year(year),
        year % 4 == 0 && year % 100 != 0 ==> is_leap_year(year),
        year % 4 != 0 ==> !is_leap_year(year),
{
}

/// How many days each month has.
pub proof fn lengths_of_months(year: int, month: int)
    requires
        1 <= month <= 12,
    ensures
        seq![1int, 3, 5, 7, 8, 10, 12].contains(month) ==> days_in_month(year, month) == 31,
        seq![4int, 6, 9, 11].contains(month) ==> days_in_month(year, month) == 30,
        month == 2 && is_leap_year(year) ==> days_in_month(year, month) == 29,
        month == 2 && !is_leap_year(year) ==> days_in_month(year, month) == 28,
{
}

/// A date is real when its month is one of twelve and its day is one of the month.
pub proof fn real_dates(year: int, month: int, day: int)
    requires
        -9999 <= year <= 9999,
    ensures
        is_date(year, month, day) <==> 1 <= month <= 12 && 1 <= day <= days_in_month(year, month),
{
}

/// Days are counted from the first of January 1970, one after the other through months
/// and years.
pub proof fn days_follow_each_other(year: int, month: int, day: int)
    requires
        1 <= month <= 12,
    ensures
        day_number(1970, 1, 1) == 0,
        day_number(year, month, day + 1) == day_number(year, month, day) + 1,
        month < 12 ==> day_number(year, month + 1, 1) == day_number(
            year,
            month,
            days_in_month(year, month),
        ) + 1,
        day_number(year + 1, 1, 1) == day_number(year, 12, 31) + 1,
{
    reveal_with_fuel(crate::calendar::days_before_month, 13);
}

/// An instant is a second of a real day: days of twenty-four hours, hours of sixty
/// minutes, minutes of sixty seconds.
pub proof fn instants_count_seconds(
    year: i32,
    month: u32,
    day: u32,
    hour: u32,
    minute: u32,
    second: u32,
)
    ensures
        ({
            let found = civil_instant(year, month, day, hour, minute, second);
            let valid = is_date(year as int, month as int, day as int) && hour <= 23 && minute <= 59
                && second <= 59;
            &&& found is Some <==> valid
            &&& valid ==> found->0 == (24 * 60 * 60 * day_number(
                year as int,
                month as int,
                day as int,
            ) + 60 * 60 * hour + 60 * minute + second) as i64
        }),
{
}

/// A step of months goes back by whole months: inside the year to the same day or to
/// the last day of a shorter month, and by twelve months to the same month of the year
/// before.
pub proof fn months_go_back(year: int, month: int, day: int, months: int)
    requires
        1 <= month <= 12,
        0 <= months,
        -9999 <= year <= 9999,
        1 <= day <= days_in_month(year, month),
    ensures
        months < month ==> day_months_before(year, month, day, months) == Some(
            day_number(
                year,
                month - months,
                if day <= days_in_month(year, month - months) {
                    day
                } else {
                    days_in_month(year, month - months)
                },
            ),
        ),
        day_months_before(year, month, day, months + 12) == day_months_before(
            year - 1,
            month,
            day,
            months,
        ),
{
    let index = 12 * year + month - 1 - months;
    if months < month {
        assert(index / 12 == year && index % 12 == month - 1 - months) by (nonlinear_arith)
            requires
                index == 12 * year + (month - 1 - months),
                0 <= month - 1 - months < 12,
        ;
    }
}

/// A number is padded on the left with zeros up to its width.
pub proof fn padding_is_zeros(n: nat, width: int)
    ensures
        decimal(n).len() >= width ==> padded(n, width) == decimal(n),
        decimal(n).len() < width ==> {
            let text = padded(n, width);
            let gap = width - decimal(n).len();
            &&& text.len() == width
            &&& text.subrange(gap, width) == decimal(n)
            &&& forall|k: int| 0 <= k < gap ==> #[trigger] text[k] == '0'
        },
{
    let text = padded(n, width);
    if decimal(n).len() >= width {
        assert(text =~= decimal(n));
    } else {
        assert(text.subrange(width - decimal(n).len(), width) =~= decimal(n));
    }
}

/// A time is shown as its date, in the forms of a table, a message and a record; one
/// that the calendar does not have is shown as its seconds.
pub proof fn times_are_shown(
    year: i32,
    month: u32,
    day: u32,
    hour: u32,
    minute: u32,
    second: u32,
)
    requires
        is_date(year as int, month as int, day as int),
        hour <= 23,
        minute <= 59,
        second <= 59,
        is_instant(
            86_400 * day_number(year as int, month as int, day as int) + 3600 * hour + 60 * minute
                + second,
        ),
    ensures
        ({
            let at = civil_instant(year, month, day, hour, minute, second)->0;
            let date = shown_year(year as int) + "-"@ + padded(month as nat, 2) + "-"@ + padded(
                day as nat,
                2,
            );
            let time = padded(hour as nat, 2) + ":"@ + padded(minute as nat, 2) + ":"@ + padded(
                second as nat,
                2,
            );
            &&& shown_date(at) == date
            &&& shown_instant(at) == date + " "@ + time + " UTC"@
            &&& shown_rfc3339(at) == date + "T"@ + time + "+00:00"@
            &&& 0 <= year <= 9999 ==> shown_year(year as int) == padded(year as nat, 4)
        }),
{
    let days = day_number(year as int, month as int, day as int);
    let rest = 3600 * hour + 60 * minute + second;
    let total = 86_400 * days + rest;
    assert(0 <= rest < 86_400);
    assert(total / 86_400 == days && total % 86_400 == rest) by (nonlinear_arith)
        requires
            total == 86_400 * days + rest,
            0 <= rest < 86_400,
    ;
    assert(crate::calendar::is_day(days));
    days_have_one_date(days);
    assert(rest / 3600 == hour);
    assert(rest / 60 % 60 == minute);
    assert(rest % 60 == second);
}

/// A year is shown with four digits, behind a sign where it has more or is before the
/// first.
pub proof fn years_are_shown(year: int)
    ensures
        0 <= year <= 9999 ==> shown_year(year) == padded(year as nat, 4),
        year > 9999 ==> shown_year(year) == seq!['+'] + padded(year as nat, 4),
        year < 0 ==> shown_year(year) == seq!['-'] + padded((-year) as nat, 4),
{
    reveal_strlit("+");
    reveal_strlit("-");
    assert("+"@ =~= seq!['+']);
    assert("-"@ =~= seq!['-']);
}

/// A time outside the calendar is shown as its seconds.
pub proof fn times_outside_the_calendar(seconds: i64)
    requires
        !is_instant(seconds as int),
    ensures
        shown_date(seconds) == signed_decimal(seconds as int),
        shown_instant(seconds) == signed_decimal(seconds as int),
        shown_rfc3339(seconds) == signed_decimal(seconds as int),
{
}

/// A date is written as four digits, two and two, with hyphens between them.
pub proof fn dates_are_written(year: Seq<char>, month: Seq<char>, day: Seq<char>)
    requires
        all_digits(year),
        year.len() == 4,
        all_digits(month),
        month.len() == 2,
        all_digits(day),
        day.len() == 2,
    ensures
        ({
            let text = year + "-"@ + month + "-"@ + day;
            let valid = is_date(number(year), number(month), number(day));
            &&& valid ==> parsed_date(text) == Ok::<_, DateFailure>(
                Date {
                    year: number(year) as i32,
                    month: number(month) as u32,
                    day: number(day) as u32,
                },
            )
            &&& !valid ==> parsed_date(text) == Err::<Date, _>(DateFailure::NotReal(text))
        }),
{
    reveal_strlit("-");
    let text = year + "-"@ + month + "-"@ + day;
    assert(text.len() == 10);
    assert(text.subrange(0, 4) =~= year);
    assert(text.subrange(5, 7) =~= month);
    assert(text.subrange(8, 10) =~= day);
    assert(text[4] == '-' && text[7] == '-');
    assert forall|k: int| 0 <= k < 10 && k != 4 && k != 7 implies crate::format::is_digit(
        #[trigger] text[k],
    ) by {
        if k < 4 {
            assert(text[k] == year[k]);
        } else if k < 7 {
            assert(text[k] == month[k - 5]);
        } else {
            assert(text[k] == day[k - 8]);
        }
    }
    lemma_number(year);
    lemma_number(month);
    lemma_number(day);
}

/// Any other shape is no date.
pub proof fn other_shapes_are_no_dates(text: Seq<char>)
    ensures
        parsed_date(text) == Err::<Date, _>(DateFailure::Shape) <==> !(text.len() == 10 && text[4]
            == '-' && text[7] == '-' && all_digits(text.subrange(0, 4)) && all_digits(
            text.subrange(5, 7),
        ) && all_digits(text.subrange(8, 10))),
{
    if text.len() == 10 {
        let a = text.subrange(0, 4);
        let b = text.subrange(5, 7);
        let c = text.subrange(8, 10);
        if is_date_shape(text) {
            assert forall|k: int| 0 <= k < 4 implies '0' <= #[trigger] a[k] <= '9' by {
                assert(crate::format::is_digit(text[k]));
            }
            assert forall|k: int| 0 <= k < 2 implies '0' <= #[trigger] b[k] <= '9' by {
                assert(crate::format::is_digit(text[k + 5]));
            }
            assert forall|k: int| 0 <= k < 2 implies '0' <= #[trigger] c[k] <= '9' by {
                assert(crate::format::is_digit(text[k + 8]));
            }
        }
        if text[4] == '-' && text[7] == '-' && all_digits(a) && all_digits(b) && all_digits(c) {
            assert forall|k: int| 0 <= k < 10 && k != 4 && k != 7 implies crate::format::is_digit(
                #[trigger] text[k],
            ) by {
                if k < 4 {
                    assert(text[k] == a[k]);
                } else if k < 7 {
                    assert(text[k] == b[k - 5]);
                } else {
                    assert(text[k] == c[k - 8]);
                }
            }
        }
    }
}

/// A boundary with a hyphen is a date; any other is a span.
pub proof fn boundaries_are_dates_or_spans(text: Seq<char>)
    ensures
        text.contains('-') && parsed_date(text) is Ok ==> boundary_of(text) == Ok::<
            _,
            BoundaryFailure,
        >(Boundary::Date(parsed_date(text)->Ok_0)),
        text.contains('-') && parsed_date(text) is Err ==> boundary_of(text) == Err::<Boundary, _>(
            BoundaryFailure::Date(parsed_date(text)->Err_0),
        ),
        !text.contains('-') && span_of(text) is Ok ==> boundary_of(text) == Ok::<
            _,
            BoundaryFailure,
        >(Boundary::Span(span_of(text)->Ok_0)),
        !text.contains('-') && span_of(text) is Err ==> boundary_of(text) == Err::<Boundary, _>(
            BoundaryFailure::Span(span_of(text)->Err_0),
        ),
{
}

/// A step back is the count times the multiple of days, of weeks of seven days, of
/// months, or of years of twelve months.
pub proof fn steps_back_in_time(end: i64, count: u32, multiple: u32, total: u32)
    requires
        is_instant(end as int),
        count * multiple == total,
    ensures
        ({
            let days = end - 24 * 60 * 60 * total;
            let weeks = end - 7 * 24 * 60 * 60 * total;
            &&& earlier(end, Span { count, unit: Unit::Days }, multiple) == if days
                >= FIRST_INSTANT {
                Some(days as i64)
            } else {
                None
            }
            &&& earlier(end, Span { count, unit: Unit::Weeks }, multiple) == if weeks
                >= FIRST_INSTANT {
                Some(weeks as i64)
            } else {
                None
            }
            &&& earlier(end, Span { count, unit: Unit::Months }, multiple) == months_earlier(
                end,
                total,
            )
            &&& 12 * total <= u32::MAX ==> earlier(
                end,
                Span { count, unit: Unit::Years },
                multiple,
            ) == months_earlier(end, (12 * total) as u32)
            &&& 12 * total > u32::MAX ==> earlier(
                end,
                Span { count, unit: Unit::Years },
                multiple,
            ) is None
        }),
{
    assert(24 * 60 * 60 * total == 86_400 * total) by (nonlinear_arith);
    assert(7 * 24 * 60 * 60 * total == 86_400 * (7 * total)) by (nonlinear_arith);
    assert(count * multiple <= u32::MAX);
}

/// A step whose count leaves the range has no time, nor has one from outside the
/// calendar.
pub proof fn steps_out_of_range(end: i64, span: Span, multiple: u32, days: int)
    ensures
        span.count * multiple > u32::MAX ==> earlier(end, span, multiple) is None,
        !is_instant(end as int) ==> days_earlier(end, days) is None,
        !is_instant(end as int) && span.unit == Unit::Months ==> earlier(end, span, multiple)
            is None,
        FIRST_INSTANT == -8_334_601_228_800 && LAST_INSTANT == 8_210_266_876_799,
{
}

/// A day starts at its first second and ends at its last one.
pub proof fn days_have_bounds(date: Date)
    ensures
        day_start(date) == civil_instant(date.year, date.month, date.day, 0, 0, 0),
        day_end(date) == civil_instant(date.year, date.month, date.day, 23, 59, 59),
{
}

/// A history ends with the last second of the day that was asked for, or with the newest
/// commit.
pub proof fn histories_end(chain: Seq<CommitModel>, text: Seq<char>)
    ensures
        chain.len() > 0 ==> series_end(chain, None) == Ok::<_, HistoryFailure>(
            chain[0].committed_at,
        ),
        chain.len() == 0 ==> series_end(chain, None) == Err::<i64, _>(HistoryFailure::NoEnd),
        parsed_date(text) is Err ==> series_end(chain, Some(text)) == Err::<i64, _>(
            HistoryFailure::Until { value: text, failure: parsed_date(text)->Err_0 },
        ),
        parsed_date(text) is Ok ==> ({
            let date = parsed_date(text)->Ok_0;
            let end = civil_instant(date.year, date.month, date.day, 23, 59, 59);
            series_end(chain, Some(text)) == match end {
                Some(end) => Ok::<_, HistoryFailure>(end),
                None => Err(HistoryFailure::OutOfCalendar),
            }
        }),
{
}

/// A history starts with the first second of the day that was asked for, or one span
/// before its end, and not after its end.
pub proof fn histories_start(since: Seq<char>, end: i64)
    ensures
        ({
            let found = series_start(since, end);
            let boundary = boundary_of(since);
            let start = match boundary {
                Err(_) => None,
                Ok(Boundary::Date(date)) => civil_instant(
                    date.year,
                    date.month,
                    date.day,
                    0,
                    0,
                    0,
                ),
                Ok(Boundary::Span(span)) => earlier(end, span, 1),
            };
            &&& boundary is Err <==> found == Err::<i64, _>(
                HistoryFailure::Since { value: since, failure: boundary->Err_0 },
            ) && boundary is Err
            &&& boundary is Ok && start is None <==> found == Err::<i64, _>(
                HistoryFailure::OutOfCalendar,
            )
            &&& boundary is Ok && start is Some && start->0 <= end ==> found == Ok::<
                _,
                HistoryFailure,
            >(start->0)
            &&& boundary is Ok && start is Some && start->0 > end ==> found == Err::<i64, _>(
                HistoryFailure::Inverted { start: start->0, end },
            )
        }),
{
}

/// Checkpoints are counted back from the end until the start is reached, which is the
/// last of them. There are at most 4096.
pub proof fn checkpoints_reach_the_start(
    start: i64,
    end: i64,
    step: Span,
    every: Seq<char>,
    multiple: int,
)
    requires
        0 <= multiple < 4096,
        cutoffs_from(start, end, step, every, multiple) is Ok,
    ensures
        MAX_CHECKPOINTS == 4096,
        ({
            let cutoffs = cutoffs_from(start, end, step, every, multiple)->Ok_0;
            let last = earlier(end, step, (multiple + cutoffs.len() - 1) as u32);
            &&& 1 <= cutoffs.len() <= 4096 - multiple
            &&& cutoffs.last() == start
            &&& last is Some && last->0 <= start
            &&& forall|k: int|
                0 <= k < cutoffs.len() - 1 ==> #[trigger] cutoffs[k] > start && earlier(
                    end,
                    step,
                    (multiple + k) as u32,
                ) == Some(cutoffs[k])
        }),
    decreases 4096 - multiple,
{
    let cutoff = earlier(end, step, multiple as u32)->0;
    if cutoff > start {
        checkpoints_reach_the_start(start, end, step, every, multiple + 1);
        let cutoffs = cutoffs_from(start, end, step, every, multiple)->Ok_0;
        let rest = cutoffs_from(start, end, step, every, multiple + 1)->Ok_0;
        assert(cutoffs =~= seq![cutoff] + rest);
        assert forall|k: int| 0 <= k < cutoffs.len() - 1 implies #[trigger] cutoffs[k] > start
            && earlier(end, step, (multiple + k) as u32) == Some(cutoffs[k]) by {
            if k > 0 {
                assert(cutoffs[k] == rest[k - 1]);
                assert(multiple + k == multiple + 1 + (k - 1));
            }
        }
        assert(multiple + cutoffs.len() - 1 == multiple + 1 + rest.len() - 1);
    }
}

/// A history refuses its cadence, its end and its start, in this order; its points come
/// in the order of time, each with the newest commit of its time.
pub proof fn histories_are_made_of_checkpoints(
    chain: Seq<CommitModel>,
    since: Seq<char>,
    until: Option<Seq<char>>,
    every: Seq<char>,
    k: int,
)
    ensures
        span_of(every) is Err ==> series_cutoffs(chain, since, until, every) == Err::<
            Seq<i64>,
            _,
        >(HistoryFailure::Every { value: every, failure: span_of(every)->Err_0 }),
        span_of(every) is Ok && series_end(chain, until) is Err ==> series_cutoffs(
            chain,
            since,
            until,
            every,
        ) == Err::<Seq<i64>, _>(series_end(chain, until)->Err_0),
        span_of(every) is Ok && series_end(chain, until) is Ok && series_start(
            since,
            series_end(chain, until)->Ok_0,
        ) is Err ==> series_cutoffs(chain, since, until, every) == Err::<Seq<i64>, _>(
            series_start(since, series_end(chain, until)->Ok_0)->Err_0,
        ),
        span_of(every) is Ok && series_end(chain, until) is Ok && series_start(
            since,
            series_end(chain, until)->Ok_0,
        ) is Ok ==> series_cutoffs(chain, since, until, every) == cutoffs_from(
            series_start(since, series_end(chain, until)->Ok_0)->Ok_0,
            series_end(chain, until)->Ok_0,
            span_of(every)->Ok_0,
            every,
            0,
        ),
        series(chain, since, until, every) is Ok <==> series_cutoffs(chain, since, until, every)
            is Ok,
        series(chain, since, until, every) is Err ==> series(chain, since, until, every)->Err_0
            == series_cutoffs(chain, since, until, every)->Err_0,
        series(chain, since, until, every) is Ok ==> {
            let points = series(chain, since, until, every)->Ok_0;
            let cutoffs = series_cutoffs(chain, since, until, every)->Ok_0;
            &&& points.len() == cutoffs.len()
            &&& 0 <= k < points.len() ==> points[k].cutoff == cutoffs[points.len() - 1 - k]
                && points[k].commit == current_commit(chain, points[k].cutoff)
        },
{
}

/// A commit stands on a chain where its id does, at its first place.
pub proof fn places_on_a_chain(chain: Seq<CommitModel>, sha: Seq<char>, from: int)
    requires
        0 <= from <= chain.len(),
    ensures
        match chain_position(chain, sha, from) {
            Some(k) => from <= k < chain.len() && chain[k].sha == sha && forall|j: int|
                from <= j < k ==> (#[trigger] chain[j]).sha != sha,
            None => forall|j: int| from <= j < chain.len() ==> (#[trigger] chain[j]).sha != sha,
        },
    decreases chain.len() - from,
{
    if from < chain.len() && chain[from].sha != sha {
        places_on_a_chain(chain, sha, from + 1);
    }
}

/// The steps to a commit go back in the chain one commit at a time, each at its own
/// time.
pub proof fn steps_follow_the_chain(chain: Seq<CommitModel>, at: int, k: int)
    requires
        0 <= k <= at < chain.len(),
    ensures
        steps_from(chain, at).len() == at + 1,
        steps_from(chain, at)[k].commit == Some(chain[at - k]),
        steps_from(chain, at)[k].cutoff == chain[at - k].committed_at,
        commit_point(chain[k]).commit == Some(chain[k]),
        commit_point(chain[k]).cutoff == chain[k].committed_at,
        checkpoint_at(chain, chain[k].committed_at).cutoff == chain[k].committed_at,
{
}

} // verus!
