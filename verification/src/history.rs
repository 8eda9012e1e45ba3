//! Checkpoints: UTC calendar arithmetic and the commits that were current.
//!
//! A checkpoint is a cutoff instant and the commit that was current at it, if
//! there was one: the first entry of a first-parent chain, newest first, that was
//! committed at or before the cutoff. Committer timestamps need not be monotonic,
//! so the chain is never sorted by time.
//!
//! Cutoffs are counted back from the end of the series, each one from the end
//! itself, so that shortened months do not add up. Both ends belong to the series.

use vstd::prelude::*;
use vstd::string::*;

use crate::calendar::{
    civil_instant, days_before, instant_at, instant_text, is_date, is_instant, months_before,
    months_earlier, shown_instant, FIRST_INSTANT,
};
use crate::format::{
    count_text, debug_text, decimal, digits_value, is_digit, is_digits, parse_unsigned, quoted,
};
use crate::git::{commit_model, commit_models, Commit, CommitModel};
use crate::text::same;

verus! {

/// How many checkpoints one series may have.
pub const MAX_CHECKPOINTS: usize = 4096;

/// A cutoff and the commit that was current at it.
#[derive(Debug)]
pub struct Checkpoint {
    pub cutoff: i64,
    pub commit: Option<Commit>,
}

pub struct CheckpointModel {
    pub cutoff: i64,
    pub commit: Option<CommitModel>,
}

impl View for Checkpoint {
    type V = CheckpointModel;

    open spec fn view(&self) -> CheckpointModel {
        CheckpointModel { cutoff: self.cutoff, commit: commit_model(self.commit) }
    }
}

pub open spec fn checkpoint_models(points: Seq<Checkpoint>) -> Seq<CheckpointModel> {
    points.map_values(|p: Checkpoint| p@)
}

#[derive(Clone, Copy, Debug, PartialEq, Eq, Structural)]
pub enum Unit {
    Days,
    Weeks,
    Months,
    Years,
}

/// A positive whole duration.
#[derive(Clone, Copy, Debug, PartialEq, Eq, Structural)]
pub struct Span {
    pub count: u32,
    pub unit: Unit,
}

/// A calendar date.
#[derive(Clone, Copy, Debug, PartialEq, Eq, Structural)]
pub struct Date {
    pub year: i32,
    pub month: u32,
    pub day: u32,
}

/// Why a text is no duration.
#[derive(Debug)]
pub enum SpanError {
    NoNumber,
    NoUnit,
    AmbiguousUnit,
    UnknownUnit(String),
    TooLarge(String),
    Zero,
}

pub enum SpanFailure {
    NoNumber,
    NoUnit,
    AmbiguousUnit,
    UnknownUnit(Seq<char>),
    TooLarge(Seq<char>),
    Zero,
}

impl View for SpanError {
    type V = SpanFailure;

    open spec fn view(&self) -> SpanFailure {
        match self {
            SpanError::NoNumber => SpanFailure::NoNumber,
            SpanError::NoUnit => SpanFailure::NoUnit,
            SpanError::AmbiguousUnit => SpanFailure::AmbiguousUnit,
            SpanError::UnknownUnit(unit) => SpanFailure::UnknownUnit(unit@),
            SpanError::TooLarge(count) => SpanFailure::TooLarge(count@),
            SpanError::Zero => SpanFailure::Zero,
        }
    }
}

/// Why a text is no date.
#[derive(Debug)]
pub enum DateError {
    Shape,
    NotReal(String),
}

pub enum DateFailure {
    Shape,
    NotReal(Seq<char>),
}

impl View for DateError {
    type V = DateFailure;

    open spec fn view(&self) -> DateFailure {
        match self {
            DateError::Shape => DateFailure::Shape,
            DateError::NotReal(text) => DateFailure::NotReal(text@),
        }
    }
}

/// Where a series starts: at a date, or so long before its end.
#[derive(Clone, Copy, PartialEq, Eq, Structural)]
pub enum Boundary {
    Date(Date),
    Span(Span),
}

/// Why a text is no start of a series.
#[derive(Debug)]
pub enum BoundaryError {
    Date(DateError),
    Span(SpanError),
}

pub enum BoundaryFailure {
    Date(DateFailure),
    Span(SpanFailure),
}

impl View for BoundaryError {
    type V = BoundaryFailure;

    open spec fn view(&self) -> BoundaryFailure {
        match self {
            BoundaryError::Date(error) => BoundaryFailure::Date(error@),
            BoundaryError::Span(error) => BoundaryFailure::Span(error@),
        }
    }
}

/// The number of digits that a text begins with, from the `k`-th one on.
pub open spec fn digits_end(text: Seq<char>, k: int) -> int
    decreases text.len() - k,
{
    if k < text.len() && is_digit(text[k]) {
        digits_end(text, k + 1)
    } else {
        k
    }
}

/// What follows the number of a duration.
pub open spec fn unit_of(unit: Seq<char>) -> Result<Unit, SpanFailure> {
    if unit == "d"@ {
        Ok(Unit::Days)
    } else if unit == "w"@ {
        Ok(Unit::Weeks)
    } else if unit == "mo"@ {
        Ok(Unit::Months)
    } else if unit == "y"@ {
        Ok(Unit::Years)
    } else if unit == ""@ {
        Err(SpanFailure::NoUnit)
    } else if unit == "m"@ {
        Err(SpanFailure::AmbiguousUnit)
    } else {
        Err(SpanFailure::UnknownUnit(unit))
    }
}

/// The duration that a text spells: a positive whole number and a unit.
pub open spec fn span_of(text: Seq<char>) -> Result<Span, SpanFailure> {
    let split = digits_end(text, 0);
    let count = text.subrange(0, split);
    if split == 0 {
        Err(SpanFailure::NoNumber)
    } else {
        match unit_of(text.subrange(split, text.len() as int)) {
            Err(failure) => Err(failure),
            Ok(unit) => if digits_value(count) > u32::MAX {
                Err(SpanFailure::TooLarge(count))
            } else if digits_value(count) == 0 {
                Err(SpanFailure::Zero)
            } else {
                Ok(Span { count: digits_value(count) as u32, unit })
            },
        }
    }
}

fn find_unit(unit: &str) -> (result: Result<Unit, SpanError>)
    ensures
        match result {
            Ok(found) => unit_of(unit@) == Ok::<Unit, SpanFailure>(found),
            Err(error) => unit_of(unit@) == Err::<Unit, SpanFailure>(error@),
        },
{
    if same(unit, "d") {
        Ok(Unit::Days)
    } else if same(unit, "w") {
        Ok(Unit::Weeks)
    } else if same(unit, "mo") {
        Ok(Unit::Months)
    } else if same(unit, "y") {
        Ok(Unit::Years)
    } else if same(unit, "") {
        Err(SpanError::NoUnit)
    } else if same(unit, "m") {
        Err(SpanError::AmbiguousUnit)
    } else {
        Err(SpanError::UnknownUnit(unit.to_owned()))
    }
}

proof fn lemma_digits_end(text: Seq<char>, k: int)
    requires
        0 <= k <= text.len(),
    ensures
        k <= digits_end(text, k) <= text.len(),
        forall|n: int| k <= n < digits_end(text, k) ==> is_digit(#[trigger] text[n]),
    decreases text.len() - k,
{
    if k < text.len() && is_digit(text[k]) {
        lemma_digits_end(text, k + 1);
    }
}

/// Reads a positive whole duration such as `7d`, `2w`, `3mo` or `1y`.
pub fn parse_span(text: &str) -> (result: Result<Span, SpanError>)
    ensures
        match result {
            Ok(span) => span_of(text@) == Ok::<Span, SpanFailure>(span) && span.count > 0,
            Err(error) => span_of(text@) == Err::<Span, SpanFailure>(error@),
        },
{
    let length: usize = text.unicode_len();
    let mut split: usize = 0;
    while split < length && '0' <= text.get_char(split) && text.get_char(split) <= '9'
        invariant
            split <= length == text@.len(),
            digits_end(text@, split as int) == digits_end(text@, 0),
        decreases length - split,
    {
        split = split + 1;
    }
    proof {
        lemma_digits_end(text@, 0);
    }
    assert(split == digits_end(text@, 0));
    if split == 0 {
        return Err(SpanError::NoNumber);
    }
    let count: &str = text.substring_char(0, split);
    assert(is_digits(count@));
    assert(count@[0] == text@[0]);
    assert(crate::format::unsigned_digits(count@) == count@);
    let unit = match find_unit(text.substring_char(split, length)) {
        Ok(unit) => unit,
        Err(error) => {
            return Err(error);
        },
    };
    match parse_unsigned(count, 0xffff_ffff) {
        Some(value) => {
            if value == 0 {
                Err(SpanError::Zero)
            } else {
                Ok(Span { count: value as u32, unit })
            }
        },
        None => Err(SpanError::TooLarge(count.to_owned())),
    }
}

/// The text has the shape of a date: four, two and two digits.
pub open spec fn is_date_shape(text: Seq<char>) -> bool {
    &&& text.len() == 10
    &&& text[4] == '-'
    &&& text[7] == '-'
    &&& forall|k: int| 0 <= k < 10 && k != 4 && k != 7 ==> is_digit(#[trigger] text[k])
}

/// The date that a text spells as `YYYY-MM-DD`.
pub open spec fn date_of(text: Seq<char>) -> Result<Date, DateFailure> {
    let year = digits_value(text.subrange(0, 4));
    let month = digits_value(text.subrange(5, 7));
    let day = digits_value(text.subrange(8, 10));
    if !is_date_shape(text) {
        Err(DateFailure::Shape)
    } else if is_date(year, month, day) {
        Ok(Date { year: year as i32, month: month as u32, day: day as u32 })
    } else {
        Err(DateFailure::NotReal(text))
    }
}

fn date_shaped(text: &str) -> (r: bool)
    ensures
        r == is_date_shape(text@),
{
    if text.unicode_len() != 10 || text.get_char(4) != '-' || text.get_char(7) != '-' {
        return false;
    }
    let mut k: usize = 0;
    while k < 10
        invariant
            k <= 10,
            text@.len() == 10,
            forall|n: int| 0 <= n < k && n != 4 && n != 7 ==> is_digit(#[trigger] text@[n]),
        decreases 10 - k,
    {
        let c: char = text.get_char(k);
        if k != 4 && k != 7 && !('0' <= c && c <= '9') {
            assert(!is_digit(text@[k as int]));
            return false;
        }
        k = k + 1;
    }
    true
}

/// The number that the digits from `from` up to `to` spell.
fn field(text: &str, from: usize, to: usize) -> (value: u32)
    requires
        from < to <= text@.len(),
        to - from <= 4,
        forall|n: int| from <= n < to ==> is_digit(#[trigger] text@[n]),
    ensures
        value == digits_value(text@.subrange(from as int, to as int)),
        value <= 9999,
{
    let part: &str = text.substring_char(from, to);
    assert forall|n: int| 0 <= n < part@.len() implies is_digit(#[trigger] part@[n]) by {
        assert(part@[n] == text@[from + n]);
    }
    assert(is_digits(part@));
    assert(crate::format::unsigned_digits(part@) == part@);
    proof {
        lemma_small_value(part@);
    }
    match parse_unsigned(part, 9999) {
        Some(value) => value as u32,
        None => 0,
    }
}

proof fn lemma_small_value(s: Seq<char>)
    requires
        is_digits(s),
        s.len() <= 4,
    ensures
        s.len() == 0 ==> digits_value(s) == 0,
        s.len() == 1 ==> 0 <= digits_value(s) <= 9,
        s.len() == 2 ==> 0 <= digits_value(s) <= 99,
        s.len() == 3 ==> 0 <= digits_value(s) <= 999,
        0 <= digits_value(s) <= 9999,
    decreases s.len(),
{
    if s.len() > 0 {
        assert(is_digit(s[s.len() - 1]));
        lemma_small_value(s.drop_last());
    }
}

/// Reads a strict `YYYY-MM-DD` calendar date.
pub fn parse_date(text: &str) -> (result: Result<Date, DateError>)
    ensures
        match result {
            Ok(date) => date_of(text@) == Ok::<Date, DateFailure>(date),
            Err(error) => date_of(text@) == Err::<Date, DateFailure>(error@),
        },
{
    if !date_shaped(text) {
        return Err(DateError::Shape);
    }
    let year: i32 = field(text, 0, 4) as i32;
    let month: u32 = field(text, 5, 7);
    let day: u32 = field(text, 8, 10);
    match instant_at(year, month, day, 0, 0, 0) {
        Some(_) => Ok(Date { year, month, day }),
        None => Err(DateError::NotReal(text.to_owned())),
    }
}

/// The start of a series that a text spells: a date where it holds a hyphen, and
/// a duration otherwise.
pub open spec fn boundary_of(text: Seq<char>) -> Result<Boundary, BoundaryFailure> {
    if text.contains('-') {
        match date_of(text) {
            Ok(date) => Ok(Boundary::Date(date)),
            Err(failure) => Err(BoundaryFailure::Date(failure)),
        }
    } else {
        match span_of(text) {
            Ok(span) => Ok(Boundary::Span(span)),
            Err(failure) => Err(BoundaryFailure::Span(failure)),
        }
    }
}

fn has_hyphen(text: &str) -> (r: bool)
    ensures
        r == text@.contains('-'),
{
    let length: usize = text.unicode_len();
    let mut k: usize = 0;
    while k < length
        invariant
            k <= length == text@.len(),
            forall|n: int| 0 <= n < k ==> #[trigger] text@[n] != '-',
        decreases length - k,
    {
        if text.get_char(k) == '-' {
            assert(text@[k as int] == '-');
            return true;
        }
        k = k + 1;
    }
    false
}

/// Reads the start of a series.
pub fn parse_boundary(text: &str) -> (result: Result<Boundary, BoundaryError>)
    ensures
        match result {
            Ok(boundary) => boundary_of(text@) == Ok::<Boundary, BoundaryFailure>(boundary) && (
            boundary is Span ==> boundary->Span_0.count > 0),
            Err(error) => boundary_of(text@) == Err::<Boundary, BoundaryFailure>(error@),
        },
{
    if has_hyphen(text) {
        match parse_date(text) {
            Ok(date) => Ok(Boundary::Date(date)),
            Err(error) => Err(BoundaryError::Date(error)),
        }
    } else {
        match parse_span(text) {
            Ok(span) => Ok(Boundary::Span(span)),
            Err(error) => Err(BoundaryError::Span(error)),
        }
    }
}

/// The instant so many times a duration before another one, where the calendar
/// reaches it.
pub open spec fn earlier(end: i64, span: Span, multiple: u32) -> Option<i64> {
    let total = span.count * multiple;
    if total > u32::MAX {
        None
    } else {
        match span.unit {
            Unit::Days => days_earlier(end, total),
            Unit::Weeks => days_earlier(end, 7 * total),
            Unit::Months => months_earlier(end, total as u32),
            Unit::Years => if 12 * total > u32::MAX {
                None
            } else {
                months_earlier(end, (12 * total) as u32)
            },
        }
    }
}

/// The instant so many days of 24 hours before another one, where the calendar
/// reaches it.
pub open spec fn days_earlier(end: i64, days: int) -> Option<i64> {
    if is_instant(end as int) && end - 86_400 * days >= FIRST_INSTANT {
        Some((end - 86_400 * days) as i64)
    } else {
        None
    }
}

/// The instant so many times a duration before another one. A greater multiple
/// leads to an earlier instant.
fn subtract(end: i64, span: Span, multiple: u32) -> (result: Option<i64>)
    requires
        span.count > 0,
    ensures
        result == earlier(end, span, multiple),
        result is Some ==> is_instant(end as int) && is_instant(result->0 as int),
        multiple == 0 && is_instant(end as int) ==> result == Some(end),
        result is Some ==> forall|fewer: u32|
            fewer < multiple ==> #[trigger] earlier(end, span, fewer) is Some && result->0
                < earlier(end, span, fewer)->0,
{
    assert(span.count * multiple <= 0xffff_ffff * 0xffff_ffff) by (nonlinear_arith)
        requires
            span.count <= 0xffff_ffff,
            multiple <= 0xffff_ffff,
    ;
    let total: u64 = span.count as u64 * multiple as u64;
    assert(multiple == 0 ==> span.count * multiple == 0) by (nonlinear_arith);
    if total > 0xffff_ffff {
        return None;
    }
    assert forall|fewer: u32| fewer < multiple implies #[trigger] (span.count * fewer) < total by {
        assert(span.count * fewer < span.count * multiple) by (nonlinear_arith)
            requires
                fewer < multiple,
                span.count > 0,
        ;
    }
    let result: Option<i64> = match span.unit {
        Unit::Days => days_before(end, total),
        Unit::Weeks => days_before(end, total * 7),
        Unit::Months => months_before(end, total as u32),
        Unit::Years => {
            if total * 12 > 0xffff_ffff {
                None
            } else {
                months_before(end, (total * 12) as u32)
            }
        },
    };
    assert(result == earlier(end, span, multiple));
    assert forall|fewer: u32| result is Some && fewer < multiple implies #[trigger] earlier(
        end,
        span,
        fewer,
    ) is Some && result->0 < earlier(end, span, fewer)->0 by {
        assert(span.count * fewer < total);
        let less = span.count * fewer;
        match span.unit {
            Unit::Months => {
                assert(months_earlier(end, less as u32) is Some);
            },
            Unit::Years => {
                assert(months_earlier(end, (12 * less) as u32) is Some);
            },
            _ => {},
        }
    }
    result
}

/// Why there is no series.
#[allow(inconsistent_fields)]
#[derive(Debug)]
pub enum HistoryError {
    Every { value: String, error: SpanError },
    Until { value: String, error: DateError },
    NoEnd,
    Since { value: String, error: BoundaryError },
    OutOfCalendar,
    Inverted { start: i64, end: i64 },
    TooMany { every: String },
}

#[allow(inconsistent_fields)]
pub enum HistoryFailure {
    Every { value: Seq<char>, failure: SpanFailure },
    Until { value: Seq<char>, failure: DateFailure },
    NoEnd,
    Since { value: Seq<char>, failure: BoundaryFailure },
    OutOfCalendar,
    Inverted { start: i64, end: i64 },
    TooMany { every: Seq<char> },
}

impl View for HistoryError {
    type V = HistoryFailure;

    open spec fn view(&self) -> HistoryFailure {
        match self {
            HistoryError::Every { value, error } => HistoryFailure::Every {
                value: value@,
                failure: error@,
            },
            HistoryError::Until { value, error } => HistoryFailure::Until {
                value: value@,
                failure: error@,
            },
            HistoryError::NoEnd => HistoryFailure::NoEnd,
            HistoryError::Since { value, error } => HistoryFailure::Since {
                value: value@,
                failure: error@,
            },
            HistoryError::OutOfCalendar => HistoryFailure::OutOfCalendar,
            HistoryError::Inverted { start, end } => HistoryFailure::Inverted {
                start: *start,
                end: *end,
            },
            HistoryError::TooMany { every } => HistoryFailure::TooMany { every: every@ },
        }
    }
}

/// The first second of a date.
pub open spec fn day_start(date: Date) -> Option<i64> {
    civil_instant(date.year, date.month, date.day, 0, 0, 0)
}

/// The last second of a date.
pub open spec fn day_end(date: Date) -> Option<i64> {
    civil_instant(date.year, date.month, date.day, 23, 59, 59)
}

/// Where a series ends: at the end of a date, or at the newest commit.
pub open spec fn series_end(chain: Seq<CommitModel>, until: Option<Seq<char>>) -> Result<
    i64,
    HistoryFailure,
> {
    match until {
        Some(text) => match date_of(text) {
            Err(failure) => Err(HistoryFailure::Until { value: text, failure }),
            Ok(date) => match day_end(date) {
                Some(end) => Ok(end),
                None => Err(HistoryFailure::OutOfCalendar),
            },
        },
        None => if chain.len() > 0 {
            Ok(chain[0].committed_at)
        } else {
            Err(HistoryFailure::NoEnd)
        },
    }
}

/// Where a series with the given end starts.
pub open spec fn series_start(since: Seq<char>, end: i64) -> Result<i64, HistoryFailure> {
    let start = match boundary_of(since) {
        Err(failure) => Err(HistoryFailure::Since { value: since, failure }),
        Ok(Boundary::Date(date)) => match day_start(date) {
            Some(start) => Ok(start),
            None => Err(HistoryFailure::OutOfCalendar),
        },
        Ok(Boundary::Span(span)) => match earlier(end, span, 1) {
            Some(start) => Ok(start),
            None => Err(HistoryFailure::OutOfCalendar),
        },
    };
    match start {
        Err(failure) => Err(failure),
        Ok(start) => if start > end {
            Err(HistoryFailure::Inverted { start, end })
        } else {
            Ok(start)
        },
    }
}

/// The cutoffs from the `multiple`-th one before the end back to the start, the
/// latest one first.
pub open spec fn cutoffs_from(
    start: i64,
    end: i64,
    step: Span,
    every: Seq<char>,
    multiple: int,
) -> Result<Seq<i64>, HistoryFailure>
    decreases MAX_CHECKPOINTS - multiple,
{
    match earlier(end, step, multiple as u32) {
        None => Err(HistoryFailure::OutOfCalendar),
        Some(cutoff) => if cutoff <= start {
            Ok(seq![start])
        } else if multiple + 1 >= MAX_CHECKPOINTS {
            Err(HistoryFailure::TooMany { every })
        } else {
            match cutoffs_from(start, end, step, every, multiple + 1) {
                Ok(rest) => Ok(seq![cutoff] + rest),
                Err(failure) => Err(failure),
            }
        },
    }
}

/// The cutoffs of a series, the latest one first.
pub open spec fn series_cutoffs(
    chain: Seq<CommitModel>,
    since: Seq<char>,
    until: Option<Seq<char>>,
    every: Seq<char>,
) -> Result<Seq<i64>, HistoryFailure> {
    match span_of(every) {
        Err(failure) => Err(HistoryFailure::Every { value: every, failure }),
        Ok(step) => match series_end(chain, until) {
            Err(failure) => Err(failure),
            Ok(end) => match series_start(since, end) {
                Err(failure) => Err(failure),
                Ok(start) => cutoffs_from(start, end, step, every, 0),
            },
        },
    }
}

/// The first commit of a chain from the `k`-th one on that existed at a cutoff.
pub open spec fn current_from(chain: Seq<CommitModel>, cutoff: i64, k: int) -> Option<CommitModel>
    decreases chain.len() - k,
{
    if k >= chain.len() {
        None
    } else if chain[k].committed_at <= cutoff {
        Some(chain[k])
    } else {
        current_from(chain, cutoff, k + 1)
    }
}

/// The first commit of a chain that existed at a cutoff.
pub open spec fn current_commit(chain: Seq<CommitModel>, cutoff: i64) -> Option<CommitModel> {
    current_from(chain, cutoff, 0)
}

/// The series of checkpoints, the earliest one first.
pub open spec fn series(
    chain: Seq<CommitModel>,
    since: Seq<char>,
    until: Option<Seq<char>>,
    every: Seq<char>,
) -> Result<Seq<CheckpointModel>, HistoryFailure> {
    match series_cutoffs(chain, since, until, every) {
        Err(failure) => Err(failure),
        Ok(cutoffs) => Ok(
            Seq::new(
                cutoffs.len(),
                |k: int| checkpoint_at(chain, cutoffs[cutoffs.len() - 1 - k]),
            ),
        ),
    }
}

/// The checkpoint of a cutoff.
pub open spec fn checkpoint_at(chain: Seq<CommitModel>, cutoff: i64) -> CheckpointModel {
    CheckpointModel { cutoff, commit: current_commit(chain, cutoff) }
}

/// The first chain entry that existed at a cutoff, in chain order.
pub fn select(chain: &Vec<Commit>, cutoff: i64) -> (commit: Option<Commit>)
    ensures
        commit_model(commit) == current_commit(commit_models(chain@), cutoff),
{
    let ghost models = commit_models(chain@);
    let mut k: usize = 0;
    while k < chain.len()
        invariant
            models == commit_models(chain@),
            k <= chain@.len(),
            current_from(models, cutoff, k as int) == current_commit(models, cutoff),
        decreases chain@.len() - k,
    {
        assert(models[k as int] == chain@[k as int]@);
        if chain[k].committed_at <= cutoff {
            return Some(chain[k].clone());
        }
        k = k + 1;
    }
    None
}

/// The cutoffs stand one after the other.
pub open spec fn is_ascending(points: Seq<CheckpointModel>) -> bool {
    forall|i: int, j: int|
        0 <= i < j < points.len() ==> (#[trigger] points[i]).cutoff < (#[trigger] points[j]).cutoff
}

fn find_end(chain: &Vec<Commit>, until: Option<&str>) -> (result: Result<i64, HistoryError>)
    ensures
        match result {
            Ok(end) => series_end(commit_models(chain@), crate::format::optional_str(until)) == Ok::<
                i64,
                HistoryFailure,
            >(end),
            Err(error) => series_end(commit_models(chain@), crate::format::optional_str(until))
                == Err::<i64, HistoryFailure>(error@),
        },
{
    match until {
        Some(text) => match parse_date(text) {
            Err(error) => Err(HistoryError::Until { value: text.to_owned(), error }),
            Ok(date) => match instant_at(date.year, date.month, date.day, 23, 59, 59) {
                Some(end) => Ok(end),
                None => Err(HistoryError::OutOfCalendar),
            },
        },
        None => {
            assert(commit_models(chain@).len() == chain@.len());
            if chain.len() == 0 {
                return Err(HistoryError::NoEnd);
            }
            assert(commit_models(chain@)[0] == chain@[0]@);
            Ok(chain[0].committed_at)
        },
    }
}

fn find_start(since: &str, end: i64) -> (result: Result<i64, HistoryError>)
    ensures
        match result {
            Ok(start) => series_start(since@, end) == Ok::<i64, HistoryFailure>(start) && start
                <= end,
            Err(error) => series_start(since@, end) == Err::<i64, HistoryFailure>(error@),
        },
{
    let start: Option<i64> = match parse_boundary(since) {
        Err(error) => {
            return Err(HistoryError::Since { value: since.to_owned(), error });
        },
        Ok(Boundary::Date(date)) => instant_at(date.year, date.month, date.day, 0, 0, 0),
        Ok(Boundary::Span(span)) => {
            assert(span.count > 0);
            subtract(end, span, 1)
        },
    };
    match start {
        None => Err(HistoryError::OutOfCalendar),
        Some(start) => {
            if start > end {
                Err(HistoryError::Inverted { start, end })
            } else {
                Ok(start)
            }
        },
    }
}

/// The cutoffs of a series, the latest one first.
fn find_cutoffs(start: i64, end: i64, step: Span, every: &str) -> (result: Result<
    Vec<i64>,
    HistoryError,
>)
    requires
        step.count > 0,
        start <= end,
    ensures
        match result {
            Ok(cutoffs) => {
                &&& cutoffs_from(start, end, step, every@, 0) == Ok::<Seq<i64>, HistoryFailure>(
                    cutoffs@,
                )
                &&& 1 <= cutoffs@.len() <= MAX_CHECKPOINTS
                &&& cutoffs@[0] == end
                &&& cutoffs@.last() == start
                &&& forall|i: int, j: int|
                    0 <= i < j < cutoffs@.len() ==> #[trigger] cutoffs@[i] > #[trigger] cutoffs@[j]
            },
            Err(error) => cutoffs_from(start, end, step, every@, 0) == Err::<
                Seq<i64>,
                HistoryFailure,
            >(error@),
        },
{
    let mut cutoffs: Vec<i64> = Vec::new();
    let mut multiple: u32 = 0;
    let ghost goal = cutoffs_from(start, end, step, every@, 0);
    loop
        invariant
            step.count > 0,
            start <= end,
            multiple < MAX_CHECKPOINTS,
            cutoffs@.len() == multiple,
            goal == cutoffs_from(start, end, step, every@, 0),
            match cutoffs_from(start, end, step, every@, multiple as int) {
                Ok(rest) => goal == Ok::<Seq<i64>, HistoryFailure>(cutoffs@ + rest),
                Err(failure) => goal == Err::<Seq<i64>, HistoryFailure>(failure),
            },
            forall|k: int|
                0 <= k < multiple ==> earlier(end, step, k as u32) == Some(#[trigger] cutoffs@[k])
                    && cutoffs@[k] > start,
            multiple > 0 ==> cutoffs@[0] == end,
            forall|i: int, j: int|
                0 <= i < j < cutoffs@.len() ==> #[trigger] cutoffs@[i] > #[trigger] cutoffs@[j],
        decreases MAX_CHECKPOINTS - multiple,
    {
        let cutoff: i64 = match subtract(end, step, multiple) {
            Some(cutoff) => cutoff,
            None => {
                return Err(HistoryError::OutOfCalendar);
            },
        };
        let ghost before = cutoffs@;
        if cutoff <= start {
            cutoffs.push(start);
            assert(cutoffs@ =~= before + seq![start]);
            return Ok(cutoffs);
        }
        assert forall|k: int| 0 <= k < multiple implies #[trigger] before[k] > cutoff by {
            assert(earlier(end, step, k as u32) is Some);
        }
        cutoffs.push(cutoff);
        if cutoffs.len() >= MAX_CHECKPOINTS {
            return Err(HistoryError::TooMany { every: every.to_owned() });
        }
        multiple = multiple + 1;
        assert(match cutoffs_from(start, end, step, every@, multiple as int) {
            Ok(rest) => before + (seq![cutoff] + rest) =~= cutoffs@ + rest,
            Err(_) => true,
        });
    }
}

/// Builds the series of checkpoints for a chain of commits, newest first.
///
/// `since` is a date, taken at its first second, or a duration before the end.
/// `until` is a date, taken at its last second; without it the series ends at
/// the newest commit. `every` is the duration between cutoffs.
///
/// The cutoffs ascend from the start to the end, both of which belong to the
/// series.
pub fn checkpoints(chain: &Vec<Commit>, since: &str, until: Option<&str>, every: &str) -> (result:
    Result<Vec<Checkpoint>, HistoryError>)
    ensures
        match result {
            Ok(points) => {
                let models = checkpoint_models(points@);
                &&& series(
                    commit_models(chain@),
                    since@,
                    crate::format::optional_str(until),
                    every@,
                ) == Ok::<Seq<CheckpointModel>, HistoryFailure>(models)
                &&& 1 <= points@.len() <= MAX_CHECKPOINTS
                &&& is_ascending(models)
                &&& series_end(commit_models(chain@), crate::format::optional_str(until)) == Ok::<
                    i64,
                    HistoryFailure,
                >(models.last().cutoff)
                &&& series_start(since@, models.last().cutoff) == Ok::<i64, HistoryFailure>(
                    models[0].cutoff,
                )
            },
            Err(error) => series(
                commit_models(chain@),
                since@,
                crate::format::optional_str(until),
                every@,
            ) == Err::<Seq<CheckpointModel>, HistoryFailure>(error@),
        },
{
    let ghost models = commit_models(chain@);
    let step = match parse_span(every) {
        Ok(step) => step,
        Err(error) => {
            return Err(HistoryError::Every { value: every.to_owned(), error });
        },
    };
    let end: i64 = match find_end(chain, until) {
        Ok(end) => end,
        Err(error) => {
            return Err(error);
        },
    };
    let start: i64 = match find_start(since, end) {
        Ok(start) => start,
        Err(error) => {
            return Err(error);
        },
    };
    let cutoffs = match find_cutoffs(start, end, step, every) {
        Ok(cutoffs) => cutoffs,
        Err(error) => {
            return Err(error);
        },
    };
    let count: usize = cutoffs.len();
    let mut points: Vec<Checkpoint> = Vec::new();
    let mut k: usize = 0;
    while k < count
        invariant
            models == commit_models(chain@),
            count == cutoffs@.len(),
            k <= count,
            points@.len() == k,
            forall|n: int|
                0 <= n < k ==> (#[trigger] points@[n])@ == checkpoint_at(
                    models,
                    cutoffs@[count - 1 - n],
                ),
        decreases count - k,
    {
        let cutoff: i64 = cutoffs[count - 1 - k];
        points.push(Checkpoint { cutoff, commit: select(chain, cutoff) });
        k = k + 1;
    }
    let ghost found = checkpoint_models(points@);
    assert(found =~= Seq::new(
        cutoffs@.len(),
        |k: int| checkpoint_at(models, cutoffs@[cutoffs@.len() - 1 - k]),
    ));
    assert(is_ascending(found)) by {
        assert forall|i: int, j: int| 0 <= i < j < found.len() implies (#[trigger] found[i]).cutoff
            < (#[trigger] found[j]).cutoff by {
            assert(cutoffs@[count - 1 - j] > cutoffs@[count - 1 - i]);
        }
    }
    Ok(points)
}

/// A cutoff takes the first commit of the chain that was committed at or before
/// it: no commit after the cutoff is taken, and none only where every commit is
/// later.
pub proof fn selection_takes_the_first_eligible_commit(chain: Seq<CommitModel>, cutoff: i64)
    ensures
        match current_commit(chain, cutoff) {
            Some(commit) => exists|k: int|
                0 <= k < chain.len() && #[trigger] chain[k] == commit && commit.committed_at
                    <= cutoff && forall|n: int|
                    0 <= n < k ==> (#[trigger] chain[n]).committed_at > cutoff,
            None => forall|n: int|
                0 <= n < chain.len() ==> (#[trigger] chain[n]).committed_at > cutoff,
        },
{
    lemma_current(chain, cutoff, 0);
}

proof fn lemma_current(chain: Seq<CommitModel>, cutoff: i64, k: int)
    requires
        0 <= k <= chain.len(),
        forall|n: int| 0 <= n < k ==> (#[trigger] chain[n]).committed_at > cutoff,
    ensures
        match current_from(chain, cutoff, k) {
            Some(commit) => exists|k: int|
                0 <= k < chain.len() && #[trigger] chain[k] == commit && commit.committed_at
                    <= cutoff && forall|n: int|
                    0 <= n < k ==> (#[trigger] chain[n]).committed_at > cutoff,
            None => forall|n: int|
                0 <= n < chain.len() ==> (#[trigger] chain[n]).committed_at > cutoff,
        },
    decreases chain.len() - k,
{
    if k < chain.len() && chain[k].committed_at > cutoff {
        lemma_current(chain, cutoff, k + 1);
    }
}

/// Every cutoff but the start is counted back from the end itself: the `k`-th one
/// before the end is `k` times the cadence earlier.
pub proof fn cutoffs_are_anchored_to_the_end(
    start: i64,
    end: i64,
    step: Span,
    every: Seq<char>,
    multiple: int,
)
    requires
        0 <= multiple < MAX_CHECKPOINTS,
        cutoffs_from(start, end, step, every, multiple) is Ok,
    ensures
        ({
            let cutoffs = cutoffs_from(start, end, step, every, multiple)->Ok_0;
            &&& cutoffs.len() >= 1
            &&& cutoffs.last() == start
            &&& forall|k: int|
                0 <= k < cutoffs.len() - 1 ==> earlier(end, step, (multiple + k) as u32) == Some(
                    #[trigger] cutoffs[k],
                )
        }),
    decreases MAX_CHECKPOINTS - multiple,
{
    match earlier(end, step, multiple as u32) {
        None => {},
        Some(cutoff) => if cutoff > start {
            cutoffs_are_anchored_to_the_end(start, end, step, every, multiple + 1);
            let rest = cutoffs_from(start, end, step, every, multiple + 1)->Ok_0;
            let cutoffs = seq![cutoff] + rest;
            assert forall|k: int| 0 <= k < cutoffs.len() - 1 implies earlier(
                end,
                step,
                (multiple + k) as u32,
            ) == Some(#[trigger] cutoffs[k]) by {
                if k > 0 {
                    assert(cutoffs[k] == rest[k - 1]);
                    assert((multiple + 1) + (k - 1) == multiple + k);
                }
            }
        },
    }
}

/// What to tell the user of a text that is no duration.
pub open spec fn span_message(failure: SpanFailure) -> Seq<char> {
    match failure {
        SpanFailure::NoNumber => "expected a positive whole number followed by d, w, mo or y"@,
        SpanFailure::NoUnit => "missing unit; use d, w, mo or y"@,
        SpanFailure::AmbiguousUnit => "ambiguous unit \"m\"; use \"mo\" for months"@,
        SpanFailure::UnknownUnit(unit) => "unknown unit "@ + debug_text(unit)
            + "; use d, w, mo or y without compounds"@,
        SpanFailure::TooLarge(count) => count + " is too large"@,
        SpanFailure::Zero => "the value must be positive"@,
    }
}

/// What to tell the user of a text that is no date.
pub open spec fn date_message(failure: DateFailure) -> Seq<char> {
    match failure {
        DateFailure::Shape => "expected a YYYY-MM-DD date"@,
        DateFailure::NotReal(text) => text + " is not a real calendar date"@,
    }
}

/// What to tell the user of a text that is no start of a series.
pub open spec fn boundary_message(failure: BoundaryFailure) -> Seq<char> {
    match failure {
        BoundaryFailure::Date(failure) => date_message(failure),
        BoundaryFailure::Span(failure) => span_message(failure)
            + ", and it is not a YYYY-MM-DD date"@,
    }
}

/// What to tell the user where there is no series.
pub open spec fn history_message(failure: HistoryFailure) -> Seq<char> {
    match failure {
        HistoryFailure::Every { value, failure } => "Invalid --every value "@ + debug_text(value)
            + ": "@ + span_message(failure),
        HistoryFailure::Until { value, failure } => "Invalid --until value "@ + debug_text(value)
            + ": "@ + date_message(failure),
        HistoryFailure::NoEnd =>
            "The selected history is empty, so there is no end date; pass --until to measure explicit dates"@,
        HistoryFailure::Since { value, failure } => "Invalid --since value "@ + debug_text(value)
            + ": "@ + boundary_message(failure),
        HistoryFailure::OutOfCalendar =>
            "The requested range overflows the supported calendar"@,
        HistoryFailure::Inverted { start, end } => "--since "@ + shown_instant(start)
            + " is after the end of the measured range "@ + shown_instant(end),
        HistoryFailure::TooMany { every } => "The requested range needs more than "@ + decimal(
            MAX_CHECKPOINTS as nat,
        ) + " checkpoints at a cadence of "@ + every + "; narrow the range or widen --every"@,
    }
}

impl SpanError {
    pub fn message(&self) -> (message: String)
        ensures
            message@ == span_message(self@),
    {
        match self {
            SpanError::NoNumber =>
                "expected a positive whole number followed by d, w, mo or y".to_owned(),
            SpanError::NoUnit => "missing unit; use d, w, mo or y".to_owned(),
            SpanError::AmbiguousUnit =>
                "ambiguous unit \"m\"; use \"mo\" for months".to_owned(),
            SpanError::UnknownUnit(unit) => {
                let mut message = "unknown unit ".to_owned();
                let quote = quoted(unit.as_str());
                message.append(quote.as_str());
                message.append("; use d, w, mo or y without compounds");
                message
            },
            SpanError::TooLarge(count) => {
                let mut message = count.clone();
                message.append(" is too large");
                message
            },
            SpanError::Zero => "the value must be positive".to_owned(),
        }
    }
}

impl DateError {
    pub fn message(&self) -> (message: String)
        ensures
            message@ == date_message(self@),
    {
        match self {
            DateError::Shape => "expected a YYYY-MM-DD date".to_owned(),
            DateError::NotReal(text) => {
                let mut message = text.clone();
                message.append(" is not a real calendar date");
                message
            },
        }
    }
}

impl BoundaryError {
    pub fn message(&self) -> (message: String)
        ensures
            message@ == boundary_message(self@),
    {
        match self {
            BoundaryError::Date(error) => error.message(),
            BoundaryError::Span(error) => {
                let mut message = error.message();
                message.append(", and it is not a YYYY-MM-DD date");
                message
            },
        }
    }
}

fn rejected(option: &str, value: &str, complaint: &str) -> (message: String)
    ensures
        message@ == option@ + debug_text(value@) + ": "@ + complaint@,
{
    let mut message = option.to_owned();
    let quote = quoted(value);
    message.append(quote.as_str());
    message.append(": ");
    message.append(complaint);
    message
}

impl HistoryError {
    /// What to tell the user.
    pub fn message(&self) -> (message: String)
        ensures
            message@ == history_message(self@),
    {
        match self {
            HistoryError::Every { value, error } => {
                let complaint = error.message();
                rejected("Invalid --every value ", value.as_str(), complaint.as_str())
            },
            HistoryError::Until { value, error } => {
                let complaint = error.message();
                rejected("Invalid --until value ", value.as_str(), complaint.as_str())
            },
            HistoryError::NoEnd =>
                "The selected history is empty, so there is no end date; pass --until to measure explicit dates".to_owned(),
            HistoryError::Since { value, error } => {
                let complaint = error.message();
                rejected("Invalid --since value ", value.as_str(), complaint.as_str())
            },
            HistoryError::OutOfCalendar =>
                "The requested range overflows the supported calendar".to_owned(),
            HistoryError::Inverted { start, end } => {
                let mut message = "--since ".to_owned();
                let first = instant_text(*start);
                message.append(first.as_str());
                message.append(" is after the end of the measured range ");
                let last = instant_text(*end);
                message.append(last.as_str());
                message
            },
            HistoryError::TooMany { every } => {
                let mut message = "The requested range needs more than ".to_owned();
                let limit = count_text(MAX_CHECKPOINTS);
                message.append(limit.as_str());
                message.append(" checkpoints at a cadence of ");
                message.append(every.as_str());
                message.append("; narrow the range or widen --every");
                message
            },
        }
    }
}

/// The checkpoint of a commit is the commit itself, at its own time.
pub open spec fn commit_point(commit: CommitModel) -> CheckpointModel {
    CheckpointModel { cutoff: commit.committed_at, commit: Some(commit) }
}

/// The checkpoint of a commit.
pub fn commit_checkpoint(commit: &Commit) -> (point: Checkpoint)
    ensures
        point@ == commit_point(commit@),
{
    Checkpoint { cutoff: commit.committed_at, commit: Some(commit.clone()) }
}

/// Where a commit stands in a chain, from a position on.
pub open spec fn chain_position(chain: Seq<CommitModel>, sha: Seq<char>, k: int) -> Option<int>
    decreases chain.len() - k,
{
    if k >= chain.len() {
        None
    } else if chain[k].sha == sha {
        Some(k)
    } else {
        chain_position(chain, sha, k + 1)
    }
}

/// The commits of a chain, newest first, from a position back to its newest one,
/// oldest first.
pub open spec fn steps_from(chain: Seq<CommitModel>, at: int) -> Seq<CheckpointModel> {
    Seq::new((at + 1) as nat, |k: int| commit_point(chain[at - k]))
}

/// What to tell the user of a commit that is not in a chain.
pub open spec fn not_on_chain_message(from: Seq<char>, to: Seq<char>) -> Seq<char> {
    "FROM "@ + from + " is not on the first-parent chain of TO "@ + to
}

/// Every commit of a first-parent chain, newest first, from an older one on,
/// oldest first. The error is what to tell the user.
pub fn commit_checkpoints(chain: &Vec<Commit>, from: &str, to: &str) -> (result: Result<
    Vec<Checkpoint>,
    String,
>)
    ensures
        match result {
            Ok(points) => chain_position(commit_models(chain@), from@, 0) is Some
                && checkpoint_models(points@) == steps_from(
                commit_models(chain@),
                chain_position(commit_models(chain@), from@, 0)->0,
            ),
            Err(message) => chain_position(commit_models(chain@), from@, 0) is None && message@
                == not_on_chain_message(from@, to@),
        },
{
    let ghost models = commit_models(chain@);
    let mut at: usize = 0;
    while at < chain.len() && !same(chain[at].sha.as_str(), from)
        invariant
            at <= chain@.len(),
            models == commit_models(chain@),
            chain_position(models, from@, 0) == chain_position(models, from@, at as int),
        decreases chain@.len() - at,
    {
        assert(models[at as int] == chain@[at as int]@);
        at = at + 1;
    }
    if at == chain.len() {
        let mut message = "FROM ".to_owned();
        message.append(from);
        message.append(" is not on the first-parent chain of TO ");
        message.append(to);
        return Err(message);
    }
    assert(models[at as int] == chain@[at as int]@);
    let mut points: Vec<Checkpoint> = Vec::new();
    let n: usize = at + 1;
    let mut k: usize = 0;
    while k < n
        invariant
            k <= n,
            n == at + 1,
            at < chain@.len(),
            models == commit_models(chain@),
            points@.len() == k,
            forall|i: int| 0 <= i < k ==> (#[trigger] points@[i])@ == steps_from(models, at as int)[i],
        decreases n - k,
    {
        assert(models[at - k] == chain@[at - k]@);
        points.push(commit_checkpoint(&chain[at - k]));
        k = k + 1;
    }
    assert(checkpoint_models(points@) =~= steps_from(models, at as int));
    Ok(points)
}

/// The steps along a chain begin with the older commit and end with the newest
/// one.
pub proof fn steps_join_both_ends(chain: Seq<CommitModel>, from: Seq<char>)
    requires
        chain_position(chain, from, 0) is Some,
    ensures
        ({
            let steps = steps_from(chain, chain_position(chain, from, 0)->0);
            &&& steps.len() > 0
            &&& steps[0].commit is Some && steps[0].commit->0.sha == from
            &&& steps.last() == commit_point(chain[0])
        }),
{
    lemma_chain_position(chain, from, 0);
}

proof fn lemma_chain_position(chain: Seq<CommitModel>, sha: Seq<char>, k: int)
    requires
        0 <= k,
        chain_position(chain, sha, k) is Some,
    ensures
        k <= chain_position(chain, sha, k)->0 < chain.len(),
        chain[chain_position(chain, sha, k)->0].sha == sha,
    decreases chain.len() - k,
{
    if k < chain.len() && chain[k].sha != sha {
        lemma_chain_position(chain, sha, k + 1);
    }
}

} // verus!
