//! Physical lines and source lines of a file's bytes.

use vstd::prelude::*;
use vstd::slice::*;

use super::syntax::remaining;

verus! {

/// The first line break at or behind a position; the length where there is none.
pub open spec fn next_break(s: Seq<u8>, at: int) -> int
    decreases remaining(at, s.len() as int),
{
    if at >= s.len() {
        s.len() as int
    } else if s[at] == 10u8 {
        at
    } else {
        next_break(s, at + 1)
    }
}

/// The lines from a position on, without their line breaks. Text behind the
/// last line break is a line only where there is any.
pub open spec fn lines_from(s: Seq<u8>, at: int) -> Seq<Seq<u8>>
    decreases remaining(at, s.len() as int),
{
    if at < 0 || at >= s.len() || next_break(s, at) < at {
        Seq::empty()
    } else {
        seq![s.subrange(at, next_break(s, at))] + lines_from(s, next_break(s, at) + 1)
    }
}

/// The physical lines of a file.
pub open spec fn lines(s: Seq<u8>) -> Seq<Seq<u8>> {
    lines_from(s, 0)
}

/// How many of the first `n` lines count as source.
pub open spec fn source_count(lines: Seq<Seq<u8>>, n: int) -> int
    decreases n,
{
    if n <= 0 {
        0
    } else {
        source_count(lines, n - 1) + if is_source_line(lines[n - 1]) {
            1int
        } else {
            0
        }
    }
}

pub open spec fn is_whitespace(byte: u8) -> bool {
    byte == 32 || byte == 9 || byte == 10 || byte == 13 || byte == 11 || byte == 12
}

/// The bytes `{ } [ ] ( ) ; , :`.
pub open spec fn is_punctuation(byte: u8) -> bool {
    byte == 123 || byte == 125 || byte == 91 || byte == 93 || byte == 40 || byte == 41 || byte == 59
        || byte == 44 || byte == 58
}

/// A position inside the line's text: neither in the whitespace before it nor
/// in that behind it.
pub open spec fn inside_text(line: Seq<u8>, i: int) -> bool {
    &&& exists|k: int| 0 <= k <= i && !is_whitespace(#[trigger] line[k])
    &&& exists|k: int| i <= k < line.len() && !is_whitespace(#[trigger] line[k])
}

/// A line counts as source where its text, between leading and trailing
/// whitespace, holds anything but punctuation.
pub open spec fn is_source_line(line: Seq<u8>) -> bool {
    exists|i: int| 0 <= i < line.len() && #[trigger] inside_text(line, i) && !is_punctuation(line[i])
}

proof fn lemma_next_break(s: Seq<u8>, at: int)
    requires
        0 <= at <= s.len(),
    ensures
        at <= next_break(s, at) <= s.len(),
        forall|k: int| at <= k < next_break(s, at) ==> s[k] != 10u8,
        next_break(s, at) < s.len() ==> s[next_break(s, at)] == 10u8,
    decreases s.len() - at,
{
    if at < s.len() && s[at] != 10u8 {
        lemma_next_break(s, at + 1);
    }
}

/// The position of the first line break at or behind a position.
fn find_break(source: &[u8], at: usize) -> (end: usize)
    requires
        at <= source@.len(),
    ensures
        end == next_break(source@, at as int),
        at <= end <= source@.len(),
{
    let mut end: usize = at;
    while end < source.len() && source[end] != 10
        invariant
            at <= end <= source@.len(),
            next_break(source@, at as int) == next_break(source@, end as int),
        decreases source@.len() - end,
    {
        end = end + 1;
    }
    end
}

/// A file has no more lines than bytes.
pub proof fn lemma_lines_bound(s: Seq<u8>, at: int)
    requires
        0 <= at <= s.len(),
    ensures
        lines_from(s, at).len() <= s.len() - at,
    decreases s.len() - at,
{
    if at < s.len() {
        lemma_next_break(s, at);
        let end = next_break(s, at);
        if end + 1 <= s.len() {
            lemma_lines_bound(s, end + 1);
        }
    }
}

/// The number of physical lines.
pub fn physical_lines(source: &[u8]) -> (count: usize)
    ensures
        count == lines(source@).len(),
{
    let mut at: usize = 0;
    let mut count: usize = 0;
    proof {
        lemma_lines_bound(source@, 0);
    }
    while at < source.len()
        invariant
            at <= source@.len(),
            count <= at,
            count + lines_from(source@, at as int).len() == lines(source@).len(),
            lines(source@).len() <= source@.len(),
        decreases source@.len() - at,
    {
        let end: usize = find_break(source, at);
        assert(lines_from(source@, end + 1) == lines_from(source@, source@.len() as int) || end
            < source@.len());
        at = if end < source.len() {
            end + 1
        } else {
            end
        };
        count = count + 1;
    }
    count
}

/// The line counts as source.
pub fn source_line(line: &[u8]) -> (r: bool)
    ensures
        r == is_source_line(line@),
{
    let mut start: usize = 0;
    while start < line.len() && white(line[start])
        invariant
            start <= line@.len(),
            forall|k: int| 0 <= k < start ==> is_whitespace(#[trigger] line@[k]),
        decreases line@.len() - start,
    {
        start = start + 1;
    }
    let mut end: usize = line.len();
    while end > start && white(line[end - 1])
        invariant
            start <= end <= line@.len(),
            forall|k: int| end <= k < line@.len() ==> is_whitespace(#[trigger] line@[k]),
        decreases end,
    {
        end = end - 1;
    }
    let mut i: usize = start;
    while i < end
        invariant
            start <= i <= end <= line@.len(),
            start < end ==> !is_whitespace(line@[start as int]) && !is_whitespace(line@[end - 1]),
            forall|k: int| start <= k < i ==> is_punctuation(#[trigger] line@[k]),
        decreases end - i,
    {
        if !punctuation(line[i]) {
            assert(!is_whitespace(line@[start as int]));
            assert(!is_whitespace(line@[end - 1]));
            assert(inside_text(line@, i as int));
            return true;
        }
        i = i + 1;
    }
    assert forall|k: int| 0 <= k < line@.len() && #[trigger] inside_text(line@, k) implies is_punctuation(
        line@[k],
    ) by {
        if k < start {
            let w = choose|w: int| 0 <= w <= k && !is_whitespace(#[trigger] line@[w]);
            assert(is_whitespace(line@[w]));
        } else if k >= end {
            let w = choose|w: int| k <= w < line@.len() && !is_whitespace(#[trigger] line@[w]);
            assert(is_whitespace(line@[w]));
        }
    }
    false
}

fn white(byte: u8) -> (r: bool)
    ensures
        r == is_whitespace(byte),
{
    byte == 32 || byte == 9 || byte == 10 || byte == 13 || byte == 11 || byte == 12
}

fn punctuation(byte: u8) -> (r: bool)
    ensures
        r == is_punctuation(byte),
{
    byte == 123 || byte == 125 || byte == 91 || byte == 93 || byte == 40 || byte == 41 || byte == 59
        || byte == 44 || byte == 58
}

/// For each number of leading lines, how many of them count as source.
pub fn line_counts(source: &[u8]) -> (counts: Vec<usize>)
    ensures
        counts@.len() == lines(source@).len() + 1,
        forall|n: int|
            0 <= n < counts@.len() ==> #[trigger] counts@[n] == source_count(lines(source@), n),
        forall|n: int, m: int| 0 <= n <= m < counts@.len() ==> counts@[n] <= counts@[m],
{
    let mut counts: Vec<usize> = Vec::new();
    counts.push(0);
    let mut at: usize = 0;
    let ghost all = lines(source@);
    assert(lines_from(source@, 0) =~= all.subrange(0, all.len() as int));
    while at < source.len()
        invariant
            at <= source@.len(),
            1 <= counts@.len() <= all.len() + 1,
            all == lines(source@),
            lines_from(source@, at as int) == all.subrange(
                counts@.len() - 1,
                all.len() as int,
            ),
            counts@.len() - 1 <= at,
            forall|n: int| 0 <= n < counts@.len() ==> #[trigger] counts@[n] == source_count(all, n),
            forall|n: int| 0 <= n < counts@.len() ==> #[trigger] counts@[n] <= n,
            forall|n: int, m: int| 0 <= n <= m < counts@.len() ==> counts@[n] <= counts@[m],
        decreases source@.len() - at,
    {
        let end: usize = find_break(source, at);
        let ghost rest = lines_from(source@, at as int);
        let ghost known = counts@.len() - 1;
        assert(rest.len() > 0);
        assert(rest[0] == all[known]);
        assert(rest[0] == source@.subrange(at as int, end as int));
        let last: usize = counts[counts.len() - 1];
        if source_line(slice_subrange(source, at, end)) {
            counts.push(last + 1);
        } else {
            counts.push(last);
        }
        assert(lines_from(source@, end + 1) == lines_from(source@, source@.len() as int) || end
            < source@.len());
        at = if end < source.len() {
            end + 1
        } else {
            end
        };
        assert(lines_from(source@, at as int) =~= rest.subrange(1, rest.len() as int));
        assert(all.subrange(known + 1, all.len() as int) =~= rest.subrange(1, rest.len() as int));
    }
    assert(all.subrange(counts@.len() - 1, all.len() as int).len() == 0);
    counts
}

/// The bytes with those of a range turned into spaces, line breaks excepted.
pub open spec fn blanked(s: Seq<u8>, start: int, end: int) -> Seq<u8> {
    Seq::new(
        s.len(),
        |b: int|
            if start <= b < end && s[b] != 10u8 && s[b] != 13u8 {
                32u8
            } else {
                s[b]
            },
    )
}

/// Turns the bytes of a range into spaces, line breaks excepted.
pub fn blank(bytes: &mut Vec<u8>, start: usize, end: usize)
    requires
        start <= end <= old(bytes)@.len(),
    ensures
        final(bytes)@ == blanked(old(bytes)@, start as int, end as int),
{
    let ghost before = bytes@;
    let mut i: usize = start;
    while i < end
        invariant
            start <= i <= end <= bytes@.len(),
            bytes@ == blanked(before, start as int, i as int),
        decreases end - i,
    {
        if bytes[i] != 10 && bytes[i] != 13 {
            bytes.set(i, 32);
        }
        i = i + 1;
        assert(bytes@ =~= blanked(before, start as int, i as int));
    }
    assert(bytes@ =~= blanked(before, start as int, end as int));
}

proof fn lemma_blanked_lines(s: Seq<u8>, start: int, end: int, at: int)
    requires
        0 <= at <= s.len(),
    ensures
        next_break(blanked(s, start, end), at) == next_break(s, at),
        lines_from(blanked(s, start, end), at).len() == lines_from(s, at).len(),
    decreases s.len() - at,
{
    let b = blanked(s, start, end);
    lemma_next_break(s, at);
    lemma_next_break(b, at);
    let p = next_break(s, at);
    let q = next_break(b, at);
    if p < q {
        assert(b[p] == 10u8);
    }
    if q < p {
        assert(s[q] == 10u8);
    }
    if at < s.len() && p < s.len() {
        lemma_blanked_lines(s, start, end, p + 1);
    } else if at < s.len() {
        assert(lines_from(s, p + 1).len() == 0);
        assert(lines_from(b, p + 1).len() == 0);
    }
}

/// Blanking bytes leaves the number of lines as it is.
pub proof fn blanking_keeps_lines(s: Seq<u8>, start: int, end: int)
    ensures
        lines(blanked(s, start, end)).len() == lines(s).len(),
{
    lemma_blanked_lines(s, start, end, 0);
}

} // verus!
