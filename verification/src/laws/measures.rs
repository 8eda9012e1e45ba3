//! What complexity and source lines count.

use vstd::prelude::*;

use crate::languages::lines::{
    blanked, is_source_line, lines, lines_from, next_break, source_count,
};
use crate::languages::regions::contained;
use crate::languages::syntax::{remaining, Syntax};
use crate::languages::tree::{
    callables_are_listed_in_order, clean_lines, complexity, decision_sum, diagnostics,
    diagnostics_at, end_line, functions, listed, live, measured, reported, visited, SyntaxRules,
};
use crate::metrics::RegionModel;

verus! {

/// The nodes stand in the order of the tree, each once.
pub open spec fn ascending(nodes: Seq<int>) -> bool {
    forall|a: int, b: int| 0 <= a < b < nodes.len() ==> #[trigger] nodes[a] < #[trigger] nodes[b]
}

/// The nodes from `a` up to `b` that are measured and decide.
pub open spec fn decides<R: SyntaxRules>(
    t: Syntax,
    regions: Seq<RegionModel>,
    a: int,
    b: int,
    k: int,
) -> bool {
    a <= k < b && live(t, regions, k) && R::decisions_spec(t, k) == 1
}

proof fn lemma_deciding<R: SyntaxRules>(
    t: Syntax,
    regions: Seq<RegionModel>,
    a: int,
    b: int,
) -> (nodes: Seq<int>)
    requires
        a <= b,
        forall|k: int| a <= k < b ==> #[trigger] R::decisions_spec(t, k) <= 1,
    ensures
        ascending(nodes),
        forall|k: int| #[trigger] nodes.contains(k) <==> decides::<R>(t, regions, a, b, k),
        decision_sum::<R>(t, regions, a, b) == nodes.len(),
    decreases b - a,
{
    if a == b {
        Seq::empty()
    } else {
        let before = lemma_deciding::<R>(t, regions, a, b - 1);
        assert(R::decisions_spec(t, b - 1) <= 1);
        if decides::<R>(t, regions, a, b, b - 1) {
            let nodes = before.push(b - 1);
            assert forall|k: int| #[trigger] nodes.contains(k) <==> decides::<R>(
                t,
                regions,
                a,
                b,
                k,
            ) by {
                assert(before.contains(k) <==> decides::<R>(t, regions, a, b - 1, k));
                if before.contains(k) {
                    let n = choose|n: int| 0 <= n < before.len() && before[n] == k;
                    assert(nodes[n] == k);
                }
                assert(nodes[before.len() as int] == b - 1);
            }
            assert forall|x: int, y: int| 0 <= x < y < nodes.len() implies #[trigger] nodes[x]
                < #[trigger] nodes[y] by {
                if y == before.len() {
                    assert(before.contains(before[x]));
                }
            }
            nodes
        } else {
            assert forall|k: int| #[trigger] before.contains(k) <==> decides::<R>(
                t,
                regions,
                a,
                b,
                k,
            ) by {
                assert(before.contains(k) <==> decides::<R>(t, regions, a, b - 1, k));
            }
            before
        }
    }
}

/// The complexity of a node is one more than the number of decisions in it: of the
/// measured nodes of its subtree, itself among them, each that decides counts once.
pub proof fn complexity_counts_decisions<R: SyntaxRules>(
    t: Syntax,
    regions: Seq<RegionModel>,
    i: int,
) -> (nodes: Seq<int>)
    requires
        t.wf(),
        0 <= i < t.len(),
        forall|k: int| i <= k < t.end(i) ==> #[trigger] R::decisions_spec(t, k) <= 1,
    ensures
        ascending(nodes),
        forall|k: int| #[trigger]
            nodes.contains(k) <==> i <= k < t.end(i) && live(t, regions, k) && R::decisions_spec(
                t,
                k,
            ) == 1,
        complexity::<R>(t, regions, i) == nodes.len() + 1,
{
    assert(t.end_at(i));
    let nodes = lemma_deciding::<R>(t, regions, i, t.end(i));
    assert forall|k: int| #[trigger] nodes.contains(k) <==> i <= k < t.end(i) && live(t, regions, k)
        && R::decisions_spec(t, k) == 1 by {
        assert(nodes.contains(k) <==> decides::<R>(t, regions, i, t.end(i), k));
    }
    nodes
}

/// Without regions everything is measured. A node in a region is not, nor is anything
/// below a node that is not.
pub proof fn measured_nodes(t: Syntax, regions: Seq<RegionModel>, i: int, r: int)
    requires
        t.wf(),
        0 <= i < t.len(),
    ensures
        regions.len() == 0 ==> live(t, regions, i),
        0 <= r < regions.len() && regions[r].start_byte <= t.nodes[i].start_byte
            && t.nodes[i].end_byte <= regions[r].end_byte ==> !live(t, regions, i),
        i > 0 && !live(t, regions, t.parent(i)) ==> !live(t, regions, i),
        live(t, regions, i) <==> (i == 0 || live(t, regions, t.parent(i))) && forall|k: int|
            0 <= k < regions.len() ==> !((#[trigger] regions[k]).start_byte
                <= t.nodes[i].start_byte && t.nodes[i].end_byte <= regions[k].end_byte),
    decreases i,
{
    if i > 0 {
        assert(t.parent_at(i));
        measured_nodes(t, regions, t.parent(i), r);
    }
    if 0 <= r < regions.len() && regions[r].start_byte <= t.nodes[i].start_byte
        && t.nodes[i].end_byte <= regions[r].end_byte {
        assert(contained(t, regions, i));
    }
}

/// A byte that is white: space, tab, line feed, vertical tab, form feed, carriage return.
pub open spec fn white(b: u8) -> bool {
    seq![' ' as u8, '\t' as u8, '\n' as u8, 11u8, 12u8, '\r' as u8].contains(b)
}

/// A byte that alone makes no source: a bracket of any kind, semicolon, comma, colon.
pub open spec fn bracket_or_separator(b: u8) -> bool {
    seq![
        '{' as u8,
        '}' as u8,
        '[' as u8,
        ']' as u8,
        '(' as u8,
        ')' as u8,
        ';' as u8,
        ',' as u8,
        ':' as u8,
    ].contains(b)
}

/// A line is source exactly where, between its first and its last byte that are not
/// white, something stands that is neither a bracket nor a separator.
pub proof fn source_lines_say_something(line: Seq<u8>)
    ensures
        is_source_line(line) <==> exists|a: int, b: int, c: int|
            0 <= a <= b <= c < line.len() && !white(#[trigger] line[a])
                && !bracket_or_separator(#[trigger] line[b]) && !white(#[trigger] line[c]),
        (forall|k: int| 0 <= k < line.len() ==> white(#[trigger] line[k])) ==> !is_source_line(
            line,
        ),
        (forall|k: int| 0 <= k < line.len() ==> bracket_or_separator(#[trigger] line[k]))
            ==> !is_source_line(line),
        (exists|k: int|
            0 <= k < line.len() && !white(#[trigger] line[k]) && !bracket_or_separator(line[k]))
            ==> is_source_line(line),
{
    let whites = seq![' ' as u8, '\t' as u8, '\n' as u8, 11u8, 12u8, '\r' as u8];
    let marks = seq![
        '{' as u8,
        '}' as u8,
        '[' as u8,
        ']' as u8,
        '(' as u8,
        ')' as u8,
        ';' as u8,
        ',' as u8,
        ':' as u8,
    ];
    assert(whites[0] == 32 && whites[1] == 9 && whites[2] == 10 && whites[3] == 11 && whites[4]
        == 12 && whites[5] == 13);
    assert(marks[0] == 123 && marks[1] == 125 && marks[2] == 91 && marks[3] == 93 && marks[4] == 40
        && marks[5] == 41 && marks[6] == 59 && marks[7] == 44 && marks[8] == 58);
    assert forall|b: u8| #[trigger] white(b) == crate::languages::lines::is_whitespace(b) by {}
    assert forall|b: u8| #[trigger] bracket_or_separator(b)
        == crate::languages::lines::is_punctuation(b) by {}
    if is_source_line(line) {
        let b = choose|b: int|
            0 <= b < line.len() && #[trigger] crate::languages::lines::inside_text(line, b)
                && !crate::languages::lines::is_punctuation(line[b]);
        let a = choose|a: int|
            0 <= a <= b && !crate::languages::lines::is_whitespace(#[trigger] line[a]);
        let c = choose|c: int|
            b <= c < line.len() && !crate::languages::lines::is_whitespace(#[trigger] line[c]);
        assert(0 <= a <= b <= c < line.len() && !white(line[a]) && !bracket_or_separator(line[b])
            && !white(line[c]));
    }
    if exists|a: int, b: int, c: int|
        0 <= a <= b <= c < line.len() && !white(#[trigger] line[a]) && !bracket_or_separator(
            #[trigger] line[b],
        ) && !white(#[trigger] line[c]) {
        let (a, b, c) = choose|a: int, b: int, c: int|
            0 <= a <= b <= c < line.len() && !white(#[trigger] line[a]) && !bracket_or_separator(
                #[trigger] line[b],
            ) && !white(#[trigger] line[c]);
        assert(!crate::languages::lines::is_whitespace(line[a]));
        assert(!crate::languages::lines::is_whitespace(line[c]));
        assert(crate::languages::lines::inside_text(line, b));
    }
    if exists|k: int|
        0 <= k < line.len() && !white(#[trigger] line[k]) && !bracket_or_separator(line[k]) {
        let k = choose|k: int|
            0 <= k < line.len() && !white(#[trigger] line[k]) && !bracket_or_separator(line[k]);
        assert(!crate::languages::lines::is_whitespace(line[k]));
        assert(crate::languages::lines::inside_text(line, k));
    }
}

proof fn lemma_break(s: Seq<u8>, at: int, n: int)
    requires
        0 <= at <= n <= s.len(),
        forall|k: int| at <= k < n ==> s[k] != 10u8,
        n < s.len() ==> s[n] == 10u8,
    ensures
        next_break(s, at) == n,
    decreases n - at,
{
    if at < n {
        lemma_break(s, at + 1, n);
    }
}

proof fn lemma_break_behind(s: Seq<u8>, b: Seq<u8>, m: int, at: int)
    requires
        0 <= at <= b.len(),
        s.len() == m + b.len(),
        0 <= m,
        forall|k: int| 0 <= k < b.len() ==> #[trigger] b[k] == s[m + k],
    ensures
        next_break(s, m + at) == m + next_break(b, at),
        at <= next_break(b, at) <= b.len(),
    decreases b.len() - at,
{
    if at < b.len() {
        assert(b[at] == s[m + at]);
        lemma_break_behind(s, b, m, at + 1);
    }
}

proof fn lemma_lines_behind(s: Seq<u8>, b: Seq<u8>, m: int, at: int)
    requires
        0 <= at,
        s.len() == m + b.len(),
        0 <= m,
        forall|k: int| 0 <= k < b.len() ==> #[trigger] b[k] == s[m + k],
    ensures
        lines_from(s, m + at) == lines_from(b, at),
    decreases remaining(at, b.len() as int),
{
    if at < b.len() {
        lemma_break_behind(s, b, m, at);
        let e = next_break(b, at);
        assert(s.subrange(m + at, m + e) =~= b.subrange(at, e));
        lemma_lines_behind(s, b, m, e + 1);
    }
}

/// Lines end at line feeds: a text up to its first line feed is a line, and the lines
/// behind it follow. A text without one is a single line, and an empty text has none.
pub proof fn lines_end_at_line_feeds(a: Seq<u8>, b: Seq<u8>)
    requires
        forall|k: int| 0 <= k < a.len() ==> #[trigger] a[k] != '\n' as u8,
    ensures
        lines(Seq::<u8>::empty()).len() == 0,
        a.len() > 0 ==> lines(a) == seq![a],
        lines(a + seq!['\n' as u8] + b) == seq![a] + lines(b),
{
    assert('\n' as u8 == 10u8);
    let s = a + seq![10u8] + b;
    let m = a.len() + 1;
    lemma_break(s, 0, a.len() as int);
    assert forall|k: int| 0 <= k < b.len() implies #[trigger] b[k] == s[m + k] by {}
    lemma_lines_behind(s, b, m as int, 0);
    assert(s.subrange(0, a.len() as int) =~= a);
    lemma_break(a, 0, a.len() as int);
    assert(a.subrange(0, a.len() as int) =~= a);
    if a.len() > 0 {
        assert(lines_from(a, (a.len() + 1) as int) =~= Seq::<Seq<u8>>::empty());
        assert(lines(a) =~= seq![a]);
    }
}

/// The source lines of a text are counted line by line.
pub proof fn every_source_line_counts_once(list: Seq<Seq<u8>>, line: Seq<u8>)
    ensures
        source_count(list.push(line), (list.len() + 1) as int) == source_count(list, list.len() as int)
            + if is_source_line(line) {
            1int
        } else {
            0
        },
        source_count(Seq::empty(), 0) == 0,
{
    lemma_count_prefix(list.push(line), list, list.len() as int);
}

proof fn lemma_count_prefix(a: Seq<Seq<u8>>, b: Seq<Seq<u8>>, n: int)
    requires
        0 <= n <= a.len(),
        n <= b.len(),
        forall|k: int| 0 <= k < n ==> #[trigger] a[k] == b[k],
    ensures
        source_count(a, n) == source_count(b, n),
    decreases n,
{
    if n > 0 {
        lemma_count_prefix(a, b, n - 1);
        assert(a[n - 1] == b[n - 1]);
    }
}

/// What is left out is overwritten with spaces; line ends and everything else stay.
pub proof fn left_out_text_is_blank(s: Seq<u8>, start: int, end: int, k: int)
    requires
        0 <= k < s.len(),
    ensures
        blanked(s, start, end).len() == s.len(),
        k < start || end <= k ==> blanked(s, start, end)[k] == s[k],
        s[k] == '\n' as u8 || s[k] == '\r' as u8 ==> blanked(s, start, end)[k] == s[k],
        start <= k < end && s[k] != '\n' as u8 && s[k] != '\r' as u8 ==> blanked(s, start, end)[k]
            == ' ' as u8,
{
    assert('\n' as u8 == 10u8 && '\r' as u8 == 13u8 && ' ' as u8 == 32u8);
}

proof fn lemma_count_between(list: Seq<Seq<u8>>, a: int, b: int)
    requires
        0 <= a <= b,
    ensures
        0 <= source_count(list, b) - source_count(list, a) <= b - a,
    decreases b - a,
{
    if a < b {
        lemma_count_between(list, a, b - 1);
    }
}

/// Each callable that is listed is a measured callable of the tree, with its own name,
/// its own lines, its complexity, and the source lines among its lines. Each measured
/// callable with source lines is listed.
pub proof fn listed_callables<R: SyntaxRules>(t: Syntax, regions: Seq<RegionModel>, k: int)
    requires
        t.wf(),
        t.source.len() <= usize::MAX,
        measured::<R>(t, regions) is Ok,
        0 <= k < measured::<R>(t, regions)->Ok_0.functions.len(),
    ensures
        ({
            let f = measured::<R>(t, regions)->Ok_0.functions[k];
            let clean = clean_lines::<R>(t, regions);
            exists|i: int|
                0 <= i < t.len() && #[trigger] R::callable_spec(t, i) && live(t, regions, i) && {
                    let node = t.nodes[i];
                    &&& f.name == R::name_spec(t, i)
                    &&& f.start_line == node.start_row + 1
                    &&& f.end_line == if node.end_column == 0 && node.end_row > 0 {
                        node.end_row as int
                    } else {
                        node.end_row + 1
                    }
                    &&& f.complexity == complexity::<R>(t, regions, i) as u64
                    &&& f.source_lines == source_count(clean, f.end_line as int) - source_count(
                        clean,
                        f.start_line - 1,
                    )
                }
        }),
{
    let clean = clean_lines::<R>(t, regions);
    let all = listed::<R>(t, regions, clean, t.len());
    let i = all[k];
    callables_are_listed_in_order::<R>(t, regions);
    crate::languages::tree::cleaning_keeps_lines::<R>(t, regions);
    crate::languages::tree::callables_lie_in_the_file::<R>(t, regions, k);
    assert(all.contains(i));
    assert(reported::<R>(t, regions, clean, i));
    assert(crate::languages::syntax::node_placed(
        t.nodes[i],
        t.source.len() as int,
        lines(t.source).len() as int,
    ));
    lemma_count_between(clean, t.nodes[i].start_row as int, end_line(t, i));
    assert(R::callable_spec(t, i));
}

proof fn lemma_diagnosed<R: SyntaxRules>(t: Syntax, regions: Seq<RegionModel>, n: int)
    requires
        0 <= n,
    ensures
        diagnostics::<R>(t, regions, n).len() > 0 <==> exists|i: int|
            0 <= i < n && #[trigger] visited(t, regions, i) && (t.nodes[i].missing
                || t.nodes[i].error || R::validation_error_spec(t, i) is Some),
    decreases n,
{
    if n > 0 {
        lemma_diagnosed::<R>(t, regions, n - 1);
        let here = diagnostics_at::<R>(t, n - 1);
        assert(here.len() > 0 <==> t.nodes[n - 1].missing || t.nodes[n - 1].error
            || R::validation_error_spec(t, n - 1) is Some);
        if diagnostics::<R>(t, regions, n).len() > 0 {
            if visited(t, regions, n - 1) && here.len() > 0 {
                assert(visited(t, regions, n - 1));
            } else {
                let i = choose|i: int|
                    0 <= i < n - 1 && #[trigger] visited(t, regions, i) && (t.nodes[i].missing
                        || t.nodes[i].error || R::validation_error_spec(t, i) is Some);
                assert(visited(t, regions, i));
            }
        }
        if exists|i: int|
            0 <= i < n && #[trigger] visited(t, regions, i) && (t.nodes[i].missing
                || t.nodes[i].error || R::validation_error_spec(t, i) is Some) {
            let i = choose|i: int|
                0 <= i < n && #[trigger] visited(t, regions, i) && (t.nodes[i].missing
                    || t.nodes[i].error || R::validation_error_spec(t, i) is Some);
            if i < n - 1 {
                assert(visited(t, regions, i));
            }
        }
    }
}

/// A source has diagnostics exactly where some node is missing, is an error, or is
/// forbidden by the language; it then has no callables and no source lines.
pub proof fn invalid_sources_are_not_measured<R: SyntaxRules>(t: Syntax)
    requires
        t.wf(),
        measured::<R>(t, Seq::empty()) is Ok,
    ensures
        ({
            let found = measured::<R>(t, Seq::empty())->Ok_0;
            &&& found.diagnostics.len() > 0 <==> exists|i: int|
                0 <= i < t.len() && ((#[trigger] t.nodes[i]).missing || t.nodes[i].error
                    || R::validation_error_spec(t, i) is Some)
            &&& found.diagnostics.len() > 0 ==> found.functions.len() == 0 && found.source_lines
                == 0
            &&& found.diagnostics.len() == 0 ==> !t.nodes[0].has_error
            &&& found.without_tests is None
        }),
{
    let none = Seq::<RegionModel>::empty();
    lemma_diagnosed::<R>(t, none, t.len());
    assert forall|i: int| 0 <= i < t.len() implies #[trigger] visited(t, none, i) by {
        if i > 0 {
            assert(t.parent_at(i));
            measured_nodes(t, none, t.parent(i), 0);
        }
    }
    if exists|i: int|
        0 <= i < t.len() && ((#[trigger] t.nodes[i]).missing || t.nodes[i].error
            || R::validation_error_spec(t, i) is Some) {
        let i = choose|i: int|
            0 <= i < t.len() && ((#[trigger] t.nodes[i]).missing || t.nodes[i].error
                || R::validation_error_spec(t, i) is Some);
        assert(visited(t, none, i));
    }
}

} // verus!
