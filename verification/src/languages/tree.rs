//! The analysis that every language shares: callables with their complexity and
//! source lines, with and without the regions that hold test code.

use tree_sitter::Language as Grammar;
use vstd::prelude::*;
use vstd::slice::*;
use vstd::string::*;
use vstd::utf8::*;

use super::lines::{
    blank, blanked, lemma_lines_bound, line_counts, lines, physical_lines, source_count,
};
use super::regions::{
    contained, disjoint, is_contained, normalize_regions, normalized, normalized_regions,
    region_fits, regions_fit,
};
use super::syntax::{
    final_line, grammar_label, linked, links_are_unique, node_placed, tree_of, Syntax, SyntaxTree,
    TreeError, POSITION_LIMIT,
};
use crate::metrics::{
    diagnostic_models, function_models, region_models, AnalysisModel, DiagnosticModel,
    FileAnalysis, FilteredModel, FunctionMetrics, FunctionModel, ParseDiagnostic, RegionModel,
    TestFilteredAnalysis, TestRegion,
};
use crate::sort::{
    in_order, insert_sorted, lemma_insert_at, lemma_insert_in_order, lemma_insert_multiset,
    strict_order,
};
use crate::text::{utf8_complaint, utf8_failure, valid_up_to};

verus! {

/// What a language says of the nodes of its trees.
pub trait SyntaxRules {
    /// The node is a callable with a body.
    spec fn callable_spec(t: Syntax, i: int) -> bool;

    /// How many decisions the node itself adds.
    spec fn decisions_spec(t: Syntax, i: int) -> u64;

    /// The name that a callable is reported under.
    spec fn name_spec(t: Syntax, i: int) -> Seq<char>;

    /// The node's text is no source, as a comment's is not.
    spec fn ignored_spec(t: Syntax, i: int) -> bool;

    /// What the language forbids of a node that its grammar accepts.
    spec fn validation_error_spec(t: Syntax, i: int) -> Option<Seq<char>>;

    /// The regions that hold test code, in any order.
    spec fn test_regions_spec(t: Syntax) -> Seq<RegionModel>;

    fn callable(tree: &SyntaxTree, i: usize) -> (r: bool)
        requires
            tree.wf(),
            i < tree@.len(),
        ensures
            r == Self::callable_spec(tree@, i as int),
    ;

    fn decisions(tree: &SyntaxTree, i: usize) -> (count: u64)
        requires
            tree.wf(),
            i < tree@.len(),
        ensures
            count == Self::decisions_spec(tree@, i as int),
            count <= 0xffff_ffff,
    ;

    fn name(tree: &SyntaxTree, i: usize) -> (name: String)
        requires
            tree.wf(),
            i < tree@.len(),
        ensures
            name@ == Self::name_spec(tree@, i as int),
    ;

    fn ignored(tree: &SyntaxTree, i: usize) -> (r: bool)
        requires
            tree.wf(),
            i < tree@.len(),
        ensures
            r == Self::ignored_spec(tree@, i as int),
    ;

    fn validation_error(tree: &SyntaxTree, i: usize) -> (message: Option<&'static str>)
        requires
            tree.wf(),
            i < tree@.len(),
        ensures
            message is Some <==> Self::validation_error_spec(tree@, i as int) is Some,
            message is Some ==> Self::validation_error_spec(tree@, i as int) == Some(message->0@),
    ;

    fn test_regions(tree: &SyntaxTree) -> (regions: Vec<TestRegion>)
        requires
            tree.wf(),
        ensures
            region_models(regions@) == Self::test_regions_spec(tree@),
    ;
}

/// Why a source could not be analyzed at all.
#[derive(Clone, Copy, Debug, PartialEq, Eq, Structural)]
pub enum AnalysisError {
    /// The parser stopped without a tree.
    Cancelled,
    /// The parser's nodes do not form a tree over the source.
    Malformed,
    /// The parser reports an error that no node accounts for.
    Unexplained,
    /// A test region is empty or reaches beyond the source.
    InvalidRegion,
    /// Leaving out test code made the source invalid.
    ChangedValidation,
    /// Leaving out test code added source lines or callables.
    Increased,
}

impl AnalysisError {
    pub open spec fn text(self) -> Seq<char> {
        match self {
            AnalysisError::Cancelled => "Parser cancelled without a tree"@,
            AnalysisError::Malformed => "Parser returned a malformed tree"@,
            AnalysisError::Unexplained => "Parser returned an unexplained syntax error"@,
            AnalysisError::InvalidRegion => "Invalid language test region"@,
            AnalysisError::ChangedValidation => "Test filtering changed syntax validation"@,
            AnalysisError::Increased =>
                "Test filtering increased measured source or function counts"@,
        }
    }

    /// What to tell the user.
    pub fn message(&self) -> (message: &'static str)
        ensures
            message@ == self.text(),
    {
        match self {
            AnalysisError::Cancelled => "Parser cancelled without a tree",
            AnalysisError::Malformed => "Parser returned a malformed tree",
            AnalysisError::Unexplained => "Parser returned an unexplained syntax error",
            AnalysisError::InvalidRegion => "Invalid language test region",
            AnalysisError::ChangedValidation => "Test filtering changed syntax validation",
            AnalysisError::Increased =>
                "Test filtering increased measured source or function counts",
        }
    }
}

/// The first line of a node, counted from one.
pub open spec fn start_line(t: Syntax, i: int) -> int {
    t.nodes[i].start_row + 1
}

/// The last line of a node, counted from one.
pub open spec fn end_line(t: Syntax, i: int) -> int {
    final_line(t.nodes[i])
}

/// The node is measured: neither it nor a node around it lies in a region.
pub open spec fn live(t: Syntax, regions: Seq<RegionModel>, i: int) -> bool
    decreases i,
{
    &&& !contained(t, regions, i)
    &&& 0 < i ==> t.parent(i) < i && live(t, regions, t.parent(i))
}

/// The node is looked at: no node around it lies in a region.
pub open spec fn visited(t: Syntax, regions: Seq<RegionModel>, i: int) -> bool {
    0 < i ==> live(t, regions, t.parent(i))
}

/// The decisions of the measured nodes from `a` up to `b`.
pub open spec fn decision_sum<R: SyntaxRules>(
    t: Syntax,
    regions: Seq<RegionModel>,
    a: int,
    b: int,
) -> int
    decreases b - a,
{
    if b <= a {
        0
    } else {
        decision_sum::<R>(t, regions, a, b - 1) + if live(t, regions, b - 1) {
            R::decisions_spec(t, b - 1) as int
        } else {
            0
        }
    }
}

/// One more than the decisions in a callable, those of nested callables among
/// them.
pub open spec fn complexity<R: SyntaxRules>(t: Syntax, regions: Seq<RegionModel>, i: int) -> int {
    1 + decision_sum::<R>(t, regions, i, t.end(i))
}

/// The source with the regions blanked.
pub open spec fn without_regions(source: Seq<u8>, regions: Seq<RegionModel>, n: int) -> Seq<u8>
    decreases n,
{
    if n <= 0 {
        source
    } else {
        blanked(
            without_regions(source, regions, n - 1),
            regions[n - 1].start_byte as int,
            regions[n - 1].end_byte as int,
        )
    }
}

/// The source with the regions and the ignored ones of the first `n` nodes
/// blanked.
pub open spec fn cleaned<R: SyntaxRules>(t: Syntax, regions: Seq<RegionModel>, n: int) -> Seq<u8>
    decreases n,
{
    if n <= 0 {
        without_regions(t.source, regions, regions.len() as int)
    } else if live(t, regions, n - 1) && R::ignored_spec(t, n - 1) {
        blanked(
            cleaned::<R>(t, regions, n - 1),
            t.nodes[n - 1].start_byte as int,
            t.nodes[n - 1].end_byte as int,
        )
    } else {
        cleaned::<R>(t, regions, n - 1)
    }
}

/// The lines that source lines are counted in.
pub open spec fn clean_lines<R: SyntaxRules>(t: Syntax, regions: Seq<RegionModel>) -> Seq<Seq<u8>> {
    lines(cleaned::<R>(t, regions, t.len()))
}

/// What is wrong with one node.
pub open spec fn diagnostics_at<R: SyntaxRules>(t: Syntax, i: int) -> Seq<DiagnosticModel> {
    let node = t.nodes[i];
    let line = (node.start_row + 1) as usize;
    let column = (node.start_column + 1) as usize;
    let found = if node.missing {
        seq![DiagnosticModel { line, column, message: "Missing "@ + node.kind@ }]
    } else if node.error {
        seq![DiagnosticModel { line, column, message: "Unrecognized syntax"@ }]
    } else {
        Seq::empty()
    };
    match R::validation_error_spec(t, i) {
        Some(message) => found.push(DiagnosticModel { line, column, message }),
        None => found,
    }
}

/// What is wrong with the first `n` nodes, as far as they are looked at.
pub open spec fn diagnostics<R: SyntaxRules>(t: Syntax, regions: Seq<RegionModel>, n: int) -> Seq<
    DiagnosticModel,
>
    decreases n,
{
    if n <= 0 {
        Seq::empty()
    } else if visited(t, regions, n - 1) {
        diagnostics::<R>(t, regions, n - 1) + diagnostics_at::<R>(t, n - 1)
    } else {
        diagnostics::<R>(t, regions, n - 1)
    }
}

pub open spec fn least(a: int, b: int) -> int {
    if a < b {
        a
    } else {
        b
    }
}

/// The source lines from the first line of a node to its last one.
pub open spec fn node_source_lines(t: Syntax, clean: Seq<Seq<u8>>, i: int) -> int {
    let from = least(start_line(t, i) - 1, clean.len() as int);
    let to = least(end_line(t, i), clean.len() as int);
    if from <= to {
        source_count(clean, to) - source_count(clean, from)
    } else {
        0
    }
}

/// The node is a callable that is reported: measured, and with source lines.
pub open spec fn reported<R: SyntaxRules>(
    t: Syntax,
    regions: Seq<RegionModel>,
    clean: Seq<Seq<u8>>,
    i: int,
) -> bool {
    live(t, regions, i) && R::callable_spec(t, i) && node_source_lines(t, clean, i) != 0
}

/// Callables stand by their lines; on the same lines an inner one stands before
/// the one around it and an earlier one before a later one.
pub open spec fn node_before(t: Syntax, a: int, b: int) -> bool {
    ||| start_line(t, a) < start_line(t, b)
    ||| start_line(t, a) == start_line(t, b) && end_line(t, a) < end_line(t, b)
    ||| start_line(t, a) == start_line(t, b) && end_line(t, a) == end_line(t, b) && t.end(a)
        < t.end(b)
    ||| start_line(t, a) == start_line(t, b) && end_line(t, a) == end_line(t, b) && t.end(a)
        == t.end(b) && a > b
}

pub open spec fn node_order(t: Syntax) -> spec_fn(int, int) -> bool {
    |a: int, b: int| node_before(t, a, b)
}

/// The reported ones of the first `n` nodes, in order.
pub open spec fn listed<R: SyntaxRules>(
    t: Syntax,
    regions: Seq<RegionModel>,
    clean: Seq<Seq<u8>>,
    n: int,
) -> Seq<int>
    decreases n,
{
    if n <= 0 {
        Seq::empty()
    } else if reported::<R>(t, regions, clean, n - 1) {
        insert_sorted(listed::<R>(t, regions, clean, n - 1), n - 1, node_order(t))
    } else {
        listed::<R>(t, regions, clean, n - 1)
    }
}

/// What is reported of a callable.
pub open spec fn function_at<R: SyntaxRules>(
    t: Syntax,
    regions: Seq<RegionModel>,
    clean: Seq<Seq<u8>>,
    i: int,
) -> FunctionModel {
    FunctionModel {
        name: R::name_spec(t, i),
        start_line: start_line(t, i) as usize,
        end_line: end_line(t, i) as usize,
        complexity: complexity::<R>(t, regions, i) as u64,
        source_lines: node_source_lines(t, clean, i) as usize,
    }
}

/// The reported callables.
pub open spec fn functions<R: SyntaxRules>(
    t: Syntax,
    regions: Seq<RegionModel>,
    clean: Seq<Seq<u8>>,
) -> Seq<FunctionModel> {
    listed::<R>(t, regions, clean, t.len()).map_values(
        |i: int| function_at::<R>(t, regions, clean, i),
    )
}

/// The measurements of a tree outside the given regions. A source that is not
/// valid has diagnostics in place of callables.
pub open spec fn measured<R: SyntaxRules>(t: Syntax, regions: Seq<RegionModel>) -> Result<
    AnalysisModel,
    AnalysisError,
> {
    let found = diagnostics::<R>(t, regions, t.len());
    let clean = clean_lines::<R>(t, regions);
    let physical_lines = lines(t.source).len() as usize;
    if found.len() > 0 {
        Ok(
            AnalysisModel {
                physical_lines,
                source_lines: 0,
                functions: Seq::empty(),
                diagnostics: found,
                without_tests: None,
            },
        )
    } else if t.nodes[0].has_error {
        Err(AnalysisError::Unexplained)
    } else {
        Ok(
            AnalysisModel {
                physical_lines,
                source_lines: source_count(clean, clean.len() as int) as usize,
                functions: functions::<R>(t, regions, clean),
                diagnostics: Seq::empty(),
                without_tests: None,
            },
        )
    }
}

proof fn lemma_sum_split<R: SyntaxRules>(
    t: Syntax,
    regions: Seq<RegionModel>,
    a: int,
    b: int,
    c: int,
)
    requires
        a <= b <= c,
    ensures
        decision_sum::<R>(t, regions, a, c) == decision_sum::<R>(t, regions, a, b) + decision_sum::<
            R,
        >(t, regions, b, c),
    decreases c - b,
{
    if b < c {
        lemma_sum_split::<R>(t, regions, a, b, c - 1);
    }
}

proof fn lemma_regions_keep_lines(source: Seq<u8>, regions: Seq<RegionModel>, n: int)
    ensures
        lines(without_regions(source, regions, n)).len() == lines(source).len(),
        without_regions(source, regions, n).len() == source.len(),
    decreases n,
{
    if n > 0 {
        lemma_regions_keep_lines(source, regions, n - 1);
        super::lines::blanking_keeps_lines(
            without_regions(source, regions, n - 1),
            regions[n - 1].start_byte as int,
            regions[n - 1].end_byte as int,
        );
    }
}

proof fn lemma_cleaned_keeps_lines<R: SyntaxRules>(t: Syntax, regions: Seq<RegionModel>, n: int)
    ensures
        lines(cleaned::<R>(t, regions, n)).len() == lines(t.source).len(),
        cleaned::<R>(t, regions, n).len() == t.source.len(),
    decreases n,
{
    lemma_regions_keep_lines(t.source, regions, regions.len() as int);
    if n > 0 {
        lemma_cleaned_keeps_lines::<R>(t, regions, n - 1);
        super::lines::blanking_keeps_lines(
            cleaned::<R>(t, regions, n - 1),
            t.nodes[n - 1].start_byte as int,
            t.nodes[n - 1].end_byte as int,
        );
    }
}

/// Leaving out regions and comments leaves the number of lines as it is.
pub proof fn cleaning_keeps_lines<R: SyntaxRules>(t: Syntax, regions: Seq<RegionModel>)
    ensures
        clean_lines::<R>(t, regions).len() == lines(t.source).len(),
{
    lemma_cleaned_keeps_lines::<R>(t, regions, t.len());
}

/// The region that a node spans.
pub open spec fn region_at(t: Syntax, i: int, reason: Seq<char>) -> RegionModel {
    RegionModel {
        start_byte: t.nodes[i].start_byte,
        end_byte: t.nodes[i].end_byte,
        start_line: start_line(t, i) as usize,
        end_line: end_line(t, i) as usize,
        reason,
    }
}

/// The region that a node spans.
pub fn test_region(tree: &SyntaxTree, i: usize, reason: &str) -> (region: TestRegion)
    requires
        tree.wf(),
        i < tree@.len(),
    ensures
        region@ == region_at(tree@, i as int, reason@),
{
    TestRegion {
        start_byte: tree.nodes[i].start_byte,
        end_byte: tree.nodes[i].end_byte,
        start_line: first_line(tree, i),
        end_line: last_line(tree, i),
        reason: reason.to_owned(),
    }
}

/// Which nodes are measured.
fn live_nodes(tree: &SyntaxTree, regions: &Vec<TestRegion>) -> (flags: Vec<bool>)
    requires
        tree.wf(),
        disjoint(region_models(regions@)),
        regions_fit(region_models(regions@), tree@.source.len() as int),
    ensures
        flags@.len() == tree@.len(),
        forall|i: int|
            0 <= i < flags@.len() ==> #[trigger] flags@[i] == live(
                tree@,
                region_models(regions@),
                i,
            ),
{
    let ghost models = region_models(regions@);
    let mut flags: Vec<bool> = Vec::new();
    let mut i: usize = 0;
    while i < tree.nodes.len()
        invariant
            tree.wf(),
            models == region_models(regions@),
            disjoint(models),
            regions_fit(models, tree@.source.len() as int),
            i <= tree@.len(),
            flags@.len() == i,
            forall|k: int| 0 <= k < i ==> #[trigger] flags@[k] == live(tree@, models, k),
        decreases tree@.len() - i,
    {
        let inside: bool = is_contained(tree, regions, i);
        if i == 0 {
            flags.push(!inside);
        } else {
            assert(tree@.parent_at(i as int));
            let around: bool = flags[tree.parents[i]];
            flags.push(!inside && around);
        }
        i = i + 1;
    }
    flags
}

/// For each node, the decisions of the measured nodes before it.
fn decision_counts<R: SyntaxRules>(
    tree: &SyntaxTree,
    flags: &Vec<bool>,
    Ghost(regions): Ghost<Seq<RegionModel>>,
) -> (sums: Vec<u64>)
    requires
        tree.wf(),
        flags@.len() == tree@.len(),
        forall|i: int| 0 <= i < flags@.len() ==> #[trigger] flags@[i] == live(tree@, regions, i),
    ensures
        sums@.len() == tree@.len() + 1,
        forall|i: int|
            0 <= i < sums@.len() ==> #[trigger] sums@[i] == decision_sum::<R>(tree@, regions, 0, i),
        forall|i: int|
            0 <= i < sums@.len() ==> #[trigger] sums@[i] <= 0xffff_ffff * tree@.len(),
{
    let mut sums: Vec<u64> = Vec::new();
    sums.push(0);
    let mut total: u64 = 0;
    let mut i: usize = 0;
    while i < tree.nodes.len()
        invariant
            tree.wf(),
            flags@.len() == tree@.len(),
            forall|k: int| 0 <= k < flags@.len() ==> #[trigger] flags@[k] == live(tree@, regions, k),
            i <= tree@.len() <= POSITION_LIMIT,
            sums@.len() == i + 1,
            total == decision_sum::<R>(tree@, regions, 0, i as int),
            total <= 0xffff_ffff * i,
            forall|k: int|
                0 <= k <= i ==> #[trigger] sums@[k] == decision_sum::<R>(tree@, regions, 0, k),
            forall|k: int| 0 <= k <= i ==> #[trigger] sums@[k] <= 0xffff_ffff * tree@.len(),
        decreases tree@.len() - i,
    {
        if flags[i] {
            total = total + R::decisions(tree, i);
        }
        sums.push(total);
        i = i + 1;
    }
    sums
}

/// The source with the regions and the ignored nodes blanked.
fn clean_source<R: SyntaxRules>(
    tree: &SyntaxTree,
    regions: &Vec<TestRegion>,
    flags: &Vec<bool>,
) -> (bytes: Vec<u8>)
    requires
        tree.wf(),
        regions_fit(region_models(regions@), tree@.source.len() as int),
        flags@.len() == tree@.len(),
        forall|i: int|
            0 <= i < flags@.len() ==> #[trigger] flags@[i] == live(
                tree@,
                region_models(regions@),
                i,
            ),
    ensures
        bytes@ == cleaned::<R>(tree@, region_models(regions@), tree@.len()),
{
    let ghost models = region_models(regions@);
    let mut bytes: Vec<u8> = slice_to_vec(tree.source.as_slice());
    let mut k: usize = 0;
    while k < regions.len()
        invariant
            models == region_models(regions@),
            regions_fit(models, tree@.source.len() as int),
            k <= regions@.len(),
            bytes@ == without_regions(tree@.source, models, k as int),
            bytes@.len() == tree@.source.len(),
        decreases regions@.len() - k,
    {
        assert(region_fits(models[k as int], tree@.source.len() as int));
        blank(&mut bytes, regions[k].start_byte, regions[k].end_byte);
        k = k + 1;
    }
    let mut i: usize = 0;
    while i < tree.nodes.len()
        invariant
            tree.wf(),
            models == region_models(regions@),
            flags@.len() == tree@.len(),
            forall|k: int| 0 <= k < flags@.len() ==> #[trigger] flags@[k] == live(tree@, models, k),
            i <= tree@.len(),
            bytes@ == cleaned::<R>(tree@, models, i as int),
            bytes@.len() == tree@.source.len(),
        decreases tree@.len() - i,
    {
        if flags[i] && R::ignored(tree, i) {
            blank(&mut bytes, tree.nodes[i].start_byte, tree.nodes[i].end_byte);
        }
        i = i + 1;
    }
    bytes
}

/// Adds what is wrong with one node.
fn diagnose<R: SyntaxRules>(tree: &SyntaxTree, i: usize, found: &mut Vec<ParseDiagnostic>)
    requires
        tree.wf(),
        i < tree@.len(),
    ensures
        diagnostic_models(final(found)@) == diagnostic_models(old(found)@) + diagnostics_at::<R>(
            tree@,
            i as int,
        ),
{
    let ghost before = found@;
    let node = &tree.nodes[i];
    let line: usize = node.start_row + 1;
    let column: usize = node.start_column + 1;
    if node.missing {
        let mut message = "Missing ".to_owned();
        message.append(node.kind);
        found.push(ParseDiagnostic { line, column, message });
    } else if node.error {
        found.push(ParseDiagnostic { line, column, message: "Unrecognized syntax".to_owned() });
    }
    match R::validation_error(tree, i) {
        Some(message) => {
            found.push(ParseDiagnostic { line, column, message: message.to_owned() });
        }
        None => {}
    }
    assert(diagnostic_models(found@) =~= diagnostic_models(before) + diagnostics_at::<R>(
        tree@,
        i as int,
    ));
}

/// What is wrong with the nodes that are looked at.
fn find_diagnostics<R: SyntaxRules>(
    tree: &SyntaxTree,
    flags: &Vec<bool>,
    Ghost(regions): Ghost<Seq<RegionModel>>,
) -> (found: Vec<ParseDiagnostic>)
    requires
        tree.wf(),
        flags@.len() == tree@.len(),
        forall|i: int| 0 <= i < flags@.len() ==> #[trigger] flags@[i] == live(tree@, regions, i),
    ensures
        diagnostic_models(found@) == diagnostics::<R>(tree@, regions, tree@.len()),
{
    let mut found: Vec<ParseDiagnostic> = Vec::new();
    assert(diagnostic_models(found@) =~= Seq::<DiagnosticModel>::empty());
    let mut i: usize = 0;
    while i < tree.nodes.len()
        invariant
            tree.wf(),
            flags@.len() == tree@.len(),
            forall|k: int| 0 <= k < flags@.len() ==> #[trigger] flags@[k] == live(tree@, regions, k),
            i <= tree@.len(),
            diagnostic_models(found@) == diagnostics::<R>(tree@, regions, i as int),
        decreases tree@.len() - i,
    {
        if i == 0 {
            diagnose::<R>(tree, i, &mut found);
        } else {
            assert(tree@.parent_at(i as int));
            if flags[tree.parents[i]] {
                diagnose::<R>(tree, i, &mut found);
            }
        }
        i = i + 1;
    }
    found
}

fn first_line(tree: &SyntaxTree, i: usize) -> (line: usize)
    requires
        tree.wf(),
        i < tree@.len(),
    ensures
        line == start_line(tree@, i as int),
        line >= 1,
{
    tree.nodes[i].start_row + 1
}

fn last_line(tree: &SyntaxTree, i: usize) -> (line: usize)
    requires
        tree.wf(),
        i < tree@.len(),
    ensures
        line == end_line(tree@, i as int),
{
    let node = &tree.nodes[i];
    if node.end_column == 0 && node.end_row > 0 {
        node.end_row
    } else {
        node.end_row + 1
    }
}

fn source_lines_of(
    tree: &SyntaxTree,
    counts: &Vec<usize>,
    i: usize,
    Ghost(clean): Ghost<Seq<Seq<u8>>>,
) -> (count: usize)
    requires
        tree.wf(),
        i < tree@.len(),
        counts@.len() == clean.len() + 1,
        forall|n: int| 0 <= n < counts@.len() ==> #[trigger] counts@[n] == source_count(clean, n),
        forall|n: int, m: int| 0 <= n <= m < counts@.len() ==> counts@[n] <= counts@[m],
    ensures
        count == node_source_lines(tree@, clean, i as int),
{
    let known: usize = counts.len() - 1;
    let first: usize = first_line(tree, i) - 1;
    let last: usize = last_line(tree, i);
    let from: usize = if first < known {
        first
    } else {
        known
    };
    let to: usize = if last < known {
        last
    } else {
        known
    };
    if from <= to {
        counts[to] - counts[from]
    } else {
        0
    }
}

fn before(tree: &SyntaxTree, a: usize, b: usize) -> (r: bool)
    requires
        tree.wf(),
        a < tree@.len(),
        b < tree@.len(),
    ensures
        r == node_before(tree@, a as int, b as int),
{
    let (first_a, first_b) = (first_line(tree, a), first_line(tree, b));
    let (last_a, last_b) = (last_line(tree, a), last_line(tree, b));
    first_a < first_b || (first_a == first_b && (last_a < last_b || (last_a == last_b && (
    tree.ends[a] < tree.ends[b] || (tree.ends[a] == tree.ends[b] && a > b)))))
}

/// The reported callables, in order.
fn list_callables<R: SyntaxRules>(
    tree: &SyntaxTree,
    flags: &Vec<bool>,
    counts: &Vec<usize>,
    Ghost(regions): Ghost<Seq<RegionModel>>,
    Ghost(clean): Ghost<Seq<Seq<u8>>>,
) -> (order: Vec<usize>)
    requires
        tree.wf(),
        flags@.len() == tree@.len(),
        forall|i: int| 0 <= i < flags@.len() ==> #[trigger] flags@[i] == live(tree@, regions, i),
        counts@.len() == clean.len() + 1,
        forall|n: int| 0 <= n < counts@.len() ==> #[trigger] counts@[n] == source_count(clean, n),
        forall|n: int, m: int| 0 <= n <= m < counts@.len() ==> counts@[n] <= counts@[m],
    ensures
        super::syntax::indices(order@) == listed::<R>(tree@, regions, clean, tree@.len()),
        forall|k: int| 0 <= k < order@.len() ==> #[trigger] order@[k] < tree@.len(),
{
    let mut order: Vec<usize> = Vec::new();
    let ghost key = node_order(tree@);
    assert(super::syntax::indices(order@) =~= Seq::<int>::empty());
    let mut i: usize = 0;
    while i < tree.nodes.len()
        invariant
            tree.wf(),
            key == node_order(tree@),
            flags@.len() == tree@.len(),
            forall|k: int| 0 <= k < flags@.len() ==> #[trigger] flags@[k] == live(tree@, regions, k),
            counts@.len() == clean.len() + 1,
            forall|n: int| 0 <= n < counts@.len() ==> #[trigger] counts@[n] == source_count(clean, n),
            forall|n: int, m: int| 0 <= n <= m < counts@.len() ==> counts@[n] <= counts@[m],
            i <= tree@.len(),
            super::syntax::indices(order@) == listed::<R>(tree@, regions, clean, i as int),
            forall|k: int| 0 <= k < order@.len() ==> #[trigger] order@[k] < tree@.len(),
        decreases tree@.len() - i,
    {
        if flags[i] && R::callable(tree, i) && source_lines_of(tree, counts, i, Ghost(clean)) != 0 {
            let ghost known = super::syntax::indices(order@);
            let mut at: usize = order.len();
            while at > 0 && before(tree, i, order[at - 1])
                invariant
                    tree.wf(),
                    key == node_order(tree@),
                    i < tree@.len(),
                    at <= order@.len(),
                    known == super::syntax::indices(order@),
                    forall|k: int| 0 <= k < order@.len() ==> #[trigger] order@[k] < tree@.len(),
                    forall|k: int| at <= k < known.len() ==> key(i as int, #[trigger] known[k]),
                decreases at,
            {
                at = at - 1;
                assert(key(i as int, known[at as int]));
            }
            proof {
                assert(at == 0 || !key(i as int, known[at - 1]));
                lemma_insert_at(known, i as int, key, at as int);
            }
            let ghost previous = order@;
            order.insert(at, i);
            assert(super::syntax::indices(order@) =~= known.insert(at as int, i as int));
            assert forall|k: int| 0 <= k < order@.len() implies #[trigger] order@[k]
                < tree@.len() by {
                if k < at {
                    assert(order@[k] == previous[k]);
                } else if k > at {
                    assert(order@[k] == previous[k - 1]);
                }
            }
        }
        i = i + 1;
    }
    order
}

/// Measures a tree outside the given regions, which stand in order.
pub fn measure<R: SyntaxRules>(tree: &SyntaxTree, regions: &Vec<TestRegion>) -> (result: Result<
    FileAnalysis,
    AnalysisError,
>)
    requires
        tree.wf(),
        disjoint(region_models(regions@)),
        regions_fit(region_models(regions@), tree@.source.len() as int),
    ensures
        result is Ok <==> measured::<R>(tree@, region_models(regions@)) is Ok,
        result is Ok ==> measured::<R>(tree@, region_models(regions@)) == Ok::<
            AnalysisModel,
            AnalysisError,
        >(result->Ok_0@),
        result is Err ==> measured::<R>(tree@, region_models(regions@)) == Err::<
            AnalysisModel,
            AnalysisError,
        >(result->Err_0),
{
    let ghost t = tree@;
    let ghost models = region_models(regions@);
    let flags = live_nodes(tree, regions);
    let found = find_diagnostics::<R>(tree, &flags, Ghost(models));
    let physical: usize = physical_lines(tree.source.as_slice());
    let ghost expected = measured::<R>(t, models);
    if found.len() > 0 {
        let analysis = FileAnalysis {
            physical_lines: physical,
            source_lines: 0,
            functions: Vec::new(),
            diagnostics: found,
            without_tests: None,
        };
        assert(analysis@ =~= expected->Ok_0);
        return Ok(analysis);
    }
    if tree.nodes[0].has_error {
        return Err(AnalysisError::Unexplained);
    }
    let sums = decision_counts::<R>(tree, &flags, Ghost(models));
    let bytes = clean_source::<R>(tree, regions, &flags);
    let ghost clean = clean_lines::<R>(t, models);
    let counts = line_counts(bytes.as_slice());
    let order = list_callables::<R>(tree, &flags, &counts, Ghost(models), Ghost(clean));
    let ghost rows = listed::<R>(t, models, clean, t.len());
    let mut list: Vec<FunctionMetrics> = Vec::new();
    let mut k: usize = 0;
    while k < order.len()
        invariant
            tree.wf(),
            t == tree@,
            super::syntax::indices(order@) == rows,
            forall|n: int| 0 <= n < order@.len() ==> #[trigger] order@[n] < t.len(),
            sums@.len() == t.len() + 1,
            forall|i: int|
                0 <= i < sums@.len() ==> #[trigger] sums@[i] == decision_sum::<R>(t, models, 0, i),
            forall|i: int| 0 <= i < sums@.len() ==> #[trigger] sums@[i] <= 0xffff_ffff * t.len(),
            counts@.len() == clean.len() + 1,
            forall|n: int| 0 <= n < counts@.len() ==> #[trigger] counts@[n] == source_count(clean, n),
            forall|n: int, m: int| 0 <= n <= m < counts@.len() ==> counts@[n] <= counts@[m],
            k <= order@.len(),
            list@.len() == k,
            forall|n: int|
                0 <= n < k ==> (#[trigger] list@[n])@ == function_at::<R>(
                    t,
                    models,
                    clean,
                    rows[n],
                ),
        decreases order@.len() - k,
    {
        let i: usize = order[k];
        assert(rows[k as int] == i);
        assert(t.end_at(i as int));
        let end: usize = tree.ends[i];
        proof {
            lemma_sum_split::<R>(t, models, 0, i as int, end as int);
            lemma_sum_nonnegative::<R>(t, models, i as int, end as int);
            assert(sums@[end as int] == decision_sum::<R>(t, models, 0, end as int));
            assert(sums@[i as int] == decision_sum::<R>(t, models, 0, i as int));
        }
        list.push(
            FunctionMetrics {
                name: R::name(tree, i),
                start_line: first_line(tree, i),
                end_line: last_line(tree, i),
                complexity: sums[end] - sums[i] + 1,
                source_lines: source_lines_of(tree, &counts, i, Ghost(clean)),
            },
        );
        k = k + 1;
    }
    let analysis = FileAnalysis {
        physical_lines: physical,
        source_lines: counts[counts.len() - 1],
        functions: list,
        diagnostics: found,
        without_tests: None,
    };
    assert(function_models(analysis.functions@) =~= functions::<R>(t, models, clean));
    assert(diagnostic_models(analysis.diagnostics@) =~= Seq::<DiagnosticModel>::empty());
    assert(analysis@ =~= expected->Ok_0);
    Ok(analysis)
}

proof fn lemma_sum_nonnegative<R: SyntaxRules>(
    t: Syntax,
    regions: Seq<RegionModel>,
    a: int,
    b: int,
)
    ensures
        decision_sum::<R>(t, regions, a, b) >= 0,
    decreases b - a,
{
    if a < b {
        lemma_sum_nonnegative::<R>(t, regions, a, b - 1);
    }
}

/// The source begins with a byte order mark.
pub open spec fn has_mark(source: Seq<u8>) -> bool {
    source.len() >= 3 && source[0] == 0xef && source[1] == 0xbb && source[2] == 0xbf
}

/// How many bytes the byte order mark takes.
pub open spec fn mark_length(source: Seq<u8>) -> int {
    if has_mark(source) {
        3
    } else {
        0
    }
}

/// The source behind its byte order mark.
pub open spec fn unmarked(source: Seq<u8>) -> Seq<u8> {
    source.subrange(mark_length(source), source.len() as int)
}

/// The line breaks among the first `n` bytes.
pub open spec fn breaks(s: Seq<u8>, n: int) -> int
    decreases n,
{
    if n <= 0 {
        0
    } else {
        breaks(s, n - 1) + if s[n - 1] == 10u8 {
            1int
        } else {
            0
        }
    }
}

/// The last line break among the first `n` bytes, or the place before the first
/// byte.
pub open spec fn last_break(s: Seq<u8>, n: int) -> int
    decreases n,
{
    if n <= 0 {
        -1
    } else if s[n - 1] == 10u8 {
        n - 1
    } else {
        last_break(s, n - 1)
    }
}

/// Where a source stops being valid UTF-8.
pub open spec fn utf8_end(source: Seq<u8>) -> int {
    choose|at: int| valid_up_to(source, at)
}

/// What is reported of a source that is not UTF-8.
pub open spec fn utf8_diagnostic(source: Seq<u8>) -> DiagnosticModel {
    let at = utf8_end(source);
    DiagnosticModel {
        line: (breaks(source, at) + 1) as usize,
        column: (at - last_break(source, at)) as usize,
        message: "Invalid UTF-8: "@ + utf8_complaint(source),
    }
}

/// Regions moved towards the end by the length of a byte order mark.
pub open spec fn shifted(regions: Seq<RegionModel>, by: int) -> Seq<RegionModel> {
    regions.map_values(
        |r: RegionModel|
            RegionModel {
                start_byte: (r.start_byte + by) as usize,
                end_byte: (r.end_byte + by) as usize,
                ..r
            },
    )
}

/// The measurements of all code together with those of the code outside the given
/// regions, where there are any. The source stands behind `mark` bytes.
pub open spec fn with_regions_left_out<R: SyntaxRules>(
    t: Syntax,
    raw: AnalysisModel,
    found: Seq<RegionModel>,
    mark: int,
) -> Result<AnalysisModel, AnalysisError> {
    let regions = normalized(found);
    if !regions_fit(found, t.source.len() as int) {
        Err(AnalysisError::InvalidRegion)
    } else if regions.len() == 0 {
        Ok(raw)
    } else {
        match measured::<R>(t, regions) {
            Err(error) => Err(error),
            Ok(rest) => if rest.diagnostics.len() > 0 {
                Err(AnalysisError::ChangedValidation)
            } else if rest.source_lines > raw.source_lines || rest.functions.len()
                > raw.functions.len() {
                Err(AnalysisError::Increased)
            } else {
                Ok(
                    AnalysisModel {
                        without_tests: Some(
                            FilteredModel {
                                source_lines: rest.source_lines,
                                functions: rest.functions,
                                regions: shifted(regions, mark),
                            },
                        ),
                        ..raw
                    },
                )
            },
        }
    }
}

/// The analysis of a tree whose source stands behind `mark` bytes: the
/// measurements of all code and, where tests are left out and there are any,
/// those of the remaining code.
pub open spec fn tree_analysis<R: SyntaxRules>(t: Syntax, mark: int, exclude_tests: bool) -> Result<
    AnalysisModel,
    AnalysisError,
> {
    match measured::<R>(t, Seq::empty()) {
        Err(error) => Err(error),
        Ok(raw) => if raw.diagnostics.len() > 0 || !exclude_tests {
            Ok(raw)
        } else {
            with_regions_left_out::<R>(t, raw, R::test_regions_spec(t), mark)
        },
    }
}

/// The analysis of a source under the grammar of the given name.
pub open spec fn analysis<R: SyntaxRules>(
    label: Seq<char>,
    source: Seq<u8>,
    exclude_tests: bool,
) -> Result<AnalysisModel, AnalysisError> {
    let text = unmarked(source);
    if !valid_utf8(text) {
        Ok(
            AnalysisModel {
                physical_lines: lines(text).len() as usize,
                source_lines: 0,
                functions: Seq::empty(),
                diagnostics: seq![utf8_diagnostic(text)],
                without_tests: None,
            },
        )
    } else {
        match tree_of(label, text) {
            Err(TreeError::Cancelled) => Err(AnalysisError::Cancelled),
            Err(TreeError::Malformed) => Err(AnalysisError::Malformed),
            Ok(nodes) => tree_analysis::<R>(
                linked(nodes, text),
                mark_length(source),
                exclude_tests,
            ),
        }
    }
}

/// The measurements are the same but for the regions, which stand behind `mark`
/// bytes.
pub open spec fn moved_by(plain: AnalysisModel, marked: AnalysisModel, mark: int) -> bool {
    &&& marked == AnalysisModel { without_tests: marked.without_tests, ..plain }
    &&& match (plain.without_tests, marked.without_tests) {
        (Some(a), Some(b)) => {
            &&& a.source_lines == b.source_lines
            &&& a.functions == b.functions
            &&& b.regions == shifted(a.regions, mark)
        },
        (None, None) => true,
        _ => false,
    }
}

/// A byte order mark changes nothing but where the regions of test code stand: they
/// count its bytes.
pub proof fn byte_order_marks_move_only_regions<R: SyntaxRules>(
    label: Seq<char>,
    source: Seq<u8>,
    exclude_tests: bool,
)
    requires
        !has_mark(source),
    ensures
        ({
            let marked = seq![0xefu8, 0xbbu8, 0xbfu8] + source;
            match (
                analysis::<R>(label, source, exclude_tests),
                analysis::<R>(label, marked, exclude_tests),
            ) {
                (Ok(a), Ok(b)) => moved_by(a, b, 3),
                (Err(a), Err(b)) => a == b,
                _ => false,
            }
        }),
{
    let marked = seq![0xefu8, 0xbbu8, 0xbfu8] + source;
    assert(has_mark(marked));
    assert(unmarked(source) =~= source);
    assert(unmarked(marked) =~= source);
    if tree_of(label, source) is Ok {
        let t = linked(tree_of(label, source)->Ok_0, source);
        let regions = normalized(R::test_regions_spec(t));
        assert(shifted(regions, 0) =~= regions);
    }
}

/// A result is the one that a model gives.
pub open spec fn matches_model(
    result: Result<FileAnalysis, AnalysisError>,
    model: Result<AnalysisModel, AnalysisError>,
) -> bool {
    match result {
        Ok(analysis) => model == Ok::<AnalysisModel, AnalysisError>(analysis@),
        Err(error) => model == Err::<AnalysisModel, AnalysisError>(error),
    }
}

/// Analyzes a tree whose source stands behind `mark` bytes.
pub fn analyze_tree<R: SyntaxRules>(tree: &SyntaxTree, mark: usize, exclude_tests: bool) -> (result:
    Result<FileAnalysis, AnalysisError>)
    requires
        tree.wf(),
        tree@.source.len() + mark <= usize::MAX,
    ensures
        matches_model(result, tree_analysis::<R>(tree@, mark as int, exclude_tests)),
{
    let none: Vec<TestRegion> = Vec::new();
    assert(region_models(none@) =~= Seq::<RegionModel>::empty());
    let raw = match measure::<R>(tree, &none) {
        Ok(raw) => raw,
        Err(error) => {
            return Err(error);
        },
    };
    if !raw.parsed() || !exclude_tests {
        return Ok(raw);
    }
    leave_out_regions::<R>(tree, raw, R::test_regions(tree), mark)
}

/// Adds the measurements of the code outside the given regions, where there are
/// any, to those of all code.
pub fn leave_out_regions<R: SyntaxRules>(
    tree: &SyntaxTree,
    all: FileAnalysis,
    found: Vec<TestRegion>,
    mark: usize,
) -> (result: Result<FileAnalysis, AnalysisError>)
    requires
        tree.wf(),
        tree@.source.len() + mark <= usize::MAX,
    ensures
        matches_model(
            result,
            with_regions_left_out::<R>(tree@, all@, region_models(found@), mark as int),
        ),
{
    let mut raw = all;
    let ghost length = tree@.source.len() as int;
    let ghost models = region_models(found@);
    let mut regions = match normalize_regions(found, tree.source.len()) {
        Some(regions) => regions,
        None => {
            return Err(AnalysisError::InvalidRegion);
        },
    };
    proof {
        normalized_regions(models, length);
    }
    assert(region_models(regions@).len() == regions@.len());
    if regions.len() == 0 {
        return Ok(raw);
    }
    let rest = match measure::<R>(tree, &regions) {
        Ok(rest) => rest,
        Err(error) => {
            return Err(error);
        },
    };
    if !rest.parsed() {
        return Err(AnalysisError::ChangedValidation);
    }
    assert(rest@.functions.len() == rest.functions@.len());
    assert(raw@.functions.len() == raw.functions@.len());
    if rest.source_lines > raw.source_lines || rest.functions.len() > raw.functions.len() {
        return Err(AnalysisError::Increased);
    }
    let ghost unshifted = region_models(regions@);
    let mut moved: Vec<TestRegion> = Vec::new();
    let mut k: usize = 0;
    while k < regions.len()
        invariant
            k <= regions@.len(),
            unshifted == region_models(regions@),
            regions_fit(unshifted, length),
            length + mark <= usize::MAX,
            moved@.len() == k,
            forall|n: int|
                0 <= n < k ==> (#[trigger] moved@[n])@ == shifted(unshifted, mark as int)[n],
        decreases regions@.len() - k,
    {
        assert(region_fits(unshifted[k as int], length));
        let mut region = regions[k].clone();
        region.start_byte = region.start_byte + mark;
        region.end_byte = region.end_byte + mark;
        moved.push(region);
        k = k + 1;
    }
    assert(region_models(moved@) =~= shifted(unshifted, mark as int));
    let ghost before = raw@;
    raw.without_tests = Some(
        TestFilteredAnalysis {
            source_lines: rest.source_lines,
            functions: rest.functions,
            regions: moved,
        },
    );
    assert(raw@ =~= AnalysisModel {
        without_tests: Some(
            FilteredModel {
                source_lines: rest.source_lines,
                functions: rest@.functions,
                regions: shifted(unshifted, mark as int),
            },
        ),
        ..before
    });
    Ok(raw)
}

fn has_byte_order_mark(source: &[u8]) -> (r: bool)
    ensures
        r == has_mark(source@),
{
    source.len() >= 3 && source[0] == 0xef && source[1] == 0xbb && source[2] == 0xbf
}

/// What is reported of a source that is not UTF-8 from a position on.
fn utf8_report(source: &[u8], at: usize, complaint: &str) -> (diagnostic: ParseDiagnostic)
    requires
        valid_up_to(source@, at as int),
        complaint@ == utf8_complaint(source@),
    ensures
        diagnostic@ == utf8_diagnostic(source@),
{
    proof {
        let end = utf8_end(source@);
        assert(valid_up_to(source@, end));
        if end < at {
            assert(!valid_utf8(source@.subrange(0, at as int)));
        }
        if at < end {
            assert(!valid_utf8(source@.subrange(0, end)));
        }
    }
    let length: usize = source.len();
    let mut count: usize = 0;
    let mut width: usize = 1;
    let mut i: usize = 0;
    while i < at
        invariant
            i <= at < length,
            length == source@.len(),
            count <= i,
            count == breaks(source@, i as int),
            width == i - last_break(source@, i as int),
            1 <= width <= i + 1,
        decreases at - i,
    {
        if source[i] == 10 {
            count = count + 1;
            width = 1;
        } else {
            width = width + 1;
        }
        i = i + 1;
    }
    let mut message = "Invalid UTF-8: ".to_owned();
    message.append(complaint);
    ParseDiagnostic { line: count + 1, column: width, message }
}

/// Analyzes a source with a grammar and the rules of its language.
pub fn analyze<R: SyntaxRules>(
    grammar: &Grammar,
    source: &[u8],
    exclude_tests: bool,
) -> (result: Result<FileAnalysis, AnalysisError>)
    ensures
        matches_model(result, analysis::<R>(grammar_label(*grammar), source@, exclude_tests)),
{
    let marked: bool = has_byte_order_mark(source);
    let mark: usize = if marked {
        3
    } else {
        0
    };
    let text: &[u8] = slice_subrange(source, mark, source.len());
    assert(text@ == unmarked(source@));
    match utf8_failure(text) {
        Some((at, complaint)) => {
            let diagnostic = utf8_report(text, at, complaint.as_str());
            let mut found: Vec<ParseDiagnostic> = Vec::new();
            found.push(diagnostic);
            let analysis = FileAnalysis {
                physical_lines: physical_lines(text),
                source_lines: 0,
                functions: Vec::new(),
                diagnostics: found,
                without_tests: None,
            };
            assert(diagnostic_models(analysis.diagnostics@) =~= seq![utf8_diagnostic(text@)]);
            assert(function_models(analysis.functions@) =~= Seq::<FunctionModel>::empty());
            Ok(analysis)
        },
        None => match SyntaxTree::parse(grammar, text) {
            Err(error) => match error {
                TreeError::Cancelled => Err(AnalysisError::Cancelled),
                TreeError::Malformed => Err(AnalysisError::Malformed),
            },
            Ok(tree) => {
                proof {
                    links_are_unique(tree@);
                }
                analyze_tree::<R>(&tree, mark, exclude_tests)
            },
        },
    }
}

proof fn lemma_node_order(t: Syntax)
    ensures
        strict_order(node_order(t)),
{
}

proof fn lemma_listed<R: SyntaxRules>(
    t: Syntax,
    regions: Seq<RegionModel>,
    clean: Seq<Seq<u8>>,
    n: int,
)
    ensures
        in_order(listed::<R>(t, regions, clean, n), node_order(t)),
        forall|i: int| #[trigger]
            listed::<R>(t, regions, clean, n).to_multiset().count(i) == if 0 <= i < n && reported::<
                R,
            >(t, regions, clean, i) {
                1nat
            } else {
                0nat
            },
    decreases n,
{
    broadcast use vstd::seq_lib::group_to_multiset_ensures;

    if n > 0 {
        lemma_listed::<R>(t, regions, clean, n - 1);
        lemma_node_order(t);
        let before = listed::<R>(t, regions, clean, n - 1);
        lemma_insert_in_order(before, n - 1, node_order(t));
        lemma_insert_multiset(before, n - 1, node_order(t));
    }
}

/// Every callable with source lines is listed exactly once, and nothing else is;
/// the callables stand by their lines.
pub proof fn callables_are_listed_in_order<R: SyntaxRules>(t: Syntax, regions: Seq<RegionModel>)
    ensures
        ({
            let clean = clean_lines::<R>(t, regions);
            let all = listed::<R>(t, regions, clean, t.len());
            &&& in_order(all, node_order(t))
            &&& all.no_duplicates()
            &&& forall|i: int| #[trigger]
                all.contains(i) <==> 0 <= i < t.len() && reported::<R>(t, regions, clean, i)
        }),
{
    let clean = clean_lines::<R>(t, regions);
    let all = listed::<R>(t, regions, clean, t.len());
    lemma_listed::<R>(t, regions, clean, t.len());
    all.lemma_multiset_has_no_duplicates_conv();
    assert forall|i: int| #[trigger] all.contains(i) <==> 0 <= i < t.len() && reported::<R>(
        t,
        regions,
        clean,
        i,
    ) by {
        broadcast use vstd::seq_lib::group_to_multiset_ensures;

        assert(all.contains(i) <==> all.to_multiset().count(i) > 0);
    }
}

proof fn lemma_source_lines(clean: Seq<Seq<u8>>, a: int, b: int)
    requires
        0 <= a <= b,
    ensures
        0 <= source_count(clean, b) - source_count(clean, a) <= b - a,
    decreases b,
{
    if a < b {
        lemma_source_lines(clean, a, b - 1);
    }
}

/// A reported callable lies on the lines of its file, from its first line to its
/// last. At least one of them counts as source, and no more than there are.
pub proof fn callables_lie_in_the_file<R: SyntaxRules>(
    t: Syntax,
    regions: Seq<RegionModel>,
    k: int,
)
    requires
        t.wf(),
        t.source.len() <= usize::MAX,
        measured::<R>(t, regions) is Ok,
        0 <= k < measured::<R>(t, regions)->Ok_0.functions.len(),
    ensures
        ({
            let found = measured::<R>(t, regions)->Ok_0;
            let function = found.functions[k];
            &&& 1 <= function.start_line <= function.end_line <= found.physical_lines
            &&& found.physical_lines == lines(t.source).len()
            &&& 1 <= function.source_lines <= function.end_line - function.start_line + 1
        }),
{
    let clean = clean_lines::<R>(t, regions);
    let all = listed::<R>(t, regions, clean, t.len());
    let i = all[k];
    callables_are_listed_in_order::<R>(t, regions);
    cleaning_keeps_lines::<R>(t, regions);
    lemma_lines_bound(t.source, 0);
    assert(all.contains(i));
    assert(node_placed(t.nodes[i], t.source.len() as int, lines(t.source).len() as int));
    let from = least(start_line(t, i) - 1, clean.len() as int);
    let to = least(end_line(t, i), clean.len() as int);
    if from <= to {
        lemma_source_lines(clean, from, to);
    }
}

/// A subtree inside another one ends with it or before.
proof fn lemma_inner_end(t: Syntax, i: int, j: int)
    requires
        t.wf(),
        0 <= i < j < t.len(),
        j < t.end(i),
    ensures
        j < t.end(j) <= t.end(i) <= t.len(),
{
    assert(t.end_at(i));
    assert(t.end_at(j));
    assert(t.nodes[j].depth > t.nodes[i].depth);
    if t.end(i) < t.end(j) {
        assert(t.nodes[t.end(i)].depth > t.nodes[j].depth);
    }
}

/// What is decided in a nested callable counts for it and for every callable
/// around it.
pub proof fn nested_decisions_count_for_both<R: SyntaxRules>(
    t: Syntax,
    regions: Seq<RegionModel>,
    i: int,
    j: int,
)
    requires
        t.wf(),
        0 <= i < j < t.len(),
        j < t.end(i),
    ensures
        j < t.end(j) <= t.end(i),
        complexity::<R>(t, regions, i) == decision_sum::<R>(t, regions, i, j) + complexity::<R>(
            t,
            regions,
            j,
        ) + decision_sum::<R>(t, regions, t.end(j), t.end(i)),
{
    lemma_inner_end(t, i, j);
    lemma_sum_split::<R>(t, regions, i, j, t.end(i));
    lemma_sum_split::<R>(t, regions, j, t.end(j), t.end(i));
}

proof fn lemma_left_out<R: SyntaxRules>(t: Syntax, regions: Seq<RegionModel>, j: int, k: int)
    requires
        t.wf(),
        0 <= j < k <= t.end(j),
        j < t.len(),
        contained(t, regions, j),
    ensures
        decision_sum::<R>(t, regions, j, k) == 0,
        forall|n: int| j <= n < k ==> !#[trigger] live(t, regions, n),
    decreases k - j,
{
    assert(t.end_at(j));
    if k - 1 > j {
        lemma_left_out::<R>(t, regions, j, k - 1);
        assert(t.parent_at(k - 1));
        assert(t.nodes[k - 1].depth > t.nodes[j].depth);
        assert(t.parent(k - 1) >= j);
        assert(!live(t, regions, t.parent(k - 1)));
    } else {
        assert(decision_sum::<R>(t, regions, j, j) == 0);
    }
}

/// Code inside a region that is left out adds nothing to the callables around it,
/// and no callable inside it is reported.
pub proof fn left_out_code_does_not_count<R: SyntaxRules>(
    t: Syntax,
    regions: Seq<RegionModel>,
    i: int,
    j: int,
)
    requires
        t.wf(),
        0 <= i < j < t.len(),
        j < t.end(i),
        contained(t, regions, j),
    ensures
        complexity::<R>(t, regions, i) == 1 + decision_sum::<R>(t, regions, i, j) + decision_sum::<
            R,
        >(t, regions, t.end(j), t.end(i)),
        forall|k: int, clean: Seq<Seq<u8>>|
            j <= k < t.end(j) ==> !#[trigger] reported::<R>(t, regions, clean, k),
{
    lemma_inner_end(t, i, j);
    nested_decisions_count_for_both::<R>(t, regions, i, j);
    lemma_left_out::<R>(t, regions, j, t.end(j));
}

/// Leaving out regions never adds a decision to a callable.
pub proof fn exclusion_adds_no_decisions<R: SyntaxRules>(
    t: Syntax,
    regions: Seq<RegionModel>,
    a: int,
    b: int,
)
    requires
        t.wf(),
        0 <= a <= b <= t.len(),
    ensures
        0 <= decision_sum::<R>(t, regions, a, b) <= decision_sum::<R>(t, Seq::empty(), a, b),
    decreases b - a,
{
    if a < b {
        exclusion_adds_no_decisions::<R>(t, regions, a, b - 1);
        lemma_all_live(t, b - 1);
    }
}

proof fn lemma_all_live(t: Syntax, i: int)
    requires
        t.wf(),
        0 <= i < t.len(),
    ensures
        live(t, Seq::empty(), i),
    decreases i,
{
    if i > 0 {
        assert(t.parent_at(i));
        lemma_all_live(t, t.parent(i));
    }
}

/// Raw measurements do not depend on whether test code is looked for.
pub proof fn exclusion_keeps_raw_measurements<R: SyntaxRules>(label: Seq<char>, source: Seq<u8>)
    requires
        analysis::<R>(label, source, true) is Ok,
    ensures
        analysis::<R>(label, source, false) == Ok::<AnalysisModel, AnalysisError>(
            AnalysisModel { without_tests: None, ..analysis::<R>(label, source, true)->Ok_0 },
        ),
{
}

/// A source that is not valid in its language has no callables, no source lines
/// and no filtered measurements, whatever test code it holds.
pub proof fn failures_are_not_filtered<R: SyntaxRules>(
    label: Seq<char>,
    source: Seq<u8>,
    exclude_tests: bool,
)
    requires
        analysis::<R>(label, source, exclude_tests) is Ok,
        analysis::<R>(label, source, exclude_tests)->Ok_0.diagnostics.len() > 0,
    ensures
        analysis::<R>(label, source, exclude_tests)->Ok_0.functions.len() == 0,
        analysis::<R>(label, source, exclude_tests)->Ok_0.source_lines == 0,
        analysis::<R>(label, source, exclude_tests)->Ok_0.without_tests is None,
{
}

/// Leaving out test code never adds source lines or callables, and the regions
/// left out lie inside the file, in order and apart from each other.
pub proof fn filtered_measurements_are_bounded<R: SyntaxRules>(t: Syntax, mark: int)
    requires
        t.wf(),
        0 <= mark,
        t.source.len() + mark <= usize::MAX,
        tree_analysis::<R>(t, mark, true) is Ok,
        tree_analysis::<R>(t, mark, true)->Ok_0.without_tests is Some,
    ensures
        ({
            let raw = tree_analysis::<R>(t, mark, true)->Ok_0;
            let rest = raw.without_tests->0;
            &&& rest.source_lines <= raw.source_lines
            &&& rest.functions.len() <= raw.functions.len()
            &&& rest.regions.len() > 0
            &&& disjoint(rest.regions)
            &&& regions_fit(rest.regions, t.source.len() + mark)
        }),
{
    let found = R::test_regions_spec(t);
    normalized_regions(found, t.source.len() as int);
    let plain = normalized(found);
    let moved = shifted(plain, mark);
    assert forall|k: int| 0 <= k < moved.len() implies region_fits(
        #[trigger] moved[k],
        t.source.len() + mark,
    ) by {
        assert(region_fits(plain[k], t.source.len() as int));
    }
    assert forall|i: int, j: int| 0 <= i < j < moved.len() implies (#[trigger] moved[i]).end_byte
        <= (#[trigger] moved[j]).start_byte by {
        assert(plain[i].end_byte <= plain[j].start_byte);
        assert(region_fits(plain[i], t.source.len() as int));
        assert(region_fits(plain[j], t.source.len() as int));
    }
}

} // verus!
