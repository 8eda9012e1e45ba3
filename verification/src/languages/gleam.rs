//! Gleam: callables and decisions.

use vstd::prelude::*;
use vstd::string::*;

use super::adapters::{adapter_failure, AdapterError, LanguageAdapter};
pub use super::adapters::GleamAdapter;
use super::gleam_tests::{comment, find_gleam_tests, gleam_test_regions, is_comment};
use super::rust::{combines_conditions, is_condition};
use super::syntax::{indices, remaining, Syntax, SyntaxTree};
use super::tree::SyntaxRules;
use super::Language;
use crate::metrics::{RegionModel, TestRegion};

verus! {

/// The rules of Gleam.
pub struct GleamRules;

/// The named nodes from `at` up to `stop`, and the nodes around them, are
/// variables and discards alone.
pub open spec fn catches_all(t: Syntax, root: int, at: int, stop: int) -> bool
    decreases remaining(at, stop),
{
    if at >= stop || t.end(at) <= at {
        true
    } else if at != root && !t.named(at) {
        catches_all(t, root, t.end(at), stop)
    } else if t.kind(at) == "case_clause_pattern"@ || t.kind(at) == "identifier"@ || t.kind(at)
        == "discard"@ {
        catches_all(t, root, at + 1, stop)
    } else {
        false
    }
}

/// The clause catches every value: it has no guard, and its one pattern is a
/// variable or a discard.
pub open spec fn is_irrefutable_clause(t: Syntax, i: int) -> bool {
    t.field(i, "guard"@) is None && match t.field(i, "patterns"@) {
        Some(patterns) => {
            let list = t.named_children(patterns);
            list.len() == 1 && catches_all(t, list[0], list[0], t.end(list[0]))
        },
        None => false,
    }
}

fn irrefutable_clause(tree: &SyntaxTree, i: usize) -> (r: bool)
    requires
        tree.wf(),
        i < tree@.len(),
    ensures
        r == is_irrefutable_clause(tree@, i as int),
{
    if tree.field(i, "guard").is_some() {
        return false;
    }
    let patterns: usize = match tree.field(i, "patterns") {
        Some(patterns) => patterns,
        None => {
            return false;
        },
    };
    let list = tree.named_children(patterns);
    assert(indices(list@).len() == list@.len());
    if list.len() != 1 {
        return false;
    }
    assert(indices(list@)[0] == list@[0]);
    let root: usize = list[0];
    assert(tree@.end_at(root as int));
    let stop: usize = tree.ends[root];
    let mut at: usize = root;
    while at < stop
        invariant
            tree.wf(),
            stop <= tree@.len(),
            catches_all(tree@, root as int, at as int, stop as int) == is_irrefutable_clause(
                tree@,
                i as int,
            ),
        decreases remaining(at as int, stop as int),
    {
        assert(tree@.end_at(at as int));
        if at != root && !tree.nodes[at].named {
            at = tree.ends[at];
        } else if tree.is(at, "case_clause_pattern") || tree.is(at, "identifier") || tree.is(
            at,
            "discard",
        ) {
            at = at + 1;
        } else {
            return false;
        }
    }
    true
}

impl SyntaxRules for GleamRules {
    open spec fn callable_spec(t: Syntax, i: int) -> bool {
        (t.kind(i) == "function"@ || t.kind(i) == "anonymous_function"@) && t.field(
            i,
            "body"@,
        ) is Some
    }

    open spec fn decisions_spec(t: Syntax, i: int) -> u64 {
        if (t.kind(i) == "case_clause"@ && !is_irrefutable_clause(t, i)) || ((t.kind(i)
            == "assert"@ || t.kind(i) == "let_assert"@) && t.named(i)) || is_condition(t, i) {
            1
        } else {
            0
        }
    }

    open spec fn name_spec(t: Syntax, i: int) -> Seq<char> {
        match t.field(i, "name"@) {
            Some(name) => t.text(name),
            None => "<anonymous>"@,
        }
    }

    open spec fn ignored_spec(t: Syntax, i: int) -> bool {
        is_comment(t.kind(i))
    }

    open spec fn validation_error_spec(t: Syntax, i: int) -> Option<Seq<char>> {
        None
    }

    open spec fn test_regions_spec(t: Syntax) -> Seq<RegionModel> {
        gleam_test_regions(t)
    }

    fn callable(tree: &SyntaxTree, i: usize) -> (r: bool) {
        (tree.is(i, "function") || tree.is(i, "anonymous_function")) && tree.field(
            i,
            "body",
        ).is_some()
    }

    fn decisions(tree: &SyntaxTree, i: usize) -> (count: u64) {
        if (tree.is(i, "case_clause") && !irrefutable_clause(tree, i)) || ((tree.is(i, "assert")
            || tree.is(i, "let_assert")) && tree.nodes[i].named) || combines_conditions(tree, i) {
            1
        } else {
            0
        }
    }

    fn name(tree: &SyntaxTree, i: usize) -> (name: String) {
        match tree.field(i, "name") {
            Some(name) => tree.text(name).to_owned(),
            None => "<anonymous>".to_owned(),
        }
    }

    fn ignored(tree: &SyntaxTree, i: usize) -> (r: bool) {
        comment(tree, i)
    }

    fn validation_error(tree: &SyntaxTree, i: usize) -> (message: Option<&'static str>) {
        None
    }

    fn test_regions(tree: &SyntaxTree) -> (regions: Vec<TestRegion>) {
        find_gleam_tests(tree)
    }
}

/// The adapter for Gleam, with or without an eye for tests.
pub fn adapter(exclude_tests: bool) -> (adapter: Result<GleamAdapter, AdapterError>)
    ensures
        adapter is Ok <==> adapter_failure(Language::Gleam, exclude_tests) is None,
        adapter matches Ok(adapter) ==> adapter.source_language() == Language::Gleam
            && adapter.excludes_tests() == exclude_tests,
        adapter matches Err(error) ==> adapter_failure(Language::Gleam, exclude_tests) == Some(
            error@,
        ),
{
    GleamAdapter::with(exclude_tests)
}

} // verus!
