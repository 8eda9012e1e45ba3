//! Rust: callables and decisions.

use vstd::prelude::*;
use vstd::string::*;

pub use super::adapters::RustAdapter;
use super::rust_attributes::{comment, is_comment};
use super::rust_tests::{find_rust_tests, rust_test_regions};
use super::syntax::{indices, remaining, Syntax, SyntaxTree};
use super::tree::SyntaxRules;
use crate::metrics::{RegionModel, TestRegion};

verus! {

/// The rules of Rust.
pub struct RustRules;

/// A wildcard, alone or inside nodes that hold nothing else, catches every value.
pub open spec fn wildcard(t: Syntax, i: int) -> bool
    decreases remaining(i, t.len()),
{
    if t.kind(i) == "_"@ {
        true
    } else if t.children(i).len() == 1 && i < t.children(i)[0] && i < t.len() {
        wildcard(t, t.children(i)[0])
    } else {
        false
    }
}

/// The match arm catches every value that no arm before it did.
pub open spec fn is_wildcard_arm(t: Syntax, i: int) -> bool {
    match t.field(i, "pattern"@) {
        Some(pattern) => wildcard(t, pattern),
        None => false,
    }
}

fn wildcard_match_arm(tree: &SyntaxTree, i: usize) -> (r: bool)
    requires
        tree.wf(),
        i < tree@.len(),
    ensures
        r == is_wildcard_arm(tree@, i as int),
{
    let pattern: usize = match tree.field(i, "pattern") {
        Some(pattern) => pattern,
        None => {
            return false;
        },
    };
    let mut at: usize = pattern;
    loop
        invariant
            tree.wf(),
            at < tree@.len(),
            wildcard(tree@, at as int) == is_wildcard_arm(tree@, i as int),
        decreases tree@.len() - at,
    {
        if tree.is(at, "_") {
            return true;
        }
        let children = tree.children(at);
        assert(indices(children@).len() == children@.len());
        if children.len() != 1 {
            return false;
        }
        assert(indices(children@)[0] == children@[0]);
        at = children[0];
    }
}

/// The node is a branch or a loop.
pub open spec fn is_branch(kind: Seq<char>) -> bool {
    kind == "if_expression"@ || kind == "for_expression"@ || kind == "while_expression"@ || kind
        == "loop_expression"@
}

/// The node combines two conditions.
pub open spec fn is_condition(t: Syntax, i: int) -> bool {
    t.kind(i) == "binary_expression"@ && match t.field(i, "operator"@) {
        Some(operator) => t.kind(operator) == "&&"@ || t.kind(operator) == "||"@,
        None => false,
    }
}

/// The node combines two conditions.
pub fn combines_conditions(tree: &SyntaxTree, i: usize) -> (r: bool)
    requires
        tree.wf(),
        i < tree@.len(),
    ensures
        r == is_condition(tree@, i as int),
{
    if !tree.is(i, "binary_expression") {
        return false;
    }
    match tree.field(i, "operator") {
        Some(operator) => tree.is(operator, "&&") || tree.is(operator, "||"),
        None => false,
    }
}

/// The node that names a callable: its own name, or the variable that a closure
/// is bound to.
pub open spec fn name_node(t: Syntax, i: int) -> Option<int> {
    match t.field(i, "name"@) {
        Some(name) => Some(name),
        None => if i > 0 && t.kind(t.parent(i)) == "let_declaration"@ {
            match t.field(t.parent(i), "pattern"@) {
                Some(pattern) => if t.kind(pattern) == "identifier"@ {
                    Some(pattern)
                } else {
                    None
                },
                None => None,
            }
        } else {
            None
        },
    }
}

impl SyntaxRules for RustRules {
    open spec fn callable_spec(t: Syntax, i: int) -> bool {
        (t.kind(i) == "function_item"@ || t.kind(i) == "closure_expression"@) && t.field(
            i,
            "body"@,
        ) is Some
    }

    open spec fn decisions_spec(t: Syntax, i: int) -> u64 {
        if is_branch(t.kind(i)) || (t.kind(i) == "match_arm"@ && !is_wildcard_arm(t, i)) || (t.kind(
            i,
        ) == "let_declaration"@ && t.field(i, "alternative"@) is Some) || is_condition(t, i) {
            1
        } else {
            0
        }
    }

    open spec fn name_spec(t: Syntax, i: int) -> Seq<char> {
        match name_node(t, i) {
            Some(name) => t.text(name),
            None => "<closure>"@,
        }
    }

    open spec fn ignored_spec(t: Syntax, i: int) -> bool {
        is_comment(t.kind(i))
    }

    open spec fn validation_error_spec(t: Syntax, i: int) -> Option<Seq<char>> {
        None
    }

    open spec fn test_regions_spec(t: Syntax) -> Seq<RegionModel> {
        rust_test_regions(t)
    }

    fn callable(tree: &SyntaxTree, i: usize) -> (r: bool) {
        (tree.is(i, "function_item") || tree.is(i, "closure_expression")) && tree.field(
            i,
            "body",
        ).is_some()
    }

    fn decisions(tree: &SyntaxTree, i: usize) -> (count: u64) {
        let branch: bool = tree.is(i, "if_expression") || tree.is(i, "for_expression") || tree.is(
            i,
            "while_expression",
        ) || tree.is(i, "loop_expression");
        if branch || (tree.is(i, "match_arm") && !wildcard_match_arm(tree, i)) || (tree.is(
            i,
            "let_declaration",
        ) && tree.field(i, "alternative").is_some()) || combines_conditions(tree, i) {
            1
        } else {
            0
        }
    }

    fn name(tree: &SyntaxTree, i: usize) -> (name: String) {
        match tree.field(i, "name") {
            Some(name) => tree.text(name).to_owned(),
            None => {
                if i > 0 {
                    assert(tree@.parent_at(i as int));
                    let parent: usize = tree.parents[i];
                    if tree.is(parent, "let_declaration") {
                        match tree.field(parent, "pattern") {
                            Some(pattern) => {
                                if tree.is(pattern, "identifier") {
                                    return tree.text(pattern).to_owned();
                                }
                            },
                            None => {},
                        }
                    }
                }
                "<closure>".to_owned()
            },
        }
    }

    fn ignored(tree: &SyntaxTree, i: usize) -> (r: bool) {
        comment(tree, i)
    }

    fn validation_error(tree: &SyntaxTree, i: usize) -> (message: Option<&'static str>) {
        None
    }

    fn test_regions(tree: &SyntaxTree) -> (regions: Vec<TestRegion>) {
        find_rust_tests(tree)
    }
}

} // verus!
