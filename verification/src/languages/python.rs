//! Python: callables, decisions, docstrings and bodies.

use vstd::prelude::*;

pub use super::adapters::PythonAdapter;
use super::python_tests::{find_python_tests, python_test_regions};
use super::syntax::{indices, remaining, Syntax, SyntaxTree};
use super::tree::SyntaxRules;
use crate::metrics::{RegionModel, TestRegion};

verus! {

/// The rules of Python.
pub struct PythonRules;

/// A bare capture, a wildcard, or a parenthesized or as-bound version of one
/// catches every value. Sequence, mapping, class, literal and alternative
/// patterns remain conditional.
pub open spec fn irrefutable(t: Syntax, i: int) -> bool
    decreases remaining(i, t.len()),
{
    let kind = t.kind(i);
    if i < 0 || i >= t.len() {
        false
    } else if kind == "_"@ || kind == "identifier"@ {
        true
    } else if kind == "dotted_name"@ {
        t.named_children(i).len() == 1
    } else if kind == "case_pattern"@ || kind == "as_pattern"@ {
        i + 1 < t.end(i) && irrefutable(t, i + 1)
    } else if kind == "tuple_pattern"@ {
        let inner = t.named_children(i);
        inner.len() == 1 && !t.has_child(i, ","@) && inner[0] > i && irrefutable(t, inner[0])
    } else {
        false
    }
}

fn is_irrefutable(tree: &SyntaxTree, pattern: usize) -> (r: bool)
    requires
        tree.wf(),
        pattern < tree@.len(),
    ensures
        r == irrefutable(tree@, pattern as int),
{
    let mut i: usize = pattern;
    loop
        invariant
            tree.wf(),
            i < tree@.len(),
            irrefutable(tree@, i as int) == irrefutable(tree@, pattern as int),
        decreases tree@.len() - i,
    {
        assert(tree@.end_at(i as int));
        if tree.is(i, "_") || tree.is(i, "identifier") {
            return true;
        } else if tree.is(i, "dotted_name") {
            let inner = tree.named_children(i);
            assert(indices(inner@).len() == inner@.len());
            return inner.len() == 1;
        } else if tree.is(i, "case_pattern") || tree.is(i, "as_pattern") {
            if i + 1 >= tree.ends[i] {
                return false;
            }
            i = i + 1;
        } else if tree.is(i, "tuple_pattern") {
            let inner = tree.named_children(i);
            assert(indices(inner@).len() == inner@.len());
            if inner.len() != 1 || tree.has_child(i, ",") {
                return false;
            }
            assert(indices(inner@)[0] == inner@[0]);
            i = inner[0];
        } else {
            return false;
        }
    }
}

/// The prefix of a string literal marks it as bytes or as formatted.
pub open spec fn special_prefix(t: Syntax, i: int) -> bool {
    exists|b: int|
        t.nodes[i].start_byte <= b < t.nodes[i].end_byte && is_prefix_letter(#[trigger] t.source[b])
}

/// One of `b B f F`.
pub open spec fn is_prefix_letter(byte: u8) -> bool {
    byte == 98 || byte == 66 || byte == 102 || byte == 70
}

/// From `at` up to `stop` there are only ordinary strings, and one was found.
pub open spec fn ordinary_strings(t: Syntax, at: int, stop: int, seen: bool) -> bool
    decreases remaining(at, stop),
{
    let kind = t.kind(at);
    if at >= stop || t.end(at) <= at {
        seen
    } else if !t.named(at) || kind == "comment"@ || kind == "line_continuation"@ {
        ordinary_strings(t, t.end(at), stop, seen)
    } else if kind == "string"@ {
        at + 1 < t.end(at) && !special_prefix(t, at + 1) && ordinary_strings(
            t,
            t.end(at),
            stop,
            true,
        )
    } else if kind == "parenthesized_expression"@ || kind == "concatenated_string"@ {
        ordinary_strings(t, at + 1, stop, seen)
    } else {
        false
    }
}

fn has_special_prefix(tree: &SyntaxTree, i: usize) -> (r: bool)
    requires
        tree.wf(),
        i < tree@.len(),
    ensures
        r == special_prefix(tree@, i as int),
{
    let mut b: usize = tree.nodes[i].start_byte;
    let end: usize = tree.nodes[i].end_byte;
    while b < end
        invariant
            tree.wf(),
            i < tree@.len(),
            end == tree@.nodes[i as int].end_byte,
            tree@.nodes[i as int].start_byte <= b <= end <= tree@.source.len(),
            forall|k: int|
                tree@.nodes[i as int].start_byte <= k < b ==> !is_prefix_letter(
                    #[trigger] tree@.source[k],
                ),
        decreases end - b,
    {
        let byte: u8 = tree.source[b];
        if byte == 98 || byte == 66 || byte == 102 || byte == 70 {
            assert(is_prefix_letter(tree@.source[b as int]));
            return true;
        }
        b = b + 1;
    }
    false
}

fn is_ordinary_string(tree: &SyntaxTree, i: usize) -> (r: bool)
    requires
        tree.wf(),
        i < tree@.len(),
    ensures
        r == ordinary_strings(tree@, i as int, tree@.end(i as int), false),
{
    assert(tree@.end_at(i as int));
    let stop: usize = tree.ends[i];
    let mut at: usize = i;
    let mut seen: bool = false;
    while at < stop
        invariant
            tree.wf(),
            stop == tree@.end(i as int),
            stop <= tree@.len(),
            ordinary_strings(tree@, at as int, stop as int, seen) == ordinary_strings(
                tree@,
                i as int,
                stop as int,
                false,
            ),
        decreases remaining(at as int, stop as int),
    {
        assert(tree@.end_at(at as int));
        if !tree.nodes[at].named || tree.is(at, "comment") || tree.is(at, "line_continuation") {
            at = tree.ends[at];
        } else if tree.is(at, "string") {
            if at + 1 >= tree.ends[at] || has_special_prefix(tree, at + 1) {
                return false;
            }
            seen = true;
            at = tree.ends[at];
        } else if tree.is(at, "parenthesized_expression") || tree.is(at, "concatenated_string") {
            at = at + 1;
        } else {
            return false;
        }
    }
    seen
}

/// Statements stand at the start of a module, a function or a class.
pub open spec fn opens_scope(t: Syntax, i: int) -> bool {
    t.kind(i) == "module"@ || (t.kind(i) == "block"@ && i > 0 && (t.kind(t.parent(i))
        == "function_definition"@ || t.kind(t.parent(i)) == "class_definition"@))
}

/// The node does not end a run of comments.
pub open spec fn is_trivia(t: Syntax, i: int) -> bool {
    t.kind(i) == "comment"@ || t.kind(i) == "line_continuation"@
}

/// Every one of the nodes that stands before `i` is a comment.
pub open spec fn only_trivia_before(t: Syntax, nodes: Seq<int>, i: int) -> bool {
    forall|k: int| 0 <= k < nodes.len() && #[trigger] nodes[k] < i ==> is_trivia(t, nodes[k])
}

/// The node is the docstring of a module, a function or a class.
pub open spec fn docstring(t: Syntax, i: int) -> bool {
    let parts = t.named_children(i);
    &&& t.kind(i) == "expression_statement"@
    &&& parts.len() == 1
    &&& i > 0
    &&& opens_scope(t, t.parent(i))
    &&& only_trivia_before(t, t.named_children(t.parent(i)), i)
    &&& ordinary_strings(t, parts[0], t.end(parts[0]), false)
}

fn trivia(tree: &SyntaxTree, i: usize) -> (r: bool)
    requires
        tree.wf(),
        i < tree@.len(),
    ensures
        r == is_trivia(tree@, i as int),
{
    tree.is(i, "comment") || tree.is(i, "line_continuation")
}

fn is_docstring(tree: &SyntaxTree, i: usize) -> (r: bool)
    requires
        tree.wf(),
        i < tree@.len(),
    ensures
        r == docstring(tree@, i as int),
{
    if i == 0 || !tree.is(i, "expression_statement") {
        return false;
    }
    let parts = tree.named_children(i);
    assert(indices(parts@).len() == parts@.len());
    if parts.len() != 1 {
        return false;
    }
    assert(indices(parts@)[0] == parts@[0]);
    assert(tree@.parent_at(i as int));
    let parent: usize = tree.parents[i];
    let opens: bool = if tree.is(parent, "module") {
        true
    } else if parent > 0 && tree.is(parent, "block") {
        assert(tree@.parent_at(parent as int));
        let owner: usize = tree.parents[parent];
        tree.is(owner, "function_definition") || tree.is(owner, "class_definition")
    } else {
        false
    };
    if !opens {
        return false;
    }
    let siblings = tree.named_children(parent);
    let mut k: usize = 0;
    while k < siblings.len()
        invariant
            tree.wf(),
            parent < i < tree@.len(),
            parent == tree@.parent(i as int),
            indices(siblings@) == tree@.named_children(parent as int),
            tree@.end(parent as int) <= tree@.len(),
            forall|n: int|
                0 <= n < siblings@.len() ==> parent < #[trigger] siblings@[n] < tree@.end(
                    parent as int,
                ),
            k <= siblings@.len(),
            forall|n: int|
                0 <= n < k && #[trigger] indices(siblings@)[n] < i ==> is_trivia(
                    tree@,
                    indices(siblings@)[n],
                ),
        decreases siblings@.len() - k,
    {
        let sibling: usize = siblings[k];
        assert(indices(siblings@)[k as int] == sibling);
        if sibling < i && !trivia(tree, sibling) {
            assert(!only_trivia_before(tree@, tree@.named_children(parent as int), i as int));
            return false;
        }
        k = k + 1;
    }
    is_ordinary_string(tree, parts[0])
}

/// The kinds that add one decision wherever they stand.
pub open spec fn is_decision(kind: Seq<char>) -> bool {
    ||| kind == "if_statement"@
    ||| kind == "elif_clause"@
    ||| kind == "for_statement"@
    ||| kind == "while_statement"@
    ||| kind == "except_clause"@
    ||| kind == "conditional_expression"@
    ||| kind == "assert_statement"@
    ||| kind == "for_in_clause"@
    ||| kind == "if_clause"@
    ||| kind == "boolean_operator"@
}

/// An `else` that runs where a loop or a `try` ended on its own.
pub open spec fn is_loop_else(t: Syntax, i: int) -> bool {
    &&& t.kind(i) == "else_clause"@
    &&& i > 0
    &&& {
        ||| t.kind(t.parent(i)) == "for_statement"@
        ||| t.kind(t.parent(i)) == "while_statement"@
        ||| t.kind(t.parent(i)) == "try_statement"@
    }
}

/// A `case` that catches every value.
pub open spec fn is_default_case(t: Syntax, i: int) -> bool {
    let patterns = t.named_of_kind(i, "case_pattern"@);
    patterns.len() == 1 && irrefutable(t, patterns[0])
}

/// The name of a callable: its own, or that of what it is assigned to.
pub open spec fn name_node(t: Syntax, i: int) -> Option<int> {
    match t.field(i, "name"@) {
        Some(name) => Some(name),
        None => if i > 0 && t.kind(t.parent(i)) == "assignment"@ {
            t.field(t.parent(i), "left"@)
        } else {
            None
        },
    }
}

/// The body holds no statement.
pub open spec fn is_empty_block(t: Syntax, i: int) -> bool {
    t.kind(i) == "block"@ && forall|k: int|
        0 <= k < t.named_children(i).len() ==> is_trivia(t, #[trigger] t.named_children(i)[k])
}

fn decides(tree: &SyntaxTree, i: usize) -> (r: bool)
    requires
        tree.wf(),
        i < tree@.len(),
    ensures
        r == is_decision(tree@.kind(i as int)),
{
    tree.is(i, "if_statement") || tree.is(i, "elif_clause") || tree.is(i, "for_statement")
        || tree.is(i, "while_statement") || tree.is(i, "except_clause") || tree.is(
        i,
        "conditional_expression",
    ) || tree.is(i, "assert_statement") || tree.is(i, "for_in_clause") || tree.is(i, "if_clause")
        || tree.is(i, "boolean_operator")
}

fn loop_else(tree: &SyntaxTree, i: usize) -> (r: bool)
    requires
        tree.wf(),
        i < tree@.len(),
    ensures
        r == is_loop_else(tree@, i as int),
{
    if i == 0 || !tree.is(i, "else_clause") {
        return false;
    }
    assert(tree@.parent_at(i as int));
    let parent: usize = tree.parents[i];
    tree.is(parent, "for_statement") || tree.is(parent, "while_statement") || tree.is(
        parent,
        "try_statement",
    )
}

fn default_case(tree: &SyntaxTree, i: usize) -> (r: bool)
    requires
        tree.wf(),
        i < tree@.len(),
    ensures
        r == is_default_case(tree@, i as int),
{
    let patterns = tree.named_of_kind(i, "case_pattern");
    assert(indices(patterns@).len() == patterns@.len());
    if patterns.len() != 1 {
        return false;
    }
    assert(indices(patterns@)[0] == patterns@[0]);
    is_irrefutable(tree, patterns[0])
}

fn empty_block(tree: &SyntaxTree, i: usize) -> (r: bool)
    requires
        tree.wf(),
        i < tree@.len(),
    ensures
        r == is_empty_block(tree@, i as int),
{
    if !tree.is(i, "block") {
        return false;
    }
    let parts = tree.named_children(i);
    let mut k: usize = 0;
    while k < parts.len()
        invariant
            tree.wf(),
            indices(parts@) == tree@.named_children(i as int),
            tree@.end(i as int) <= tree@.len(),
            forall|n: int|
                0 <= n < parts@.len() ==> i < #[trigger] parts@[n] < tree@.end(i as int),
            k <= parts@.len(),
            forall|n: int|
                0 <= n < k ==> is_trivia(tree@, #[trigger] tree@.named_children(i as int)[n]),
        decreases parts@.len() - k,
    {
        assert(tree@.named_children(i as int)[k as int] == parts@[k as int]);
        if !trivia(tree, parts[k]) {
            return false;
        }
        k = k + 1;
    }
    true
}

impl SyntaxRules for PythonRules {
    open spec fn callable_spec(t: Syntax, i: int) -> bool {
        (t.kind(i) == "function_definition"@ || t.kind(i) == "lambda"@) && t.field(
            i,
            "body"@,
        ) is Some
    }

    open spec fn decisions_spec(t: Syntax, i: int) -> u64 {
        if is_decision(t.kind(i)) || is_loop_else(t, i) || (t.kind(i) == "case_clause"@
            && !is_default_case(t, i)) {
            1
        } else {
            0
        }
    }

    open spec fn name_spec(t: Syntax, i: int) -> Seq<char> {
        match name_node(t, i) {
            Some(name) => t.text(name),
            None => "<lambda>"@,
        }
    }

    open spec fn ignored_spec(t: Syntax, i: int) -> bool {
        t.kind(i) == "comment"@ || docstring(t, i)
    }

    open spec fn validation_error_spec(t: Syntax, i: int) -> Option<Seq<char>> {
        if is_empty_block(t, i) {
            Some("Expected a non-empty Python body"@)
        } else {
            None
        }
    }

    open spec fn test_regions_spec(t: Syntax) -> Seq<RegionModel> {
        python_test_regions(t)
    }

    fn callable(tree: &SyntaxTree, i: usize) -> (r: bool) {
        (tree.is(i, "function_definition") || tree.is(i, "lambda")) && tree.field(
            i,
            "body",
        ).is_some()
    }

    fn decisions(tree: &SyntaxTree, i: usize) -> (count: u64) {
        if decides(tree, i) || loop_else(tree, i) || (tree.is(i, "case_clause") && !default_case(
            tree,
            i,
        )) {
            1
        } else {
            0
        }
    }

    fn name(tree: &SyntaxTree, i: usize) -> (name: String) {
        match tree.field(i, "name") {
            Some(name) => tree.text(name).to_owned(),
            None => {
                if i > 0 {
                    assert(tree@.parent_at(i as int));
                    let parent: usize = tree.parents[i];
                    if tree.is(parent, "assignment") {
                        match tree.field(parent, "left") {
                            Some(name) => {
                                return tree.text(name).to_owned();
                            },
                            None => {},
                        }
                    }
                }
                "<lambda>".to_owned()
            },
        }
    }

    fn ignored(tree: &SyntaxTree, i: usize) -> (r: bool) {
        tree.is(i, "comment") || is_docstring(tree, i)
    }

    fn validation_error(tree: &SyntaxTree, i: usize) -> (message: Option<&'static str>) {
        if empty_block(tree, i) {
            Some("Expected a non-empty Python body")
        } else {
            None
        }
    }

    fn test_regions(tree: &SyntaxTree) -> (regions: Vec<TestRegion>) {
        find_python_tests(tree)
    }
}

} // verus!
