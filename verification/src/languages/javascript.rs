//! JavaScript and TypeScript: callables, decisions and names.

use vstd::prelude::*;
use vstd::slice::*;

pub use super::adapters::JavaScriptAdapter;
use super::javascript_tests::{find_javascript_tests, javascript_test_regions};
use super::syntax::{
    first_named, first_named_child, found, indices, remaining, Syntax, SyntaxTree,
};
use super::tree::SyntaxRules;
use crate::metrics::{RegionModel, TestRegion};
use crate::text::{decode, decoded};

verus! {

/// The rules of JavaScript and TypeScript.
pub struct JavaScriptRules;

pub open spec fn is_callable_kind(kind: Seq<char>) -> bool {
    ||| kind == "function_declaration"@
    ||| kind == "function_expression"@
    ||| kind == "generator_function_declaration"@
    ||| kind == "generator_function"@
    ||| kind == "arrow_function"@
    ||| kind == "method_definition"@
}

pub fn callable_kind(tree: &SyntaxTree, i: usize) -> (r: bool)
    requires
        tree.wf(),
        i < tree@.len(),
    ensures
        r == is_callable_kind(tree@.kind(i as int)),
{
    tree.is(i, "function_declaration") || tree.is(i, "function_expression") || tree.is(
        i,
        "generator_function_declaration",
    ) || tree.is(i, "generator_function") || tree.is(i, "arrow_function") || tree.is(
        i,
        "method_definition",
    )
}

/// The kinds that add one decision wherever they stand.
pub open spec fn is_decision(kind: Seq<char>) -> bool {
    ||| kind == "catch_clause"@
    ||| kind == "if_statement"@
    ||| kind == "switch_statement"@
    ||| kind == "ternary_expression"@
    ||| kind == "do_statement"@
    ||| kind == "for_in_statement"@
    ||| kind == "for_statement"@
    ||| kind == "while_statement"@
}

/// The operator of a binary expression short-circuits.
pub open spec fn is_short_circuit(t: Syntax, i: int) -> bool {
    t.kind(i) == "binary_expression"@ && match t.field(i, "operator"@) {
        Some(operator) => t.kind(operator) == "&&"@ || t.kind(operator) == "||"@,
        None => false,
    }
}

/// The name of a callable: its own, or that of the variable that it is the value
/// of.
pub open spec fn name_node(t: Syntax, i: int) -> Option<int> {
    match t.field(i, "name"@) {
        Some(name) => Some(name),
        None => if i > 0 && t.kind(t.parent(i)) == "variable_declarator"@ {
            t.field(t.parent(i), "name"@)
        } else {
            None
        },
    }
}

impl SyntaxRules for JavaScriptRules {
    open spec fn callable_spec(t: Syntax, i: int) -> bool {
        is_callable_kind(t.kind(i)) && t.field(i, "body"@) is Some
    }

    open spec fn decisions_spec(t: Syntax, i: int) -> u64 {
        if is_decision(t.kind(i)) || is_short_circuit(t, i) {
            1
        } else {
            0
        }
    }

    open spec fn name_spec(t: Syntax, i: int) -> Seq<char> {
        match name_node(t, i) {
            Some(name) => t.text(name),
            None => "<anonymous>"@,
        }
    }

    open spec fn ignored_spec(t: Syntax, i: int) -> bool {
        t.kind(i) == "comment"@
    }

    open spec fn validation_error_spec(t: Syntax, i: int) -> Option<Seq<char>> {
        None
    }

    open spec fn test_regions_spec(t: Syntax) -> Seq<RegionModel> {
        javascript_test_regions(t)
    }

    fn callable(tree: &SyntaxTree, i: usize) -> (r: bool) {
        callable_kind(tree, i) && tree.field(i, "body").is_some()
    }

    fn decisions(tree: &SyntaxTree, i: usize) -> (count: u64) {
        if tree.is(i, "catch_clause") || tree.is(i, "if_statement") || tree.is(
            i,
            "switch_statement",
        ) || tree.is(i, "ternary_expression") || tree.is(i, "do_statement") || tree.is(
            i,
            "for_in_statement",
        ) || tree.is(i, "for_statement") || tree.is(i, "while_statement") {
            return 1;
        }
        if !tree.is(i, "binary_expression") {
            return 0;
        }
        match tree.field(i, "operator") {
            Some(operator) => if tree.is(operator, "&&") || tree.is(operator, "||") {
                1
            } else {
                0
            },
            None => 0,
        }
    }

    fn name(tree: &SyntaxTree, i: usize) -> (name: String) {
        match tree.field(i, "name") {
            Some(name) => tree.text(name).to_owned(),
            None => {
                if i > 0 {
                    assert(tree@.parent_at(i as int));
                    let parent: usize = tree.parents[i];
                    if tree.is(parent, "variable_declarator") {
                        match tree.field(parent, "name") {
                            Some(name) => {
                                return tree.text(name).to_owned();
                            },
                            None => {},
                        }
                    }
                }
                "<anonymous>".to_owned()
            },
        }
    }

    fn ignored(tree: &SyntaxTree, i: usize) -> (r: bool) {
        tree.is(i, "comment")
    }

    fn validation_error(tree: &SyntaxTree, i: usize) -> (message: Option<&'static str>) {
        None
    }

    fn test_regions(tree: &SyntaxTree) -> (regions: Vec<TestRegion>) {
        find_javascript_tests(tree)
    }
}

/// What stands inside parentheses or a type assertion.
pub open spec fn wrapped(t: Syntax, i: int) -> Option<int> {
    let kind = t.kind(i);
    if kind == "parenthesized_expression"@ || kind == "as_expression"@ || kind
        == "satisfies_expression"@ || kind == "non_null_expression"@ || kind
        == "instantiation_expression"@ {
        first_named(t, i)
    } else if kind == "type_assertion"@ && t.named_children(i).len() > 0 {
        Some(t.named_children(i).last())
    } else {
        None
    }
}

/// An expression without parentheses and type assertions around it.
pub open spec fn unwrapped(t: Syntax, i: int) -> int
    decreases remaining(i, t.len()),
{
    match wrapped(t, i) {
        Some(inner) => if i < inner && i < t.len() {
            unwrapped(t, inner)
        } else {
            i
        },
        None => i,
    }
}

/// What stands inside parentheses or a type assertion.
pub fn find_wrapped(tree: &SyntaxTree, i: usize) -> (inner: Option<usize>)
    requires
        tree.wf(),
        i < tree@.len(),
    ensures
        found(inner) == wrapped(tree@, i as int),
        inner is Some ==> i < inner->0 < tree@.end(i as int) <= tree@.len(),
{
    if tree.is(i, "parenthesized_expression") || tree.is(i, "as_expression") || tree.is(
        i,
        "satisfies_expression",
    ) || tree.is(i, "non_null_expression") || tree.is(i, "instantiation_expression") {
        first_named_child(tree, i)
    } else if tree.is(i, "type_assertion") {
        let children = tree.named_children(i);
        assert(indices(children@).len() == children@.len());
        if children.len() == 0 {
            None
        } else {
            let last: usize = children.len() - 1;
            assert(indices(children@)[last as int] == children@[last as int]);
            Some(children[last])
        }
    } else {
        None
    }
}

/// An expression without parentheses and type assertions around it.
pub fn unwrap_expression(tree: &SyntaxTree, i: usize) -> (inner: usize)
    requires
        tree.wf(),
        i < tree@.len(),
    ensures
        inner == unwrapped(tree@, i as int),
        i <= inner < tree@.len(),
{
    let mut at: usize = i;
    loop
        invariant
            tree.wf(),
            i <= at < tree@.len(),
            unwrapped(tree@, at as int) == unwrapped(tree@, i as int),
        decreases tree@.len() - at,
    {
        match find_wrapped(tree, at) {
            Some(inner) => {
                at = inner;
            },
            None => {
                return at;
            },
        }
    }
}

/// The bytes of a node.
pub open spec fn node_bytes(t: Syntax, i: int) -> Seq<u8> {
    t.source.subrange(t.nodes[i].start_byte as int, t.nodes[i].end_byte as int)
}

pub open spec fn is_quote(byte: u8) -> bool {
    byte == 39 || byte == 34 || byte == 96
}

/// The bytes hold neither an escape nor a substitution.
pub open spec fn is_verbatim(s: Seq<u8>) -> bool {
    &&& forall|k: int| 0 <= k < s.len() ==> #[trigger] s[k] != 92u8
    &&& forall|k: int|
        0 <= k < s.len() - 1 ==> !(#[trigger] s[k] == 36u8 && s[k + 1] == 123u8)
}

/// The bytes are a string literal whose value stands between its quotes.
pub open spec fn is_literal(s: Seq<u8>) -> bool {
    s.len() >= 2 && is_quote(s[0]) && s[s.len() - 1] == s[0] && is_verbatim(s)
}

/// The value of a string literal without escapes and substitutions.
pub open spec fn literal(t: Syntax, i: int) -> Option<Seq<char>> {
    let s = node_bytes(t, i);
    if is_literal(s) {
        Some(decoded(s.subrange(1, s.len() - 1)))
    } else {
        None
    }
}

fn plain_literal(s: &[u8]) -> (r: bool)
    ensures
        r == is_literal(s@),
{
    if s.len() < 2 || !(s[0] == 39 || s[0] == 34 || s[0] == 96) || s[s.len() - 1] != s[0] {
        return false;
    }
    let mut k: usize = 0;
    while k < s.len()
        invariant
            k <= s@.len(),
            s@.len() >= 2,
            forall|n: int| 0 <= n < k ==> #[trigger] s@[n] != 92u8,
            forall|n: int|
                0 <= n < k && n < s@.len() - 1 ==> !(#[trigger] s@[n] == 36u8 && s@[n + 1]
                    == 123u8),
        decreases s@.len() - k,
    {
        if s[k] == 92 {
            assert(!is_verbatim(s@));
            return false;
        }
        if s[k] == 36 && k < s.len() - 1 && s[k + 1] == 123 {
            assert(s@[k as int] == 36u8 && s@[k + 1] == 123u8);
            assert(!is_verbatim(s@));
            return false;
        }
        k = k + 1;
    }
    true
}

pub open spec fn text_of(text: Option<&str>) -> Option<Seq<char>> {
    match text {
        Some(text) => Some(text@),
        None => None,
    }
}

/// The value of a string literal without escapes and substitutions.
pub fn literal_text(tree: &SyntaxTree, i: usize) -> (text: Option<&str>)
    requires
        tree.wf(),
        i < tree@.len(),
    ensures
        text_of(text) == literal(tree@, i as int),
{
    let node = &tree.nodes[i];
    let bytes: &[u8] = slice_subrange(tree.source.as_slice(), node.start_byte, node.end_byte);
    if plain_literal(bytes) {
        Some(decode(slice_subrange(bytes, 1, bytes.len() - 1)))
    } else {
        None
    }
}

} // verus!
