//! Which Python strings are documentation.

use vstd::prelude::*;

use crate::languages::python::{
    docstring, is_prefix_letter, is_trivia, only_trivia_before, ordinary_strings, special_prefix,
    PythonRules,
};
use crate::languages::syntax::Syntax;
use crate::languages::tree::SyntaxRules;

verus! {

/// A docstring is a statement of plain strings alone, the first of a module, a function
/// or a class; only comments and continued lines may stand before it.
pub proof fn docstrings_stand_first(t: Syntax, i: int)
    requires
        t.kind(i) != "comment"@,
    ensures
        PythonRules::ignored_spec(t, i) <==> {
            let parts = t.named_children(i);
            let around = t.named_children(t.parent(i));
            let holder = t.parent(i);
            &&& t.kind(i) == "expression_statement"@
            &&& parts.len() == 1
            &&& i > 0
            &&& t.kind(holder) == "module"@ || t.kind(holder) == "block"@ && holder > 0 && (t.kind(
                t.parent(holder),
            ) == "function_definition"@ || t.kind(t.parent(holder)) == "class_definition"@)
            &&& forall|k: int|
                0 <= k < around.len() && #[trigger] around[k] < i ==> t.kind(around[k])
                    == "comment"@ || t.kind(around[k]) == "line_continuation"@
            &&& ordinary_strings(t, parts[0], t.end(parts[0]), false)
        },
{
    let around = t.named_children(t.parent(i));
    assert(only_trivia_before(t, around, i) == forall|k: int|
        0 <= k < around.len() && #[trigger] around[k] < i ==> t.kind(around[k]) == "comment"@
            || t.kind(around[k]) == "line_continuation"@) by {
        if only_trivia_before(t, around, i) {
            assert forall|k: int| 0 <= k < around.len() && #[trigger] around[k] < i implies t.kind(
                around[k],
            ) == "comment"@ || t.kind(around[k]) == "line_continuation"@ by {
                assert(is_trivia(t, around[k]));
            }
        }
    }
}

/// The letters that make a string of bytes or a formatted one.
pub proof fn prefixes_of_strings(b: u8, t: Syntax, i: int)
    ensures
        is_prefix_letter(b) <==> b == 'b' as u8 || b == 'B' as u8 || b == 'f' as u8 || b
            == 'F' as u8,
        special_prefix(t, i) <==> exists|k: int|
            t.nodes[i].start_byte <= k && k < t.nodes[i].end_byte && is_prefix_letter(
                #[trigger] t.source[k],
            ),
{
    assert('b' as u8 == 98u8 && 'B' as u8 == 66u8 && 'f' as u8 == 102u8 && 'F' as u8 == 70u8);
}

/// Strings may be joined and stand in parentheses, with comments and continued lines
/// among them. One with a prefix for bytes or formats is not plain, and nothing but
/// strings is.
pub proof fn strings_are_plain(t: Syntax, at: int, stop: int, seen: bool)
    requires
        at < stop,
        t.end(at) > at,
    ensures
        ({
            let kind = t.kind(at);
            let found = ordinary_strings(t, at, stop, seen);
            let rest = t.end(at);
            let passed = !t.named(at) || kind == "comment"@ || kind == "line_continuation"@;
            let group = kind == "parenthesized_expression"@ || kind == "concatenated_string"@;
            &&& passed ==> found == ordinary_strings(t, rest, stop, seen)
            &&& !passed && kind == "string"@ ==> (found <==> at + 1 < rest && !special_prefix(
                t,
                at + 1,
            ) && ordinary_strings(t, rest, stop, true))
            &&& !passed && group ==> found == ordinary_strings(t, at + 1, stop, seen)
            &&& !passed && kind != "string"@ && !group ==> !found
        }),
        ordinary_strings(t, stop, stop, seen) == seen,
{
    reveal_strlit("comment");
    reveal_strlit("line_continuation");
    reveal_strlit("string");
    reveal_strlit("parenthesized_expression");
    reveal_strlit("concatenated_string");
    assert("comment"@.len() == 7);
    assert("line_continuation"@.len() == 17);
    assert("string"@.len() == 6);
    assert("parenthesized_expression"@.len() == 24);
    assert("concatenated_string"@.len() == 19);
}

} // verus!
