//! Which syntax is a decision, a callable or a comment in each language.

use vstd::prelude::*;

use crate::languages::gleam::GleamRules;
use crate::languages::javascript::JavaScriptRules;
use crate::languages::python::PythonRules;
use crate::languages::rust::RustRules;
use crate::languages::syntax::Syntax;
use crate::languages::tree::SyntaxRules;

verus! {

/// The node is one of the given kinds.
pub open spec fn one_of(t: Syntax, i: int, kinds: Seq<Seq<char>>) -> bool {
    kinds.contains(t.kind(i))
}

/// The node fills a field of its parent and is of a kind.
pub open spec fn field_is(t: Syntax, i: int, field: Seq<char>, kind: Seq<char>) -> bool {
    match t.field(i, field) {
        Some(child) => t.kind(child) == kind,
        None => false,
    }
}

/// The operator of a binary expression is "and" or "or".
pub open spec fn joins_conditions(t: Syntax, i: int) -> bool {
    t.kind(i) == "binary_expression"@ && (field_is(t, i, "operator"@, "&&"@) || field_is(
        t,
        i,
        "operator"@,
        "||"@,
    ))
}

/// From one node to the next, each the only child of the one before, down to a
/// wildcard.
pub open spec fn leads_to_wildcard(t: Syntax, way: Seq<int>) -> bool {
    &&& way.len() > 0
    &&& t.kind(way.last()) == "_"@
    &&& forall|k: int|
        0 <= k < way.len() - 1 ==> t.children(#[trigger] way[k]).len() == 1 && t.children(way[k])[0]
            == way[k + 1] && 0 <= way[k] < way[k + 1] && way[k] < t.len()
}

proof fn lemma_wildcard_way(t: Syntax, p: int) -> (way: Seq<int>)
    requires
        crate::languages::rust::wildcard(t, p),
        0 <= p,
    ensures
        leads_to_wildcard(t, way),
        way[0] == p,
    decreases t.len() - p,
{
    if t.kind(p) == "_"@ {
        seq![p]
    } else {
        let c = t.children(p)[0];
        let rest = lemma_wildcard_way(t, c);
        let way = seq![p] + rest;
        assert forall|k: int| 0 <= k < way.len() - 1 implies t.children(#[trigger] way[k]).len()
            == 1 && t.children(way[k])[0] == way[k + 1] && 0 <= way[k] < way[k + 1] && way[k]
            < t.len() by {
            if k > 0 {
                assert(way[k] == rest[k - 1] && way[k + 1] == rest[k]);
            } else {
                assert(way[1] == rest[0]);
            }
        }
        assert(way.last() == rest.last());
        way
    }
}

proof fn lemma_way_is_wildcard(t: Syntax, way: Seq<int>)
    requires
        leads_to_wildcard(t, way),
    ensures
        crate::languages::rust::wildcard(t, way[0]),
    decreases way.len(),
{
    if way.len() > 1 && t.kind(way[0]) != "_"@ {
        let rest = way.subrange(1, way.len() as int);
        assert forall|k: int| 0 <= k < rest.len() - 1 implies t.children(#[trigger] rest[k]).len()
            == 1 && t.children(rest[k])[0] == rest[k + 1] && 0 <= rest[k] < rest[k + 1] && rest[k]
            < t.len() by {
            assert(rest[k] == way[k + 1] && rest[k + 1] == way[k + 2]);
        }
        assert(rest.last() == way.last());
        lemma_way_is_wildcard(t, rest);
        assert(t.children(way[0]).len() == 1);
    }
}

/// In Rust every `if`, `for`, `while` and `loop` is one decision, and so are a match arm
/// that is no wildcard, a `let` with an `else`, and each `&&` and `||`. Nothing else is.
pub proof fn rust_decisions(t: Syntax, i: int)
    requires
        t.wf(),
        0 <= i < t.len(),
    ensures
        RustRules::decisions_spec(t, i) <= 1,
        t.kind(i) == "if_expression"@ ==> RustRules::decisions_spec(t, i) == 1,
        t.kind(i) == "for_expression"@ ==> RustRules::decisions_spec(t, i) == 1,
        t.kind(i) == "while_expression"@ ==> RustRules::decisions_spec(t, i) == 1,
        t.kind(i) == "loop_expression"@ ==> RustRules::decisions_spec(t, i) == 1,
        t.kind(i) == "let_declaration"@ ==> (RustRules::decisions_spec(t, i) == 1 <==> t.field(
            i,
            "alternative"@,
        ) is Some),
        t.kind(i) == "binary_expression"@ ==> (RustRules::decisions_spec(t, i) == 1
            <==> joins_conditions(t, i)),
        t.kind(i) == "match_arm"@ ==> (RustRules::decisions_spec(t, i) == 0 <==> exists|
            way: Seq<int>,
        | #[trigger]
            leads_to_wildcard(t, way) && t.field(i, "pattern"@) == Some(way[0])),
        RustRules::decisions_spec(t, i) == 1 ==> one_of(
            t,
            i,
            seq![
                "if_expression"@,
                "for_expression"@,
                "while_expression"@,
                "loop_expression"@,
                "let_declaration"@,
                "binary_expression"@,
                "match_arm"@,
            ],
        ),
{
    reveal_strlit("if_expression");
    reveal_strlit("for_expression");
    reveal_strlit("while_expression");
    reveal_strlit("loop_expression");
    reveal_strlit("let_declaration");
    reveal_strlit("binary_expression");
    reveal_strlit("match_arm");
    assert("if_expression"@.len() == 13);
    assert("for_expression"@.len() == 14);
    assert("while_expression"@.len() == 16);
    assert("loop_expression"@.len() == 15 && "loop_expression"@[1] == 'o');
    assert("let_declaration"@.len() == 15 && "let_declaration"@[1] == 'e');
    assert("binary_expression"@.len() == 17);
    assert("match_arm"@.len() == 9);
    assert({
        let all = seq!["if_expression"@, "for_expression"@, "while_expression"@, "loop_expression"@, "let_declaration"@, "binary_expression"@, "match_arm"@];
        all[0] == "if_expression"@ && all[1] == "for_expression"@ && all[2] == "while_expression"@ && all[3] == "loop_expression"@ && all[4] == "let_declaration"@ && all[5] == "binary_expression"@ && all[6] == "match_arm"@
    });
    if t.kind(i) == "match_arm"@ {
        if RustRules::decisions_spec(t, i) == 0 {
            let p = t.field(i, "pattern"@)->0;
            crate::laws::nodes::fields_are_children(t, i, "pattern"@);
            let way = lemma_wildcard_way(t, p);
            assert(leads_to_wildcard(t, way) && t.field(i, "pattern"@) == Some(way[0]));
        }
        if exists|way: Seq<int>| #[trigger]
            leads_to_wildcard(t, way) && t.field(i, "pattern"@) == Some(way[0]) {
            let way = choose|way: Seq<int>| #[trigger]
                leads_to_wildcard(t, way) && t.field(i, "pattern"@) == Some(way[0]);
            lemma_way_is_wildcard(t, way);
        }
    }
}

/// In JavaScript and TypeScript every `if`, `switch`, `catch`, conditional expression and
/// loop is one decision, and so are `&&` and `||`. Nothing else is, `??` and a single
/// case among them.
pub proof fn javascript_decisions(t: Syntax, i: int)
    ensures
        JavaScriptRules::decisions_spec(t, i) <= 1,
        JavaScriptRules::decisions_spec(t, i) == 1 <==> one_of(
            t,
            i,
            seq![
                "if_statement"@,
                "switch_statement"@,
                "catch_clause"@,
                "ternary_expression"@,
                "for_statement"@,
                "for_in_statement"@,
                "while_statement"@,
                "do_statement"@,
            ],
        ) || joins_conditions(t, i),
{
    assert({
        let all = seq!["if_statement"@, "switch_statement"@, "catch_clause"@, "ternary_expression"@, "for_statement"@, "for_in_statement"@, "while_statement"@, "do_statement"@];
        all[0] == "if_statement"@ && all[1] == "switch_statement"@ && all[2] == "catch_clause"@ && all[3] == "ternary_expression"@ && all[4] == "for_statement"@ && all[5] == "for_in_statement"@ && all[6] == "while_statement"@ && all[7] == "do_statement"@
    });
}

/// In Python every `if`, `elif`, `for`, `while`, `except`, conditional expression,
/// `assert`, comprehension clause and boolean operator is one decision, and so are the
/// `else` of a loop or of a `try`, and a case that does not catch everything. Nothing
/// else is.
pub proof fn python_decisions(t: Syntax, i: int)
    requires
        0 <= i,
    ensures
        PythonRules::decisions_spec(t, i) <= 1,
        one_of(
            t,
            i,
            seq![
                "if_statement"@,
                "elif_clause"@,
                "for_statement"@,
                "while_statement"@,
                "except_clause"@,
                "conditional_expression"@,
                "assert_statement"@,
                "for_in_clause"@,
                "if_clause"@,
                "boolean_operator"@,
            ],
        ) ==> PythonRules::decisions_spec(t, i) == 1,
        t.kind(i) == "else_clause"@ && i > 0 ==> (PythonRules::decisions_spec(t, i) == 1
            <==> one_of(
            t,
            t.parent(i),
            seq!["for_statement"@, "while_statement"@, "try_statement"@],
        )),
        t.kind(i) == "case_clause"@ ==> (PythonRules::decisions_spec(t, i) == 0 <==> ({
            let patterns = t.named_of_kind(i, "case_pattern"@);
            patterns.len() == 1 && crate::languages::python::irrefutable(t, patterns[0])
        })),
        PythonRules::decisions_spec(t, i) == 1 ==> one_of(
            t,
            i,
            seq![
                "if_statement"@,
                "elif_clause"@,
                "for_statement"@,
                "while_statement"@,
                "except_clause"@,
                "conditional_expression"@,
                "assert_statement"@,
                "for_in_clause"@,
                "if_clause"@,
                "boolean_operator"@,
                "else_clause"@,
                "case_clause"@,
            ],
        ),
{
    reveal_strlit("if_statement");
    reveal_strlit("elif_clause");
    reveal_strlit("for_statement");
    reveal_strlit("while_statement");
    reveal_strlit("except_clause");
    reveal_strlit("conditional_expression");
    reveal_strlit("assert_statement");
    reveal_strlit("for_in_clause");
    reveal_strlit("if_clause");
    reveal_strlit("boolean_operator");
    reveal_strlit("else_clause");
    reveal_strlit("case_clause");
    assert("if_statement"@.len() == 12);
    assert("elif_clause"@.len() == 11 && "elif_clause"@[0] == 'e' && "elif_clause"@[2] == 'i');
    assert("else_clause"@.len() == 11 && "else_clause"@[0] == 'e' && "else_clause"@[2] == 's');
    assert("case_clause"@.len() == 11 && "case_clause"@[0] == 'c' && "case_clause"@[2] == 's');
    assert("for_statement"@.len() == 13 && "for_statement"@[4] == 's');
    assert("except_clause"@.len() == 13 && "except_clause"@[4] == 'p');
    assert("for_in_clause"@.len() == 13 && "for_in_clause"@[4] == 'i');
    assert("while_statement"@.len() == 15);
    assert("conditional_expression"@.len() == 22);
    assert("assert_statement"@.len() == 16 && "assert_statement"@[0] == 'a');
    assert("boolean_operator"@.len() == 16 && "boolean_operator"@[0] == 'b');
    assert("if_clause"@.len() == 9);
    assert({
        let all = seq!["for_statement"@, "while_statement"@, "try_statement"@];
        all[0] == "for_statement"@ && all[1] == "while_statement"@ && all[2] == "try_statement"@
    });
    assert({
        let all = seq!["if_statement"@, "elif_clause"@, "for_statement"@, "while_statement"@, "except_clause"@, "conditional_expression"@, "assert_statement"@, "for_in_clause"@, "if_clause"@, "boolean_operator"@, "else_clause"@, "case_clause"@];
        all[0] == "if_statement"@ && all[1] == "elif_clause"@ && all[2] == "for_statement"@ && all[3] == "while_statement"@ && all[4] == "except_clause"@ && all[5] == "conditional_expression"@ && all[6] == "assert_statement"@ && all[7] == "for_in_clause"@ && all[8] == "if_clause"@ && all[9] == "boolean_operator"@ && all[10] == "else_clause"@ && all[11] == "case_clause"@
    });
}

/// Which patterns of Python catch every value: a capture, a wildcard, and one of these
/// in parentheses or with another name. A dotted name with more than one part is a
/// value to compare with, and so is every other pattern.
pub proof fn python_patterns_that_catch_all(t: Syntax, i: int)
    requires
        t.wf(),
        0 <= i < t.len(),
    ensures
        t.kind(i) == "_"@ || t.kind(i) == "identifier"@ ==> crate::languages::python::irrefutable(
            t,
            i,
        ),
        t.kind(i) == "dotted_name"@ ==> (crate::languages::python::irrefutable(t, i)
            <==> t.named_children(i).len() == 1),
        (t.kind(i) == "case_pattern"@ || t.kind(i) == "as_pattern"@) ==> (
        crate::languages::python::irrefutable(t, i) <==> t.children(i).len() > 0
            && crate::languages::python::irrefutable(t, t.children(i)[0])),
        t.kind(i) == "tuple_pattern"@ ==> (crate::languages::python::irrefutable(t, i)
            <==> t.named_children(i).len() == 1 && !t.has_child(i, ","@)
            && crate::languages::python::irrefutable(t, t.named_children(i)[0])),
        !one_of(
            t,
            i,
            seq![
                "_"@,
                "identifier"@,
                "dotted_name"@,
                "case_pattern"@,
                "as_pattern"@,
                "tuple_pattern"@,
            ],
        ) ==> !crate::languages::python::irrefutable(t, i),
{
    reveal_strlit("_");
    reveal_strlit("identifier");
    reveal_strlit("dotted_name");
    reveal_strlit("case_pattern");
    reveal_strlit("as_pattern");
    reveal_strlit("tuple_pattern");
    assert("_"@.len() == 1);
    assert("identifier"@.len() == 10 && "identifier"@[0] == 'i');
    assert("as_pattern"@.len() == 10 && "as_pattern"@[0] == 'a');
    assert("dotted_name"@.len() == 11);
    assert("case_pattern"@.len() == 12);
    assert("tuple_pattern"@.len() == 13);
    assert({
        let all = seq!["_"@, "identifier"@, "dotted_name"@, "case_pattern"@, "as_pattern"@, "tuple_pattern"@];
        all[0] == "_"@ && all[1] == "identifier"@ && all[2] == "dotted_name"@ && all[3] == "case_pattern"@ && all[4] == "as_pattern"@ && all[5] == "tuple_pattern"@
    });
    assert(t.end_at(i));
    crate::laws::nodes::children_are_nodes_below(t, i);
    crate::laws::nodes::named_children_are_named(t, i);
    if i + 1 < t.end(i) {
        assert(t.end_at(i + 1));
        assert(t.children(i)[0] == i + 1);
    }
}

/// In Gleam each `&&` and `||`, each `assert` and `let assert`, and each clause that does
/// not catch everything is one decision. Nothing else is.
pub proof fn gleam_decisions(t: Syntax, i: int)
    ensures
        GleamRules::decisions_spec(t, i) <= 1,
        (t.kind(i) == "assert"@ || t.kind(i) == "let_assert"@) ==> (GleamRules::decisions_spec(t, i)
            == 1 <==> t.nodes[i].named),
        t.kind(i) == "binary_expression"@ ==> (GleamRules::decisions_spec(t, i) == 1
            <==> joins_conditions(t, i)),
        t.kind(i) == "case_clause"@ && t.field(i, "guard"@) is Some ==> GleamRules::decisions_spec(
            t,
            i,
        ) == 1,
        t.kind(i) == "case_clause"@ && t.field(i, "patterns"@) is None
            ==> GleamRules::decisions_spec(t, i) == 1,
        t.kind(i) == "case_clause"@ && t.field(i, "patterns"@) is Some && t.named_children(
            t.field(i, "patterns"@)->0,
        ).len() != 1 ==> GleamRules::decisions_spec(t, i) == 1,
        GleamRules::decisions_spec(t, i) == 1 ==> one_of(
            t,
            i,
            seq!["assert"@, "let_assert"@, "binary_expression"@, "case_clause"@],
        ),
{
    reveal_strlit("assert");
    reveal_strlit("let_assert");
    reveal_strlit("binary_expression");
    reveal_strlit("case_clause");
    assert("assert"@.len() == 6);
    assert("let_assert"@.len() == 10);
    assert("binary_expression"@.len() == 17);
    assert("case_clause"@.len() == 11);
    assert({
        let all = seq!["assert"@, "let_assert"@, "binary_expression"@, "case_clause"@];
        all[0] == "assert"@ && all[1] == "let_assert"@ && all[2] == "binary_expression"@ && all[3] == "case_clause"@
    });
}

/// A clause of Gleam without a guard whose one pattern is a lone variable or discard
/// catches everything and decides nothing; one whose pattern is of another kind decides.
pub proof fn gleam_clauses_that_catch_all(t: Syntax, i: int)
    requires
        t.wf(),
        0 <= i < t.len(),
        t.kind(i) == "case_clause"@,
        t.field(i, "guard"@) is None,
        t.field(i, "patterns"@) is Some,
        t.named_children(t.field(i, "patterns"@)->0).len() == 1,
    ensures
        ({
            let p = t.named_children(t.field(i, "patterns"@)->0)[0];
            &&& one_of(t, p, seq!["identifier"@, "discard"@, "case_clause_pattern"@]) && t.end(p)
                == p + 1 ==> GleamRules::decisions_spec(t, i) == 0
            &&& !one_of(t, p, seq!["identifier"@, "discard"@, "case_clause_pattern"@])
                ==> GleamRules::decisions_spec(t, i) == 1
            &&& one_of(t, p, seq!["case_clause_pattern"@]) && t.end(p) == p + 2 && t.named(p + 1)
                ==> (GleamRules::decisions_spec(t, i) == 0 <==> one_of(
                t,
                p + 1,
                seq!["identifier"@, "discard"@, "case_clause_pattern"@],
            ))
        }),
{
    reveal_strlit("assert");
    reveal_strlit("let_assert");
    reveal_strlit("binary_expression");
    reveal_strlit("case_clause");
    assert("assert"@.len() == 6);
    assert("let_assert"@.len() == 10);
    assert("binary_expression"@.len() == 17);
    assert("case_clause"@.len() == 11);
    let patterns = t.field(i, "patterns"@)->0;
    crate::laws::nodes::fields_are_children(t, i, "patterns"@);
    crate::laws::nodes::named_children_are_named(t, patterns);
    let p = t.named_children(patterns)[0];
    assert(t.end_at(p));
    assert({
        let all = seq!["identifier"@, "discard"@, "case_clause_pattern"@];
        all[0] == "identifier"@ && all[1] == "discard"@ && all[2] == "case_clause_pattern"@
    });
    assert({
        let all = seq!["case_clause_pattern"@];
        all[0] == "case_clause_pattern"@
    });
    reveal_with_fuel(crate::languages::gleam::catches_all, 3);
    if t.end(p) == p + 2 {
        assert(t.end_at(p + 1));
    }
}

/// Which nodes are callables: with a body, each of these kinds in its language, and no
/// others.
pub proof fn callables(t: Syntax, i: int)
    ensures
        JavaScriptRules::callable_spec(t, i) <==> t.field(i, "body"@) is Some && one_of(
            t,
            i,
            seq![
                "function_declaration"@,
                "function_expression"@,
                "generator_function_declaration"@,
                "generator_function"@,
                "arrow_function"@,
                "method_definition"@,
            ],
        ),
        PythonRules::callable_spec(t, i) <==> t.field(i, "body"@) is Some && one_of(
            t,
            i,
            seq!["function_definition"@, "lambda"@],
        ),
        RustRules::callable_spec(t, i) <==> t.field(i, "body"@) is Some && one_of(
            t,
            i,
            seq!["function_item"@, "closure_expression"@],
        ),
        GleamRules::callable_spec(t, i) <==> t.field(i, "body"@) is Some && one_of(
            t,
            i,
            seq!["function"@, "anonymous_function"@],
        ),
{
    assert({
        let all = seq!["function_declaration"@, "function_expression"@, "generator_function_declaration"@, "generator_function"@, "arrow_function"@, "method_definition"@];
        all[0] == "function_declaration"@ && all[1] == "function_expression"@ && all[2] == "generator_function_declaration"@ && all[3] == "generator_function"@ && all[4] == "arrow_function"@ && all[5] == "method_definition"@
    });
    assert({
        let all = seq!["function_definition"@, "lambda"@];
        all[0] == "function_definition"@ && all[1] == "lambda"@
    });
    assert({
        let all = seq!["function_item"@, "closure_expression"@];
        all[0] == "function_item"@ && all[1] == "closure_expression"@
    });
    assert({
        let all = seq!["function"@, "anonymous_function"@];
        all[0] == "function"@ && all[1] == "anonymous_function"@
    });
}

/// A callable goes by its own name. One without a name goes by the variable that it is
/// bound to, where the language binds it to one, and else by a mark of its language.
pub proof fn callable_names(t: Syntax, i: int)
    ensures
        t.field(i, "name"@) matches Some(name) ==> {
            &&& JavaScriptRules::name_spec(t, i) == t.text(name)
            &&& PythonRules::name_spec(t, i) == t.text(name)
            &&& RustRules::name_spec(t, i) == t.text(name)
            &&& GleamRules::name_spec(t, i) == t.text(name)
        },
        t.field(i, "name"@) is None ==> GleamRules::name_spec(t, i) == "<anonymous>"@,
        t.field(i, "name"@) is None && i > 0 && t.kind(t.parent(i)) == "variable_declarator"@
            && t.field(t.parent(i), "name"@) is Some ==> JavaScriptRules::name_spec(t, i) == t.text(
            t.field(t.parent(i), "name"@)->0,
        ),
        t.field(i, "name"@) is None && (i <= 0 || t.kind(t.parent(i)) != "variable_declarator"@)
            ==> JavaScriptRules::name_spec(t, i) == "<anonymous>"@,
        t.field(i, "name"@) is None && i > 0 && t.kind(t.parent(i)) == "assignment"@ && t.field(
            t.parent(i),
            "left"@,
        ) is Some ==> PythonRules::name_spec(t, i) == t.text(t.field(t.parent(i), "left"@)->0),
        t.field(i, "name"@) is None && (i <= 0 || t.kind(t.parent(i)) != "assignment"@)
            ==> PythonRules::name_spec(t, i) == "<lambda>"@,
        t.field(i, "name"@) is None && i > 0 && t.kind(t.parent(i)) == "let_declaration"@
            && field_is(t, t.parent(i), "pattern"@, "identifier"@) ==> RustRules::name_spec(t, i)
            == t.text(t.field(t.parent(i), "pattern"@)->0),
        t.field(i, "name"@) is None && (i <= 0 || t.kind(t.parent(i)) != "let_declaration"@
            || !field_is(t, t.parent(i), "pattern"@, "identifier"@)) ==> RustRules::name_spec(t, i)
            == "<closure>"@,
{
}

/// What is no source in each language: comments, and in Python a string that documents
/// the module, class or function that it opens.
pub proof fn comments_are_no_source(t: Syntax, i: int)
    ensures
        JavaScriptRules::ignored_spec(t, i) <==> t.kind(i) == "comment"@,
        RustRules::ignored_spec(t, i) <==> t.kind(i) == "line_comment"@ || t.kind(i)
            == "block_comment"@,
        GleamRules::ignored_spec(t, i) <==> t.kind(i) == "comment"@ || t.kind(i)
            == "statement_comment"@ || t.kind(i) == "module_comment"@,
        t.kind(i) == "comment"@ ==> PythonRules::ignored_spec(t, i),
        PythonRules::ignored_spec(t, i) && t.kind(i) != "comment"@ ==> {
            &&& t.kind(i) == "expression_statement"@
            &&& i > 0
            &&& t.kind(t.parent(i)) == "module"@ || (t.kind(t.parent(i)) == "block"@ && t.parent(i)
                > 0 && one_of(
                t,
                t.parent(t.parent(i)),
                seq!["function_definition"@, "class_definition"@],
            ))
        },
{
    assert({
        let all = seq!["function_definition"@, "class_definition"@];
        all[0] == "function_definition"@ && all[1] == "class_definition"@
    });
}

/// Only Python forbids what its grammar accepts: a block that holds comments alone.
pub proof fn validation(t: Syntax, i: int)
    ensures
        JavaScriptRules::validation_error_spec(t, i) is None,
        RustRules::validation_error_spec(t, i) is None,
        GleamRules::validation_error_spec(t, i) is None,
        t.kind(i) != "block"@ ==> PythonRules::validation_error_spec(t, i) is None,
        t.kind(i) == "block"@ ==> (PythonRules::validation_error_spec(t, i) is None <==> exists|
            k: int,
        |
            0 <= k < t.named_children(i).len() && t.kind(#[trigger] t.named_children(i)[k])
                != "comment"@ && t.kind(t.named_children(i)[k]) != "line_continuation"@),
        PythonRules::validation_error_spec(t, i) matches Some(message) ==> message
            == "Expected a non-empty Python body"@,
{
}

} // verus!
