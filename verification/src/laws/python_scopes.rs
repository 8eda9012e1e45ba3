//! How names are bound in Python.

use vstd::prelude::*;

use crate::languages::python_tests::{
    alias_name, bound, captures_from, collected_from, declared, defined, expression_owner,
    has_name_prefix, imported, imported_item, imported_symbol, incoming, is_comprehension,
    is_conditional, is_definition, is_import, is_pattern_head, mutation_object, mutation_root,
    nothing_collected, parameters, parameter_name, statement, targets, targets_from, targets_opt,
    visited_node, with_candidate, with_wildcard, Collected, Context, DeclarationModel, ScopeKind,
    TestSymbol,
};
use crate::languages::syntax::{first_named, Syntax};
use crate::text::until;

verus! {

/// An import binds its alias, or its own name; a module is bound under the first part of
/// its name. What it stands for counts from its end on, and only where no condition is
/// around it.
pub proof fn imports_bind_names(
    t: Syntax,
    s: Collected,
    node: int,
    item: int,
    scope: int,
    conditional: bool,
)
    requires
        t.kind(item) != "aliased_import"@,
        t.kind(item) != "wildcard_import"@,
        t.field(node, "module_name"@) != Some(item),
    ensures
        ({
            let module = t.field(node, "module_name"@);
            let name = t.text(item);
            let symbol = imported_symbol(
                if module is Some {
                    Some(t.text(module->0))
                } else {
                    None
                },
                name,
                false,
            );
            let binding = if symbol is Some && !conditional {
                Some((symbol->0, t.nodes[node].end_byte))
            } else {
                None
            };
            let local = if module is Some {
                name
            } else {
                until(name, '.')
            };
            imported_item(t, s, node, item, scope, conditional) == bound(s, scope, local, binding)
        }),
{
    reveal_strlit("aliased_import");
    reveal_strlit("wildcard_import");
    assert("aliased_import"@.len() == 14);
    assert("wildcard_import"@.len() == 15);
}

/// An import under an alias binds the alias to what its name stands for.
pub proof fn aliased_imports_bind_names(
    t: Syntax,
    s: Collected,
    node: int,
    item: int,
    scope: int,
    conditional: bool,
    named: int,
    alias: int,
)
    requires
        t.kind(item) == "aliased_import"@,
        t.field(item, "name"@) == Some(named),
        t.field(item, "alias"@) == Some(alias),
        t.field(node, "module_name"@) != Some(item),
    ensures
        ({
            let module = t.field(node, "module_name"@);
            let symbol = imported_symbol(
                if module is Some {
                    Some(t.text(module->0))
                } else {
                    None
                },
                t.text(named),
                true,
            );
            let binding = if symbol is Some && !conditional {
                Some((symbol->0, t.nodes[node].end_byte))
            } else {
                None
            };
            imported_item(t, s, node, item, scope, conditional) == bound(
                s,
                scope,
                t.text(alias),
                binding,
            )
        }),
{
    reveal_strlit("aliased_import");
    reveal_strlit("wildcard_import");
    assert("aliased_import"@.len() == 14);
    assert("wildcard_import"@.len() == 15);
}

/// A wildcard import hides every name of its scope, and the module that an import takes
/// from is none of its names.
pub proof fn wildcards_hide_names(
    t: Syntax,
    s: Collected,
    node: int,
    item: int,
    scope: int,
    conditional: bool,
    n: int,
)
    requires
        0 <= scope < s.scopes.len(),
        0 <= n,
    ensures
        t.field(node, "module_name"@) == Some(item) ==> imported_item(
            t,
            s,
            node,
            item,
            scope,
            conditional,
        ) == s,
        t.field(node, "module_name"@) != Some(item) && t.kind(item) == "wildcard_import"@
            ==> imported_item(t, s, node, item, scope, conditional) == with_wildcard(s, scope),
        with_wildcard(s, scope).scopes[scope].wildcard,
        with_wildcard(s, scope).scopes[scope].bindings == s.scopes[scope].bindings,
        imported(t, s, node, 0, scope, conditional) == s,
        imported(t, s, node, n + 1, scope, conditional) == imported_item(
            t,
            imported(t, s, node, n, scope, conditional),
            node,
            t.named_children(node)[n],
            scope,
            conditional,
        ),
{
    reveal_strlit("aliased_import");
    reveal_strlit("wildcard_import");
    assert("aliased_import"@.len() == 14);
    assert("wildcard_import"@.len() == 15);
}

/// A pattern captures names, but not the class or the keyword that it starts with, nor a
/// name with a dot.
pub proof fn patterns_capture_names(
    t: Syntax,
    s: Collected,
    root: int,
    at: int,
    stop: int,
    scope: int,
)
    requires
        at < stop,
        t.end(at) > at,
    ensures
        is_pattern_head(t, at) <==> at > 0 && (t.kind(t.parent(at)) == "class_pattern"@ || t.kind(
            t.parent(at),
        ) == "keyword_pattern"@) && first_named(t, t.parent(at)) == Some(at),
        ({
            let kind = t.kind(at);
            let found = captures_from(t, s, root, at, stop, scope);
            let rest = t.end(at);
            let unread = !t.named(at) || at != root && is_pattern_head(t, at) || kind == "string"@
                || kind == "attribute"@;
            let parts = t.named_children(at);
            &&& unread ==> found == captures_from(t, s, root, rest, stop, scope)
            &&& !unread && kind == "identifier"@ ==> found == captures_from(
                t,
                targets(t, s, at, scope),
                root,
                rest,
                stop,
                scope,
            )
            &&& !unread && kind == "dotted_name"@ && parts.len() == 1 ==> found == captures_from(
                t,
                targets(t, s, parts[0], scope),
                root,
                rest,
                stop,
                scope,
            )
            &&& !unread && kind == "dotted_name"@ && parts.len() != 1 ==> found == captures_from(
                t,
                s,
                root,
                rest,
                stop,
                scope,
            )
            &&& !unread && kind != "identifier"@ && kind != "dotted_name"@ ==> found
                == captures_from(t, s, root, at + 1, stop, scope)
        }),
{
    reveal_strlit("string");
    reveal_strlit("attribute");
    reveal_strlit("dotted_name");
    reveal_strlit("identifier");
    assert("string"@.len() == 6);
    assert("attribute"@.len() == 9);
    assert("dotted_name"@.len() == 11);
    assert("identifier"@.len() == 10);
}

/// The body of a definition is read in its own scope and without the conditions around
/// it; everything else is read where its parent is.
pub proof fn contexts_are_handed_down(t: Syntax, s: Collected, at: int)
    requires
        0 < at,
    ensures
        ({
            let parent = s.contexts[t.parent(at)];
            let body = parent.body != 0 && t.field(t.parent(at), "body"@) == Some(at);
            &&& body ==> incoming(t, s, at) == (Context {
                scope: parent.body,
                conditional: false,
                body: 0,
            })
            &&& !body ==> incoming(t, s, at) == (Context {
                scope: parent.scope,
                conditional: parent.conditional,
                body: 0,
            })
        }),
        incoming(t, s, 0) == (Context { scope: 0, conditional: false, body: 0 }),
{
}

/// A definition opens a scope and is judged later; a class is known by its place, unless
/// a condition is around it. A class whose name begins with `Test` may hold tests.
pub proof fn definitions_open_scopes(t: Syntax, s: Collected, at: int, context: Context, name: int)
    requires
        0 <= context.scope < s.scopes.len(),
        t.field(at, "name"@) == Some(name),
        t.field(at, "parameters"@) is None,
        t.field(at, "type_parameters"@) is None,
        0 <= at < s.class_scopes.len(),
    ensures
        ({
            let class = t.kind(at) == "class_definition"@;
            let after = defined(t, s, at, context);
            let inner = after.scopes.last();
            let binding = if class && !context.conditional {
                Some((TestSymbol::Class(at as usize), t.nodes[at].end_byte))
            } else {
                None
            };
            let outer = bound(
                with_candidate(s, at, context.scope as int),
                context.scope as int,
                t.text(name),
                binding,
            );
            &&& after.scopes.len() == s.scopes.len() + 1
            &&& after.candidates == with_candidate(s, at, context.scope as int).candidates
            &&& after.scopes.drop_last() == outer.scopes
            &&& inner.kind == if class {
                ScopeKind::Class
            } else {
                ScopeKind::Function
            }
            &&& inner.pytest_class <==> class && "Test"@.is_prefix_of(t.text(name))
            &&& !inner.wildcard
            &&& class ==> after.class_scopes[at] == s.scopes.len() as usize
            &&& !class ==> after.class_scopes == s.class_scopes
        }),
        has_name_prefix(t, None, "Test"@) == false,
{
    let after = defined(t, s, at, context);
    let class = t.kind(at) == "class_definition"@;
    let binding = if class && !context.conditional {
        Some((TestSymbol::Class(at as usize), t.nodes[at].end_byte))
    } else {
        None
    };
    let outer = bound(
        with_candidate(s, at, context.scope as int),
        context.scope as int,
        t.text(name),
        binding,
    );
    assert(after.scopes.drop_last() =~= outer.scopes);
}

/// What each statement binds: what is assigned to, looped over, named in an expression,
/// captured or deleted, and what is declared to be outside.
pub proof fn statements_bind_names(t: Syntax, s: Collected, at: int, scope: int, left: int)
    ensures
        ({
            let kind = t.kind(at);
            let found = statement(t, s, at, scope);
            &&& (kind == "assignment"@ || kind == "augmented_assignment"@ || kind
                == "for_statement"@ || kind == "for_in_clause"@) && t.field(at, "left"@) == Some(
                left,
            ) ==> found == targets(t, s, left, scope)
            &&& kind == "named_expression"@ && t.field(at, "name"@) == Some(left) ==> found
                == targets(t, s, left, expression_owner(s.scopes, scope))
            &&& kind == "as_pattern"@ && t.field(at, "alias"@) == Some(left) ==> found == targets(
                t,
                s,
                left,
                scope,
            )
            &&& kind == "type_alias_statement"@ && t.field(at, "left"@) == Some(left) ==> found
                == targets(t, s, alias_name(t, left), scope)
            &&& kind == "global_statement"@ ==> found == declared(
                t,
                s,
                t.named_children(at),
                t.named_children(at).len() as int,
                scope,
                true,
            )
            &&& kind == "nonlocal_statement"@ ==> found == declared(
                t,
                s,
                t.named_children(at),
                t.named_children(at).len() as int,
                scope,
                false,
            )
        }),
{
    reveal_strlit("assignment");
    reveal_strlit("augmented_assignment");
    reveal_strlit("for_statement");
    reveal_strlit("for_in_clause");
    reveal_strlit("type_alias_statement");
    reveal_strlit("named_expression");
    reveal_strlit("as_pattern");
    reveal_strlit("case_clause");
    reveal_strlit("delete_statement");
    reveal_strlit("global_statement");
    reveal_strlit("nonlocal_statement");
    reveal_strlit("expression_statement");
    reveal_strlit("if_statement");
    assert("assignment"@.len() == 10 && "assignment"@[2] == 's');
    assert("as_pattern"@.len() == 10 && "as_pattern"@[2] == '_');
    assert("augmented_assignment"@.len() == 20 && "augmented_assignment"@[0] == 'a');
    assert("type_alias_statement"@.len() == 20 && "type_alias_statement"@[0] == 't');
    assert("expression_statement"@.len() == 20 && "expression_statement"@[0] == 'e');
    assert("for_statement"@.len() == 13 && "for_statement"@[4] == 's');
    assert("for_in_clause"@.len() == 13 && "for_in_clause"@[4] == 'i');
    assert("named_expression"@.len() == 16 && "named_expression"@[0] == 'n');
    assert("delete_statement"@.len() == 16 && "delete_statement"@[0] == 'd');
    assert("global_statement"@.len() == 16 && "global_statement"@[0] == 'g');
    assert("case_clause"@.len() == 11);
    assert("nonlocal_statement"@.len() == 18);
    assert("if_statement"@.len() == 12);
}

/// A declared name is unknown where it is declared, and noted.
pub proof fn declarations_are_noted(
    t: Syntax,
    s: Collected,
    names: Seq<int>,
    n: int,
    scope: int,
    global: bool,
)
    requires
        0 <= n < names.len(),
    ensures
        declared(t, s, names, 0, scope, global) == s,
        ({
            let before = declared(t, s, names, n, scope, global);
            let after = declared(t, s, names, n + 1, scope, global);
            let name = t.text(names[n]);
            &&& after.declarations == before.declarations.push(
                DeclarationModel { name, scope: scope as usize, global },
            )
            &&& after.scopes == bound(before, scope, name, None).scopes
        }),
{
}

/// Parameters are bound in the scope of their function.
pub proof fn parameters_are_bound(t: Syntax, s: Collected, list: Seq<int>, n: int, scope: int)
    requires
        0 <= n < list.len(),
    ensures
        parameters(t, s, list, 0, scope) == s,
        parameters(t, s, list, n + 1, scope) == targets_opt(
            t,
            parameters(t, s, list, n, scope),
            parameter_name(t, list[n]),
            scope,
        ),
        targets_opt(t, s, None, scope) == s,
        targets_opt(t, s, Some(n), scope) == targets_from(t, s, n, t.end(n), scope),
{
}

/// A file is walked node by node: imports are read as a whole, definitions and
/// comprehensions open scopes, and a condition reaches everything below it.
pub proof fn files_are_walked(t: Syntax, s: Collected, at: int)
    requires
        0 <= at < t.len(),
        t.end(at) > at,
        at > 0 ==> t.named(at),
        at < s.contexts.len(),
    ensures
        !is_import(t.kind(at)) ==> collected_from(t, s, at) == collected_from(
            t,
            visited_node(t, s, at),
            at + 1,
        ),
        is_import(t.kind(at)) ==> collected_from(t, s, at) == collected_from(
            t,
            imported(
                t,
                s,
                at,
                t.named_children(at).len() as int,
                incoming(t, s, at).scope as int,
                incoming(t, s, at).conditional,
            ),
            t.end(at),
        ),
        ({
            let context = incoming(t, s, at);
            let kind = t.kind(at);
            let after = visited_node(t, s, at);
            let conditional = context.conditional || is_conditional(kind);
            &&& is_definition(kind) ==> after.scopes == defined(t, s, at, context).scopes
            &&& !is_definition(kind) && is_comprehension(kind) ==> after.scopes.len()
                == s.scopes.len() + 1 && after.scopes.last().kind == ScopeKind::Comprehension
            &&& !is_definition(kind) && !is_comprehension(kind) ==> after.scopes == statement(
                t,
                s,
                at,
                context.scope as int,
            ).scopes
            &&& !is_definition(kind) && is_comprehension(kind) ==> after.contexts[at] == (Context {
                scope: s.scopes.len() as usize,
                conditional,
                body: 0,
            })
        }),
        nothing_collected(t).scopes.len() == 1,
        nothing_collected(t).scopes[0].kind == ScopeKind::Module,
        nothing_collected(t).candidates.len() == 0,
{
    reveal_strlit("function_definition");
    reveal_strlit("class_definition");
    reveal_strlit("lambda");
    reveal_strlit("list_comprehension");
    reveal_strlit("set_comprehension");
    reveal_strlit("dictionary_comprehension");
    reveal_strlit("generator_expression");
    assert("function_definition"@.len() == 19);
    assert("class_definition"@.len() == 16);
    assert("lambda"@.len() == 6);
    assert("list_comprehension"@.len() == 18);
    assert("set_comprehension"@.len() == 17);
    assert("dictionary_comprehension"@.len() == 24);
    assert("generator_expression"@.len() == 20);
}

/// What is changed is the object at the root of members, subscripts and parentheses.
pub proof fn changes_reach_the_root(t: Syntax, i: int, object: int)
    requires
        0 <= i < t.len(),
    ensures
        t.field(i, "object"@) is Some ==> mutation_object(t, i) == t.field(i, "object"@),
        t.field(i, "object"@) is None && t.field(i, "value"@) is Some ==> mutation_object(t, i)
            == t.field(i, "value"@),
        t.field(i, "object"@) is None && t.field(i, "value"@) is None && t.kind(i)
            == "parenthesized_expression"@ ==> mutation_object(t, i) == first_named(t, i),
        (t.kind(i) == "attribute"@ || t.kind(i) == "subscript"@ || t.kind(i)
            == "parenthesized_expression"@) && mutation_object(t, i) == Some(object) && i < object
            ==> mutation_root(t, i) == mutation_root(t, object),
        t.kind(i) != "attribute"@ && t.kind(i) != "subscript"@ && t.kind(i)
            != "parenthesized_expression"@ ==> mutation_root(t, i) == i,
{
}

} // verus!
