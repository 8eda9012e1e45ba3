//! How names are bound and hidden in Gleam.

use vstd::prelude::*;

use crate::languages::gleam_tests::{
    assigned_pattern, bound, child_mode, is_binder, is_segment_options, locals_of, mode,
    module_alias, opens_scope, parameters_of, pattern_locals, pattern_mode, scope_around, selected,
    statements_from, with_aliases, with_import, with_locals, with_parameters, with_pattern,
    with_selected, Binding, Declaration, LocalModel, Mode, ModuleModel, Runner, full_pass,
    helper_pass, helper_region, HelpersModel, Reference, open_helpers, serves_tests,
    declared_region, is_comment,
};
use crate::languages::syntax::Syntax;

verus! {

/// An import of a module of the test framework is a declaration, and may be left out
/// where all that it takes is known. A module whose alias begins with an underscore has
/// no name.
pub proof fn imports_bind_modules(t: Syntax, m: ModuleModel, i: int, node: int)
    requires
        t.field(i, "module"@) == Some(node),
        selected(t, i).len() == 0,
    ensures
        ({
            let module = t.text(node);
            let alias = module_alias(t, i, module);
            let after = with_import(t, m, i);
            let test = module == "gleeunit"@ || module == "gleeunit/should"@;
            let hidden = alias.len() > 0 && alias[0] == '_';
            let runner = if module == "gleeunit"@ {
                Runner::Module
            } else {
                Runner::Unknown
            };
            &&& test ==> after.declarations == m.declarations.push(
                Declaration { node: i as usize, helper: true },
            )
            &&& !test ==> after.declarations == m.declarations
            &&& hidden ==> after.names == m.names
            &&& !hidden && !m.names.contains_key(alias) ==> after.names[alias] == (Binding {
                runner,
                declaration: if test {
                    Some(m.declarations.len() as usize)
                } else {
                    None
                },
            })
            &&& after.regions == m.regions
        }),
        t.field(i, "imports"@) is None ==> selected(t, i).len() == 0,
        t.field(i, "imports"@) is Some ==> selected(t, i) == t.named_children(
            t.field(i, "imports"@)->0,
        ),
{
}

/// A name that an import takes is bound under its alias; `main` of the framework is the
/// runner.
pub proof fn imports_bind_names(
    t: Syntax,
    m: ModuleModel,
    module: Seq<char>,
    declaration: Option<usize>,
    list: Seq<int>,
    n: int,
    name: int,
)
    requires
        0 <= n < list.len(),
        t.field(list[n], "name"@) == Some(name),
    ensures
        with_selected(t, m, module, declaration, list, 0) == m,
        ({
            let before = with_selected(t, m, module, declaration, list, n);
            let after = with_selected(t, m, module, declaration, list, n + 1);
            let local = if t.field(list[n], "alias"@) is Some {
                t.field(list[n], "alias"@)->0
            } else {
                name
            };
            let runner = if module == "gleeunit"@ && t.text(name) == "main"@ {
                Runner::Main
            } else {
                Runner::Unknown
            };
            &&& t.kind(name) == "identifier"@ ==> after == bound(
                before,
                t.text(local),
                Binding { runner, declaration },
            )
            &&& t.kind(name) != "identifier"@ ==> after == before
        }),
{
}

/// In an assignment the pattern binds, and the value and the message are read; labels
/// without a value are read as names.
pub proof fn assignments_are_read(t: Syntax, parent: int, i: int)
    ensures
        ({
            let kind = t.kind(parent);
            let assigns = kind == "let"@ || kind == "let_assert"@ || kind == "use"@;
            let found = child_mode(t, parent, i);
            &&& assigns && assigned_pattern(t, parent) == Some(i) ==> found == pattern_mode(
                t.kind(i),
            )
            &&& assigns && assigned_pattern(t, parent) != Some(i) ==> found == if t.field(
                parent,
                "message"@,
            ) == Some(i) || t.field(parent, "value"@) == Some(i) {
                Mode::Read
            } else {
                Mode::Unread
            }
            &&& (kind == "argument"@ || kind == "record_update_argument"@) && t.field(
                parent,
                "value"@,
            ) is None ==> found == Mode::Unread
            &&& kind == "block"@ || kind == "source_file"@ ==> found == if t.named(i) {
                Mode::Read
            } else {
                Mode::Unread
            }
        }),
        t.field(i, "pattern"@) is Some ==> assigned_pattern(t, i) == t.field(i, "pattern"@),
        t.field(i, "pattern"@) is None ==> assigned_pattern(t, i) == t.field(i, "assignments"@),
{
    reveal_strlit("import");
    reveal_strlit("external_function");
    reveal_strlit("function");
    reveal_strlit("anonymous_function");
    reveal_strlit("constant");
    reveal_strlit("field_access");
    reveal_strlit("case_clause");
    reveal_strlit("let");
    reveal_strlit("let_assert");
    reveal_strlit("use");
    reveal_strlit("argument");
    reveal_strlit("record_update_argument");
    reveal_strlit("block");
    reveal_strlit("source_file");
    assert("import"@.len() == 6);
    assert("external_function"@.len() == 17);
    assert("function"@.len() == 8 && "function"@[0] == 'f');
    assert("constant"@.len() == 8 && "constant"@[0] == 'c');
    assert("argument"@.len() == 8 && "argument"@[0] == 'a');
    assert("anonymous_function"@.len() == 18);
    assert("field_access"@.len() == 12);
    assert("case_clause"@.len() == 11 && "case_clause"@[0] == 'c');
    assert("source_file"@.len() == 11 && "source_file"@[0] == 's');
    assert("let"@.len() == 3 && "let"@[0] == 'l');
    assert("use"@.len() == 3 && "use"@[0] == 'u');
    assert("let_assert"@.len() == 10);
    assert("record_update_argument"@.len() == 22);
    assert("block"@.len() == 5);
}

/// What binds a name in a pattern: an identifier, or a label that stands for its value.
pub proof fn patterns_bind_names(t: Syntax, i: int)
    ensures
        t.kind(i) == "identifier"@ ==> is_binder(t, i),
        t.kind(i) == "label"@ && i > 0 && t.kind(t.parent(i)) == "record_pattern_argument"@
            && t.field(t.parent(i), "pattern"@) is None ==> is_binder(t, i),
        t.kind(i) != "identifier"@ && t.kind(i) != "label"@ ==> !is_binder(t, i),
        t.kind(i) == "label"@ && i > 0 && (t.kind(t.parent(i)) != "record_pattern_argument"@
            || t.field(t.parent(i), "pattern"@) is Some) ==> !is_binder(t, i),
{
    reveal_strlit("identifier");
    reveal_strlit("label");
    assert("identifier"@.len() == 10);
    assert("label"@.len() == 5);
}

/// The names of a pattern are local over a span, where the module knows such names.
pub proof fn patterns_hide_names(
    t: Syntax,
    names: Map<Seq<char>, Binding>,
    list: Seq<LocalModel>,
    root: int,
    at: int,
    stop: int,
    from: usize,
    to: usize,
)
    requires
        at < stop,
        t.end(at) > at,
    ensures
        ({
            let found = pattern_locals(t, names, list, root, at, stop, from, to);
            let rest = t.end(at);
            let unread = at != root && !t.named(at) || is_segment_options(t.kind(at));
            let local = LocalModel { name: t.text(at), from, to };
            &&& unread ==> found == pattern_locals(t, names, list, root, rest, stop, from, to)
            &&& !unread && is_binder(t, at) && names.contains_key(t.text(at)) ==> found
                == pattern_locals(t, names, list.push(local), root, rest, stop, from, to)
            &&& !unread && is_binder(t, at) && !names.contains_key(t.text(at)) ==> found
                == pattern_locals(t, names, list, root, rest, stop, from, to)
            &&& !unread && !is_binder(t, at) ==> found == pattern_locals(
                t,
                names,
                list,
                root,
                at + 1,
                stop,
                from,
                to,
            )
        }),
        with_pattern(t, names, list, root, from, to) == pattern_locals(
            t,
            names,
            list,
            root,
            root,
            t.end(root),
            from,
            to,
        ),
{
}

/// Parameters are local in their function, patterns in their clause, and assignments
/// from their end to the end of the scope around them.
pub proof fn spans_of_locals(
    t: Syntax,
    names: Map<Seq<char>, Binding>,
    list: Seq<LocalModel>,
    i: int,
    pattern: int,
    n: int,
)
    requires
        0 <= n,
    ensures
        t.kind(i) == "function"@ || t.kind(i) == "anonymous_function"@ ==> with_locals(
            t,
            names,
            list,
            i,
        ) == with_parameters(
            t,
            names,
            list,
            parameters_of(t, i),
            parameters_of(t, i).len() as int,
            i as usize,
            t.ends[i],
        ),
        t.kind(i) == "case_clause"@ && t.field(i, "patterns"@) == Some(pattern) ==> with_locals(
            t,
            names,
            list,
            i,
        ) == with_pattern(t, names, list, pattern, t.ends[pattern], t.ends[i]),
        (t.kind(i) == "let"@ || t.kind(i) == "let_assert"@ || t.kind(i) == "use"@)
            && assigned_pattern(t, i) == Some(pattern) ==> ({
            let to = t.ends[scope_around(t, i)];
            with_locals(t, names, list, i) == with_pattern(
                t,
                names,
                with_aliases(t, names, list, i + 1, t.end(i), t.ends[i], to),
                pattern,
                t.ends[i],
                to,
            )
        }),
        t.kind(i) == "block"@ || t.kind(i) == "identifier"@ ==> with_locals(t, names, list, i)
            == list,
        locals_of(t, names, 0).len() == 0,
        mode(t, n) == Mode::Read ==> locals_of(t, names, n + 1) == with_locals(
            t,
            names,
            locals_of(t, names, n),
            n,
        ),
        mode(t, n) != Mode::Read ==> locals_of(t, names, n + 1) == locals_of(t, names, n),
        t.field(i, "parameters"@) is Some ==> parameters_of(t, i) == t.named_children(
            t.field(i, "parameters"@)->0,
        ),
{
    reveal_strlit("function");
    reveal_strlit("anonymous_function");
    reveal_strlit("case_clause");
    reveal_strlit("let");
    reveal_strlit("let_assert");
    reveal_strlit("use");
    reveal_strlit("block");
    reveal_strlit("identifier");
    assert("function"@.len() == 8);
    assert("anonymous_function"@.len() == 18);
    assert("case_clause"@.len() == 11);
    assert("let"@.len() == 3 && "let"@[0] == 'l');
    assert("use"@.len() == 3 && "use"@[0] == 'u');
    assert("let_assert"@.len() == 10 && "let_assert"@[0] == 'l');
    assert("identifier"@.len() == 10 && "identifier"@[0] == 'i');
    assert("block"@.len() == 5);
}

/// What an assignment names besides its pattern is local over the same span.
pub proof fn aliases_are_local(
    t: Syntax,
    names: Map<Seq<char>, Binding>,
    list: Seq<LocalModel>,
    c: int,
    stop: int,
    from: usize,
    to: usize,
    parameters: Seq<int>,
    n: int,
    name: int,
)
    requires
        c < stop,
        t.end(c) > c,
        0 <= n < parameters.len(),
    ensures
        t.nodes[c].field@ == "assign"@ ==> with_aliases(t, names, list, c, stop, from, to)
            == with_aliases(
            t,
            names,
            with_pattern(t, names, list, c, from, to),
            t.end(c),
            stop,
            from,
            to,
        ),
        t.nodes[c].field@ != "assign"@ ==> with_aliases(t, names, list, c, stop, from, to)
            == with_aliases(t, names, list, t.end(c), stop, from, to),
        with_parameters(t, names, list, parameters, 0, from, to) == list,
        t.field(parameters[n], "name"@) == Some(name) ==> with_parameters(
            t,
            names,
            list,
            parameters,
            n + 1,
            from,
            to,
        ) == with_pattern(
            t,
            names,
            with_parameters(t, names, list, parameters, n, from, to),
            name,
            from,
            to,
        ),
{
}

/// The scope around a node is the nearest one that is read.
pub proof fn scopes_around(t: Syntax, i: int)
    requires
        0 < i,
        0 <= t.parent(i) < i,
    ensures
        mode(t, t.parent(i)) == Mode::Read && opens_scope(t.kind(t.parent(i))) ==> scope_around(
            t,
            i,
        ) == t.parent(i),
        !(mode(t, t.parent(i)) == Mode::Read && opens_scope(t.kind(t.parent(i))))
            ==> scope_around(t, i) == scope_around(t, t.parent(i)),
        scope_around(t, 0) == 0,
{
}

/// Statements are the named nodes of a block that are no comments.
pub proof fn statements_are_no_comments(t: Syntax, c: int, stop: int)
    requires
        c < stop,
        t.end(c) > c,
    ensures
        t.named(c) && !is_comment(t.kind(c)) ==> statements_from(t, c, stop) == seq![c]
            + statements_from(t, t.end(c), stop),
        !t.named(c) || is_comment(t.kind(c)) ==> statements_from(t, c, stop) == statements_from(
            t,
            t.end(c),
            stop,
        ),
        statements_from(t, stop, stop).len() == 0,
{
}

/// Helpers are looked for until none is found, and each is left out once, whole.
pub proof fn helpers_are_left_out(t: Syntax, list: Seq<Reference>, h: HelpersModel, n: int)
    requires
        0 <= n < h.declarations.len(),
    ensures
        helper_pass(t, list, h, 0) == h,
        ({
            let before = helper_pass(t, list, h, n);
            let after = helper_pass(t, list, h, n + 1);
            let declaration = before.declarations[n];
            let own = declared_region(t, declaration.node as int, "Gleam test-only dependency"@);
            let serves = declaration.helper && serves_tests(list, n, own, before.regions);
            &&& helper_region(t, declaration) == own
            &&& serves ==> after.regions == before.regions.push(own) && after.declarations
                == before.declarations.update(
                n,
                Declaration { node: declaration.node, helper: false },
            )
            &&& !serves ==> after == before
        }),
        full_pass(t, list, h) == helper_pass(t, list, h, h.declarations.len() as int),
        open_helpers(h.declarations, n + 1) == open_helpers(h.declarations, n)
            + if h.declarations[n].helper {
            1int
        } else {
            0
        },
{
}

} // verus!
