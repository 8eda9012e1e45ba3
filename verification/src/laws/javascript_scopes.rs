//! How names are bound in JavaScript and TypeScript.

use vstd::prelude::*;

use crate::languages::javascript::{is_callable_kind, literal, unwrapped};
use crate::languages::javascript_api::{framework_spec, ApiKind, Framework, TestApi};
use crate::languages::javascript_tests::{
    api_binding, api_of, binding_names, bindings_of, callable_bindings, chain_root, chain_writes,
    declarator, declared_names, default_import, defined, defined_pattern, defined_unknown,
    forgotten, function_scope, groups_targets, has_dynamic_scope, helper_definition,
    import_bindings, import_source, import_source_from, imported_framework, imported_name,
    imports_from, in_pattern, in_target, is_ambient, is_bound_name, is_dynamic, is_local_function,
    is_member, is_pattern_group, layout, loop_bindings, lookup, member_of, name_writes, names_from,
    node_bindings, opens_function, opens_scope, outer_scope, owner_of, passed, specifier,
    target_writes, writes_from, writes_of, write_target, noted, binding_part, is_exclusive,
    resolved, Binding, Candidate, Collected, Facts, Place, ScopeModel, Writes,
};
use crate::languages::regions::contained;
use crate::languages::syntax::Syntax;
use crate::languages::tree::region_at;
use crate::metrics::RegionModel;

verus! {

/// A scope of its own belongs to each node that opens one; nodes below what is not named
/// are not reached.
pub proof fn nodes_stand_in_scopes(t: Syntax, n: int)
    requires
        0 < n,
    ensures
        layout(t, 0).scopes.len() == 1,
        layout(t, 0).scopes[0].function && layout(t, 0).scopes[0].parent is None,
        ({
            let before = layout(t, n);
            let after = layout(t, n + 1);
            let reach = t.named(n) && before.reached[t.parent(n)];
            let outer = before.scope_of[t.parent(n)];
            let opens = reach && opens_scope(t.kind(n));
            &&& after.reached == before.reached.push(reach)
            &&& opens ==> after.scope_of == before.scope_of.push(before.scopes.len() as usize)
                && after.scopes.len() == before.scopes.len() + 1 && after.scopes.last().parent
                == Some(outer) && after.scopes.last().function == opens_function(t.kind(n))
            &&& !opens ==> after.scope_of == before.scope_of.push(outer) && after.scopes
                == before.scopes
        }),
{
}

/// The names of a pattern are found in their order: groups are gone into, of pairs only
/// what binds is.
pub proof fn names_of_patterns(t: Syntax, root: int, at: int, stop: int)
    requires
        at < stop,
        t.end(at) > at,
    ensures
        ({
            let found = names_from(t, root, at, stop);
            let rest = names_from(t, root, t.end(at), stop);
            let inside = in_pattern(t, root, at);
            let name = is_bound_name(t.kind(at));
            let group = is_pattern_group(t.kind(at)) || binding_part(t, at) is Some;
            &&& !inside ==> found == rest
            &&& inside && name ==> found == seq![at] + rest
            &&& inside && !name && group ==> found == names_from(t, root, at + 1, stop)
            &&& inside && !name && !group ==> found == rest
        }),
        binding_names(t, root) == names_from(t, root, root, t.end(root)),
{
}

/// A `var` belongs to the function around it, any other declaration to its scope.
pub proof fn variables_belong_to_scopes(
    t: Syntax,
    s: Collected,
    node: int,
    scope: int,
    pattern: int,
    kind: int,
)
    requires
        0 < node,
    ensures
        t.field(node, "name"@) is None ==> declarator(t, s, node, scope) == s,
        t.field(node, "name"@) == Some(pattern) && t.kind(t.parent(node))
            == "variable_declaration"@ ==> declarator(t, s, node, scope) == declared_names(
            t,
            s,
            node,
            binding_names(t, pattern),
            binding_names(t, pattern).len() as int,
            function_scope(s.scopes, scope),
            scope,
        ),
        t.field(node, "name"@) == Some(pattern) && t.kind(t.parent(node))
            != "variable_declaration"@ ==> declarator(t, s, node, scope) == declared_names(
            t,
            s,
            node,
            binding_names(t, pattern),
            binding_names(t, pattern).len() as int,
            scope,
            scope,
        ),
        t.field(node, "kind"@) == Some(kind) && t.field(node, "left"@) == Some(pattern)
            ==> loop_bindings(t, s, node, scope) == defined_pattern(
            t,
            s,
            pattern,
            if t.text(kind) == "var"@ {
                function_scope(s.scopes, scope)
            } else {
                scope
            },
        ),
        t.field(node, "kind"@) is None ==> loop_bindings(t, s, node, scope) == s,
{
}

/// Each name of a declaration is bound to what its value gives it.
pub proof fn declared_names_are_bound(
    t: Syntax,
    s: Collected,
    node: int,
    names: Seq<int>,
    n: int,
    target: int,
    scope: int,
    pattern: int,
)
    requires
        0 <= n < names.len(),
        t.field(node, "name"@) == Some(pattern),
    ensures
        declared_names(t, s, node, names, 0, target, scope) == s,
        declared_names(t, s, node, names, n + 1, target, scope) == defined(
            t,
            declared_names(t, s, node, names, n, target, scope),
            target,
            names[n],
            crate::languages::javascript_tests::declarator_binding(
                t,
                pattern,
                t.field(node, "value"@),
                names[n],
                scope,
            ),
        ),
{
}

/// A function binds its parameters in its own scope, and its name around it or, for an
/// expression, in it.
pub proof fn functions_bind_names(t: Syntax, s: Collected, node: int, scope: int, name: int)
    requires
        t.field(node, "parameters"@) is None,
        t.field(node, "parameter"@) is None,
        t.field(node, "name"@) == Some(name),
    ensures
        ({
            let kind = t.kind(node);
            let found = callable_bindings(t, s, node, scope);
            &&& kind == "function_declaration"@ || kind == "generator_function_declaration"@
                ==> found == defined(
                t,
                s,
                outer_scope(s.scopes, scope),
                name,
                Binding::Function(node as usize),
            )
            &&& kind == "function_expression"@ || kind == "generator_function"@ ==> found
                == defined(t, s, scope, name, Binding::Function(node as usize))
            &&& kind == "method_definition"@ || kind == "arrow_function"@ ==> found == s
        }),
{
    reveal_strlit("function_declaration");
    reveal_strlit("generator_function_declaration");
    reveal_strlit("function_expression");
    reveal_strlit("generator_function");
    reveal_strlit("method_definition");
    reveal_strlit("arrow_function");
    assert("function_declaration"@.len() == 20);
    assert("generator_function_declaration"@.len() == 30);
    assert("function_expression"@.len() == 19);
    assert("generator_function"@.len() == 18);
    assert("method_definition"@.len() == 17);
    assert("arrow_function"@.len() == 14);
}

/// Parameters are bound to nothing that is known.
pub proof fn parameters_are_unknown(
    t: Syntax,
    s: Collected,
    node: int,
    scope: int,
    list: int,
    names: Seq<int>,
    n: int,
)
    requires
        0 <= n < names.len(),
        t.field(node, "name"@) is None,
    ensures
        t.field(node, "parameters"@) == Some(list) ==> callable_bindings(t, s, node, scope)
            == defined_pattern(t, s, list, scope),
        t.field(node, "parameters"@) is None && t.field(node, "parameter"@) == Some(list)
            ==> callable_bindings(t, s, node, scope) == defined_pattern(t, s, list, scope),
        defined_pattern(t, s, list, scope) == defined_unknown(
            t,
            s,
            binding_names(t, list),
            binding_names(t, list).len() as int,
            scope,
        ),
        defined_unknown(t, s, names, 0, scope) == s,
        defined_unknown(t, s, names, n + 1, scope) == defined(
            t,
            defined_unknown(t, s, names, n, scope),
            scope,
            names[n],
            Binding::Unknown,
        ),
{
}

/// An import is known by the literal name of its source.
pub proof fn imports_name_frameworks(
    t: Syntax,
    node: int,
    source: int,
    framework: Framework,
    children: Seq<int>,
    k: int,
)
    requires
        0 <= k,
    ensures
        t.field(node, "source"@) == Some(source) ==> import_source(t, node) == Some(source),
        t.field(node, "source"@) is None ==> import_source(t, node) == import_source_from(
            t,
            t.named_children(node),
            0,
        ),
        k >= children.len() ==> import_source_from(t, children, k) is None,
        k < children.len() && t.field(children[k], "source"@) == Some(source)
            ==> import_source_from(t, children, k) == Some(source),
        k < children.len() && t.field(children[k], "source"@) is None ==> import_source_from(
            t,
            children,
            k,
        ) == import_source_from(t, children, k + 1),
        import_source(t, node) == Some(source) && literal(t, source) is Some && framework_spec(
            literal(t, source)->0,
        ) == Some(framework) ==> imported_framework(t, node) == Some(
            TestApi { framework, kind: ApiKind::Namespace },
        ),
        import_source(t, node) is None ==> imported_framework(t, node) is None,
        import_source(t, node) == Some(source) && literal(t, source) is None
            ==> imported_framework(t, node) is None,
{
}

/// Imports of types bind nothing. A name that is imported is bound under its alias to
/// the export of that name.
pub proof fn imports_bind_exports(
    t: Syntax,
    s: Collected,
    node: int,
    scope: int,
    api: Option<TestApi>,
    at: int,
    name: int,
)
    ensures
        t.has_child(node, "type"@) ==> import_bindings(t, s, node, scope) == s,
        !t.has_child(node, "type"@) ==> import_bindings(t, s, node, scope) == imports_from(
            t,
            Collected {
                ambient_framework: s.ambient_framework || is_ambient(imported_framework(t, node)),
                ..s
            },
            node + 1,
            t.end(node),
            scope,
            imported_framework(t, node),
        ),
        t.field(at, "name"@) is None ==> specifier(t, s, at, scope, api) == s,
        t.has_child(at, "type"@) ==> specifier(t, s, at, scope, api) == s,
        t.field(at, "name"@) == Some(name) && !t.has_child(at, "type"@) ==> specifier(
            t,
            s,
            at,
            scope,
            api,
        ) == defined(
            t,
            Collected { declared: s.declared.update(name, true), ..s },
            scope,
            if t.field(at, "alias"@) is Some {
                t.field(at, "alias"@)->0
            } else {
                name
            },
            api_binding(member_of(api, imported_name(t, name))),
        ),
{
}

/// The parts of an import: names between braces, the namespace, and the default.
pub proof fn parts_of_imports(
    t: Syntax,
    s: Collected,
    at: int,
    stop: int,
    scope: int,
    api: Option<TestApi>,
)
    requires
        at < stop,
        t.end(at) > at,
        t.named(at),
    ensures
        ({
            let kind = t.kind(at);
            let found = imports_from(t, s, at, stop, scope, api);
            let rest = t.end(at);
            let names = t.named_of_kind(at, "identifier"@);
            let space = kind == "namespace_import"@ || kind == "import_require_clause"@;
            &&& kind == "import_clause"@ || kind == "named_imports"@ ==> found == imports_from(
                t,
                s,
                at + 1,
                stop,
                scope,
                api,
            )
            &&& kind == "import_specifier"@ ==> found == imports_from(
                t,
                specifier(t, s, at, scope, api),
                rest,
                stop,
                scope,
                api,
            )
            &&& space && names.len() > 0 ==> found == imports_from(
                t,
                defined(t, s, scope, names[0], api_binding(api)),
                rest,
                stop,
                scope,
                api,
            )
            &&& space && names.len() == 0 ==> found == imports_from(t, s, rest, stop, scope, api)
            &&& kind == "identifier"@ ==> found == imports_from(
                t,
                defined(t, s, scope, at, api_binding(default_import(api))),
                rest,
                stop,
                scope,
                api,
            )
            &&& kind == "string"@ ==> found == imports_from(t, s, rest, stop, scope, api)
        }),
{
    reveal_strlit("import_clause");
    reveal_strlit("named_imports");
    reveal_strlit("import_specifier");
    reveal_strlit("namespace_import");
    reveal_strlit("import_require_clause");
    reveal_strlit("identifier");
    reveal_strlit("string");
    assert("import_clause"@.len() == 13 && "import_clause"@[0] == 'i');
    assert("named_imports"@.len() == 13 && "named_imports"@[0] == 'n');
    assert("import_specifier"@.len() == 16 && "import_specifier"@[0] == 'i');
    assert("namespace_import"@.len() == 16 && "namespace_import"@[0] == 'n');
    assert("import_require_clause"@.len() == 21);
    assert("identifier"@.len() == 10);
    assert("string"@.len() == 6);
}

/// Which nodes bind names: callables, declarations, imports, catches, loops and classes.
pub proof fn nodes_bind_names(t: Syntax, s: Collected, i: int, name: int)
    requires
        0 <= i < s.scope_of.len(),
    ensures
        ({
            let scope = s.scope_of[i] as int;
            let kind = t.kind(i);
            let found = node_bindings(t, s, i);
            let named = t.field(i, "name"@) == Some(name);
            &&& is_callable_kind(kind) ==> found == callable_bindings(t, s, i, scope)
            &&& kind == "variable_declarator"@ ==> found == declarator(t, s, i, scope)
            &&& kind == "import_statement"@ ==> found == import_bindings(t, s, i, scope)
            &&& kind == "catch_clause"@ && t.field(i, "parameter"@) == Some(name) ==> found
                == defined_pattern(t, s, name, scope)
            &&& kind == "for_in_statement"@ ==> found == loop_bindings(t, s, i, scope)
            &&& kind == "class"@ && named ==> found == defined(t, s, scope, name, Binding::Unknown)
            &&& (kind == "class_declaration"@ || kind == "internal_module"@) && named ==> found
                == defined(t, s, outer_scope(s.scopes, scope), name, Binding::Unknown)
            &&& (kind == "enum_declaration"@ || kind == "function_signature"@) && named ==> found
                == defined(t, s, scope, name, Binding::Unknown)
            &&& kind == "identifier"@ || kind == "call_expression"@ ==> found == s
        }),
{
    reveal_strlit("function_declaration");
    reveal_strlit("function_expression");
    reveal_strlit("generator_function_declaration");
    reveal_strlit("generator_function");
    reveal_strlit("arrow_function");
    reveal_strlit("method_definition");
    reveal_strlit("variable_declarator");
    reveal_strlit("import_statement");
    reveal_strlit("catch_clause");
    reveal_strlit("for_in_statement");
    reveal_strlit("class");
    reveal_strlit("class_declaration");
    reveal_strlit("enum_declaration");
    reveal_strlit("function_signature");
    reveal_strlit("internal_module");
    reveal_strlit("identifier");
    reveal_strlit("call_expression");
    assert("function_declaration"@.len() == 20);
    assert("function_expression"@.len() == 19 && "function_expression"@[0] == 'f');
    assert("variable_declarator"@.len() == 19 && "variable_declarator"@[0] == 'v');
    assert("generator_function_declaration"@.len() == 30);
    assert("generator_function"@.len() == 18 && "generator_function"@[0] == 'g');
    assert("function_signature"@.len() == 18 && "function_signature"@[0] == 'f');
    assert("arrow_function"@.len() == 14);
    assert("method_definition"@.len() == 17 && "method_definition"@[0] == 'm');
    assert("class_declaration"@.len() == 17 && "class_declaration"@[0] == 'c');
    assert("import_statement"@.len() == 16 && "import_statement"@[0] == 'i');
    assert("for_in_statement"@.len() == 16 && "for_in_statement"@[0] == 'f');
    assert("enum_declaration"@.len() == 16 && "enum_declaration"@[0] == 'e');
    assert("catch_clause"@.len() == 12);
    assert("class"@.len() == 5);
    assert("internal_module"@.len() == 15 && "internal_module"@[0] == 'i');
    assert("call_expression"@.len() == 15 && "call_expression"@[0] == 'c');
    assert("identifier"@.len() == 10);
}

/// Nodes that are reached bind, in their order.
pub proof fn reached_nodes_bind(t: Syntax, n: int)
    requires
        0 <= n,
    ensures
        bindings_of(t, n).reached[n] ==> bindings_of(t, n + 1) == node_bindings(
            t,
            bindings_of(t, n),
            n,
        ),
        !bindings_of(t, n).reached[n] ==> bindings_of(t, n + 1) == bindings_of(t, n),
        bindings_of(t, 0).entries.len() == 0,
        !bindings_of(t, 0).ambient_framework,
{
}

/// A write reaches the names of its target and the exports along its members.
pub proof fn writes_are_noted(
    t: Syntax,
    s: Collected,
    w: Writes,
    names: Seq<int>,
    n: int,
    scope: int,
    i: int,
    object: int,
)
    requires
        0 <= n < names.len(),
        0 <= i < t.len(),
    ensures
        name_writes(t, s, w, names, 0, scope) == w,
        ({
            let before = name_writes(t, s, w, names, n, scope);
            let after = name_writes(t, s, w, names, n + 1, scope);
            &&& after.frameworks == noted(before, api_of(t, s, names[n], scope)).frameworks
            &&& after.names == before.names.push(
                Place {
                    node: names[n] as usize,
                    scope: owner_of(s, t.text(names[n]), scope) as usize,
                },
            )
        }),
        lookup(s.scopes, t.text(i), scope) is Some ==> owner_of(s, t.text(i), scope) == lookup(
            s.scopes,
            t.text(i),
            scope,
        )->0,
        lookup(s.scopes, t.text(i), scope) is None ==> owner_of(s, t.text(i), scope) == 0,
        t.field(i, "object"@) == Some(object) && is_member(t.kind(i)) && i < unwrapped(t, object)
            ==> chain_root(t, i) == chain_root(t, unwrapped(t, object)) && chain_writes(
            t,
            s,
            w,
            i,
            scope,
        ) == chain_writes(
            t,
            s,
            noted(w, api_of(t, s, unwrapped(t, object), scope)),
            unwrapped(t, object),
            scope,
        ),
        !is_member(t.kind(i)) ==> chain_root(t, i) == i && chain_writes(t, s, w, i, scope) == w,
        target_writes(t, s, w, i, scope) == name_writes(
            t,
            s,
            chain_writes(t, s, w, i, scope),
            binding_names(t, chain_root(t, i)),
            binding_names(t, chain_root(t, i)).len() as int,
            scope,
        ),
{
}

/// Writes are looked for in what is reached, target by target.
pub proof fn writes_are_found(
    t: Syntax,
    s: Collected,
    w: Writes,
    root: int,
    at: int,
    stop: int,
    scope: int,
    n: int,
    left: int,
)
    requires
        at < stop,
        t.end(at) > at,
        0 <= n,
    ensures
        !in_target(t, root, at) ==> writes_from(t, s, w, root, at, stop, scope) == writes_from(
            t,
            s,
            w,
            root,
            t.end(at),
            stop,
            scope,
        ),
        in_target(t, root, at) && groups_targets(t, at) ==> writes_from(
            t,
            s,
            w,
            root,
            at,
            stop,
            scope,
        ) == writes_from(t, s, w, root, at + 1, stop, scope),
        in_target(t, root, at) && !groups_targets(t, at) ==> writes_from(
            t,
            s,
            w,
            root,
            at,
            stop,
            scope,
        ) == writes_from(
            t,
            s,
            target_writes(t, s, w, at, scope),
            root,
            t.end(at),
            stop,
            scope,
        ),
        write_target(t, n) == Some(left) && s.reached[n] ==> writes_of(t, s, n + 1) == writes_from(
            t,
            s,
            writes_of(t, s, n),
            left,
            left,
            t.end(left),
            s.scope_of[n] as int,
        ),
        write_target(t, n) is None || !s.reached[n] ==> writes_of(t, s, n + 1) == writes_of(
            t,
            s,
            n,
        ),
        s.reached[n] && is_dynamic(t, s, n) ==> has_dynamic_scope(t, s, n + 1),
        (forall|k: int| 0 <= k < n && s.reached[k] ==> !#[trigger] is_dynamic(t, s, k))
            ==> !has_dynamic_scope(t, s, n),
{
}

/// A name that is written to stands for nothing.
pub proof fn written_names_are_forgotten(
    t: Syntax,
    scopes: Seq<ScopeModel>,
    names: Seq<Place>,
    n: int,
)
    requires
        0 <= n < names.len(),
        names[n].scope < forgotten(t, scopes, names, n).len(),
    ensures
        forgotten(t, scopes, names, 0) == scopes,
        ({
            let place = names[n];
            let after = forgotten(t, scopes, names, n + 1);
            let name = t.text(place.node as int);
            &&& after[place.scope as int].bindings.contains_key(name)
            &&& after[place.scope as int].bindings[name] == Binding::Unknown
        }),
{
}

/// A helper is a function, or a variable that stands for a function or an export.
pub proof fn definitions_of_helpers(t: Syntax, f: Facts, node: usize, scope: usize)
    requires
        node < t.len(),
        scope < f.bindings.scopes.len(),
    ensures
        helper_definition(t, f, Binding::Function(node)) == Some(node as int),
        helper_definition(t, f, Binding::Unknown) is None,
        ({
            let at = unwrapped(t, node as int);
            let serves = is_callable_kind(t.kind(at)) || resolved(t, f, at, scope as int) is Some
                || t.kind(at) == "identifier"@ && is_local_function(
                t,
                f.bindings,
                at,
                scope as int,
                t.len(),
            );
            let found = helper_definition(t, f, Binding::Expression(node, scope));
            &&& !serves ==> found is None
            &&& serves && at > 0 && t.kind(t.parent(at)) == "variable_declarator"@ ==> found
                == Some(t.parent(at))
            &&& serves && !(at > 0 && t.kind(t.parent(at)) == "variable_declarator"@) ==> found
                == Some(at)
        }),
        is_callable_kind(t.kind(unwrapped(t, node as int))) ==> is_local_function(
            t,
            f.bindings,
            node as int,
            scope as int,
            0,
        ),
{
}

/// A pass over the candidates leaves out each helper that serves tests only, under one
/// reason, and keeps the others for the next pass.
pub proof fn helpers_are_left_out(
    t: Syntax,
    s: Collected,
    candidates: Seq<Candidate>,
    regions: Seq<RegionModel>,
    n: int,
)
    requires
        0 <= n < candidates.len(),
    ensures
        passed(t, s, candidates, regions, 0).regions == regions,
        passed(t, s, candidates, regions, 0).kept.len() == 0,
        ({
            let before = passed(t, s, candidates, regions, n);
            let after = passed(t, s, candidates, regions, n + 1);
            let c = candidates[n];
            let inside = contained(t, before.regions, c.node as int);
            &&& inside ==> after == before
            &&& !inside && is_exclusive(t, s, before.regions, c) ==> after.kept == before.kept
                && after.regions == before.regions.push(
                region_at(t, c.node as int, "local helper used exclusively by tests"@),
            )
            &&& !inside && !is_exclusive(t, s, before.regions, c) ==> after.kept
                == before.kept.push(c) && after.regions == before.regions
        }),
{
}

} // verus!
