//! How Rust attributes and imports are read.

use vstd::prelude::*;

use crate::languages::rust_attributes::{
    arguments_of, attribute_meta_of, code_children, code_from, is_comment, is_path_group,
    is_path_part, meta_of, meta_rest, path_from, path_of, split_arguments, unraw, MetaModel,
    PathModel,
};
use crate::languages::rust_scopes::{
    attached, attached_from, bound, extern_bindings, framework_spec, import_alias, imported_path,
    in_use, item_bindings, items_bindings, list_prefix, parameter_types, scope_of, type_parameters,
    uncertain_scope, use_bindings, use_prefix, use_target, used, uses_from, Binding, Building,
};
use crate::languages::rust_tests::{
    attributes_of, code_after, embedded, holds_attributes, is_attribute, leading_attributes,
    scope_around, visit, walk_from, with_scope, WalkModel,
};
use crate::languages::siblings::previous_named;
use crate::languages::syntax::Syntax;

verus! {

/// A path is read node by node: a name is a part, a leading double colon makes the path
/// absolute, groups are gone into, comments are passed over, and nothing else may stand
/// in it.
pub proof fn paths_are_read(t: Syntax, at: int, stop: int, path: PathModel)
    requires
        at < stop,
        t.end(at) > at,
    ensures
        ({
            let kind = t.kind(at);
            let found = path_from(t, at, stop, path);
            let rest = t.end(at);
            &&& is_path_part(kind) ==> found == path_from(
                t,
                rest,
                stop,
                PathModel {
                    absolute: path.absolute,
                    parts: path.parts.push(unraw(t.text(at))),
                },
            )
            &&& kind == "::"@ && path.parts.len() == 0 ==> found == path_from(
                t,
                rest,
                stop,
                PathModel { absolute: true, parts: path.parts },
            )
            &&& kind == "::"@ && path.parts.len() > 0 ==> found == path_from(t, rest, stop, path)
            &&& is_path_group(kind) ==> found == path_from(t, at + 1, stop, path)
            &&& is_comment(kind) ==> found == path_from(t, rest, stop, path)
            &&& !is_path_part(kind) && kind != "::"@ && !is_path_group(kind) && !is_comment(kind)
                ==> found is None
        }),
        path_from(t, stop, stop, path) == Some(path),
{
    reveal_strlit("identifier");
    reveal_strlit("type_identifier");
    reveal_strlit("crate");
    reveal_strlit("self");
    reveal_strlit("super");
    reveal_strlit("::");
    reveal_strlit("scoped_identifier");
    reveal_strlit("scoped_type_identifier");
    reveal_strlit("line_comment");
    reveal_strlit("block_comment");
    assert("identifier"@.len() == 10);
    assert("type_identifier"@.len() == 15);
    assert("crate"@.len() == 5 && "crate"@[0] == 'c');
    assert("super"@.len() == 5 && "super"@[0] == 's');
    assert("self"@.len() == 4);
    assert("::"@.len() == 2);
    assert("scoped_identifier"@.len() == 17);
    assert("scoped_type_identifier"@.len() == 22);
    assert("line_comment"@.len() == 12);
    assert("block_comment"@.len() == 13);
}

/// A path has at least one part.
pub proof fn paths_have_parts(t: Syntax, i: int)
    ensures
        ({
            let found = path_from(t, i, t.end(i), PathModel { absolute: false, parts: Seq::empty() });
            &&& found is None ==> path_of(t, i) is None
            &&& found is Some && found->0.parts.len() == 0 ==> path_of(t, i) is None
            &&& found is Some && found->0.parts.len() > 0 ==> path_of(t, i) == found
        }),
{
}

/// An attribute is a path alone, a path with arguments in brackets, or a path with a
/// value.
pub proof fn attributes_are_read(t: Syntax, path: int, second: int, value: int, i: int)
    requires
        t.kind(path) != "::"@,
        0 <= second <= usize::MAX,
    ensures
        meta_of(t, Seq::empty()) is None,
        path_of(t, path) is None ==> meta_of(t, seq![path]) is None,
        path_of(t, path) is Some ==> {
            let found = path_of(t, path)->0;
            &&& meta_of(t, seq![path]) == Some(
                MetaModel { path: found, arguments: None, bare: true },
            )
            &&& t.kind(second) == "token_tree"@ ==> meta_of(t, seq![path, second]) == Some(
                MetaModel { path: found, arguments: Some(second as usize), bare: false },
            )
            &&& t.kind(second) == "="@ ==> meta_of(t, seq![path, second, value]) == Some(
                MetaModel { path: found, arguments: None, bare: false },
            )
        },
        t.named_of_kind(i, "attribute"@).len() == 0 ==> attribute_meta_of(t, i) is None,
        t.named_of_kind(i, "attribute"@).len() > 0 ==> attribute_meta_of(t, i) == meta_of(
            t,
            code_children(t, t.named_of_kind(i, "attribute"@)[0]),
        ),
{
    reveal_with_fuel(meta_rest, 4);
    reveal_strlit("::");
    reveal_strlit("token_tree");
    reveal_strlit("=");
    assert("::"@.len() == 2);
    assert("token_tree"@.len() == 10);
    assert("="@.len() == 1);
}

/// Comments are no code.
pub proof fn comments_are_no_code(t: Syntax, c: int, stop: int)
    requires
        c < stop,
        t.end(c) > c,
    ensures
        is_comment(t.kind(c)) ==> code_from(t, c, stop) == code_from(t, t.end(c), stop),
        !is_comment(t.kind(c)) ==> code_from(t, c, stop) == seq![c] + code_from(
            t,
            t.end(c),
            stop,
        ),
        code_from(t, stop, stop).len() == 0,
{
}

/// Arguments stand between round brackets, with commas between them.
pub proof fn arguments_are_separated(
    t: Syntax,
    i: int,
    tokens: Seq<int>,
    start: int,
    k: int,
    before: Seq<MetaModel>,
)
    requires
        0 <= start <= k <= tokens.len(),
    ensures
        ({
            let all = code_children(t, i);
            let bracketed = all.len() >= 2 && t.kind(all[0]) == "("@ && t.kind(all[all.len() - 1])
                == ")"@;
            &&& !bracketed ==> arguments_of(t, i) is None
            &&& bracketed ==> arguments_of(t, i) == split_arguments(
                t,
                all.subrange(1, all.len() - 1),
                0,
                0,
                Seq::empty(),
            )
        }),
        k < tokens.len() && t.kind(tokens[k]) != ","@ ==> split_arguments(
            t,
            tokens,
            start,
            k,
            before,
        ) == split_arguments(t, tokens, start, k + 1, before),
        k < tokens.len() && t.kind(tokens[k]) == ","@ ==> split_arguments(
            t,
            tokens,
            start,
            k,
            before,
        ) == match meta_of(t, tokens.subrange(start, k)) {
            Some(meta) => split_arguments(t, tokens, k + 1, k + 1, before.push(meta)),
            None => None,
        },
        k == tokens.len() && start < k ==> split_arguments(t, tokens, start, k, before)
            == match meta_of(t, tokens.subrange(start, k)) {
            Some(meta) => Some(before.push(meta)),
            None => None,
        },
        k == tokens.len() && start == k ==> split_arguments(t, tokens, start, k, before) == Some(
            before,
        ),
{
}

/// The attributes of an item stand directly above it, with nothing but comments between
/// them. Some nodes hold their attributes inside.
pub proof fn attributes_stand_above(t: Syntax, i: int, at: int, c: int, stop: int)
    requires
        0 <= at,
        c < stop,
        t.end(c) > c,
        previous_named(t, at) is Some ==> 0 <= previous_named(t, at)->0 < at,
    ensures
        attached(t, i) == attached_from(t, previous_named(t, i)),
        attached_from(t, None).len() == 0,
        t.kind(at) == "attribute_item"@ ==> attached_from(t, Some(at)) == seq![at]
            + attached_from(t, previous_named(t, at)),
        is_comment(t.kind(at)) ==> attached_from(t, Some(at)) == attached_from(
            t,
            previous_named(t, at),
        ),
        t.kind(at) != "attribute_item"@ && !is_comment(t.kind(at)) ==> attached_from(
            t,
            Some(at),
        ).len() == 0,
        attributes_of(t, i) == attached(t, i) + embedded(t, i),
        holds_attributes(t.kind(i)) ==> embedded(t, i) == leading_attributes(t, i + 1, t.end(i)),
        !holds_attributes(t.kind(i)) ==> embedded(t, i).len() == 0,
        t.named(c) && is_attribute(t.kind(c)) ==> leading_attributes(t, c, stop) == seq![c]
            + leading_attributes(t, t.end(c), stop),
        !t.named(c) || is_comment(t.kind(c)) ==> leading_attributes(t, c, stop)
            == leading_attributes(t, t.end(c), stop),
        t.named(c) && !is_comment(t.kind(c)) && !is_attribute(t.kind(c)) ==> leading_attributes(
            t,
            c,
            stop,
        ).len() == 0,
        t.named(c) && !is_comment(t.kind(c)) ==> code_after(t, c, stop) == Some(c),
        !t.named(c) || is_comment(t.kind(c)) ==> code_after(t, c, stop) == code_after(
            t,
            t.end(c),
            stop,
        ),
{
    reveal_strlit("attribute_item");
    reveal_strlit("inner_attribute_item");
    reveal_strlit("line_comment");
    reveal_strlit("block_comment");
    assert("attribute_item"@.len() == 14);
    assert("inner_attribute_item"@.len() == 20);
    assert("line_comment"@.len() == 12);
    assert("block_comment"@.len() == 13);
}

/// What an import reads: itself, the members of its lists, and the lists behind paths.
pub proof fn imports_are_read(t: Syntax, root: int, at: int, prefix: PathModel, path: int)
    ensures
        in_use(t, root, root),
        at > 0 && t.kind(t.parent(at)) == "use_list"@ && t.named(at) && !is_comment(t.kind(at))
            ==> in_use(t, root, at),
        at > 0 && t.kind(t.parent(at)) == "scoped_use_list"@ && t.field(t.parent(at), "list"@)
            == Some(at) ==> in_use(t, root, at),
        at > root && at > 0 && t.kind(t.parent(at)) != "use_list"@ && t.kind(t.parent(at))
            != "scoped_use_list"@ ==> !in_use(t, root, at),
        t.field(at, "path"@) == Some(path) && path_of(t, path) is Some ==> list_prefix(
            t,
            at,
            prefix,
        ).parts == prefix.parts + path_of(t, path)->0.parts,
        t.field(at, "path"@) is None ==> list_prefix(t, at, prefix).absolute && list_prefix(
            t,
            at,
            prefix,
        ).parts == prefix.parts,
        t.kind(at) == "use_as_clause"@ && t.field(at, "path"@) == Some(path) ==> use_target(t, at)
            == path_of(t, path),
        t.kind(at) != "use_as_clause"@ ==> use_target(t, at) == path_of(t, at),
        use_prefix(t, root, root).parts.len() == 0 && !use_prefix(t, root, root).absolute,
        root < at && 0 < at && t.parent(at) < at && t.kind(t.parent(at)) == "scoped_use_list"@
            ==> use_prefix(t, root, at) == list_prefix(
            t,
            t.parent(at),
            use_prefix(t, root, t.parent(at)),
        ),
        root < at && 0 < at && t.parent(at) < at && t.kind(t.parent(at)) != "scoped_use_list"@
            ==> use_prefix(t, root, at) == use_prefix(t, root, t.parent(at)),
{
    reveal_strlit("use_list");
    reveal_strlit("scoped_use_list");
    assert("use_list"@.len() == 8);
    assert("scoped_use_list"@.len() == 15);
}

/// An import binds its alias to its path, to nothing known where it has attributes, and
/// not at all under an underscore. One that cannot be read hides every name.
pub proof fn imports_bind(t: Syntax, b: Building, root: int, at: int, uncertain: bool)
    ensures
        use_target(t, at) is None ==> used(t, b, root, at, uncertain).scope.wildcard,
        use_target(t, at) is Some ==> {
            let path = imported_path(use_prefix(t, root, at), use_target(t, at)->0);
            let alias = import_alias(t, at, path);
            let after = used(t, b, root, at, uncertain);
            &&& alias is None || alias->0 == "_"@ ==> after == b
            &&& alias is Some && alias->0 != "_"@ && uncertain ==> after.scope.imports == bound(
                b.scope.imports,
                alias->0,
                Binding::Unknown,
            ) && after.paths == b.paths
            &&& alias is Some && alias->0 != "_"@ && !uncertain ==> after.scope.imports == bound(
                b.scope.imports,
                alias->0,
                Binding::Import(b.paths.len() as usize),
            ) && after.paths == b.paths.push(path)
        },
        uncertain_scope(b).scope.wildcard,
        uncertain_scope(b).scope.imports == b.scope.imports,
{
}

/// Lists are gone into, a wildcard hides every name, and anything else is one import.
pub proof fn import_lists_are_read(
    t: Syntax,
    b: Building,
    root: int,
    at: int,
    stop: int,
    uncertain: bool,
    path: int,
)
    requires
        at < stop,
        t.end(at) > at,
    ensures
        ({
            let kind = t.kind(at);
            let found = uses_from(t, b, root, at, stop, uncertain);
            let rest = t.end(at);
            let inside = in_use(t, root, at);
            &&& !inside ==> found == uses_from(t, b, root, rest, stop, uncertain)
            &&& inside && kind == "use_list"@ ==> found == uses_from(
                t,
                b,
                root,
                at + 1,
                stop,
                uncertain,
            )
            &&& inside && kind == "scoped_use_list"@ && (t.field(at, "path"@) is None || path_of(
                t,
                t.field(at, "path"@)->0,
            ) is Some) ==> found == uses_from(t, b, root, at + 1, stop, uncertain)
            &&& inside && kind == "scoped_use_list"@ && t.field(at, "path"@) == Some(path)
                && path_of(t, path) is None ==> found == uses_from(
                t,
                uncertain_scope(b),
                root,
                rest,
                stop,
                uncertain,
            )
            &&& inside && kind == "use_wildcard"@ ==> found == uses_from(
                t,
                uncertain_scope(b),
                root,
                rest,
                stop,
                uncertain,
            )
            &&& inside && kind != "use_list"@ && kind != "scoped_use_list"@ && kind
                != "use_wildcard"@ ==> found == uses_from(
                t,
                used(t, b, root, at, uncertain),
                root,
                rest,
                stop,
                uncertain,
            )
        }),
        uses_from(t, b, root, stop, stop, uncertain) == b,
{
    reveal_strlit("use_list");
    reveal_strlit("scoped_use_list");
    reveal_strlit("use_wildcard");
    assert("use_list"@.len() == 8);
    assert("scoped_use_list"@.len() == 15);
    assert("use_wildcard"@.len() == 12);
}

/// A declaration of an import is uncertain where it has attributes; one of a crate binds
/// its alias to the crate, where that is known and the declaration has no attributes.
pub proof fn crates_and_imports_are_declared(t: Syntax, b: Building, item: int, name: int, alias: int, root: int)
    ensures
        t.kind(item) == "use_declaration"@ ==> item_bindings(t, b, item) == use_bindings(
            t,
            b,
            item,
            attached(t, item).len() > 0,
        ),
        t.kind(item) == "extern_crate_declaration"@ ==> item_bindings(t, b, item)
            == extern_bindings(t, b, item),
        t.field(item, "argument"@) == Some(root) ==> use_bindings(t, b, item, false) == uses_from(
            t,
            b,
            root,
            root,
            t.end(root),
            false,
        ),
        t.field(item, "name"@) == Some(name) ==> ({
            let known = framework_spec(unraw(t.text(name)));
            let binding = if attached(t, item).len() == 0 && known is Some {
                Binding::Crate(known->0)
            } else {
                Binding::Unknown
            };
            let after = extern_bindings(t, b, item);
            let local = if t.field(item, "alias"@) is Some {
                unraw(t.text(t.field(item, "alias"@)->0))
            } else {
                unraw(t.text(name))
            };
            &&& after.scope.imports == bound(b.scope.imports, local, binding)
            &&& after.scope.externs == bound(b.scope.externs, local, binding)
        }),
{
    reveal_strlit("use_declaration");
    reveal_strlit("extern_crate_declaration");
    assert("use_declaration"@.len() == 15);
    assert("extern_crate_declaration"@.len() == 24);
}

/// A scope starts empty, is a module's own where it is a file or the body of a module,
/// and takes in its items in their order and the type parameters around it.
pub proof fn scopes_take_in_items(
    t: Syntax,
    node: int,
    parent: Option<usize>,
    paths: Seq<PathModel>,
    b: Building,
    items: Seq<int>,
    n: int,
    list: int,
)
    requires
        0 <= n < items.len(),
    ensures
        items_bindings(t, b, items, 0) == b,
        items_bindings(t, b, items, n + 1) == item_bindings(
            t,
            items_bindings(t, b, items, n),
            items[n],
        ),
        0 < node && t.field(t.parent(node), "type_parameters"@) == Some(list) ==> type_parameters(
            t,
            node,
        ) == t.named_of_kind(list, "type_parameter"@),
        0 < node && t.field(t.parent(node), "type_parameters"@) is None ==> type_parameters(
            t,
            node,
        ).len() == 0,
        t.named_children(node).len() == 0 && type_parameters(t, node).len() == 0 ==> {
            let scope = scope_of(t, node, parent, paths).scope;
            &&& scope.module <==> t.kind(node) == "source_file"@ || node > 0 && t.kind(
                t.parent(node),
            ) == "mod_item"@
            &&& scope.parent == parent
            &&& !scope.wildcard
            &&& scope.imports == Map::<Seq<char>, Binding>::empty()
            &&& scope.types == Set::<Seq<char>>::empty()
        },
{
}

/// A type parameter hides its name.
pub proof fn type_parameters_hide_names(
    t: Syntax,
    types: Set<Seq<char>>,
    list: Seq<int>,
    n: int,
    name: int,
)
    requires
        0 <= n < list.len(),
    ensures
        parameter_types(t, types, list, 0) == types,
        t.field(list[n], "name"@) == Some(name) ==> parameter_types(t, types, list, n + 1)
            == parameter_types(t, types, list, n).insert(unraw(t.text(name))),
        t.field(list[n], "name"@) is None ==> parameter_types(t, types, list, n + 1)
            == parameter_types(t, types, list, n),
{
}

/// A file is walked from its root, into a node or past it, and a scope stands in that of
/// its parent.
pub proof fn files_are_walked(t: Syntax, w: WalkModel, at: int)
    requires
        0 <= at < t.len(),
        t.end(at) > at,
    ensures
        walk_from(t, w, t.len()) == w,
        visit(t, w, at).1 ==> walk_from(t, w, at) == walk_from(t, visit(t, w, at).0, at + 1),
        !visit(t, w, at).1 ==> walk_from(t, w, at) == walk_from(
            t,
            visit(t, w, at).0,
            t.end(at),
        ),
        at > 0 ==> scope_around(t, w, at) == w.contexts[t.parent(at)],
        scope_around(t, w, 0) is None,
        with_scope(t, w, at).scopes.len() == w.scopes.scopes.len() + 1,
        with_scope(t, w, at).scopes.last() == scope_of(
            t,
            at,
            scope_around(t, w, at),
            w.scopes.paths,
        ).scope,
{
}

} // verus!
