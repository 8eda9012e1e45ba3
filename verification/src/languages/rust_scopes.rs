//! The scopes of a Rust file: what their items declare and import.

use vstd::hash_map::StringHashMap;
use vstd::hash_set::StringHashSet;
use vstd::prelude::*;
use vstd::string::*;

use super::rust_attributes::{
    comment, empty_path, is_comment, path_model, path_of, read_path, unraw, unraw_text,
    AttributePath, PathModel,
};
use super::siblings::{nodes_ok, previous_named, previous_ok};
use super::syntax::{found, indices, remaining, Syntax, SyntaxTree};
use crate::text::same;

verus! {

/// A crate that provides test attributes.
#[derive(Clone, Copy, Debug, PartialEq, Eq, Structural)]
pub enum TestCrate {
    Tokio,
    AsyncStd,
    Rstest,
    TestCase,
}

/// What a name is bound to. An import is known by its place in the list of
/// imported paths.
#[derive(Clone, Copy, PartialEq, Eq, Structural)]
pub enum Binding {
    Import(usize),
    Crate(TestCrate),
    Unknown,
}

pub struct Scope {
    pub parent: Option<usize>,
    pub module: bool,
    pub imports: StringHashMap<Binding>,
    pub externs: StringHashMap<Binding>,
    pub types: StringHashSet,
    pub macros: StringHashSet,
    pub wildcard: bool,
}

#[verifier::ext_equal]
pub struct ScopeModel {
    pub parent: Option<usize>,
    pub module: bool,
    pub imports: Map<Seq<char>, Binding>,
    pub externs: Map<Seq<char>, Binding>,
    pub types: Set<Seq<char>>,
    pub macros: Set<Seq<char>>,
    pub wildcard: bool,
}

impl View for Scope {
    type V = ScopeModel;

    open spec fn view(&self) -> ScopeModel {
        ScopeModel {
            parent: self.parent,
            module: self.module,
            imports: self.imports@,
            externs: self.externs@,
            types: self.types@,
            macros: self.macros@,
            wildcard: self.wildcard,
        }
    }
}

pub open spec fn scope_models(scopes: Seq<Scope>) -> Seq<ScopeModel> {
    scopes.map_values(|s: Scope| s@)
}

pub open spec fn path_models(paths: Seq<AttributePath>) -> Seq<PathModel> {
    paths.map_values(|p: AttributePath| p@)
}

/// The scopes of a file, and the paths that it imports.
pub struct Scopes {
    pub scopes: Vec<Scope>,
    pub paths: Vec<AttributePath>,
}

pub struct ScopesModel {
    pub scopes: Seq<ScopeModel>,
    pub paths: Seq<PathModel>,
}

impl View for Scopes {
    type V = ScopesModel;

    open spec fn view(&self) -> ScopesModel {
        ScopesModel { scopes: scope_models(self.scopes@), paths: path_models(self.paths@) }
    }
}

/// The crate of a name that provides test attributes.
pub open spec fn framework_spec(name: Seq<char>) -> Option<TestCrate> {
    if name == "tokio"@ {
        Some(TestCrate::Tokio)
    } else if name == "async_std"@ {
        Some(TestCrate::AsyncStd)
    } else if name == "rstest"@ {
        Some(TestCrate::Rstest)
    } else if name == "test_case"@ {
        Some(TestCrate::TestCase)
    } else {
        None
    }
}

/// The crate of a name that provides test attributes.
pub fn framework(name: &str) -> (result: Option<TestCrate>)
    ensures
        result == framework_spec(name@),
{
    if same(name, "tokio") {
        Some(TestCrate::Tokio)
    } else if same(name, "async_std") {
        Some(TestCrate::AsyncStd)
    } else if same(name, "rstest") {
        Some(TestCrate::Rstest)
    } else if same(name, "test_case") {
        Some(TestCrate::TestCase)
    } else {
        None
    }
}

/// Binds a name. A second binding leaves it without a meaning.
pub open spec fn bound(bindings: Map<Seq<char>, Binding>, name: Seq<char>, value: Binding) -> Map<
    Seq<char>,
    Binding,
> {
    if bindings.contains_key(name) {
        bindings.insert(name, Binding::Unknown)
    } else {
        bindings.insert(name, value)
    }
}

fn bind(bindings: &mut StringHashMap<Binding>, name: &str, value: Binding)
    ensures
        final(bindings)@ == bound(old(bindings)@, name@, value),
{
    let known: bool = bindings.contains_key(name);
    if known {
        bindings.insert(name.to_owned(), Binding::Unknown);
    } else {
        bindings.insert(name.to_owned(), value);
    }
}

/// The attributes before a node, the nearest one first: what precedes it up to
/// anything but attributes and comments.
pub open spec fn attached_from(t: Syntax, at: Option<int>) -> Seq<int>
    decreases
            (match at {
                Some(at) => if at >= 0 {
                    at + 1
                } else {
                    0
                },
                None => 0int,
            }),
{
    match at {
        None => Seq::empty(),
        Some(at) => {
            let next = previous_named(t, at);
            let further = match next {
                Some(next) => at >= 0 && 0 <= next < at,
                None => at >= 0,
            };
            if !further {
                Seq::empty()
            } else if t.kind(at) == "attribute_item"@ {
                seq![at] + attached_from(t, next)
            } else if is_comment(t.kind(at)) {
                attached_from(t, next)
            } else {
                Seq::empty()
            }
        },
    }
}

/// The attributes before a node, the nearest one first.
pub open spec fn attached(t: Syntax, i: int) -> Seq<int> {
    attached_from(t, previous_named(t, i))
}

/// The attributes before a node, the nearest one first.
pub fn attached_attributes(tree: &SyntaxTree, previous: &Vec<Option<usize>>, i: usize) -> (list: Vec<
    usize,
>)
    requires
        tree.wf(),
        previous_ok(tree@, previous@),
        i < tree@.len(),
    ensures
        indices(list@) == attached(tree@, i as int),
        nodes_ok(list@, tree@.len()),
{
    let mut list: Vec<usize> = Vec::new();
    let mut at: Option<usize> = previous[i];
    let mut bound: usize = i;
    let ghost goal = attached(tree@, i as int);
    assert(found(previous@[i as int]) == previous_named(tree@, i as int));
    assert(indices(list@) + goal =~= goal);
    loop
        invariant
            tree.wf(),
            previous_ok(tree@, previous@),
            bound < tree@.len(),
            at is Some ==> at->0 < bound,
            nodes_ok(list@, tree@.len()),
            goal == attached(tree@, i as int),
            indices(list@) + attached_from(tree@, found(at)) == goal,
        decreases bound,
    {
        match at {
            None => {
                assert(indices(list@) + Seq::<int>::empty() =~= indices(list@));
                return list;
            },
            Some(sibling) => {
                assert(found(previous@[sibling as int]) == previous_named(tree@, sibling as int));
                let next: Option<usize> = previous[sibling];
                let ghost rest = attached_from(tree@, found(next));
                if tree.is(sibling, "attribute_item") {
                    let ghost before = list@;
                    list.push(sibling);
                    assert(indices(list@) =~= indices(before).push(sibling as int));
                    assert(indices(before) + (seq![sibling as int] + rest) =~= indices(list@)
                        + rest);
                } else if !comment(tree, sibling) {
                    assert(indices(list@) + Seq::<int>::empty() =~= indices(list@));
                    return list;
                }
                bound = sibling;
                at = next;
            },
        }
    }
}

/// The part of a `use` tree inside which further imports stand.
pub open spec fn in_use(t: Syntax, root: int, at: int) -> bool {
    ||| at == root
    ||| at > 0 && t.kind(t.parent(at)) == "use_list"@ && t.named(at) && !is_comment(t.kind(at))
    ||| at > 0 && t.kind(t.parent(at)) == "scoped_use_list"@ && t.field(t.parent(at), "list"@)
        == Some(at)
}

/// A path with a part of a `use` tree behind it.
pub open spec fn joined(prefix: PathModel, part: PathModel) -> PathModel {
    PathModel { absolute: prefix.absolute || part.absolute, parts: prefix.parts + part.parts }
}

/// The path that a list in a `use` tree adds.
pub open spec fn list_prefix(t: Syntax, i: int, prefix: PathModel) -> PathModel {
    match t.field(i, "path"@) {
        Some(node) => match path_of(t, node) {
            Some(part) => joined(prefix, part),
            None => prefix,
        },
        None => PathModel { absolute: true, ..prefix },
    }
}

/// The path before a node of the `use` tree `root`.
pub open spec fn use_prefix(t: Syntax, root: int, at: int) -> PathModel
    decreases at,
{
    if at <= root || at <= 0 || t.parent(at) >= at {
        empty_path()
    } else if t.kind(t.parent(at)) == "scoped_use_list"@ {
        list_prefix(t, t.parent(at), use_prefix(t, root, t.parent(at)))
    } else {
        use_prefix(t, root, t.parent(at))
    }
}

/// What a scope and the list of imported paths become.
pub struct Building {
    pub scope: ScopeModel,
    pub paths: Seq<PathModel>,
}

pub open spec fn uncertain_scope(b: Building) -> Building {
    Building { scope: ScopeModel { wildcard: true, ..b.scope }, ..b }
}

/// The node that a leaf of a `use` tree imports.
pub open spec fn use_target(t: Syntax, i: int) -> Option<PathModel> {
    if t.kind(i) == "use_as_clause"@ {
        match t.field(i, "path"@) {
            Some(node) => path_of(t, node),
            None => None,
        }
    } else {
        path_of(t, i)
    }
}

/// The whole path that a leaf imports. `self` stands for the path before it.
pub open spec fn imported_path(prefix: PathModel, target: PathModel) -> PathModel {
    if target.parts =~= seq!["self"@] && prefix.parts.len() > 0 {
        PathModel { absolute: prefix.absolute || target.absolute, ..prefix }
    } else {
        joined(prefix, target)
    }
}

/// The name that a leaf binds.
pub open spec fn import_alias(t: Syntax, i: int, path: PathModel) -> Option<Seq<char>> {
    match t.field(i, "alias"@) {
        Some(alias) => Some(unraw(t.text(alias))),
        None => if path.parts.len() > 0 {
            Some(path.parts.last())
        } else {
            None
        },
    }
}

/// Binds what a leaf of a `use` tree imports.
pub open spec fn used(t: Syntax, b: Building, root: int, at: int, uncertain: bool) -> Building {
    match use_target(t, at) {
        None => uncertain_scope(b),
        Some(target) => {
            let path = imported_path(use_prefix(t, root, at), target);
            match import_alias(t, at, path) {
                Some(alias) => if alias == "_"@ {
                    b
                } else if uncertain {
                    Building {
                        scope: ScopeModel {
                            imports: bound(b.scope.imports, alias, Binding::Unknown),
                            ..b.scope
                        },
                        ..b
                    }
                } else {
                    Building {
                        scope: ScopeModel {
                            imports: bound(
                                b.scope.imports,
                                alias,
                                Binding::Import(b.paths.len() as usize),
                            ),
                            ..b.scope
                        },
                        paths: b.paths.push(path),
                    }
                },
                None => b,
            }
        },
    }
}

/// Binds what a `use` tree imports, from `at` up to `stop`.
pub open spec fn uses_from(
    t: Syntax,
    b: Building,
    root: int,
    at: int,
    stop: int,
    uncertain: bool,
) -> Building
    decreases remaining(at, stop),
{
    let kind = t.kind(at);
    if at >= stop || t.end(at) <= at {
        b
    } else if !in_use(t, root, at) {
        uses_from(t, b, root, t.end(at), stop, uncertain)
    } else if kind == "use_list"@ {
        uses_from(t, b, root, at + 1, stop, uncertain)
    } else if kind == "scoped_use_list"@ {
        let readable = match t.field(at, "path"@) {
            Some(node) => path_of(t, node) is Some,
            None => true,
        };
        if readable {
            uses_from(t, b, root, at + 1, stop, uncertain)
        } else {
            uses_from(t, uncertain_scope(b), root, t.end(at), stop, uncertain)
        }
    } else if kind == "use_wildcard"@ {
        uses_from(t, uncertain_scope(b), root, t.end(at), stop, uncertain)
    } else {
        uses_from(t, used(t, b, root, at, uncertain), root, t.end(at), stop, uncertain)
    }
}

/// Binds what a `use` declaration imports.
pub open spec fn use_bindings(t: Syntax, b: Building, node: int, uncertain: bool) -> Building {
    match t.field(node, "argument"@) {
        Some(root) => uses_from(t, b, root, root, t.end(root), uncertain),
        None => b,
    }
}

/// Binds what an `extern crate` declaration names.
pub open spec fn extern_bindings(t: Syntax, b: Building, node: int) -> Building {
    match t.field(node, "name"@) {
        Some(name) => {
            let binding = if attached(t, node).len() == 0 {
                match framework_spec(unraw(t.text(name))) {
                    Some(known) => Binding::Crate(known),
                    None => Binding::Unknown,
                }
            } else {
                Binding::Unknown
            };
            let alias = match t.field(node, "alias"@) {
                Some(alias) => unraw(t.text(alias)),
                None => unraw(t.text(name)),
            };
            Building {
                scope: ScopeModel {
                    imports: bound(b.scope.imports, alias, binding),
                    externs: bound(b.scope.externs, alias, binding),
                    ..b.scope
                },
                ..b
            }
        },
        None => b,
    }
}

pub open spec fn declares_type(kind: Seq<char>) -> bool {
    kind == "mod_item"@ || kind == "struct_item"@ || kind == "enum_item"@ || kind == "union_item"@
        || kind == "type_item"@ || kind == "trait_item"@
}

/// Takes one item of a scope into account.
pub open spec fn item_bindings(t: Syntax, b: Building, item: int) -> Building {
    let kind = t.kind(item);
    if kind == "use_declaration"@ {
        use_bindings(t, b, item, attached(t, item).len() > 0)
    } else if kind == "extern_crate_declaration"@ {
        extern_bindings(t, b, item)
    } else if declares_type(kind) {
        match t.field(item, "name"@) {
            Some(name) => Building {
                scope: ScopeModel { types: b.scope.types.insert(unraw(t.text(name))), ..b.scope },
                ..b
            },
            None => b,
        }
    } else if kind == "macro_definition"@ {
        match t.field(item, "name"@) {
            Some(name) => Building {
                scope: ScopeModel { macros: b.scope.macros.insert(unraw(t.text(name))), ..b.scope },
                ..b
            },
            None => b,
        }
    } else {
        b
    }
}

/// Takes the first `n` items of a scope into account.
pub open spec fn items_bindings(t: Syntax, b: Building, items: Seq<int>, n: int) -> Building
    decreases n,
{
    if n <= 0 {
        b
    } else {
        item_bindings(t, items_bindings(t, b, items, n - 1), items[n - 1])
    }
}

/// Adds the first `n` type parameters to the types of a scope.
pub open spec fn parameter_types(t: Syntax, types: Set<Seq<char>>, list: Seq<int>, n: int) -> Set<
    Seq<char>,
>
    decreases n,
{
    if n <= 0 {
        types
    } else {
        let before = parameter_types(t, types, list, n - 1);
        match t.field(list[n - 1], "name"@) {
            Some(name) => before.insert(unraw(t.text(name))),
            None => before,
        }
    }
}

/// The type parameters of what a scope is the body of.
pub open spec fn type_parameters(t: Syntax, node: int) -> Seq<int> {
    if node <= 0 {
        Seq::empty()
    } else {
        match t.field(t.parent(node), "type_parameters"@) {
            Some(list) => t.named_of_kind(list, "type_parameter"@),
            None => Seq::empty(),
        }
    }
}

/// The scope that a file, a list of declarations or a block opens.
pub open spec fn scope_of(t: Syntax, node: int, parent: Option<usize>, paths: Seq<PathModel>) -> Building {
    let empty = ScopeModel {
        parent,
        module: t.kind(node) == "source_file"@ || (node > 0 && t.kind(t.parent(node))
            == "mod_item"@),
        imports: Map::empty(),
        externs: Map::empty(),
        types: Set::empty(),
        macros: Set::empty(),
        wildcard: false,
    };
    let items = t.named_children(node);
    let filled = items_bindings(t, Building { scope: empty, paths }, items, items.len() as int);
    let list = type_parameters(t, node);
    Building {
        scope: ScopeModel {
            types: parameter_types(t, filled.scope.types, list, list.len() as int),
            ..filled.scope
        },
        ..filled
    }
}

fn find_use_target(tree: &SyntaxTree, i: usize) -> (path: Option<AttributePath>)
    requires
        tree.wf(),
        i < tree@.len(),
    ensures
        path_model(path) == use_target(tree@, i as int),
{
    if tree.is(i, "use_as_clause") {
        match tree.field(i, "path") {
            Some(node) => read_path(tree, node),
            None => None,
        }
    } else {
        read_path(tree, i)
    }
}

fn lies_in_use(tree: &SyntaxTree, root: usize, at: usize) -> (r: bool)
    requires
        tree.wf(),
        at < tree@.len(),
    ensures
        r == in_use(tree@, root as int, at as int),
{
    if at == root {
        return true;
    }
    if at == 0 {
        return false;
    }
    assert(tree@.parent_at(at as int));
    let parent: usize = tree.parents[at];
    if tree.is(parent, "use_list") && tree.nodes[at].named && !comment(tree, at) {
        return true;
    }
    if !tree.is(parent, "scoped_use_list") {
        return false;
    }
    match tree.field(parent, "list") {
        Some(list) => list == at,
        None => false,
    }
}

/// Puts a path in front of another one.
fn prepend(prefix: &AttributePath, part: &AttributePath) -> (path: AttributePath)
    ensures
        path@ == joined(prefix@, part@),
{
    let mut path = AttributePath { absolute: prefix.absolute || part.absolute, parts: Vec::new() };
    assert(path@.parts =~= Seq::<Seq<char>>::empty());
    path.extend(prefix);
    path.extend(part);
    assert(path@.parts =~= joined(prefix@, part@).parts);
    path
}

/// The path before a node of the `use` tree `root`: the lists around the node,
/// from the innermost one outwards, each put in front.
fn find_prefix(tree: &SyntaxTree, root: usize, node: usize) -> (prefix: AttributePath)
    requires
        tree.wf(),
        node < tree@.len(),
    ensures
        prefix@ == use_prefix(tree@, root as int, node as int),
    decreases node,
{
    if node <= root || node == 0 {
        return AttributePath::empty();
    }
    assert(tree@.parent_at(node as int));
    let parent: usize = tree.parents[node];
    let outer = find_prefix(tree, root, parent);
    if !tree.is(parent, "scoped_use_list") {
        return outer;
    }
    match tree.field(parent, "path") {
        Some(path) => match read_path(tree, path) {
            Some(part) => prepend(&outer, &part),
            None => outer,
        },
        None => {
            let mut rooted = outer;
            rooted.absolute = true;
            rooted
        },
    }
}

fn is_self(path: &AttributePath) -> (r: bool)
    ensures
        r == (path@.parts =~= seq!["self"@]),
{
    assert(path@.parts.len() == path.parts@.len());
    if path.parts.len() != 1 {
        return false;
    }
    assert(path@.parts[0] == path.parts@[0]@);
    same(path.parts[0].as_str(), "self")
}

fn find_imported_path(prefix: AttributePath, target: &AttributePath) -> (path: AttributePath)
    ensures
        path@ == imported_path(prefix@, target@),
{
    assert(prefix@.parts.len() == prefix.parts@.len());
    if is_self(target) && prefix.parts.len() > 0 {
        let mut path = prefix;
        path.absolute = path.absolute || target.absolute;
        path
    } else {
        prepend(&prefix, target)
    }
}

fn use_leaf(
    tree: &SyntaxTree,
    scope: &mut Scope,
    paths: &mut Vec<AttributePath>,
    root: usize,
    at: usize,
    uncertain: bool,
)
    requires
        tree.wf(),
        at < tree@.len(),
    ensures
        (Building { scope: final(scope)@, paths: path_models(final(paths)@) }) == used(
            tree@,
            Building { scope: old(scope)@, paths: path_models(old(paths)@) },
            root as int,
            at as int,
            uncertain,
        ),
{
    let target = match find_use_target(tree, at) {
        Some(target) => target,
        None => {
            scope.wildcard = true;
            return;
        },
    };
    let prefix = find_prefix(tree, root, at);
    let path = find_imported_path(prefix, &target);
    assert(path@.parts.len() == path.parts@.len());
    let alias: String = match tree.field(at, "alias") {
        Some(alias) => unraw_text(tree.text(alias)).to_owned(),
        None => {
            if path.parts.len() == 0 {
                return;
            }
            let last: usize = path.parts.len() - 1;
            assert(path@.parts[last as int] == path.parts@[last as int]@);
            path.parts[last].clone()
        },
    };
    if same(alias.as_str(), "_") {
        return;
    }
    if uncertain {
        bind(&mut scope.imports, alias.as_str(), Binding::Unknown);
    } else {
        let ghost before = path_models(paths@);
        bind(&mut scope.imports, alias.as_str(), Binding::Import(paths.len()));
        paths.push(path);
        assert(path_models(paths@) =~= before.push(path@));
    }
}

/// Binds what a `use` declaration imports.
fn collect_use(
    tree: &SyntaxTree,
    scope: &mut Scope,
    paths: &mut Vec<AttributePath>,
    node: usize,
    uncertain: bool,
)
    requires
        tree.wf(),
        node < tree@.len(),
    ensures
        (Building { scope: final(scope)@, paths: path_models(final(paths)@) }) == use_bindings(
            tree@,
            Building { scope: old(scope)@, paths: path_models(old(paths)@) },
            node as int,
            uncertain,
        ),
{
    let root: usize = match tree.field(node, "argument") {
        Some(root) => root,
        None => {
            return;
        },
    };
    assert(tree@.end_at(root as int));
    let stop: usize = tree.ends[root];
    let mut at: usize = root;
    let ghost goal = use_bindings(
        tree@,
        Building { scope: scope@, paths: path_models(paths@) },
        node as int,
        uncertain,
    );
    while at < stop
        invariant
            tree.wf(),
            stop <= tree@.len(),
            uses_from(
                tree@,
                Building { scope: scope@, paths: path_models(paths@) },
                root as int,
                at as int,
                stop as int,
                uncertain,
            ) == goal,
        decreases remaining(at as int, stop as int),
    {
        assert(tree@.end_at(at as int));
        if !lies_in_use(tree, root, at) {
            at = tree.ends[at];
        } else if tree.is(at, "use_list") {
            at = at + 1;
        } else if tree.is(at, "scoped_use_list") {
            let readable: bool = match tree.field(at, "path") {
                Some(path) => read_path(tree, path).is_some(),
                None => true,
            };
            if readable {
                at = at + 1;
            } else {
                scope.wildcard = true;
                at = tree.ends[at];
            }
        } else if tree.is(at, "use_wildcard") {
            scope.wildcard = true;
            at = tree.ends[at];
        } else {
            use_leaf(tree, scope, paths, root, at, uncertain);
            at = tree.ends[at];
        }
    }
}

fn collect_extern(
    tree: &SyntaxTree,
    previous: &Vec<Option<usize>>,
    scope: &mut Scope,
    node: usize,
    Ghost(paths): Ghost<Seq<PathModel>>,
)
    requires
        tree.wf(),
        previous_ok(tree@, previous@),
        node < tree@.len(),
    ensures
        (Building { scope: final(scope)@, paths }) == extern_bindings(
            tree@,
            Building { scope: old(scope)@, paths },
            node as int,
        ),
{
    let name: usize = match tree.field(node, "name") {
        Some(name) => name,
        None => {
            return;
        },
    };
    let attributes = attached_attributes(tree, previous, node);
    assert(indices(attributes@).len() == attributes@.len());
    let binding: Binding = if attributes.len() == 0 {
        match framework(unraw_text(tree.text(name))) {
            Some(known) => Binding::Crate(known),
            None => Binding::Unknown,
        }
    } else {
        Binding::Unknown
    };
    let local: usize = match tree.field(node, "alias") {
        Some(alias) => alias,
        None => name,
    };
    let alias: &str = unraw_text(tree.text(local));
    bind(&mut scope.imports, alias, binding);
    bind(&mut scope.externs, alias, binding);
}

fn type_item(tree: &SyntaxTree, i: usize) -> (r: bool)
    requires
        tree.wf(),
        i < tree@.len(),
    ensures
        r == declares_type(tree@.kind(i as int)),
{
    tree.is(i, "mod_item") || tree.is(i, "struct_item") || tree.is(i, "enum_item") || tree.is(
        i,
        "union_item",
    ) || tree.is(i, "type_item") || tree.is(i, "trait_item")
}

fn collect_item(
    tree: &SyntaxTree,
    previous: &Vec<Option<usize>>,
    scope: &mut Scope,
    paths: &mut Vec<AttributePath>,
    item: usize,
)
    requires
        tree.wf(),
        previous_ok(tree@, previous@),
        item < tree@.len(),
    ensures
        (Building { scope: final(scope)@, paths: path_models(final(paths)@) }) == item_bindings(
            tree@,
            Building { scope: old(scope)@, paths: path_models(old(paths)@) },
            item as int,
        ),
{
    if tree.is(item, "use_declaration") {
        let attributes = attached_attributes(tree, previous, item);
        assert(indices(attributes@).len() == attributes@.len());
        collect_use(tree, scope, paths, item, attributes.len() > 0);
    } else if tree.is(item, "extern_crate_declaration") {
        collect_extern(tree, previous, scope, item, Ghost(path_models(paths@)));
    } else if type_item(tree, item) {
        match tree.field(item, "name") {
            Some(name) => {
                scope.types.insert(unraw_text(tree.text(name)).to_owned());
            },
            None => {},
        }
    } else if tree.is(item, "macro_definition") {
        match tree.field(item, "name") {
            Some(name) => {
                scope.macros.insert(unraw_text(tree.text(name)).to_owned());
            },
            None => {},
        }
    }
}

fn collect_parameters(tree: &SyntaxTree, scope: &mut Scope, node: usize)
    requires
        tree.wf(),
        node < tree@.len(),
    ensures
        final(scope)@ == (ScopeModel {
            types: parameter_types(
                tree@,
                old(scope)@.types,
                type_parameters(tree@, node as int),
                type_parameters(tree@, node as int).len() as int,
            ),
            ..old(scope)@
        }),
{
    if node == 0 {
        return;
    }
    assert(tree@.parent_at(node as int));
    let owner: usize = tree.parents[node];
    let parameters: usize = match tree.field(owner, "type_parameters") {
        Some(parameters) => parameters,
        None => {
            return;
        },
    };
    let list = tree.named_of_kind(parameters, "type_parameter");
    let ghost all = type_parameters(tree@, node as int);
    assert(indices(list@).len() == list@.len());
    let mut k: usize = 0;
    while k < list.len()
        invariant
            tree.wf(),
            indices(list@) == all,
            all.len() == list@.len(),
            tree@.end(parameters as int) <= tree@.len(),
            forall|n: int|
                0 <= n < list@.len() ==> parameters < #[trigger] list@[n] < tree@.end(
                    parameters as int,
                ),
            k <= list@.len(),
            scope@ == (ScopeModel {
                types: parameter_types(tree@, old(scope)@.types, all, k as int),
                ..old(scope)@
            }),
        decreases list@.len() - k,
    {
        assert(all[k as int] == list@[k as int]);
        match tree.field(list[k], "name") {
            Some(name) => {
                scope.types.insert(unraw_text(tree.text(name)).to_owned());
            },
            None => {},
        }
        k = k + 1;
    }
}

impl Scopes {
    /// Adds the scope that a file, a list of declarations or a block opens.
    pub fn open(
        &mut self,
        tree: &SyntaxTree,
        previous: &Vec<Option<usize>>,
        node: usize,
        parent: Option<usize>,
    )
        requires
            tree.wf(),
            previous_ok(tree@, previous@),
            node < tree@.len(),
        ensures
            ({
                let built = scope_of(tree@, node as int, parent, old(self)@.paths);
                final(self)@ == (ScopesModel {
                    scopes: old(self)@.scopes.push(built.scope),
                    paths: built.paths,
                })
            }),
    {
        let mut module: bool = tree.is(node, "source_file");
        if node > 0 {
            assert(tree@.parent_at(node as int));
            if tree.is(tree.parents[node], "mod_item") {
                module = true;
            }
        }
        let mut scope = Scope {
            parent,
            module,
            imports: StringHashMap::new(),
            externs: StringHashMap::new(),
            types: StringHashSet::new(),
            macros: StringHashSet::new(),
            wildcard: false,
        };
        let ghost start = Building { scope: scope@, paths: self@.paths };
        let ghost scopes = self@.scopes;
        let items = tree.named_children(node);
        let ghost all = tree@.named_children(node as int);
        assert(indices(items@).len() == items@.len());
        let mut k: usize = 0;
        while k < items.len()
            invariant
                tree.wf(),
                previous_ok(tree@, previous@),
                indices(items@) == all,
                all.len() == items@.len(),
                tree@.end(node as int) <= tree@.len(),
                forall|n: int|
                    0 <= n < items@.len() ==> node < #[trigger] items@[n] < tree@.end(node as int),
                k <= items@.len(),
                self@.scopes == scopes,
                (Building { scope: scope@, paths: self@.paths }) == items_bindings(
                    tree@,
                    start,
                    all,
                    k as int,
                ),
            decreases items@.len() - k,
        {
            assert(all[k as int] == items@[k as int]);
            collect_item(tree, previous, &mut scope, &mut self.paths, items[k]);
            k = k + 1;
        }
        collect_parameters(tree, &mut scope, node);
        self.scopes.push(scope);
        assert(self@.scopes =~= scopes.push(scope@));
    }
}

} // verus!
