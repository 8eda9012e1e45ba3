//! JavaScript test code: scopes and bindings, the framework APIs that names
//! stand for, and the registrations and helpers that belong to tests.

use vstd::hash_map::StringHashMap;
use vstd::prelude::*;

use super::javascript::{
    callable_kind, find_wrapped, is_callable_kind, literal, literal_text, unwrap_expression,
    unwrapped, wrapped,
};
use super::javascript_api::{framework, framework_spec, ApiKind, Framework, Role, TestApi};
use super::regions::contained;
use super::syntax::{
    first_named, first_named_child, found, indices, remaining, Syntax, SyntaxTree,
};
use super::tree::{region_at, test_region};
use crate::metrics::{region_models, RegionModel, TestRegion};
use crate::sort::{lemma_insert_at, sorted};
use crate::text::same;

verus! {

/// Where a property's name stands, and whether it is quoted.
#[derive(Clone, Copy, PartialEq, Eq, Structural)]
pub struct Property {
    pub node: usize,
    pub quoted: bool,
}

/// What a name is bound to. Expressions and members come with the scope that
/// they are read in.
#[derive(Clone, Copy, PartialEq, Eq, Structural)]
pub enum Binding {
    Unknown,
    Api(TestApi),
    Expression(usize, usize),
    Member(usize, usize, Property),
    Function(usize),
}

pub struct Scope {
    pub parent: Option<usize>,
    pub function: bool,
    pub bindings: StringHashMap<Binding>,
}

pub struct ScopeModel {
    pub parent: Option<usize>,
    pub function: bool,
    pub bindings: Map<Seq<char>, Binding>,
}

impl View for Scope {
    type V = ScopeModel;

    open spec fn view(&self) -> ScopeModel {
        ScopeModel { parent: self.parent, function: self.function, bindings: self.bindings@ }
    }
}

pub open spec fn scope_models(scopes: Seq<Scope>) -> Seq<ScopeModel> {
    scopes.map_values(|s: Scope| s@)
}

/// A node with a scope.
#[derive(Clone, Copy, PartialEq, Eq, Structural)]
pub struct Place {
    pub node: usize,
    pub scope: usize,
}

/// What a walk over a source collects: its scopes, the scope of each node, the
/// nodes reached through named ones, the nodes that declare names, and the
/// declarations in order.
pub struct TestBindings {
    pub scopes: Vec<Scope>,
    pub scope_of: Vec<usize>,
    pub reached: Vec<bool>,
    pub declared: Vec<bool>,
    pub entries: Vec<Place>,
    pub ambient_framework: bool,
}

pub struct Collected {
    pub scopes: Seq<ScopeModel>,
    pub scope_of: Seq<usize>,
    pub reached: Seq<bool>,
    pub declared: Seq<bool>,
    pub entries: Seq<Place>,
    pub ambient_framework: bool,
}

impl View for TestBindings {
    type V = Collected;

    open spec fn view(&self) -> Collected {
        Collected {
            scopes: scope_models(self.scopes@),
            scope_of: self.scope_of@,
            reached: self.reached@,
            declared: self.declared@,
            entries: self.entries@,
            ambient_framework: self.ambient_framework,
        }
    }
}

pub open spec fn places_ok(places: Seq<Place>, nodes: int, scopes: int) -> bool {
    forall|k: int|
        0 <= k < places.len() ==> (#[trigger] places[k]).node < nodes && places[k].scope < scopes
}

pub open spec fn scopes_ok(scope_of: Seq<usize>, scopes: int) -> bool {
    forall|k: int| 0 <= k < scope_of.len() ==> #[trigger] scope_of[k] < scopes
}

impl Collected {
    /// Every place lies in the source and in a scope.
    pub open spec fn ok(self, t: Syntax) -> bool {
        &&& self.scopes.len() > 0
        &&& self.scope_of.len() == t.len()
        &&& scopes_ok(self.scope_of, self.scopes.len() as int)
        &&& self.reached.len() == t.len()
        &&& self.declared.len() == t.len()
        &&& places_ok(self.entries, t.len(), self.scopes.len() as int)
    }
}

/// The scopes alone, without what they bind.
pub struct Layout {
    pub scopes: Seq<ScopeModel>,
    pub scope_of: Seq<usize>,
    pub reached: Seq<bool>,
}

pub open spec fn opens_function(kind: Seq<char>) -> bool {
    is_callable_kind(kind) || kind == "class_static_block"@
}

pub open spec fn opens_scope(kind: Seq<char>) -> bool {
    ||| opens_function(kind)
    ||| kind == "statement_block"@
    ||| kind == "catch_clause"@
    ||| kind == "for_statement"@
    ||| kind == "for_in_statement"@
    ||| kind == "switch_body"@
    ||| kind == "class"@
    ||| kind == "class_declaration"@
    ||| kind == "internal_module"@
}

/// The scopes that the first `n` nodes open. Nodes inside anonymous ones are not
/// reached and open none.
pub open spec fn layout(t: Syntax, n: int) -> Layout
    decreases n,
{
    if n <= 0 {
        Layout {
            scopes: seq![ScopeModel { parent: None, function: true, bindings: Map::empty() }],
            scope_of: Seq::empty(),
            reached: Seq::empty(),
        }
    } else {
        let before = layout(t, n - 1);
        let i = n - 1;
        let reach = i == 0 || (t.named(i) && before.reached[t.parent(i)]);
        let outer = if i == 0 {
            0usize
        } else {
            before.scope_of[t.parent(i)]
        };
        if reach && opens_scope(t.kind(i)) {
            Layout {
                scopes: before.scopes.push(
                    ScopeModel {
                        parent: Some(outer),
                        function: opens_function(t.kind(i)),
                        bindings: Map::empty(),
                    },
                ),
                scope_of: before.scope_of.push(before.scopes.len() as usize),
                reached: before.reached.push(true),
            }
        } else {
            Layout {
                scopes: before.scopes,
                scope_of: before.scope_of.push(outer),
                reached: before.reached.push(reach),
            }
        }
    }
}

/// The part of a pattern, or of a parameter, that binds names.
pub open spec fn binding_part(t: Syntax, i: int) -> Option<int> {
    let kind = t.kind(i);
    if kind == "pair_pattern"@ {
        t.field(i, "value"@)
    } else if kind == "assignment_pattern"@ || kind == "object_assignment_pattern"@ {
        t.field(i, "left"@)
    } else if kind == "required_parameter"@ || kind == "optional_parameter"@ {
        match t.field(i, "pattern"@) {
            Some(pattern) => Some(pattern),
            None => t.field(i, "name"@),
        }
    } else {
        None
    }
}

pub open spec fn is_pattern_group(kind: Seq<char>) -> bool {
    kind == "array_pattern"@ || kind == "object_pattern"@ || kind == "rest_pattern"@ || kind
        == "formal_parameters"@
}

/// The node may bind names by its place in the pattern `root`.
pub open spec fn in_pattern(t: Syntax, root: int, at: int) -> bool {
    ||| at == root
    ||| at > 0 && t.named(at) && is_pattern_group(t.kind(t.parent(at)))
    ||| at > 0 && binding_part(t, t.parent(at)) == Some(at)
}

pub open spec fn is_bound_name(kind: Seq<char>) -> bool {
    kind == "identifier"@ || kind == "shorthand_property_identifier_pattern"@
}

/// The names that a pattern binds, from `at` up to `stop`.
pub open spec fn names_from(t: Syntax, root: int, at: int, stop: int) -> Seq<int>
    decreases remaining(at, stop),
{
    let kind = t.kind(at);
    if at >= stop || t.end(at) <= at {
        Seq::empty()
    } else if !in_pattern(t, root, at) {
        names_from(t, root, t.end(at), stop)
    } else if is_bound_name(kind) {
        seq![at] + names_from(t, root, t.end(at), stop)
    } else if is_pattern_group(kind) || binding_part(t, at) is Some {
        names_from(t, root, at + 1, stop)
    } else {
        names_from(t, root, t.end(at), stop)
    }
}

/// The names that a pattern binds.
pub open spec fn binding_names(t: Syntax, i: int) -> Seq<int> {
    names_from(t, i, i, t.end(i))
}

/// Declares a name. A second declaration leaves it without a meaning.
pub open spec fn defined(t: Syntax, s: Collected, scope: int, node: int, binding: Binding) -> Collected {
    let old = s.scopes[scope];
    let name = t.text(node);
    let value = if old.bindings.contains_key(name) {
        Binding::Unknown
    } else {
        binding
    };
    Collected {
        scopes: s.scopes.update(
            scope,
            ScopeModel { bindings: old.bindings.insert(name, value), ..old },
        ),
        declared: s.declared.update(node, true),
        entries: s.entries.push(Place { node: node as usize, scope: scope as usize }),
        ..s
    }
}

/// Declares the first `n` names without a meaning.
pub open spec fn defined_unknown(t: Syntax, s: Collected, names: Seq<int>, n: int, scope: int) -> Collected
    decreases n,
{
    if n <= 0 {
        s
    } else {
        defined(
            t,
            defined_unknown(t, s, names, n - 1, scope),
            scope,
            names[n - 1],
            Binding::Unknown,
        )
    }
}

/// Declares the names of a pattern without a meaning.
pub open spec fn defined_pattern(t: Syntax, s: Collected, pattern: int, scope: int) -> Collected {
    let names = binding_names(t, pattern);
    defined_unknown(t, s, names, names.len() as int, scope)
}

/// The nearest scope of a function.
pub open spec fn function_scope(scopes: Seq<ScopeModel>, scope: int) -> int
    decreases scope,
{
    match scopes[scope].parent {
        Some(parent) => if !scopes[scope].function && parent < scope {
            function_scope(scopes, parent as int)
        } else {
            scope
        },
        None => scope,
    }
}

/// The scope around a scope.
pub open spec fn outer_scope(scopes: Seq<ScopeModel>, scope: int) -> int {
    match scopes[scope].parent {
        Some(parent) => if parent < scope {
            parent as int
        } else {
            scope
        },
        None => scope,
    }
}

/// The property that a name in an object pattern takes.
pub open spec fn destructured(t: Syntax, name: int) -> Option<Property> {
    let parent = t.parent(name);
    if name <= 0 {
        None
    } else if t.kind(parent) == "pair_pattern"@ {
        match t.field(parent, "key"@) {
            Some(key) => if literal(t, key) is Some {
                Some(Property { node: key as usize, quoted: true })
            } else if t.kind(key) == "property_identifier"@ {
                Some(Property { node: key as usize, quoted: false })
            } else {
                None
            },
            None => None,
        }
    } else if t.kind(parent) == "object_pattern"@ {
        Some(Property { node: name as usize, quoted: false })
    } else {
        None
    }
}

/// What a declarator binds a name of its pattern to.
pub open spec fn declarator_binding(
    t: Syntax,
    pattern: int,
    value: Option<int>,
    name: int,
    scope: int,
) -> Binding {
    match value {
        None => Binding::Unknown,
        Some(value) => if t.kind(pattern) == "identifier"@ {
            Binding::Expression(value as usize, scope as usize)
        } else if t.kind(pattern) == "object_pattern"@ {
            match destructured(t, name) {
                Some(property) => Binding::Member(value as usize, scope as usize, property),
                None => Binding::Unknown,
            }
        } else {
            Binding::Unknown
        },
    }
}

/// Declares the first `n` names of a declarator.
pub open spec fn declared_names(
    t: Syntax,
    s: Collected,
    node: int,
    names: Seq<int>,
    n: int,
    target: int,
    scope: int,
) -> Collected
    decreases n,
{
    if n <= 0 {
        s
    } else {
        let binding = match t.field(node, "name"@) {
            Some(pattern) => declarator_binding(
                t,
                pattern,
                t.field(node, "value"@),
                names[n - 1],
                scope,
            ),
            None => Binding::Unknown,
        };
        defined(
            t,
            declared_names(t, s, node, names, n - 1, target, scope),
            target,
            names[n - 1],
            binding,
        )
    }
}

/// Declares what a variable declarator binds.
pub open spec fn declarator(t: Syntax, s: Collected, node: int, scope: int) -> Collected {
    let target = if node > 0 && t.kind(t.parent(node)) == "variable_declaration"@ {
        function_scope(s.scopes, scope)
    } else {
        scope
    };
    match t.field(node, "name"@) {
        Some(pattern) => {
            let names = binding_names(t, pattern);
            declared_names(t, s, node, names, names.len() as int, target, scope)
        },
        None => s,
    }
}

/// Declares the parameters and the name of a callable.
pub open spec fn callable_bindings(t: Syntax, s: Collected, node: int, scope: int) -> Collected {
    let parameters = match t.field(node, "parameters"@) {
        Some(list) => Some(list),
        None => t.field(node, "parameter"@),
    };
    let filled = match parameters {
        Some(list) => defined_pattern(t, s, list, scope),
        None => s,
    };
    let kind = t.kind(node);
    match t.field(node, "name"@) {
        Some(name) => if kind == "function_declaration"@ || kind
            == "generator_function_declaration"@ {
            defined(
                t,
                filled,
                outer_scope(filled.scopes, scope),
                name,
                Binding::Function(node as usize),
            )
        } else if kind == "function_expression"@ || kind == "generator_function"@ {
            defined(t, filled, scope, name, Binding::Function(node as usize))
        } else {
            filled
        },
        None => filled,
    }
}

/// Where an import statement names its module.
pub open spec fn import_source_from(t: Syntax, children: Seq<int>, k: int) -> Option<int>
    decreases children.len() - k,
{
    if k >= children.len() {
        None
    } else {
        match t.field(children[k], "source"@) {
            Some(source) => Some(source),
            None => import_source_from(t, children, k + 1),
        }
    }
}

pub open spec fn import_source(t: Syntax, node: int) -> Option<int> {
    match t.field(node, "source"@) {
        Some(source) => Some(source),
        None => import_source_from(t, t.named_children(node), 0),
    }
}

/// The framework that an import statement imports.
pub open spec fn imported_framework(t: Syntax, node: int) -> Option<TestApi> {
    match import_source(t, node) {
        Some(source) => match literal(t, source) {
            Some(name) => match framework_spec(name) {
                Some(framework) => Some(TestApi { framework, kind: ApiKind::Namespace }),
                None => None,
            },
            None => None,
        },
        None => None,
    }
}

pub open spec fn api_binding(api: Option<TestApi>) -> Binding {
    match api {
        Some(api) => Binding::Api(api),
        None => Binding::Unknown,
    }
}

pub open spec fn member_of(api: Option<TestApi>, name: Seq<char>) -> Option<TestApi> {
    match api {
        Some(api) => api.member_spec(name),
        None => None,
    }
}

/// What the default export of a framework is.
pub open spec fn default_import(api: Option<TestApi>) -> Option<TestApi> {
    match api {
        Some(namespace) => match namespace.member_spec("default"@) {
            Some(member) => Some(member),
            None => if namespace.framework == Framework::Mocha {
                Some(namespace)
            } else {
                None
            },
        },
        None => None,
    }
}

/// The name that an import specifier imports.
pub open spec fn imported_name(t: Syntax, name: int) -> Seq<char> {
    match literal(t, name) {
        Some(text) => text,
        None => t.text(name),
    }
}

/// Declares what one import specifier binds. A specifier of a type binds
/// nothing.
pub open spec fn specifier(t: Syntax, s: Collected, at: int, scope: int, api: Option<TestApi>) -> Collected {
    match t.field(at, "name"@) {
        Some(name) => if t.has_child(at, "type"@) {
            s
        } else {
            let marked = Collected { declared: s.declared.update(name, true), ..s };
            let local = match t.field(at, "alias"@) {
                Some(alias) => alias,
                None => name,
            };
            defined(
                t,
                marked,
                scope,
                local,
                api_binding(member_of(api, imported_name(t, name))),
            )
        },
        None => s,
    }
}

/// Declares what an import statement binds, from `at` up to `stop`.
pub open spec fn imports_from(
    t: Syntax,
    s: Collected,
    at: int,
    stop: int,
    scope: int,
    api: Option<TestApi>,
) -> Collected
    decreases remaining(at, stop),
{
    let kind = t.kind(at);
    if at >= stop || t.end(at) <= at {
        s
    } else if !t.named(at) {
        imports_from(t, s, t.end(at), stop, scope, api)
    } else if kind == "import_clause"@ || kind == "named_imports"@ {
        imports_from(t, s, at + 1, stop, scope, api)
    } else if kind == "import_specifier"@ {
        imports_from(t, specifier(t, s, at, scope, api), t.end(at), stop, scope, api)
    } else if kind == "namespace_import"@ || kind == "import_require_clause"@ {
        let names = t.named_of_kind(at, "identifier"@);
        let next = if names.len() > 0 {
            defined(t, s, scope, names[0], api_binding(api))
        } else {
            s
        };
        imports_from(t, next, t.end(at), stop, scope, api)
    } else if kind == "identifier"@ {
        imports_from(
            t,
            defined(t, s, scope, at, api_binding(default_import(api))),
            t.end(at),
            stop,
            scope,
            api,
        )
    } else {
        imports_from(t, s, t.end(at), stop, scope, api)
    }
}

/// Frameworks whose functions are also ambient.
pub open spec fn is_ambient(api: Option<TestApi>) -> bool {
    match api {
        Some(api) => api.framework == Framework::Jest || api.framework == Framework::Vitest
            || api.framework == Framework::Mocha,
        None => false,
    }
}

/// Declares what an import statement binds. An import of types binds nothing.
pub open spec fn import_bindings(t: Syntax, s: Collected, node: int, scope: int) -> Collected {
    let api = imported_framework(t, node);
    let noted = Collected { ambient_framework: s.ambient_framework || is_ambient(api), ..s };
    if t.has_child(node, "type"@) {
        s
    } else {
        imports_from(t, noted, node + 1, t.end(node), scope, api)
    }
}

/// Declares what the head of a `for` loop over items binds.
pub open spec fn loop_bindings(t: Syntax, s: Collected, node: int, scope: int) -> Collected {
    match (t.field(node, "kind"@), t.field(node, "left"@)) {
        (Some(kind), Some(pattern)) => defined_pattern(
            t,
            s,
            pattern,
            if t.text(kind) == "var"@ {
                function_scope(s.scopes, scope)
            } else {
                scope
            },
        ),
        _ => s,
    }
}

pub open spec fn is_named_declaration(kind: Seq<char>) -> bool {
    kind == "class_declaration"@ || kind == "enum_declaration"@ || kind == "function_signature"@
        || kind == "internal_module"@
}

/// Declares what one node binds.
pub open spec fn node_bindings(t: Syntax, s: Collected, i: int) -> Collected {
    let scope = s.scope_of[i] as int;
    let kind = t.kind(i);
    if is_callable_kind(kind) {
        callable_bindings(t, s, i, scope)
    } else if kind == "variable_declarator"@ {
        declarator(t, s, i, scope)
    } else if kind == "import_statement"@ {
        import_bindings(t, s, i, scope)
    } else if kind == "catch_clause"@ {
        match t.field(i, "parameter"@) {
            Some(pattern) => defined_pattern(t, s, pattern, scope),
            None => s,
        }
    } else if kind == "for_in_statement"@ {
        loop_bindings(t, s, i, scope)
    } else if kind == "class"@ {
        match t.field(i, "name"@) {
            Some(name) => defined(t, s, scope, name, Binding::Unknown),
            None => s,
        }
    } else if is_named_declaration(kind) {
        match t.field(i, "name"@) {
            Some(name) => defined(
                t,
                s,
                if kind == "class_declaration"@ || kind == "internal_module"@ {
                    outer_scope(s.scopes, scope)
                } else {
                    scope
                },
                name,
                Binding::Unknown,
            ),
            None => s,
        }
    } else {
        s
    }
}

/// Declares what the first `n` nodes bind.
pub open spec fn bindings_of(t: Syntax, n: int) -> Collected
    decreases n,
{
    if n <= 0 {
        let all = layout(t, t.len());
        Collected {
            scopes: all.scopes,
            scope_of: all.scope_of,
            reached: all.reached,
            declared: Seq::new(t.nodes.len(), |k: int| false),
            entries: Seq::empty(),
            ambient_framework: false,
        }
    } else {
        let before = bindings_of(t, n - 1);
        if before.reached[n - 1] {
            node_bindings(t, before, n - 1)
        } else {
            before
        }
    }
}

/// What a walk over a source collects.
pub open spec fn collected(t: Syntax) -> Collected {
    bindings_of(t, t.len())
}

fn function_opens(tree: &SyntaxTree, i: usize) -> (r: bool)
    requires
        tree.wf(),
        i < tree@.len(),
    ensures
        r == opens_function(tree@.kind(i as int)),
{
    callable_kind(tree, i) || tree.is(i, "class_static_block")
}

fn scope_opens(tree: &SyntaxTree, i: usize) -> (r: bool)
    requires
        tree.wf(),
        i < tree@.len(),
    ensures
        r == opens_scope(tree@.kind(i as int)),
{
    function_opens(tree, i) || tree.is(i, "statement_block") || tree.is(i, "catch_clause")
        || tree.is(i, "for_statement") || tree.is(i, "for_in_statement") || tree.is(
        i,
        "switch_body",
    ) || tree.is(i, "class") || tree.is(i, "class_declaration") || tree.is(i, "internal_module")
}

fn find_binding_part(tree: &SyntaxTree, i: usize) -> (part: Option<usize>)
    requires
        tree.wf(),
        i < tree@.len(),
    ensures
        found(part) == binding_part(tree@, i as int),
        part is Some ==> i < part->0 < tree@.end(i as int) <= tree@.len(),
{
    if tree.is(i, "pair_pattern") {
        tree.field(i, "value")
    } else if tree.is(i, "assignment_pattern") || tree.is(i, "object_assignment_pattern") {
        tree.field(i, "left")
    } else if tree.is(i, "required_parameter") || tree.is(i, "optional_parameter") {
        match tree.field(i, "pattern") {
            Some(pattern) => Some(pattern),
            None => tree.field(i, "name"),
        }
    } else {
        None
    }
}

fn pattern_group(tree: &SyntaxTree, i: usize) -> (r: bool)
    requires
        tree.wf(),
        i < tree@.len(),
    ensures
        r == is_pattern_group(tree@.kind(i as int)),
{
    tree.is(i, "array_pattern") || tree.is(i, "object_pattern") || tree.is(i, "rest_pattern")
        || tree.is(i, "formal_parameters")
}

fn lies_in_pattern(tree: &SyntaxTree, root: usize, at: usize) -> (r: bool)
    requires
        tree.wf(),
        at < tree@.len(),
    ensures
        r == in_pattern(tree@, root as int, at as int),
{
    if at == root {
        return true;
    }
    if at == 0 {
        return false;
    }
    assert(tree@.parent_at(at as int));
    let parent: usize = tree.parents[at];
    if tree.nodes[at].named && pattern_group(tree, parent) {
        return true;
    }
    match find_binding_part(tree, parent) {
        Some(part) => part == at,
        None => false,
    }
}

/// The names that a pattern binds.
fn find_binding_names(tree: &SyntaxTree, root: usize) -> (names: Vec<usize>)
    requires
        tree.wf(),
        root < tree@.len(),
    ensures
        indices(names@) == binding_names(tree@, root as int),
        names@.len() == binding_names(tree@, root as int).len(),
        forall|k: int| 0 <= k < names@.len() ==> #[trigger] names@[k] < tree@.len(),
{
    assert(tree@.end_at(root as int));
    let stop: usize = tree.ends[root];
    let mut names: Vec<usize> = Vec::new();
    let mut at: usize = root;
    let ghost goal = binding_names(tree@, root as int);
    assert(indices(names@) + goal =~= goal);
    while at < stop
        invariant
            tree.wf(),
            stop <= tree@.len(),
            indices(names@) + names_from(tree@, root as int, at as int, stop as int) == goal,
            forall|k: int| 0 <= k < names@.len() ==> #[trigger] names@[k] < tree@.len(),
        decreases remaining(at as int, stop as int),
    {
        assert(tree@.end_at(at as int));
        if !lies_in_pattern(tree, root, at) {
            at = tree.ends[at];
        } else if tree.is(at, "identifier") || tree.is(
            at,
            "shorthand_property_identifier_pattern",
        ) {
            let ghost rest = names_from(tree@, root as int, tree@.end(at as int), stop as int);
            let ghost before = names@;
            names.push(at);
            assert(indices(names@) =~= indices(before).push(at as int));
            assert(indices(before) + (seq![at as int] + rest) =~= indices(names@) + rest);
            at = tree.ends[at];
        } else if pattern_group(tree, at) || find_binding_part(tree, at).is_some() {
            at = at + 1;
        } else {
            at = tree.ends[at];
        }
    }
    assert(indices(names@) + Seq::<int>::empty() =~= indices(names@));
    names
}

fn find_function_scope(scopes: &Vec<Scope>, scope: usize) -> (owner: usize)
    requires
        scope < scopes@.len(),
    ensures
        owner < scopes@.len(),
        owner == function_scope(scope_models(scopes@), scope as int),
{
    let ghost models = scope_models(scopes@);
    let mut at: usize = scope;
    loop
        invariant
            at < scopes@.len(),
            models == scope_models(scopes@),
            function_scope(models, at as int) == function_scope(models, scope as int),
        decreases at,
    {
        assert(models[at as int] == scopes@[at as int]@);
        if scopes[at].function {
            return at;
        }
        match scopes[at].parent {
            Some(parent) => {
                if parent >= at {
                    return at;
                }
                at = parent;
            },
            None => {
                return at;
            },
        }
    }
}

fn find_outer_scope(scopes: &Vec<Scope>, scope: usize) -> (owner: usize)
    requires
        scope < scopes@.len(),
    ensures
        owner < scopes@.len(),
        owner == outer_scope(scope_models(scopes@), scope as int),
{
    assert(scope_models(scopes@)[scope as int] == scopes@[scope as int]@);
    match scopes[scope].parent {
        Some(parent) => if parent < scope {
            parent
        } else {
            scope
        },
        None => scope,
    }
}

fn find_destructured(tree: &SyntaxTree, name: usize) -> (property: Option<Property>)
    requires
        tree.wf(),
        name < tree@.len(),
    ensures
        property == destructured(tree@, name as int),
{
    if name == 0 {
        return None;
    }
    assert(tree@.parent_at(name as int));
    let parent: usize = tree.parents[name];
    if tree.is(parent, "pair_pattern") {
        match tree.field(parent, "key") {
            Some(key) => if literal_text(tree, key).is_some() {
                Some(Property { node: key, quoted: true })
            } else if tree.is(key, "property_identifier") {
                Some(Property { node: key, quoted: false })
            } else {
                None
            },
            None => None,
        }
    } else if tree.is(parent, "object_pattern") {
        Some(Property { node: name, quoted: false })
    } else {
        None
    }
}

fn find_declarator_binding(
    tree: &SyntaxTree,
    pattern: usize,
    value: Option<usize>,
    name: usize,
    scope: usize,
) -> (binding: Binding)
    requires
        tree.wf(),
        pattern < tree@.len(),
        name < tree@.len(),
    ensures
        binding == declarator_binding(
            tree@,
            pattern as int,
            found(value),
            name as int,
            scope as int,
        ),
{
    match value {
        None => Binding::Unknown,
        Some(value) => if tree.is(pattern, "identifier") {
            Binding::Expression(value, scope)
        } else if tree.is(pattern, "object_pattern") {
            match find_destructured(tree, name) {
                Some(property) => Binding::Member(value, scope, property),
                None => Binding::Unknown,
            }
        } else {
            Binding::Unknown
        },
    }
}

fn find_import_source(tree: &SyntaxTree, node: usize) -> (source: Option<usize>)
    requires
        tree.wf(),
        node < tree@.len(),
    ensures
        found(source) == import_source(tree@, node as int),
        source is Some ==> source->0 < tree@.len(),
{
    match tree.field(node, "source") {
        Some(source) => {
            return Some(source);
        },
        None => {},
    }
    let children = tree.named_children(node);
    let ghost all = tree@.named_children(node as int);
    assert(indices(children@).len() == children@.len());
    let mut k: usize = 0;
    while k < children.len()
        invariant
            tree.wf(),
            indices(children@) == all,
            all.len() == children@.len(),
            all == tree@.named_children(node as int),
            tree@.field(node as int, "source"@) is None,
            tree@.end(node as int) <= tree@.len(),
            forall|n: int|
                0 <= n < children@.len() ==> node < #[trigger] children@[n] < tree@.end(
                    node as int,
                ),
            k <= children@.len(),
            import_source_from(tree@, all, k as int) == import_source_from(tree@, all, 0),
        decreases children@.len() - k,
    {
        assert(all[k as int] == children@[k as int]);
        match tree.field(children[k], "source") {
            Some(source) => {
                return Some(source);
            },
            None => {},
        }
        k = k + 1;
    }
    None
}

fn find_imported_framework(tree: &SyntaxTree, node: usize) -> (api: Option<TestApi>)
    requires
        tree.wf(),
        node < tree@.len(),
    ensures
        api == imported_framework(tree@, node as int),
{
    match find_import_source(tree, node) {
        Some(source) => match literal_text(tree, source) {
            Some(name) => match framework(name) {
                Some(framework) => Some(TestApi { framework, kind: ApiKind::Namespace }),
                None => None,
            },
            None => None,
        },
        None => None,
    }
}

fn binding_of_api(api: Option<TestApi>) -> (binding: Binding)
    ensures
        binding == api_binding(api),
{
    match api {
        Some(api) => Binding::Api(api),
        None => Binding::Unknown,
    }
}

fn find_default_import(api: Option<TestApi>) -> (result: Option<TestApi>)
    ensures
        result == default_import(api),
{
    match api {
        Some(namespace) => match namespace.member("default") {
            Some(member) => Some(member),
            None => if namespace.framework == Framework::Mocha {
                Some(namespace)
            } else {
                None
            },
        },
        None => None,
    }
}

/// The scopes and the reached nodes have not changed.
pub open spec fn same_layout(a: Collected, b: Collected) -> bool {
    &&& a.scopes.len() == b.scopes.len()
    &&& a.scope_of == b.scope_of
    &&& a.reached == b.reached
}

impl TestBindings {
    pub open spec fn ok(&self, t: Syntax) -> bool {
        self@.ok(t)
    }

    fn define(&mut self, tree: &SyntaxTree, scope: usize, node: usize, binding: Binding)
        requires
            tree.wf(),
            old(self).ok(tree@),
            node < tree@.len(),
            scope < old(self)@.scopes.len(),
        ensures
            final(self)@ == defined(tree@, old(self)@, scope as int, node as int, binding),
            final(self).ok(tree@),
            same_layout(final(self)@, old(self)@),
    {
        let name: &str = tree.text(node);
        let known: bool = self.scopes[scope].bindings.contains_key(name);
        let value: Binding = if known {
            Binding::Unknown
        } else {
            binding
        };
        self.scopes[scope].bindings.insert(name.to_owned(), value);
        assert(self@.scopes =~= defined(
            tree@,
            old(self)@,
            scope as int,
            node as int,
            binding,
        ).scopes);
        self.declared.set(node, true);
        self.entries.push(Place { node, scope });
    }

    fn define_pattern(&mut self, tree: &SyntaxTree, pattern: usize, scope: usize)
        requires
            tree.wf(),
            old(self).ok(tree@),
            pattern < tree@.len(),
            scope < old(self)@.scopes.len(),
        ensures
            final(self)@ == defined_pattern(tree@, old(self)@, pattern as int, scope as int),
            final(self).ok(tree@),
            same_layout(final(self)@, old(self)@),
    {
        let names = find_binding_names(tree, pattern);
        let ghost all = binding_names(tree@, pattern as int);
        let mut k: usize = 0;
        while k < names.len()
            invariant
                tree.wf(),
                self.ok(tree@),
                same_layout(self@, old(self)@),
                scope < self@.scopes.len(),
                indices(names@) == all,
                all.len() == names@.len(),
                forall|n: int| 0 <= n < names@.len() ==> #[trigger] names@[n] < tree@.len(),
                k <= names@.len(),
                self@ == defined_unknown(tree@, old(self)@, all, k as int, scope as int),
            decreases names@.len() - k,
        {
            assert(all[k as int] == names@[k as int]);
            self.define(tree, scope, names[k], Binding::Unknown);
            k = k + 1;
        }
    }

    fn declare(&mut self, tree: &SyntaxTree, node: usize, scope: usize)
        requires
            tree.wf(),
            old(self).ok(tree@),
            node < tree@.len(),
            scope < old(self)@.scopes.len(),
        ensures
            final(self)@ == declarator(tree@, old(self)@, node as int, scope as int),
            final(self).ok(tree@),
            same_layout(final(self)@, old(self)@),
    {
        let pattern: usize = match tree.field(node, "name") {
            Some(pattern) => pattern,
            None => {
                return;
            },
        };
        let mut target: usize = scope;
        if node > 0 {
            assert(tree@.parent_at(node as int));
            if tree.is(tree.parents[node], "variable_declaration") {
                target = find_function_scope(&self.scopes, scope);
            }
        }
        let value: Option<usize> = tree.field(node, "value");
        let names = find_binding_names(tree, pattern);
        let ghost all = binding_names(tree@, pattern as int);
        let mut k: usize = 0;
        while k < names.len()
            invariant
                tree.wf(),
                self.ok(tree@),
                same_layout(self@, old(self)@),
                scope < self@.scopes.len(),
                target < self@.scopes.len(),
                pattern < tree@.len(),
                tree@.field(node as int, "name"@) == Some(pattern as int),
                tree@.field(node as int, "value"@) == found(value),
                indices(names@) == all,
                all.len() == names@.len(),
                forall|n: int| 0 <= n < names@.len() ==> #[trigger] names@[n] < tree@.len(),
                k <= names@.len(),
                self@ == declared_names(
                    tree@,
                    old(self)@,
                    node as int,
                    all,
                    k as int,
                    target as int,
                    scope as int,
                ),
            decreases names@.len() - k,
        {
            let name: usize = names[k];
            assert(all[k as int] == name);
            let binding: Binding = find_declarator_binding(tree, pattern, value, name, scope);
            self.define(tree, target, name, binding);
            k = k + 1;
        }
    }

    fn bind_callable(&mut self, tree: &SyntaxTree, node: usize, scope: usize)
        requires
            tree.wf(),
            old(self).ok(tree@),
            node < tree@.len(),
            scope < old(self)@.scopes.len(),
        ensures
            final(self)@ == callable_bindings(tree@, old(self)@, node as int, scope as int),
            final(self).ok(tree@),
            same_layout(final(self)@, old(self)@),
    {
        let parameters: Option<usize> = match tree.field(node, "parameters") {
            Some(list) => Some(list),
            None => tree.field(node, "parameter"),
        };
        match parameters {
            Some(list) => self.define_pattern(tree, list, scope),
            None => {},
        }
        match tree.field(node, "name") {
            Some(name) => {
                if tree.is(node, "function_declaration") || tree.is(
                    node,
                    "generator_function_declaration",
                ) {
                    let outer: usize = find_outer_scope(&self.scopes, scope);
                    self.define(tree, outer, name, Binding::Function(node));
                } else if tree.is(node, "function_expression") || tree.is(
                    node,
                    "generator_function",
                ) {
                    self.define(tree, scope, name, Binding::Function(node));
                }
            },
            None => {},
        }
    }

    fn import_specifier(
        &mut self,
        tree: &SyntaxTree,
        at: usize,
        scope: usize,
        api: Option<TestApi>,
    )
        requires
            tree.wf(),
            old(self).ok(tree@),
            at < tree@.len(),
            scope < old(self)@.scopes.len(),
        ensures
            final(self)@ == specifier(tree@, old(self)@, at as int, scope as int, api),
            final(self).ok(tree@),
            same_layout(final(self)@, old(self)@),
    {
        let name: usize = match tree.field(at, "name") {
            Some(name) => name,
            None => {
                return;
            },
        };
        if tree.has_child(at, "type") {
            return;
        }
        self.declared.set(name, true);
        let local: usize = match tree.field(at, "alias") {
            Some(alias) => alias,
            None => name,
        };
        let imported: &str = match literal_text(tree, name) {
            Some(text) => text,
            None => tree.text(name),
        };
        let member: Option<TestApi> = match api {
            Some(api) => api.member(imported),
            None => None,
        };
        self.define(tree, scope, local, binding_of_api(member));
    }

    fn import_bindings(&mut self, tree: &SyntaxTree, node: usize, scope: usize)
        requires
            tree.wf(),
            old(self).ok(tree@),
            node < tree@.len(),
            scope < old(self)@.scopes.len(),
        ensures
            final(self)@ == import_bindings(tree@, old(self)@, node as int, scope as int),
            final(self).ok(tree@),
            same_layout(final(self)@, old(self)@),
    {
        if tree.has_child(node, "type") {
            return;
        }
        let api: Option<TestApi> = find_imported_framework(tree, node);
        let ambient: bool = match api {
            Some(api) => api.framework == Framework::Jest || api.framework == Framework::Vitest
                || api.framework == Framework::Mocha,
            None => false,
        };
        self.ambient_framework = self.ambient_framework || ambient;
        assert(tree@.end_at(node as int));
        let stop: usize = tree.ends[node];
        let mut at: usize = node + 1;
        let ghost goal = import_bindings(tree@, old(self)@, node as int, scope as int);
        while at < stop
            invariant
                tree.wf(),
                self.ok(tree@),
                same_layout(self@, old(self)@),
                stop <= tree@.len(),
                scope < self@.scopes.len(),
                imports_from(tree@, self@, at as int, stop as int, scope as int, api) == goal,
            decreases remaining(at as int, stop as int),
        {
            assert(tree@.end_at(at as int));
            if !tree.nodes[at].named {
                at = tree.ends[at];
            } else if tree.is(at, "import_clause") || tree.is(at, "named_imports") {
                at = at + 1;
            } else if tree.is(at, "import_specifier") {
                self.import_specifier(tree, at, scope, api);
                at = tree.ends[at];
            } else if tree.is(at, "namespace_import") || tree.is(at, "import_require_clause") {
                let names = tree.named_of_kind(at, "identifier");
                assert(indices(names@).len() == names@.len());
                if names.len() > 0 {
                    assert(indices(names@)[0] == names@[0]);
                    self.define(tree, scope, names[0], binding_of_api(api));
                }
                at = tree.ends[at];
            } else if tree.is(at, "identifier") {
                self.define(tree, scope, at, binding_of_api(find_default_import(api)));
                at = tree.ends[at];
            } else {
                at = tree.ends[at];
            }
        }
    }

    fn bind_node(&mut self, tree: &SyntaxTree, i: usize)
        requires
            tree.wf(),
            old(self).ok(tree@),
            i < tree@.len(),
        ensures
            final(self)@ == node_bindings(tree@, old(self)@, i as int),
            final(self).ok(tree@),
            same_layout(final(self)@, old(self)@),
    {
        assert(scopes_ok(self@.scope_of, self@.scopes.len() as int));
        let scope: usize = self.scope_of[i];
        assert(self@.scope_of[i as int] == scope);
        if callable_kind(tree, i) {
            self.bind_callable(tree, i, scope);
        } else if tree.is(i, "variable_declarator") {
            self.declare(tree, i, scope);
        } else if tree.is(i, "import_statement") {
            self.import_bindings(tree, i, scope);
        } else if tree.is(i, "catch_clause") {
            match tree.field(i, "parameter") {
                Some(pattern) => self.define_pattern(tree, pattern, scope),
                None => {},
            }
        } else if tree.is(i, "for_in_statement") {
            match (tree.field(i, "kind"), tree.field(i, "left")) {
                (Some(kind), Some(pattern)) => {
                    let target: usize = if same(tree.text(kind), "var") {
                        find_function_scope(&self.scopes, scope)
                    } else {
                        scope
                    };
                    self.define_pattern(tree, pattern, target);
                },
                _ => {},
            }
        } else if tree.is(i, "class") {
            match tree.field(i, "name") {
                Some(name) => self.define(tree, scope, name, Binding::Unknown),
                None => {},
            }
        } else {
            let outer: bool = tree.is(i, "class_declaration") || tree.is(i, "internal_module");
            if outer || tree.is(i, "enum_declaration") || tree.is(i, "function_signature") {
                match tree.field(i, "name") {
                    Some(name) => {
                        let target: usize = if outer {
                            find_outer_scope(&self.scopes, scope)
                        } else {
                            scope
                        };
                        self.define(tree, target, name, Binding::Unknown);
                    },
                    None => {},
                }
            }
        }
    }

    /// Collects the scopes of a source.
    fn lay_out(tree: &SyntaxTree) -> (bindings: Self)
        requires
            tree.wf(),
        ensures
            bindings.ok(tree@),
            bindings@ == bindings_of(tree@, 0),
    {
        let n: usize = tree.nodes.len();
        let mut scopes: Vec<Scope> = Vec::new();
        scopes.push(Scope { parent: None, function: true, bindings: StringHashMap::new() });
        let mut scope_of: Vec<usize> = Vec::new();
        let mut reached: Vec<bool> = Vec::new();
        let mut declared: Vec<bool> = Vec::new();
        assert(scope_models(scopes@) =~= layout(tree@, 0).scopes);
        let mut i: usize = 0;
        while i < n
            invariant
                tree.wf(),
                n == tree@.len(),
                i <= n,
                scopes@.len() > 0,
                scope_models(scopes@) == layout(tree@, i as int).scopes,
                scope_of@ == layout(tree@, i as int).scope_of,
                reached@ == layout(tree@, i as int).reached,
                scope_of@.len() == i,
                reached@.len() == i,
                declared@.len() == i,
                scopes_ok(scope_of@, scopes@.len() as int),
                forall|k: int| 0 <= k < i ==> !(#[trigger] declared@[k]),
            decreases n - i,
        {
            let mut reach: bool = true;
            let mut outer: usize = 0;
            if i > 0 {
                assert(tree@.parent_at(i as int));
                let parent: usize = tree.parents[i];
                reach = tree.nodes[i].named && reached[parent];
                outer = scope_of[parent];
            }
            if reach && scope_opens(tree, i) {
                let function: bool = function_opens(tree, i);
                let ghost before = scope_models(scopes@);
                let count: usize = scopes.len();
                scopes.push(Scope { parent: Some(outer), function, bindings: StringHashMap::new() });
                assert(scope_models(scopes@) =~= before.push(
                    ScopeModel { parent: Some(outer), function, bindings: Map::empty() },
                ));
                scope_of.push(count);
            } else {
                scope_of.push(outer);
            }
            reached.push(reach);
            declared.push(false);
            i = i + 1;
        }
        let bindings = TestBindings {
            scopes,
            scope_of,
            reached,
            declared,
            entries: Vec::new(),
            ambient_framework: false,
        };
        assert(bindings@.declared =~= Seq::new(tree@.nodes.len(), |k: int| false));
        assert(bindings@.entries =~= Seq::<Place>::empty());
        bindings
    }

    /// Collects what a source binds.
    pub fn collect(tree: &SyntaxTree) -> (bindings: Self)
        requires
            tree.wf(),
        ensures
            bindings.ok(tree@),
            bindings@ == collected(tree@),
    {
        let n: usize = tree.nodes.len();
        let mut bindings = Self::lay_out(tree);
        let mut i: usize = 0;
        while i < n
            invariant
                tree.wf(),
                n == tree@.len(),
                i <= n,
                bindings.ok(tree@),
                bindings@ == bindings_of(tree@, i as int),
            decreases n - i,
        {
            assert(bindings@.reached.len() == n);
            if bindings.reached[i] {
                bindings.bind_node(tree, i);
            }
            i = i + 1;
        }
        bindings
    }
}

/// The nearest scope, from one outwards, that binds a name.
pub open spec fn lookup(scopes: Seq<ScopeModel>, name: Seq<char>, scope: int) -> Option<int>
    decreases scope,
{
    if scopes[scope].bindings.contains_key(name) {
        Some(scope)
    } else {
        match scopes[scope].parent {
            Some(parent) => if parent < scope {
                lookup(scopes, name, parent as int)
            } else {
                None
            },
            None => None,
        }
    }
}

/// The name of a property.
pub open spec fn property_text(t: Syntax, property: Property) -> Seq<char> {
    match literal(t, property.node as int) {
        Some(text) => if property.quoted {
            text
        } else {
            t.text(property.node as int)
        },
        None => t.text(property.node as int),
    }
}

/// The property that a member expression takes.
pub open spec fn taken_property(t: Syntax, i: int) -> Option<Property> {
    match t.field(i, "property"@) {
        Some(property) => Some(Property { node: property as usize, quoted: false }),
        None => match t.field(i, "index"@) {
            Some(index) => if literal(t, index) is Some {
                Some(Property { node: index as usize, quoted: true })
            } else {
                None
            },
            None => None,
        },
    }
}

pub open spec fn called_of(api: Option<TestApi>) -> Option<TestApi> {
    match api {
        Some(api) => api.called_spec(),
        None => None,
    }
}

pub open spec fn is_name(kind: Seq<char>) -> bool {
    kind == "identifier"@ || kind == "shorthand_property_identifier"@
}

pub open spec fn is_member(kind: Seq<char>) -> bool {
    kind == "member_expression"@ || kind == "subscript_expression"@
}

/// The function that a call calls is the module loader.
pub open spec fn is_require(t: Syntax, s: Collected, function: int, scope: int) -> bool {
    t.kind(function) == "identifier"@ && t.text(function) == "require"@ && lookup(
        s.scopes,
        "require"@,
        scope,
    ) is None
}

/// The framework that a call of the module loader loads.
pub open spec fn required_framework(t: Syntax, call: int) -> Option<TestApi> {
    match t.field(call, "arguments"@) {
        Some(arguments) => {
            let list = t.named_children(arguments);
            if list.len() == 1 {
                match literal(t, list[0]) {
                    Some(name) => match framework_spec(name) {
                        Some(framework) => Some(TestApi { framework, kind: ApiKind::Namespace }),
                        None => None,
                    },
                    None => None,
                }
            } else {
                None
            }
        },
        None => None,
    }
}

/// The framework API that an expression stands for. Names are followed to what
/// they are bound to, at most `hops` times: one that is bound through itself
/// stands for nothing.
pub open spec fn api_at(t: Syntax, s: Collected, i: int, scope: int, hops: int) -> Option<TestApi>
    decreases hops, remaining(i, t.len()),
{
    let at = unwrapped(t, i);
    let kind = t.kind(at);
    if i < 0 || at < i || at >= t.len() {
        None
    } else if is_name(kind) {
        match lookup(s.scopes, t.text(at), scope) {
            Some(owner) => match s.scopes[owner].bindings[t.text(at)] {
                Binding::Api(api) => Some(api),
                Binding::Expression(value, inner) => if hops > 0 && value < t.len() && inner
                    < s.scopes.len() {
                    api_at(t, s, value as int, inner as int, hops - 1)
                } else {
                    None
                },
                Binding::Member(value, inner, property) => if hops > 0 && value < t.len() && inner
                    < s.scopes.len() && property.node < t.len() {
                    member_of(
                        api_at(t, s, value as int, inner as int, hops - 1),
                        property_text(t, property),
                    )
                } else {
                    None
                },
                _ => None,
            },
            None => None,
        }
    } else if is_member(kind) {
        match (taken_property(t, at), t.field(at, "object"@)) {
            (Some(property), Some(object)) => if at < object {
                member_of(api_at(t, s, object, scope, hops), property_text(t, property))
            } else {
                None
            },
            _ => None,
        }
    } else if kind == "call_expression"@ {
        match t.field(at, "function"@) {
            Some(function) => if is_require(t, s, function, scope) {
                required_framework(t, at)
            } else if at < function {
                called_of(api_at(t, s, function, scope, hops))
            } else {
                None
            },
            None => None,
        }
    } else {
        None
    }
}

/// The framework API that an expression stands for.
pub open spec fn api_of(t: Syntax, s: Collected, i: int, scope: int) -> Option<TestApi> {
    api_at(t, s, i, scope, t.len())
}

fn find_scope(scopes: &Vec<Scope>, name: &str, scope: usize) -> (owner: Option<usize>)
    requires
        scope < scopes@.len(),
    ensures
        found(owner) == lookup(scope_models(scopes@), name@, scope as int),
        owner is Some ==> owner->0 < scopes@.len() && scope_models(
            scopes@,
        )[owner->0 as int].bindings.contains_key(name@),
{
    let ghost models = scope_models(scopes@);
    let mut at: usize = scope;
    loop
        invariant
            at < scopes@.len(),
            models == scope_models(scopes@),
            lookup(models, name@, at as int) == lookup(models, name@, scope as int),
        decreases at,
    {
        assert(models[at as int] == scopes@[at as int]@);
        if scopes[at].bindings.contains_key(name) {
            return Some(at);
        }
        match scopes[at].parent {
            Some(parent) => {
                if parent >= at {
                    return None;
                }
                at = parent;
            },
            None => {
                return None;
            },
        }
    }
}

fn read_property(tree: &SyntaxTree, property: Property) -> (text: &str)
    requires
        tree.wf(),
        property.node < tree@.len(),
    ensures
        text@ == property_text(tree@, property),
{
    if property.quoted {
        match literal_text(tree, property.node) {
            Some(text) => {
                return text;
            },
            None => {},
        }
    }
    tree.text(property.node)
}

fn find_property(tree: &SyntaxTree, i: usize) -> (property: Option<Property>)
    requires
        tree.wf(),
        i < tree@.len(),
    ensures
        property == taken_property(tree@, i as int),
        property is Some ==> property->0.node < tree@.len(),
{
    match tree.field(i, "property") {
        Some(property) => Some(Property { node: property, quoted: false }),
        None => match tree.field(i, "index") {
            Some(index) => if literal_text(tree, index).is_some() {
                Some(Property { node: index, quoted: true })
            } else {
                None
            },
            None => None,
        },
    }
}

fn find_required(tree: &SyntaxTree, call: usize) -> (api: Option<TestApi>)
    requires
        tree.wf(),
        call < tree@.len(),
    ensures
        api == required_framework(tree@, call as int),
{
    match tree.field(call, "arguments") {
        Some(arguments) => {
            let list = tree.named_children(arguments);
            assert(indices(list@).len() == list@.len());
            if list.len() != 1 {
                return None;
            }
            assert(indices(list@)[0] == list@[0]);
            match literal_text(tree, list[0]) {
                Some(name) => match framework(name) {
                    Some(framework) => Some(TestApi { framework, kind: ApiKind::Namespace }),
                    None => None,
                },
                None => None,
            }
        },
        None => None,
    }
}

/// A step from an API to another one.
#[derive(Clone, Copy)]
pub enum Step {
    Member(Property),
    Call,
}

pub open spec fn stepped(t: Syntax, api: Option<TestApi>, step: Step) -> Option<TestApi> {
    match step {
        Step::Member(property) => member_of(api, property_text(t, property)),
        Step::Call => called_of(api),
    }
}

/// Takes steps from an API, the last one first.
pub open spec fn stepped_all(t: Syntax, api: Option<TestApi>, steps: Seq<Step>) -> Option<TestApi>
    decreases steps.len(),
{
    if steps.len() == 0 {
        api
    } else {
        stepped_all(t, stepped(t, api, steps.last()), steps.drop_last())
    }
}

proof fn lemma_no_api(t: Syntax, steps: Seq<Step>)
    ensures
        stepped_all(t, None, steps) is None,
    decreases steps.len(),
{
    if steps.len() > 0 {
        lemma_no_api(t, steps.drop_last());
    }
}

proof fn lemma_push_step(t: Syntax, api: Option<TestApi>, steps: Seq<Step>, step: Step)
    ensures
        stepped_all(t, api, steps.push(step)) == stepped_all(t, stepped(t, api, step), steps),
{
    assert(steps.push(step).drop_last() =~= steps);
}

pub open spec fn steps_ok(steps: Seq<Step>, nodes: int) -> bool {
    forall|k: int|
        0 <= k < steps.len() ==> match #[trigger] steps[k] {
            Step::Member(property) => property.node < nodes,
            Step::Call => true,
        }
}

fn take_steps(tree: &SyntaxTree, base: Option<TestApi>, steps: &Vec<Step>) -> (result: Option<
    TestApi,
>)
    requires
        tree.wf(),
        steps_ok(steps@, tree@.len()),
    ensures
        result == stepped_all(tree@, base, steps@),
{
    let mut api: Option<TestApi> = base;
    let mut k: usize = steps.len();
    let ghost goal = stepped_all(tree@, base, steps@);
    assert(steps@.subrange(0, k as int) =~= steps@);
    while k > 0
        invariant
            tree.wf(),
            steps_ok(steps@, tree@.len()),
            k <= steps@.len(),
            stepped_all(tree@, api, steps@.subrange(0, k as int)) == goal,
        decreases k,
    {
        k = k - 1;
        let ghost known = steps@.subrange(0, k + 1);
        assert(known.drop_last() =~= steps@.subrange(0, k as int));
        assert(known.last() == steps@[k as int]);
        api = match api {
            Some(api) => match steps[k] {
                Step::Member(property) => api.member(read_property(tree, property)),
                Step::Call => api.called(),
            },
            None => None,
        };
    }
    api
}

impl TestBindings {
    /// The framework API that an expression stands for.
    fn find_api(&self, tree: &SyntaxTree, node: usize, scope: usize) -> (api: Option<TestApi>)
        requires
            tree.wf(),
            self.ok(tree@),
            node < tree@.len(),
            scope < self@.scopes.len(),
        ensures
            api == api_of(tree@, self@, node as int, scope as int),
    {
        let n: usize = tree.nodes.len();
        let mut hops: usize = n;
        let mut at: usize = node;
        let mut inside: usize = scope;
        let mut steps: Vec<Step> = Vec::new();
        let ghost goal = api_of(tree@, self@, node as int, scope as int);
        loop
            invariant
                tree.wf(),
                self.ok(tree@),
                n == tree@.len(),
                at < tree@.len(),
                inside < self@.scopes.len(),
                steps_ok(steps@, tree@.len()),
                goal == api_of(tree@, self@, node as int, scope as int),
                stepped_all(
                    tree@,
                    api_at(tree@, self@, at as int, inside as int, hops as int),
                    steps@,
                ) == goal,
            decreases hops, tree@.len() - at,
        {
            let i: usize = unwrap_expression(tree, at);
            proof {
                lemma_no_api(tree@, steps@);
            }
            if tree.is(i, "identifier") || tree.is(i, "shorthand_property_identifier") {
                let name: &str = tree.text(i);
                let owner: usize = match find_scope(&self.scopes, name, inside) {
                    Some(owner) => owner,
                    None => {
                        return None;
                    },
                };
                assert(self@.scopes[owner as int] == self.scopes@[owner as int]@);
                let binding: Binding = match self.scopes[owner].bindings.get(name) {
                    Some(binding) => *binding,
                    None => Binding::Unknown,
                };
                match binding {
                    Binding::Api(api) => {
                        return take_steps(tree, Some(api), &steps);
                    },
                    Binding::Expression(value, next) => {
                        if hops == 0 || value >= n || next >= self.scopes.len() {
                            return None;
                        }
                        hops = hops - 1;
                        at = value;
                        inside = next;
                    },
                    Binding::Member(value, next, property) => {
                        if hops == 0 || value >= n || next >= self.scopes.len() || property.node
                            >= n {
                            return None;
                        }
                        proof {
                            lemma_push_step(
                                tree@,
                                api_at(tree@, self@, value as int, next as int, hops - 1),
                                steps@,
                                Step::Member(property),
                            );
                        }
                        steps.push(Step::Member(property));
                        hops = hops - 1;
                        at = value;
                        inside = next;
                    },
                    _ => {
                        return None;
                    },
                }
            } else if tree.is(i, "member_expression") || tree.is(i, "subscript_expression") {
                match (find_property(tree, i), tree.field(i, "object")) {
                    (Some(property), Some(object)) => {
                        proof {
                            lemma_push_step(
                                tree@,
                                api_at(tree@, self@, object as int, inside as int, hops as int),
                                steps@,
                                Step::Member(property),
                            );
                        }
                        steps.push(Step::Member(property));
                        at = object;
                    },
                    _ => {
                        return None;
                    },
                }
            } else if tree.is(i, "call_expression") {
                let function: usize = match tree.field(i, "function") {
                    Some(function) => function,
                    None => {
                        return None;
                    },
                };
                if self.is_loader(tree, function, inside) {
                    return take_steps(tree, find_required(tree, i), &steps);
                }
                proof {
                    lemma_push_step(
                        tree@,
                        api_at(tree@, self@, function as int, inside as int, hops as int),
                        steps@,
                        Step::Call,
                    );
                }
                steps.push(Step::Call);
                at = function;
            } else {
                return None;
            }
        }
    }

    fn is_loader(&self, tree: &SyntaxTree, function: usize, scope: usize) -> (r: bool)
        requires
            tree.wf(),
            self.ok(tree@),
            function < tree@.len(),
            scope < self@.scopes.len(),
        ensures
            r == is_require(tree@, self@, function as int, scope as int),
    {
        tree.is(function, "identifier") && same(tree.text(function), "require") && find_scope(
            &self.scopes,
            "require",
            scope,
        ).is_none()
    }
}

/// A place for each framework.
pub open spec fn framework_index(framework: Framework) -> int {
    match framework {
        Framework::Node => 0,
        Framework::Jest => 1,
        Framework::Vitest => 2,
        Framework::Mocha => 3,
        Framework::Ava => 4,
        Framework::Tape => 5,
        Framework::Playwright => 6,
        Framework::Uvu => 7,
    }
}

pub const FRAMEWORKS: usize = 8;

fn index_of_framework(framework: Framework) -> (index: usize)
    ensures
        index == framework_index(framework),
        index < FRAMEWORKS,
{
    match framework {
        Framework::Node => 0,
        Framework::Jest => 1,
        Framework::Vitest => 2,
        Framework::Mocha => 3,
        Framework::Ava => 4,
        Framework::Tape => 5,
        Framework::Playwright => 6,
        Framework::Uvu => 7,
    }
}

/// What a source writes to: frameworks, and names with the scope that owns them.
pub struct TestWrites {
    pub frameworks: Vec<bool>,
    pub names: Vec<Place>,
}

pub struct Writes {
    pub frameworks: Seq<bool>,
    pub names: Seq<Place>,
}

impl View for TestWrites {
    type V = Writes;

    open spec fn view(&self) -> Writes {
        Writes { frameworks: self.frameworks@, names: self.names@ }
    }
}

/// Notes a write to a framework.
pub open spec fn noted(w: Writes, api: Option<TestApi>) -> Writes {
    match api {
        Some(api) => Writes {
            frameworks: w.frameworks.update(framework_index(api.framework), true),
            ..w
        },
        None => w,
    }
}

/// The expression that a chain of members starts from.
pub open spec fn chain_root(t: Syntax, i: int) -> int
    decreases remaining(i, t.len()),
{
    match t.field(i, "object"@) {
        Some(object) => {
            let next = unwrapped(t, object);
            if is_member(t.kind(i)) && i < next && i < t.len() {
                chain_root(t, next)
            } else {
                i
            }
        },
        None => i,
    }
}

/// Notes the frameworks that a write through a chain of members reaches.
pub open spec fn chain_writes(t: Syntax, s: Collected, w: Writes, i: int, scope: int) -> Writes
    decreases remaining(i, t.len()),
{
    match t.field(i, "object"@) {
        Some(object) => {
            let next = unwrapped(t, object);
            if is_member(t.kind(i)) && i < next && i < t.len() {
                chain_writes(t, s, noted(w, api_of(t, s, next, scope)), next, scope)
            } else {
                w
            }
        },
        None => w,
    }
}

/// The scope that owns a name, the program's where no scope binds it.
pub open spec fn owner_of(s: Collected, name: Seq<char>, scope: int) -> int {
    match lookup(s.scopes, name, scope) {
        Some(owner) => owner,
        None => 0,
    }
}

/// Notes writes to the first `n` names.
pub open spec fn name_writes(
    t: Syntax,
    s: Collected,
    w: Writes,
    names: Seq<int>,
    n: int,
    scope: int,
) -> Writes
    decreases n,
{
    if n <= 0 {
        w
    } else {
        let name = names[n - 1];
        let before = name_writes(t, s, w, names, n - 1, scope);
        let next = noted(before, api_of(t, s, name, scope));
        Writes {
            names: next.names.push(
                Place {
                    node: name as usize,
                    scope: owner_of(s, t.text(name), scope) as usize,
                },
            ),
            ..next
        }
    }
}

/// Notes a write to one target.
pub open spec fn target_writes(t: Syntax, s: Collected, w: Writes, i: int, scope: int) -> Writes {
    let names = binding_names(t, chain_root(t, i));
    name_writes(t, s, chain_writes(t, s, w, i, scope), names, names.len() as int, scope)
}

pub open spec fn is_paired_pattern(kind: Seq<char>) -> bool {
    kind == "pair_pattern"@ || kind == "assignment_pattern"@ || kind
        == "object_assignment_pattern"@
}

/// The part of a pattern that is written to.
pub open spec fn written_part(t: Syntax, i: int) -> Option<int> {
    if is_paired_pattern(t.kind(i)) {
        match t.field(i, "value"@) {
            Some(value) => Some(value),
            None => t.field(i, "left"@),
        }
    } else if t.kind(i) == "rest_pattern"@ {
        first_named(t, i)
    } else {
        wrapped(t, i)
    }
}

pub open spec fn is_destructuring(kind: Seq<char>) -> bool {
    kind == "object_pattern"@ || kind == "array_pattern"@
}

/// The node is written to by its place in the pattern `root`.
pub open spec fn in_target(t: Syntax, root: int, at: int) -> bool {
    ||| at == root
    ||| at > 0 && t.named(at) && is_destructuring(t.kind(t.parent(at)))
    ||| at > 0 && written_part(t, t.parent(at)) == Some(at)
}

/// The node only groups what is written to.
pub open spec fn groups_targets(t: Syntax, i: int) -> bool {
    is_destructuring(t.kind(i)) || is_paired_pattern(t.kind(i)) || t.kind(i) == "rest_pattern"@
        || wrapped(t, i) is Some
}

/// Notes the writes to the targets from `at` up to `stop`.
pub open spec fn writes_from(
    t: Syntax,
    s: Collected,
    w: Writes,
    root: int,
    at: int,
    stop: int,
    scope: int,
) -> Writes
    decreases remaining(at, stop),
{
    if at >= stop || t.end(at) <= at {
        w
    } else if !in_target(t, root, at) {
        writes_from(t, s, w, root, t.end(at), stop, scope)
    } else if groups_targets(t, at) {
        writes_from(t, s, w, root, at + 1, stop, scope)
    } else {
        writes_from(t, s, target_writes(t, s, w, at, scope), root, t.end(at), stop, scope)
    }
}

/// What a node writes to.
pub open spec fn write_target(t: Syntax, i: int) -> Option<int> {
    let kind = t.kind(i);
    if kind == "assignment_expression"@ || kind == "augmented_assignment_expression"@ {
        t.field(i, "left"@)
    } else if kind == "update_expression"@ {
        t.field(i, "argument"@)
    } else if kind == "for_in_statement"@ {
        if t.field(i, "kind"@) is None {
            t.field(i, "left"@)
        } else {
            None
        }
    } else if kind == "unary_expression"@ {
        match t.field(i, "operator"@) {
            Some(operator) => if t.kind(operator) == "delete"@ {
                t.field(i, "argument"@)
            } else {
                None
            },
            None => None,
        }
    } else {
        None
    }
}

/// Notes the writes of the first `n` nodes.
pub open spec fn writes_of(t: Syntax, s: Collected, n: int) -> Writes
    decreases n,
{
    if n <= 0 {
        Writes { frameworks: Seq::new(FRAMEWORKS as nat, |k: int| false), names: Seq::empty() }
    } else {
        let before = writes_of(t, s, n - 1);
        match write_target(t, n - 1) {
            Some(left) => if s.reached[n - 1] {
                writes_from(
                    t,
                    s,
                    before,
                    left,
                    left,
                    t.end(left),
                    s.scope_of[n - 1] as int,
                )
            } else {
                before
            },
            None => before,
        }
    }
}

/// The node makes the scopes unknowable.
pub open spec fn is_dynamic(t: Syntax, s: Collected, i: int) -> bool {
    ||| t.kind(i) == "with_statement"@
    ||| t.kind(i) == "call_expression"@ && match t.field(i, "function"@) {
        Some(function) => t.kind(function) == "identifier"@ && t.text(function) == "eval"@ && lookup(
            s.scopes,
            "eval"@,
            s.scope_of[i] as int,
        ) is None,
        None => false,
    }
}

/// One of the first `n` nodes makes the scopes unknowable.
pub open spec fn has_dynamic_scope(t: Syntax, s: Collected, n: int) -> bool {
    exists|i: int| 0 <= i < n && s.reached[i] && #[trigger] is_dynamic(t, s, i)
}

/// Takes the meaning of the first `n` names away.
pub open spec fn forgotten(t: Syntax, scopes: Seq<ScopeModel>, names: Seq<Place>, n: int) -> Seq<
    ScopeModel,
>
    decreases n,
{
    if n <= 0 {
        scopes
    } else {
        let before = forgotten(t, scopes, names, n - 1);
        let place = names[n - 1];
        let old = before[place.scope as int];
        before.update(
            place.scope as int,
            ScopeModel {
                bindings: old.bindings.insert(t.text(place.node as int), Binding::Unknown),
                ..old
            },
        )
    }
}

/// What is known of a source after a walk over it.
pub struct TestFacts {
    pub bindings: TestBindings,
    pub mutated: Vec<bool>,
    pub dynamic: bool,
}

pub struct Facts {
    pub bindings: Collected,
    pub mutated: Seq<bool>,
    pub dynamic: bool,
}

impl View for TestFacts {
    type V = Facts;

    open spec fn view(&self) -> Facts {
        Facts { bindings: self.bindings@, mutated: self.mutated@, dynamic: self.dynamic }
    }
}

/// What is known of a source: what its names stand for, those that are written
/// to excepted.
pub open spec fn facts(t: Syntax) -> Facts {
    let s = collected(t);
    let w = writes_of(t, s, t.len());
    Facts {
        bindings: Collected { scopes: forgotten(t, s.scopes, w.names, w.names.len() as int), ..s },
        mutated: w.frameworks,
        dynamic: has_dynamic_scope(t, s, t.len()),
    }
}

fn find_written_part(tree: &SyntaxTree, i: usize) -> (part: Option<usize>)
    requires
        tree.wf(),
        i < tree@.len(),
    ensures
        found(part) == written_part(tree@, i as int),
{
    if tree.is(i, "pair_pattern") || tree.is(i, "assignment_pattern") || tree.is(
        i,
        "object_assignment_pattern",
    ) {
        match tree.field(i, "value") {
            Some(value) => Some(value),
            None => tree.field(i, "left"),
        }
    } else if tree.is(i, "rest_pattern") {
        first_named_child(tree, i)
    } else {
        find_wrapped(tree, i)
    }
}

fn lies_in_target(tree: &SyntaxTree, root: usize, at: usize) -> (r: bool)
    requires
        tree.wf(),
        at < tree@.len(),
    ensures
        r == in_target(tree@, root as int, at as int),
{
    if at == root {
        return true;
    }
    if at == 0 {
        return false;
    }
    assert(tree@.parent_at(at as int));
    let parent: usize = tree.parents[at];
    if tree.nodes[at].named && (tree.is(parent, "object_pattern") || tree.is(
        parent,
        "array_pattern",
    )) {
        return true;
    }
    match find_written_part(tree, parent) {
        Some(part) => part == at,
        None => false,
    }
}

fn target_group(tree: &SyntaxTree, i: usize) -> (r: bool)
    requires
        tree.wf(),
        i < tree@.len(),
    ensures
        r == groups_targets(tree@, i as int),
{
    tree.is(i, "object_pattern") || tree.is(i, "array_pattern") || tree.is(i, "pair_pattern")
        || tree.is(i, "assignment_pattern") || tree.is(i, "object_assignment_pattern") || tree.is(
        i,
        "rest_pattern",
    ) || find_wrapped(tree, i).is_some()
}

fn find_write_target(tree: &SyntaxTree, i: usize) -> (target: Option<usize>)
    requires
        tree.wf(),
        i < tree@.len(),
    ensures
        found(target) == write_target(tree@, i as int),
        target is Some ==> target->0 < tree@.len(),
{
    if tree.is(i, "assignment_expression") || tree.is(i, "augmented_assignment_expression") {
        tree.field(i, "left")
    } else if tree.is(i, "update_expression") {
        tree.field(i, "argument")
    } else if tree.is(i, "for_in_statement") {
        if tree.field(i, "kind").is_none() {
            tree.field(i, "left")
        } else {
            None
        }
    } else if tree.is(i, "unary_expression") {
        match tree.field(i, "operator") {
            Some(operator) => if tree.is(operator, "delete") {
                tree.field(i, "argument")
            } else {
                None
            },
            None => None,
        }
    } else {
        None
    }
}

impl TestWrites {
    pub open spec fn ok(&self, t: Syntax, scopes: int) -> bool {
        self@.frameworks.len() == FRAMEWORKS && places_ok(self@.names, t.len(), scopes)
    }

    fn note(&mut self, api: Option<TestApi>, Ghost(t): Ghost<Syntax>, Ghost(scopes): Ghost<int>)
        requires
            old(self).ok(t, scopes),
        ensures
            final(self)@ == noted(old(self)@, api),
            final(self).ok(t, scopes),
    {
        match api {
            Some(api) => {
                self.frameworks.set(index_of_framework(api.framework), true);
            },
            None => {},
        }
    }
}

impl TestBindings {
    fn write_chain(
        &self,
        tree: &SyntaxTree,
        writes: &mut TestWrites,
        target: usize,
        scope: usize,
    ) -> (root: usize)
        requires
            tree.wf(),
            self.ok(tree@),
            old(writes).ok(tree@, self@.scopes.len() as int),
            target < tree@.len(),
            scope < self@.scopes.len(),
        ensures
            final(writes)@ == chain_writes(
                tree@,
                self@,
                old(writes)@,
                target as int,
                scope as int,
            ),
            final(writes).ok(tree@, self@.scopes.len() as int),
            root == chain_root(tree@, target as int),
            root < tree@.len(),
    {
        let mut at: usize = target;
        let ghost goal = chain_writes(tree@, self@, writes@, target as int, scope as int);
        loop
            invariant
                tree.wf(),
                self.ok(tree@),
                writes.ok(tree@, self@.scopes.len() as int),
                at < tree@.len(),
                scope < self@.scopes.len(),
                chain_root(tree@, at as int) == chain_root(tree@, target as int),
                chain_writes(tree@, self@, writes@, at as int, scope as int) == goal,
                goal == chain_writes(
                    tree@,
                    self@,
                    old(writes)@,
                    target as int,
                    scope as int,
                ),
            decreases tree@.len() - at,
        {
            if !tree.is(at, "member_expression") && !tree.is(at, "subscript_expression") {
                return at;
            }
            match tree.field(at, "object") {
                Some(object) => {
                    let next: usize = unwrap_expression(tree, object);
                    let api: Option<TestApi> = self.find_api(tree, next, scope);
                    writes.note(api, Ghost(tree@), Ghost(self@.scopes.len() as int));
                    at = next;
                },
                None => {
                    return at;
                },
            }
        }
    }

    fn write_target(
        &self,
        tree: &SyntaxTree,
        writes: &mut TestWrites,
        target: usize,
        scope: usize,
    )
        requires
            tree.wf(),
            self.ok(tree@),
            old(writes).ok(tree@, self@.scopes.len() as int),
            target < tree@.len(),
            scope < self@.scopes.len(),
        ensures
            final(writes)@ == target_writes(
                tree@,
                self@,
                old(writes)@,
                target as int,
                scope as int,
            ),
            final(writes).ok(tree@, self@.scopes.len() as int),
    {
        let root: usize = self.write_chain(tree, writes, target, scope);
        let ghost start = writes@;
        let names = find_binding_names(tree, root);
        let ghost all = binding_names(tree@, root as int);
        let mut k: usize = 0;
        while k < names.len()
            invariant
                tree.wf(),
                self.ok(tree@),
                writes.ok(tree@, self@.scopes.len() as int),
                scope < self@.scopes.len(),
                indices(names@) == all,
                all.len() == names@.len(),
                forall|n: int| 0 <= n < names@.len() ==> #[trigger] names@[n] < tree@.len(),
                k <= names@.len(),
                writes@ == name_writes(tree@, self@, start, all, k as int, scope as int),
            decreases names@.len() - k,
        {
            let name: usize = names[k];
            assert(all[k as int] == name);
            let api: Option<TestApi> = self.find_api(tree, name, scope);
            writes.note(api, Ghost(tree@), Ghost(self@.scopes.len() as int));
            let owner: usize = match find_scope(&self.scopes, tree.text(name), scope) {
                Some(owner) => owner,
                None => 0,
            };
            writes.names.push(Place { node: name, scope: owner });
            k = k + 1;
        }
    }

    fn write_pattern(
        &self,
        tree: &SyntaxTree,
        writes: &mut TestWrites,
        root: usize,
        scope: usize,
    )
        requires
            tree.wf(),
            self.ok(tree@),
            old(writes).ok(tree@, self@.scopes.len() as int),
            root < tree@.len(),
            scope < self@.scopes.len(),
        ensures
            final(writes)@ == writes_from(
                tree@,
                self@,
                old(writes)@,
                root as int,
                root as int,
                tree@.end(root as int),
                scope as int,
            ),
            final(writes).ok(tree@, self@.scopes.len() as int),
    {
        assert(tree@.end_at(root as int));
        let stop: usize = tree.ends[root];
        let mut at: usize = root;
        let ghost goal = writes_from(
            tree@,
            self@,
            writes@,
            root as int,
            root as int,
            stop as int,
            scope as int,
        );
        while at < stop
            invariant
                tree.wf(),
                self.ok(tree@),
                writes.ok(tree@, self@.scopes.len() as int),
                stop <= tree@.len(),
                scope < self@.scopes.len(),
                writes_from(
                    tree@,
                    self@,
                    writes@,
                    root as int,
                    at as int,
                    stop as int,
                    scope as int,
                ) == goal,
            decreases remaining(at as int, stop as int),
        {
            assert(tree@.end_at(at as int));
            if !lies_in_target(tree, root, at) {
                at = tree.ends[at];
            } else if target_group(tree, at) {
                at = at + 1;
            } else {
                self.write_target(tree, writes, at, scope);
                at = tree.ends[at];
            }
        }
    }

    fn dynamic_at(&self, tree: &SyntaxTree, i: usize, scope: usize) -> (r: bool)
        requires
            tree.wf(),
            self.ok(tree@),
            i < tree@.len(),
            scope == self@.scope_of[i as int],
            scope < self@.scopes.len(),
        ensures
            r == is_dynamic(tree@, self@, i as int),
    {
        if tree.is(i, "with_statement") {
            return true;
        }
        if !tree.is(i, "call_expression") {
            return false;
        }
        match tree.field(i, "function") {
            Some(function) => tree.is(function, "identifier") && same(tree.text(function), "eval")
                && find_scope(&self.scopes, "eval", scope).is_none(),
            None => false,
        }
    }

    /// Settles what the collected names stand for.
    pub fn settle(self, tree: &SyntaxTree) -> (result: TestFacts)
        requires
            tree.wf(),
            self.ok(tree@),
            self@ == collected(tree@),
        ensures
            result@ == facts(tree@),
            result.bindings.ok(tree@),
            result.mutated@.len() == FRAMEWORKS,
    {
        let n: usize = tree.nodes.len();
        let ghost s = self@;
        let ghost count = self@.scopes.len() as int;
        let mut frameworks: Vec<bool> = Vec::new();
        let mut f: usize = 0;
        while f < FRAMEWORKS
            invariant
                f <= FRAMEWORKS,
                frameworks@.len() == f,
                forall|k: int| 0 <= k < f ==> !(#[trigger] frameworks@[k]),
            decreases FRAMEWORKS - f,
        {
            frameworks.push(false);
            f = f + 1;
        }
        let mut writes = TestWrites { frameworks, names: Vec::new() };
        assert(writes@.frameworks =~= writes_of(tree@, s, 0).frameworks);
        assert(writes@.names =~= writes_of(tree@, s, 0).names);
        let mut dynamic: bool = false;
        let mut i: usize = 0;
        while i < n
            invariant
                tree.wf(),
                self.ok(tree@),
                s == self@,
                n == tree@.len(),
                i <= n,
                writes.ok(tree@, self@.scopes.len() as int),
                writes@ == writes_of(tree@, s, i as int),
                dynamic == has_dynamic_scope(tree@, s, i as int),
            decreases n - i,
        {
            assert(scopes_ok(self@.scope_of, self@.scopes.len() as int));
            let scope: usize = self.scope_of[i];
            assert(self@.scope_of[i as int] == scope);
            let ghost already = dynamic;
            if self.reached[i] {
                if self.dynamic_at(tree, i, scope) {
                    dynamic = true;
                    assert(is_dynamic(tree@, s, i as int));
                }
                match find_write_target(tree, i) {
                    Some(left) => self.write_pattern(tree, &mut writes, left, scope),
                    None => {},
                }
            }
            i = i + 1;
            proof {
                if already {
                    let w = choose|w: int|
                        0 <= w < i - 1 && s.reached[w] && #[trigger] is_dynamic(tree@, s, w);
                    assert(0 <= w < i && s.reached[w] && is_dynamic(tree@, s, w));
                }
                if dynamic && !already {
                    assert(0 <= i - 1 < i && s.reached[i - 1] && is_dynamic(tree@, s, i - 1));
                }
            }
        }
        let names = writes.names;
        let mut bindings = self;
        let ghost scopes = bindings@.scopes;
        let mut k: usize = 0;
        while k < names.len()
            invariant
                tree.wf(),
                bindings.ok(tree@),
                bindings@ == (Collected {
                    scopes: forgotten(tree@, scopes, names@, k as int),
                    ..s
                }),
                bindings@.scopes.len() == count,
                places_ok(names@, tree@.len(), count),
                k <= names@.len(),
            decreases names@.len() - k,
        {
            let place: Place = names[k];
            let ghost before = bindings@.scopes;
            bindings.scopes[place.scope].bindings.insert(
                tree.text(place.node).to_owned(),
                Binding::Unknown,
            );
            assert(bindings@.scopes =~= before.update(
                place.scope as int,
                ScopeModel {
                    bindings: before[place.scope as int].bindings.insert(
                        tree@.text(place.node as int),
                        Binding::Unknown,
                    ),
                    ..before[place.scope as int]
                },
            ));
            k = k + 1;
        }
        TestFacts { bindings, mutated: writes.frameworks, dynamic }
    }
}

/// The framework API that an expression stands for, where its framework was not
/// written to.
pub open spec fn resolved(t: Syntax, f: Facts, i: int, scope: int) -> Option<TestApi> {
    match api_of(t, f.bindings, i, scope) {
        Some(api) => if f.mutated[framework_index(api.framework)] {
            None
        } else {
            Some(api)
        },
        None => None,
    }
}

pub open spec fn is_factory_name(name: Seq<char>) -> bool {
    name == "each"@ || name == "skipIf"@ || name == "runIf"@
}

pub open spec fn is_modifier_name(name: Seq<char>) -> bool {
    is_factory_name(name) || name == "only"@ || name == "skip"@ || name == "concurrent"@ || name
        == "failing"@
}

/// The name that an ambient registration starts from.
pub open spec fn ambient_base(t: Syntax, i: int) -> Option<int>
    decreases remaining(i, t.len()),
{
    if i >= t.len() {
        None
    } else if t.kind(i) == "member_expression"@ {
        match (t.field(i, "property"@), t.field(i, "object"@)) {
            (Some(property), Some(object)) => if is_modifier_name(t.text(property)) && i
                < unwrapped(t, object) {
                ambient_base(t, unwrapped(t, object))
            } else {
                None
            },
            _ => None,
        }
    } else if t.kind(i) == "call_expression"@ {
        match t.field(i, "function"@) {
            Some(function) => match t.field(function, "property"@) {
                Some(property) => if t.kind(function) == "member_expression"@ && is_factory_name(
                    t.text(property),
                ) && i < function {
                    ambient_base(t, function)
                } else {
                    None
                },
                None => None,
            },
            None => None,
        }
    } else {
        Some(i)
    }
}

/// What an ambient function registers.
pub open spec fn role_of(name: Seq<char>) -> Option<Role> {
    if name == "describe"@ || name == "context"@ || name == "suite"@ || name == "fdescribe"@ || name
        == "xdescribe"@ || name == "xcontext"@ {
        Some(Role::Suite)
    } else if name == "test"@ || name == "it"@ || name == "specify"@ || name == "fit"@ || name
        == "xit"@ || name == "xtest"@ {
        Some(Role::Test)
    } else if name == "before"@ || name == "after"@ || name == "beforeEach"@ || name
        == "afterEach"@ || name == "beforeAll"@ || name == "afterAll"@ || name == "setup"@ || name
        == "teardown"@ || name == "suiteSetup"@ || name == "suiteTeardown"@ {
        Some(Role::Hook)
    } else {
        None
    }
}

/// What a call of an unbound name registers.
pub open spec fn ambient_role(t: Syntax, s: Collected, function: int, scope: int) -> Option<Role> {
    match ambient_base(t, unwrapped(t, function)) {
        Some(base) => if t.kind(base) == "identifier"@ && lookup(
            s.scopes,
            t.text(base),
            scope,
        ) is None {
            role_of(t.text(base))
        } else {
            None
        },
        None => None,
    }
}

/// The call has the arguments of a registration: a callback, and a title where
/// it is no hook.
pub open spec fn registration_shape(t: Syntax, call: int, role: Role) -> bool {
    match t.field(call, "arguments"@) {
        Some(arguments) => {
            let list = t.named_children(arguments);
            &&& list.len() > 0
            &&& is_callable_kind(t.kind(unwrapped(t, list.last())))
            &&& role == Role::Hook || literal(t, list[0]) is Some
        },
        None => false,
    }
}

/// The node is a call that registers something with an ambient function.
pub open spec fn ambient_call(t: Syntax, s: Collected, i: int, role: Role) -> bool {
    &&& s.reached[i]
    &&& t.kind(i) == "call_expression"@
    &&& registration_shape(t, i, role)
    &&& match t.field(i, "function"@) {
        Some(function) => ambient_role(t, s, function, s.scope_of[i] as int) == Some(role),
        None => false,
    }
}

/// The second node starts behind the first one and ends inside it.
pub open spec fn holds(t: Syntax, outer: int, inner: int) -> bool {
    t.nodes[inner].start_byte > t.nodes[outer].start_byte && t.nodes[inner].end_byte
        <= t.nodes[outer].end_byte
}

/// The second node lies in the first one.
pub open spec fn spans(t: Syntax, outer: int, inner: int) -> bool {
    t.nodes[outer].start_byte <= t.nodes[inner].start_byte && t.nodes[inner].end_byte
        <= t.nodes[outer].end_byte
}

/// The node is an ambient suite with an ambient test in it.
pub open spec fn ambient_suite(t: Syntax, s: Collected, i: int) -> bool {
    ambient_call(t, s, i, Role::Suite) && exists|j: int|
        0 <= j < t.len() && holds(t, i, j) && #[trigger] ambient_call(t, s, j, Role::Test)
}

/// Ambient functions are taken for those of a framework: one is imported, or an
/// ambient suite stands in the same scope or around the call.
pub open spec fn ambience(t: Syntax, s: Collected, i: int) -> bool {
    s.ambient_framework || exists|suite: int|
        0 <= suite < t.len() && #[trigger] ambient_suite(t, s, suite) && (s.scope_of[suite]
            == s.scope_of[i] || spans(t, suite, i))
}

/// Why a call belongs to tests.
pub open spec fn call_reason(t: Syntax, f: Facts, i: int) -> Option<Seq<char>> {
    let s = f.bindings;
    let scope = s.scope_of[i] as int;
    match t.field(i, "function"@) {
        Some(function) => {
            let bound = match resolved(t, f, function, scope) {
                Some(api) => api.registers(),
                None => false,
            };
            if bound {
                Some("bound test-framework registration"@)
            } else {
                match ambient_role(t, s, function, scope) {
                    Some(role) => if ambience(t, s, i) && registration_shape(t, i, role) {
                        Some("unshadowed ambient test suite"@)
                    } else {
                        None
                    },
                    None => None,
                }
            }
        },
        None => None,
    }
}

/// The registrations among the first `n` nodes.
pub open spec fn registrations(t: Syntax, f: Facts, n: int) -> Seq<RegionModel>
    decreases n,
{
    if n <= 0 {
        Seq::empty()
    } else {
        let before = registrations(t, f, n - 1);
        match call_reason(t, f, n - 1) {
            Some(reason) => if f.bindings.reached[n - 1] && t.kind(n - 1) == "call_expression"@ {
                before.push(region_at(t, n - 1, reason))
            } else {
                before
            },
            None => before,
        }
    }
}

/// The expression is a callable, or a name that is bound to one.
pub open spec fn is_local_function(t: Syntax, s: Collected, i: int, scope: int, hops: int) -> bool
    decreases hops,
{
    let at = unwrapped(t, i);
    if is_callable_kind(t.kind(at)) {
        true
    } else if t.kind(at) != "identifier"@ {
        false
    } else {
        match lookup(s.scopes, t.text(at), scope) {
            Some(owner) => match s.scopes[owner].bindings[t.text(at)] {
                Binding::Function(_) => true,
                Binding::Expression(value, inner) => hops > 0 && value < t.len() && inner
                    < s.scopes.len() && is_local_function(
                    t,
                    s,
                    value as int,
                    inner as int,
                    hops - 1,
                ),
                _ => false,
            },
            None => false,
        }
    }
}

/// The definition that a binding comes from, where it is one of a function or a
/// framework API.
pub open spec fn helper_definition(t: Syntax, f: Facts, binding: Binding) -> Option<int> {
    match binding {
        Binding::Function(node) => if node < t.len() {
            Some(node as int)
        } else {
            None
        },
        Binding::Expression(value, scope) => if value < t.len() && scope < f.bindings.scopes.len() {
            let at = unwrapped(t, value as int);
            if is_callable_kind(t.kind(at)) || resolved(t, f, at, scope as int) is Some || (t.kind(
                at,
            ) == "identifier"@ && is_local_function(t, f.bindings, at, scope as int, t.len())) {
                if at > 0 && t.kind(t.parent(at)) == "variable_declarator"@ {
                    Some(t.parent(at))
                } else {
                    Some(at)
                }
            } else {
                None
            }
        } else {
            None
        },
        _ => None,
    }
}

/// A declarator that stands alone is left out with its declaration.
pub open spec fn whole_declaration(t: Syntax, i: int) -> int {
    if t.kind(i) == "variable_declarator"@ && i > 0 && t.named_of_kind(
        t.parent(i),
        "variable_declarator"@,
    ).len() == 1 {
        t.parent(i)
    } else {
        i
    }
}

/// The helper that a declaration declares. What is exported is none.
pub open spec fn helper_node(t: Syntax, f: Facts, entry: Place) -> Option<int> {
    let scope = f.bindings.scopes[entry.scope as int];
    let name = t.text(entry.node as int);
    let binding = if scope.bindings.contains_key(name) {
        scope.bindings[name]
    } else {
        Binding::Unknown
    };
    match helper_definition(t, f, binding) {
        Some(definition) => {
            let node = whole_declaration(t, definition);
            if node > 0 && t.kind(t.parent(node)) == "export_statement"@ {
                None
            } else {
                Some(node)
            }
        },
        None => None,
    }
}

/// A helper with the declaration that names it.
#[derive(Clone, Copy, PartialEq, Eq, Structural)]
pub struct Candidate {
    pub node: usize,
    pub entry: Place,
}

/// The helpers among the first `n` declarations.
pub open spec fn helpers(t: Syntax, f: Facts, n: int) -> Seq<Candidate>
    decreases n,
{
    if n <= 0 {
        Seq::empty()
    } else {
        let before = helpers(t, f, n - 1);
        let entry = f.bindings.entries[n - 1];
        match helper_node(t, f, entry) {
            Some(node) => before.push(Candidate { node: node as usize, entry }),
            None => before,
        }
    }
}

pub open spec fn candidate_order(t: Syntax) -> spec_fn(Candidate, Candidate) -> bool {
    |a: Candidate, b: Candidate|
        t.nodes[a.node as int].start_byte < t.nodes[b.node as int].start_byte || (
        t.nodes[a.node as int].start_byte == t.nodes[b.node as int].start_byte
            && t.nodes[a.node as int].end_byte < t.nodes[b.node as int].end_byte)
}

/// The node reads a name, and declares none.
pub open spec fn is_reference(t: Syntax, s: Collected, i: int) -> bool {
    s.reached[i] && is_name(t.kind(i)) && !s.declared[i]
}

/// The node reads the declared name.
pub open spec fn is_use(t: Syntax, s: Collected, i: int, entry: Place) -> bool {
    is_reference(t, s, i) && t.text(i) == t.text(entry.node as int) && lookup(
        s.scopes,
        t.text(i),
        s.scope_of[i] as int,
    ) == Some(entry.scope as int)
}

/// Tests use the helper, and nothing else but itself does.
pub open spec fn is_exclusive(t: Syntax, s: Collected, regions: Seq<RegionModel>, c: Candidate) -> bool {
    let node = c.node as int;
    &&& exists|u: int|
        0 <= u < t.len() && #[trigger] is_use(t, s, u, c.entry) && contained(t, regions, u)
            && !spans(t, node, u)
    &&& forall|u: int|
        0 <= u < t.len() && #[trigger] is_use(t, s, u, c.entry) ==> contained(t, regions, u)
            || spans(t, node, u)
}

/// What remains after looking at candidates, and the regions found.
pub struct Pass {
    pub kept: Seq<Candidate>,
    pub regions: Seq<RegionModel>,
}

/// Looks at the first `n` candidates in turn. One that lies in a region is
/// dropped, and one that only tests use becomes a region.
pub open spec fn passed(
    t: Syntax,
    s: Collected,
    candidates: Seq<Candidate>,
    regions: Seq<RegionModel>,
    n: int,
) -> Pass
    decreases n,
{
    if n <= 0 {
        Pass { kept: Seq::empty(), regions }
    } else {
        let before = passed(t, s, candidates, regions, n - 1);
        let c = candidates[n - 1];
        if contained(t, before.regions, c.node as int) {
            before
        } else if is_exclusive(t, s, before.regions, c) {
            Pass {
                kept: before.kept,
                regions: before.regions.push(
                    region_at(t, c.node as int, "local helper used exclusively by tests"@),
                ),
            }
        } else {
            Pass { kept: before.kept.push(c), regions: before.regions }
        }
    }
}

/// Looks at the candidates until no further one becomes a region.
pub open spec fn with_helpers(
    t: Syntax,
    s: Collected,
    candidates: Seq<Candidate>,
    regions: Seq<RegionModel>,
) -> Seq<RegionModel>
    decreases candidates.len(),
{
    let pass = passed(t, s, candidates, regions, candidates.len() as int);
    if pass.regions.len() == regions.len() || pass.kept.len() >= candidates.len() {
        pass.regions
    } else {
        with_helpers(t, s, pass.kept, pass.regions)
    }
}

/// The regions of a source that belong to tests.
pub open spec fn javascript_test_regions(t: Syntax) -> Seq<RegionModel> {
    let f = facts(t);
    let found = registrations(t, f, t.len());
    if f.dynamic {
        Seq::empty()
    } else if found.len() == 0 {
        found
    } else {
        let all = helpers(t, f, f.bindings.entries.len() as int);
        with_helpers(t, f.bindings, sorted(all, candidate_order(t)), found)
    }
}

proof fn lemma_pass(
    t: Syntax,
    s: Collected,
    candidates: Seq<Candidate>,
    regions: Seq<RegionModel>,
    n: int,
)
    requires
        0 <= n,
    ensures
        passed(t, s, candidates, regions, n).kept.len() + passed(
            t,
            s,
            candidates,
            regions,
            n,
        ).regions.len() <= regions.len() + n,
        passed(t, s, candidates, regions, n).regions.len() >= regions.len(),
    decreases n,
{
    if n > 0 {
        lemma_pass(t, s, candidates, regions, n - 1);
    }
}

/// One list of regions starts with another one.
spec fn extends(longer: Seq<RegionModel>, shorter: Seq<RegionModel>) -> bool {
    &&& shorter.len() <= longer.len()
    &&& forall|k: int| 0 <= k < shorter.len() ==> #[trigger] longer[k] == shorter[k]
}

/// A region is that of a candidate that only tests use.
pub open spec fn is_exclusive_helper(
    t: Syntax,
    s: Collected,
    candidates: Seq<Candidate>,
    regions: Seq<RegionModel>,
    region: RegionModel,
) -> bool {
    exists|k: int|
        0 <= k < candidates.len() && is_exclusive(t, s, regions, #[trigger] candidates[k])
            && region == region_at(
            t,
            candidates[k].node as int,
            "local helper used exclusively by tests"@,
        )
}

proof fn lemma_more_regions(
    t: Syntax,
    s: Collected,
    shorter: Seq<RegionModel>,
    longer: Seq<RegionModel>,
    c: Candidate,
)
    requires
        extends(longer, shorter),
        is_exclusive(t, s, shorter, c),
    ensures
        is_exclusive(t, s, longer, c),
{
    assert forall|u: int| #[trigger] contained(t, shorter, u) implies contained(t, longer, u) by {
        let k = choose|k: int|
            0 <= k < shorter.len() && (#[trigger] shorter[k]).start_byte <= t.nodes[u].start_byte
                && t.nodes[u].end_byte <= shorter[k].end_byte;
        assert(longer[k] == shorter[k]);
    }
}

proof fn lemma_passed_helpers(
    t: Syntax,
    s: Collected,
    candidates: Seq<Candidate>,
    regions: Seq<RegionModel>,
    n: int,
)
    requires
        0 <= n <= candidates.len(),
    ensures
        ({
            let pass = passed(t, s, candidates, regions, n);
            &&& extends(pass.regions, regions)
            &&& forall|at: int|
                regions.len() <= at < pass.regions.len() ==> is_exclusive_helper(
                    t,
                    s,
                    candidates,
                    pass.regions,
                    #[trigger] pass.regions[at],
                )
            &&& forall|k: int|
                0 <= k < pass.kept.len() ==> candidates.contains(#[trigger] pass.kept[k])
        }),
    decreases n,
{
    if n > 0 {
        lemma_passed_helpers(t, s, candidates, regions, n - 1);
        let before = passed(t, s, candidates, regions, n - 1);
        let pass = passed(t, s, candidates, regions, n);
        let c = candidates[n - 1];
        assert(extends(pass.regions, before.regions));
        assert forall|at: int| regions.len() <= at < pass.regions.len() implies is_exclusive_helper(
            t,
            s,
            candidates,
            pass.regions,
            #[trigger] pass.regions[at],
        ) by {
            let k = if at < before.regions.len() {
                assert(pass.regions[at] == before.regions[at]);
                choose|k: int|
                    0 <= k < candidates.len() && is_exclusive(
                        t,
                        s,
                        before.regions,
                        #[trigger] candidates[k],
                    ) && pass.regions[at] == region_at(
                        t,
                        candidates[k].node as int,
                        "local helper used exclusively by tests"@,
                    )
            } else {
                n - 1
            };
            lemma_more_regions(t, s, before.regions, pass.regions, candidates[k]);
        }
        assert forall|k: int| 0 <= k < pass.kept.len() implies candidates.contains(
            #[trigger] pass.kept[k],
        ) by {
            if k < before.kept.len() {
                assert(candidates.contains(before.kept[k]));
            } else {
                assert(candidates[n - 1] == pass.kept[k]);
            }
        }
    }
}

/// Besides the regions that register tests, only helpers are left out, and only
/// those that test code uses and nothing else but themselves does.
pub proof fn only_exclusive_helpers_are_left_out(
    t: Syntax,
    s: Collected,
    candidates: Seq<Candidate>,
    regions: Seq<RegionModel>,
)
    ensures
        ({
            let all = with_helpers(t, s, candidates, regions);
            &&& regions.len() <= all.len()
            &&& forall|at: int| 0 <= at < regions.len() ==> #[trigger] all[at] == regions[at]
            &&& forall|at: int|
                regions.len() <= at < all.len() ==> is_exclusive_helper(
                    t,
                    s,
                    candidates,
                    all,
                    #[trigger] all[at],
                )
        }),
    decreases candidates.len(),
{
    let pass = passed(t, s, candidates, regions, candidates.len() as int);
    let all = with_helpers(t, s, candidates, regions);
    lemma_passed_helpers(t, s, candidates, regions, candidates.len() as int);
    if pass.regions.len() == regions.len() || pass.kept.len() >= candidates.len() {
    } else {
        only_exclusive_helpers_are_left_out(t, s, pass.kept, pass.regions);
        assert(extends(all, pass.regions));
        assert forall|at: int| regions.len() <= at < all.len() implies is_exclusive_helper(
            t,
            s,
            candidates,
            all,
            #[trigger] all[at],
        ) by {
            if at < pass.regions.len() {
                assert(all[at] == pass.regions[at]);
                let k = choose|k: int|
                    0 <= k < candidates.len() && is_exclusive(
                        t,
                        s,
                        pass.regions,
                        #[trigger] candidates[k],
                    ) && pass.regions[at] == region_at(
                        t,
                        candidates[k].node as int,
                        "local helper used exclusively by tests"@,
                    );
                lemma_more_regions(t, s, pass.regions, all, candidates[k]);
            } else {
                let k = choose|k: int|
                    0 <= k < pass.kept.len() && is_exclusive(t, s, all, #[trigger] pass.kept[k])
                        && all[at] == region_at(
                        t,
                        pass.kept[k].node as int,
                        "local helper used exclusively by tests"@,
                    );
                assert(candidates.contains(pass.kept[k]));
                let m = candidates.index_of(pass.kept[k]);
                assert(candidates[m] == pass.kept[k]);
            }
        }
        assert forall|at: int| 0 <= at < regions.len() implies #[trigger] all[at] == regions[at] by {
            assert(all[at] == pass.regions[at]);
        }
    }
}

proof fn lemma_still_contained(
    t: Syntax,
    shorter: Seq<RegionModel>,
    longer: Seq<RegionModel>,
    i: int,
)
    requires
        extends(longer, shorter),
        contained(t, shorter, i),
    ensures
        contained(t, longer, i),
{
    let k = choose|k: int|
        0 <= k < shorter.len() && (#[trigger] shorter[k]).start_byte <= t.nodes[i].start_byte
            && t.nodes[i].end_byte <= shorter[k].end_byte;
    assert(longer[k] == shorter[k]);
}

/// A candidate that was looked at lies in a region or is kept.
proof fn lemma_passed_kept(
    t: Syntax,
    s: Collected,
    candidates: Seq<Candidate>,
    regions: Seq<RegionModel>,
    n: int,
)
    requires
        0 <= n <= candidates.len(),
    ensures
        ({
            let pass = passed(t, s, candidates, regions, n);
            &&& forall|k: int|
                0 <= k < n ==> contained(t, pass.regions, (#[trigger] candidates[k]).node as int)
                    || pass.kept.contains(candidates[k])
            &&& pass.regions.len() == regions.len() ==> forall|k: int|
                0 <= k < n ==> contained(t, regions, (#[trigger] candidates[k]).node as int)
                    || !is_exclusive(t, s, regions, candidates[k])
        }),
    decreases n,
{
    if n > 0 {
        lemma_passed_kept(t, s, candidates, regions, n - 1);
        lemma_passed_helpers(t, s, candidates, regions, n - 1);
        lemma_passed_helpers(t, s, candidates, regions, n);
        let before = passed(t, s, candidates, regions, n - 1);
        let pass = passed(t, s, candidates, regions, n);
        assert(extends(pass.regions, before.regions));
        assert forall|k: int| 0 <= k < n implies contained(
            t,
            pass.regions,
            (#[trigger] candidates[k]).node as int,
        ) || pass.kept.contains(candidates[k]) by {
            let node = candidates[k].node as int;
            if k < n - 1 {
                if contained(t, before.regions, node) {
                    lemma_still_contained(t, before.regions, pass.regions, node);
                } else {
                    let at = before.kept.index_of(candidates[k]);
                    assert(pass.kept[at] == candidates[k]);
                }
            } else if pass.regions.len() > before.regions.len() {
                let last = pass.regions.len() - 1;
                assert(pass.regions[last].start_byte <= t.nodes[node].start_byte);
            } else if pass.kept.len() > before.kept.len() {
                assert(pass.kept[before.kept.len() as int] == candidates[k]);
            }
        }
        if pass.regions.len() == regions.len() {
            assert(before.regions =~= regions);
        }
    }
}

/// Of the helpers that are left, none is used by test code and by nothing else but
/// itself.
pub proof fn exclusive_helpers_are_left_out(
    t: Syntax,
    s: Collected,
    candidates: Seq<Candidate>,
    regions: Seq<RegionModel>,
)
    ensures
        ({
            let all = with_helpers(t, s, candidates, regions);
            forall|k: int|
                0 <= k < candidates.len() ==> contained(
                    t,
                    all,
                    (#[trigger] candidates[k]).node as int,
                ) || !is_exclusive(t, s, all, candidates[k])
        }),
    decreases candidates.len(),
{
    let n = candidates.len() as int;
    let pass = passed(t, s, candidates, regions, n);
    let all = with_helpers(t, s, candidates, regions);
    lemma_passed_kept(t, s, candidates, regions, n);
    lemma_passed_helpers(t, s, candidates, regions, n);
    lemma_pass(t, s, candidates, regions, n);
    if pass.regions.len() == regions.len() || pass.kept.len() >= candidates.len() {
        assert(pass.regions =~= regions);
    } else {
        exclusive_helpers_are_left_out(t, s, pass.kept, pass.regions);
        only_exclusive_helpers_are_left_out(t, s, pass.kept, pass.regions);
        assert(extends(all, pass.regions));
        assert forall|k: int| 0 <= k < candidates.len() implies contained(
            t,
            all,
            (#[trigger] candidates[k]).node as int,
        ) || !is_exclusive(t, s, all, candidates[k]) by {
            if contained(t, pass.regions, candidates[k].node as int) {
                lemma_still_contained(t, pass.regions, all, candidates[k].node as int);
            } else {
                let at = pass.kept.index_of(candidates[k]);
                assert(pass.kept[at] == candidates[k]);
            }
        }
    }
}

/// A region is that of a call that registers tests.
pub open spec fn is_registration(t: Syntax, f: Facts, region: RegionModel) -> bool {
    exists|i: int|
        0 <= i < t.len() && t.kind(i) == "call_expression"@ && (#[trigger] call_reason(t, f, i)) is Some
            && region == region_at(t, i, call_reason(t, f, i)->0)
}

proof fn lemma_registrations(t: Syntax, f: Facts, n: int)
    requires
        n <= t.len(),
    ensures
        forall|at: int|
            0 <= at < registrations(t, f, n).len() ==> is_registration(
                t,
                f,
                #[trigger] registrations(t, f, n)[at],
            ),
    decreases n,
{
    if n > 0 {
        lemma_registrations(t, f, n - 1);
        let before = registrations(t, f, n - 1);
        let all = registrations(t, f, n);
        assert forall|at: int| 0 <= at < all.len() implies is_registration(
            t,
            f,
            #[trigger] all[at],
        ) by {
            if at < before.len() {
                assert(all[at] == before[at]);
            } else {
                assert(call_reason(t, f, n - 1) is Some);
            }
        }
    }
}

/// Whatever is left out registers tests with a framework, or is a helper that only
/// such code uses. Where the scopes are unknowable, nothing is left out.
pub proof fn left_out_code_is_registered_or_exclusive(t: Syntax)
    ensures
        ({
            let f = facts(t);
            let all = javascript_test_regions(t);
            let candidates = sorted(
                helpers(t, f, f.bindings.entries.len() as int),
                candidate_order(t),
            );
            &&& f.dynamic ==> all.len() == 0
            &&& forall|at: int|
                0 <= at < all.len() ==> is_registration(t, f, #[trigger] all[at])
                    || is_exclusive_helper(t, f.bindings, candidates, all, all[at])
        }),
{
    let f = facts(t);
    let all = javascript_test_regions(t);
    let found = registrations(t, f, t.len());
    let candidates = sorted(helpers(t, f, f.bindings.entries.len() as int), candidate_order(t));
    lemma_registrations(t, f, t.len());
    only_exclusive_helpers_are_left_out(t, f.bindings, candidates, found);
    assert forall|at: int| 0 <= at < all.len() implies is_registration(t, f, #[trigger] all[at])
        || is_exclusive_helper(t, f.bindings, candidates, all, all[at]) by {
        if at < found.len() {
            assert(all[at] == found[at]);
        }
    }
}

fn factory_name(name: &str) -> (r: bool)
    ensures
        r == is_factory_name(name@),
{
    same(name, "each") || same(name, "skipIf") || same(name, "runIf")
}

fn modifier_name(name: &str) -> (r: bool)
    ensures
        r == is_modifier_name(name@),
{
    factory_name(name) || same(name, "only") || same(name, "skip") || same(name, "concurrent")
        || same(name, "failing")
}

fn find_ambient_base(tree: &SyntaxTree, node: usize) -> (base: Option<usize>)
    requires
        tree.wf(),
        node < tree@.len(),
    ensures
        found(base) == ambient_base(tree@, node as int),
        base is Some ==> base->0 < tree@.len(),
{
    let mut at: usize = node;
    loop
        invariant
            tree.wf(),
            at < tree@.len(),
            ambient_base(tree@, at as int) == ambient_base(tree@, node as int),
        decreases tree@.len() - at,
    {
        if tree.is(at, "member_expression") {
            match (tree.field(at, "property"), tree.field(at, "object")) {
                (Some(property), Some(object)) => {
                    if !modifier_name(tree.text(property)) {
                        return None;
                    }
                    at = unwrap_expression(tree, object);
                },
                _ => {
                    return None;
                },
            }
        } else if tree.is(at, "call_expression") {
            let function: usize = match tree.field(at, "function") {
                Some(function) => function,
                None => {
                    return None;
                },
            };
            match tree.field(function, "property") {
                Some(property) => {
                    if !tree.is(function, "member_expression") || !factory_name(
                        tree.text(property),
                    ) {
                        return None;
                    }
                },
                None => {
                    return None;
                },
            }
            at = function;
        } else {
            return Some(at);
        }
    }
}

fn find_role(name: &str) -> (role: Option<Role>)
    ensures
        role == role_of(name@),
{
    if same(name, "describe") || same(name, "context") || same(name, "suite") || same(
        name,
        "fdescribe",
    ) || same(name, "xdescribe") || same(name, "xcontext") {
        Some(Role::Suite)
    } else if same(name, "test") || same(name, "it") || same(name, "specify") || same(name, "fit")
        || same(name, "xit") || same(name, "xtest") {
        Some(Role::Test)
    } else if same(name, "before") || same(name, "after") || same(name, "beforeEach") || same(
        name,
        "afterEach",
    ) || same(name, "beforeAll") || same(name, "afterAll") || same(name, "setup") || same(
        name,
        "teardown",
    ) || same(name, "suiteSetup") || same(name, "suiteTeardown") {
        Some(Role::Hook)
    } else {
        None
    }
}

fn shaped_like_registration(tree: &SyntaxTree, call: usize, role: Role) -> (r: bool)
    requires
        tree.wf(),
        call < tree@.len(),
    ensures
        r == registration_shape(tree@, call as int, role),
{
    match tree.field(call, "arguments") {
        Some(arguments) => {
            let list = tree.named_children(arguments);
            assert(indices(list@).len() == list@.len());
            if list.len() == 0 {
                return false;
            }
            let last: usize = list.len() - 1;
            assert(indices(list@)[last as int] == list@[last as int]);
            assert(indices(list@)[0] == list@[0]);
            let callback: usize = unwrap_expression(tree, list[last]);
            callable_kind(tree, callback) && (role == Role::Hook || literal_text(
                tree,
                list[0],
            ).is_some())
        },
        None => false,
    }
}

fn lies_in(tree: &SyntaxTree, outer: usize, inner: usize) -> (r: bool)
    requires
        tree.wf(),
        outer < tree@.len(),
        inner < tree@.len(),
    ensures
        r == spans(tree@, outer as int, inner as int),
{
    tree.nodes[outer].start_byte <= tree.nodes[inner].start_byte && tree.nodes[inner].end_byte
        <= tree.nodes[outer].end_byte
}

/// The node lies in one of the regions, which stand in any order.
fn inside(tree: &SyntaxTree, regions: &Vec<TestRegion>, i: usize) -> (r: bool)
    requires
        tree.wf(),
        i < tree@.len(),
    ensures
        r == contained(tree@, region_models(regions@), i as int),
{
    let start: usize = tree.nodes[i].start_byte;
    let end: usize = tree.nodes[i].end_byte;
    let ghost models = region_models(regions@);
    let mut k: usize = 0;
    while k < regions.len()
        invariant
            models == region_models(regions@),
            start == tree@.nodes[i as int].start_byte,
            end == tree@.nodes[i as int].end_byte,
            k <= regions@.len(),
            forall|n: int|
                0 <= n < k ==> !((#[trigger] models[n]).start_byte <= start && end
                    <= models[n].end_byte),
        decreases regions@.len() - k,
    {
        assert(models[k as int] == regions@[k as int]@);
        if regions[k].start_byte <= start && end <= regions[k].end_byte {
            return true;
        }
        k = k + 1;
    }
    false
}

impl TestBindings {
    fn find_ambient_role(&self, tree: &SyntaxTree, function: usize, scope: usize) -> (role: Option<
        Role,
    >)
        requires
            tree.wf(),
            self.ok(tree@),
            function < tree@.len(),
            scope < self@.scopes.len(),
        ensures
            role == ambient_role(tree@, self@, function as int, scope as int),
    {
        match find_ambient_base(tree, unwrap_expression(tree, function)) {
            Some(base) => if tree.is(base, "identifier") && find_scope(
                &self.scopes,
                tree.text(base),
                scope,
            ).is_none() {
                find_role(tree.text(base))
            } else {
                None
            },
            None => None,
        }
    }

    fn scope_at(&self, i: usize, Ghost(t): Ghost<Syntax>) -> (scope: usize)
        requires
            self.ok(t),
            i < t.len(),
        ensures
            scope == self@.scope_of[i as int],
            scope < self@.scopes.len(),
    {
        assert(scopes_ok(self@.scope_of, self@.scopes.len() as int));
        self.scope_of[i]
    }

    fn is_ambient_call(&self, tree: &SyntaxTree, i: usize, role: Role) -> (r: bool)
        requires
            tree.wf(),
            self.ok(tree@),
            i < tree@.len(),
        ensures
            r == ambient_call(tree@, self@, i as int, role),
    {
        if !self.reached[i] || !tree.is(i, "call_expression") || !shaped_like_registration(
            tree,
            i,
            role,
        ) {
            return false;
        }
        match tree.field(i, "function") {
            Some(function) => match self.find_ambient_role(
                tree,
                function,
                self.scope_at(i, Ghost(tree@)),
            ) {
                Some(known) => known == role,
                None => false,
            },
            None => false,
        }
    }

    /// The ambient calls of one role.
    fn ambient_calls(&self, tree: &SyntaxTree, role: Role) -> (calls: Vec<usize>)
        requires
            tree.wf(),
            self.ok(tree@),
        ensures
            forall|k: int|
                0 <= k < calls@.len() ==> #[trigger] calls@[k] < tree@.len() && ambient_call(
                    tree@,
                    self@,
                    calls@[k] as int,
                    role,
                ),
            forall|i: int|
                0 <= i < tree@.len() && #[trigger] ambient_call(tree@, self@, i, role) ==> exists|
                    k: int,
                |
                    0 <= k < calls@.len() && calls@[k] == i,
    {
        let mut calls: Vec<usize> = Vec::new();
        let n: usize = tree.nodes.len();
        let mut i: usize = 0;
        while i < n
            invariant
                tree.wf(),
                self.ok(tree@),
                n == tree@.len(),
                i <= n,
                forall|k: int|
                    0 <= k < calls@.len() ==> #[trigger] calls@[k] < tree@.len() && ambient_call(
                        tree@,
                        self@,
                        calls@[k] as int,
                        role,
                    ),
                forall|j: int|
                    0 <= j < i && #[trigger] ambient_call(tree@, self@, j, role) ==> exists|k: int|
                        0 <= k < calls@.len() && calls@[k] == j,
            decreases n - i,
        {
            if self.is_ambient_call(tree, i, role) {
                let ghost before = calls@;
                calls.push(i);
                assert forall|j: int|
                    0 <= j <= i && #[trigger] ambient_call(tree@, self@, j, role) implies exists|
                    k: int,
                |
                    0 <= k < calls@.len() && calls@[k] == j by {
                    if j < i {
                        let k = choose|k: int| 0 <= k < before.len() && before[k] == j;
                        assert(calls@[k] == j);
                    } else {
                        assert(calls@[calls@.len() - 1] == j);
                    }
                }
            }
            i = i + 1;
        }
        calls
    }

    /// The ambient suites with tests in them.
    fn ambient_suites(&self, tree: &SyntaxTree) -> (suites: Vec<usize>)
        requires
            tree.wf(),
            self.ok(tree@),
        ensures
            forall|k: int|
                0 <= k < suites@.len() ==> #[trigger] suites@[k] < tree@.len() && ambient_suite(
                    tree@,
                    self@,
                    suites@[k] as int,
                ),
            forall|i: int|
                0 <= i < tree@.len() && #[trigger] ambient_suite(tree@, self@, i) ==> exists|
                    k: int,
                |
                    0 <= k < suites@.len() && suites@[k] == i,
    {
        let all = self.ambient_calls(tree, Role::Suite);
        let tests = self.ambient_calls(tree, Role::Test);
        let mut suites: Vec<usize> = Vec::new();
        let mut a: usize = 0;
        while a < all.len()
            invariant
                tree.wf(),
                self.ok(tree@),
                a <= all@.len(),
                forall|k: int|
                    0 <= k < all@.len() ==> #[trigger] all@[k] < tree@.len() && ambient_call(
                        tree@,
                        self@,
                        all@[k] as int,
                        Role::Suite,
                    ),
                forall|k: int|
                    0 <= k < tests@.len() ==> #[trigger] tests@[k] < tree@.len() && ambient_call(
                        tree@,
                        self@,
                        tests@[k] as int,
                        Role::Test,
                    ),
                forall|i: int|
                    0 <= i < tree@.len() && #[trigger] ambient_call(tree@, self@, i, Role::Test)
                        ==> exists|k: int| 0 <= k < tests@.len() && tests@[k] == i,
                forall|k: int|
                    0 <= k < suites@.len() ==> #[trigger] suites@[k] < tree@.len()
                        && ambient_suite(tree@, self@, suites@[k] as int),
                forall|k: int|
                    0 <= k < a && ambient_suite(tree@, self@, #[trigger] all@[k] as int) ==> exists|
                        m: int,
                    |
                        0 <= m < suites@.len() && suites@[m] == all@[k],
            decreases all@.len() - a,
        {
            let suite: usize = all[a];
            let mut has_test: bool = false;
            let mut b: usize = 0;
            while b < tests.len() && !has_test
                invariant
                    tree.wf(),
                    suite < tree@.len(),
                    b <= tests@.len(),
                    forall|k: int|
                        0 <= k < tests@.len() ==> #[trigger] tests@[k] < tree@.len()
                            && ambient_call(tree@, self@, tests@[k] as int, Role::Test),
                    !has_test ==> forall|k: int|
                        0 <= k < b ==> !holds(tree@, suite as int, #[trigger] tests@[k] as int),
                    has_test ==> exists|j: int|
                        0 <= j < tree@.len() && holds(tree@, suite as int, j)
                            && #[trigger] ambient_call(tree@, self@, j, Role::Test),
                decreases tests@.len() - b,
            {
                let test: usize = tests[b];
                if tree.nodes[test].start_byte > tree.nodes[suite].start_byte
                    && tree.nodes[test].end_byte <= tree.nodes[suite].end_byte {
                    has_test = true;
                    assert(holds(tree@, suite as int, test as int) && ambient_call(
                        tree@,
                        self@,
                        test as int,
                        Role::Test,
                    ));
                }
                b = b + 1;
            }
            let ghost before = suites@;
            if has_test {
                suites.push(suite);
            }
            assert forall|k: int|
                0 <= k <= a && ambient_suite(tree@, self@, #[trigger] all@[k] as int) implies exists|
                m: int,
            |
                0 <= m < suites@.len() && suites@[m] == all@[k] by {
                if k < a {
                    let m = choose|m: int| 0 <= m < before.len() && before[m] == all@[k];
                    assert(suites@[m] == all@[k]);
                } else if has_test {
                    assert(suites@[suites@.len() - 1] == all@[k]);
                } else {
                    let j = choose|j: int|
                        0 <= j < tree@.len() && holds(tree@, suite as int, j)
                            && #[trigger] ambient_call(tree@, self@, j, Role::Test);
                    let m = choose|m: int| 0 <= m < tests@.len() && tests@[m] == j;
                    assert(!holds(tree@, suite as int, tests@[m] as int));
                }
            }
            a = a + 1;
        }
        assert forall|i: int|
            0 <= i < tree@.len() && #[trigger] ambient_suite(tree@, self@, i) implies exists|k: int|
            0 <= k < suites@.len() && suites@[k] == i by {
            assert(ambient_call(tree@, self@, i, Role::Suite));
            let k = choose|k: int| 0 <= k < all@.len() && all@[k] == i;
            assert(ambient_suite(tree@, self@, all@[k] as int));
        }
        suites
    }

    fn has_ambience(&self, tree: &SyntaxTree, suites: &Vec<usize>, i: usize) -> (r: bool)
        requires
            tree.wf(),
            self.ok(tree@),
            i < tree@.len(),
            forall|k: int|
                0 <= k < suites@.len() ==> #[trigger] suites@[k] < tree@.len() && ambient_suite(
                    tree@,
                    self@,
                    suites@[k] as int,
                ),
            forall|j: int|
                0 <= j < tree@.len() && #[trigger] ambient_suite(tree@, self@, j) ==> exists|
                    k: int,
                |
                    0 <= k < suites@.len() && suites@[k] == j,
        ensures
            r == ambience(tree@, self@, i as int),
    {
        if self.ambient_framework {
            return true;
        }
        let scope: usize = self.scope_of[i];
        let mut k: usize = 0;
        while k < suites.len()
            invariant
                tree.wf(),
                self.ok(tree@),
                i < tree@.len(),
                scope == self@.scope_of[i as int],
                k <= suites@.len(),
                forall|n: int|
                    0 <= n < suites@.len() ==> #[trigger] suites@[n] < tree@.len() && ambient_suite(
                        tree@,
                        self@,
                        suites@[n] as int,
                    ),
                forall|n: int|
                    0 <= n < k ==> !(self@.scope_of[#[trigger] suites@[n] as int] == scope || spans(
                        tree@,
                        suites@[n] as int,
                        i as int,
                    )),
            decreases suites@.len() - k,
        {
            let suite: usize = suites[k];
            if self.scope_of[suite] == scope || lies_in(tree, suite, i) {
                assert(ambient_suite(tree@, self@, suite as int));
                return true;
            }
            k = k + 1;
        }
        assert forall|suite: int|
            0 <= suite < tree@.len() && #[trigger] ambient_suite(
                tree@,
                self@,
                suite,
            ) implies !(self@.scope_of[suite] == self@.scope_of[i as int] || spans(
            tree@,
            suite,
            i as int,
        )) by {
            let k = choose|k: int| 0 <= k < suites@.len() && suites@[k] == suite;
            assert(suites@[k] < tree@.len());
        }
        false
    }
}

pub open spec fn reason_text(reason: Option<&'static str>) -> Option<Seq<char>> {
    match reason {
        Some(reason) => Some(reason@),
        None => None,
    }
}

impl TestFacts {
    pub open spec fn ok(&self, t: Syntax) -> bool {
        self.bindings.ok(t) && self.mutated@.len() == FRAMEWORKS
    }

    fn resolve(&self, tree: &SyntaxTree, i: usize, scope: usize) -> (api: Option<TestApi>)
        requires
            tree.wf(),
            self.ok(tree@),
            i < tree@.len(),
            scope < self@.bindings.scopes.len(),
        ensures
            api == resolved(tree@, self@, i as int, scope as int),
    {
        match self.bindings.find_api(tree, i, scope) {
            Some(api) => if self.mutated[index_of_framework(api.framework)] {
                None
            } else {
                Some(api)
            },
            None => None,
        }
    }

    fn judge_call(&self, tree: &SyntaxTree, suites: &Vec<usize>, i: usize) -> (reason: Option<
        &'static str,
    >)
        requires
            tree.wf(),
            self.ok(tree@),
            i < tree@.len(),
            forall|k: int|
                0 <= k < suites@.len() ==> #[trigger] suites@[k] < tree@.len() && ambient_suite(
                    tree@,
                    self@.bindings,
                    suites@[k] as int,
                ),
            forall|j: int|
                0 <= j < tree@.len() && #[trigger] ambient_suite(tree@, self@.bindings, j)
                    ==> exists|k: int| 0 <= k < suites@.len() && suites@[k] == j,
        ensures
            reason_text(reason) == call_reason(tree@, self@, i as int),
    {
        let function: usize = match tree.field(i, "function") {
            Some(function) => function,
            None => {
                return None;
            },
        };
        let scope: usize = self.bindings.scope_at(i, Ghost(tree@));
        let bound: bool = match self.resolve(tree, function, scope) {
            Some(api) => api.registration(),
            None => false,
        };
        if bound {
            return Some("bound test-framework registration");
        }
        match self.bindings.find_ambient_role(tree, function, scope) {
            Some(role) => if self.bindings.has_ambience(tree, suites, i)
                && shaped_like_registration(tree, i, role) {
                Some("unshadowed ambient test suite")
            } else {
                None
            },
            None => None,
        }
    }

    fn find_registrations(&self, tree: &SyntaxTree) -> (regions: Vec<TestRegion>)
        requires
            tree.wf(),
            self.ok(tree@),
        ensures
            region_models(regions@) == registrations(tree@, self@, tree@.len()),
    {
        let suites = self.bindings.ambient_suites(tree);
        let n: usize = tree.nodes.len();
        let mut regions: Vec<TestRegion> = Vec::new();
        assert(region_models(regions@) =~= Seq::<RegionModel>::empty());
        let mut i: usize = 0;
        while i < n
            invariant
                tree.wf(),
                self.ok(tree@),
                n == tree@.len(),
                i <= n,
                forall|k: int|
                    0 <= k < suites@.len() ==> #[trigger] suites@[k] < tree@.len() && ambient_suite(
                        tree@,
                        self@.bindings,
                        suites@[k] as int,
                    ),
                forall|j: int|
                    0 <= j < tree@.len() && #[trigger] ambient_suite(tree@, self@.bindings, j)
                        ==> exists|k: int| 0 <= k < suites@.len() && suites@[k] == j,
                region_models(regions@) == registrations(tree@, self@, i as int),
            decreases n - i,
        {
            if self.bindings.reached[i] && tree.is(i, "call_expression") {
                match self.judge_call(tree, &suites, i) {
                    Some(reason) => {
                        let ghost before = region_models(regions@);
                        let region = test_region(tree, i, reason);
                        regions.push(region);
                        assert(region_models(regions@) =~= before.push(region@));
                    },
                    None => {},
                }
            }
            i = i + 1;
        }
        regions
    }
}

impl TestBindings {
    fn local_function(&self, tree: &SyntaxTree, node: usize, scope: usize) -> (r: bool)
        requires
            tree.wf(),
            self.ok(tree@),
            node < tree@.len(),
            scope < self@.scopes.len(),
        ensures
            r == is_local_function(tree@, self@, node as int, scope as int, tree@.len()),
    {
        let n: usize = tree.nodes.len();
        let mut hops: usize = n;
        let mut at: usize = node;
        let mut inside: usize = scope;
        loop
            invariant
                tree.wf(),
                self.ok(tree@),
                n == tree@.len(),
                at < tree@.len(),
                inside < self@.scopes.len(),
                is_local_function(tree@, self@, at as int, inside as int, hops as int)
                    == is_local_function(
                    tree@,
                    self@,
                    node as int,
                    scope as int,
                    tree@.len(),
                ),
            decreases hops,
        {
            let i: usize = unwrap_expression(tree, at);
            if callable_kind(tree, i) {
                return true;
            }
            if !tree.is(i, "identifier") {
                return false;
            }
            let name: &str = tree.text(i);
            let owner: usize = match find_scope(&self.scopes, name, inside) {
                Some(owner) => owner,
                None => {
                    return false;
                },
            };
            assert(self@.scopes[owner as int] == self.scopes@[owner as int]@);
            let binding: Binding = match self.scopes[owner].bindings.get(name) {
                Some(binding) => *binding,
                None => Binding::Unknown,
            };
            match binding {
                Binding::Function(_) => {
                    return true;
                },
                Binding::Expression(value, next) => {
                    if hops == 0 || value >= n || next >= self.scopes.len() {
                        return false;
                    }
                    hops = hops - 1;
                    at = value;
                    inside = next;
                },
                _ => {
                    return false;
                },
            }
        }
    }
}

fn find_whole_declaration(tree: &SyntaxTree, i: usize) -> (node: usize)
    requires
        tree.wf(),
        i < tree@.len(),
    ensures
        node == whole_declaration(tree@, i as int),
        node < tree@.len(),
{
    if i > 0 && tree.is(i, "variable_declarator") {
        assert(tree@.parent_at(i as int));
        let parent: usize = tree.parents[i];
        let declarators = tree.named_of_kind(parent, "variable_declarator");
        assert(indices(declarators@).len() == declarators@.len());
        if declarators.len() == 1 {
            return parent;
        }
    }
    i
}

pub open spec fn candidates_ok(list: Seq<Candidate>, nodes: int) -> bool {
    forall|k: int|
        0 <= k < list.len() ==> (#[trigger] list[k]).node < nodes && list[k].entry.node < nodes
}

/// A helper with the nodes that read its name.
pub struct Helper {
    pub candidate: Candidate,
    pub uses: Vec<usize>,
}

/// The nodes are those that read the declared name.
pub open spec fn uses_ok(t: Syntax, s: Collected, uses: Seq<usize>, entry: Place) -> bool {
    &&& forall|k: int|
        0 <= k < uses.len() ==> (#[trigger] uses[k]) < t.len() && is_use(
            t,
            s,
            uses[k] as int,
            entry,
        )
    &&& forall|u: int|
        0 <= u < t.len() && #[trigger] is_use(t, s, u, entry) ==> exists|k: int|
            0 <= k < uses.len() && uses[k] == u
}

pub open spec fn helpers_ok(t: Syntax, s: Collected, list: Seq<Helper>) -> bool {
    forall|k: int|
        0 <= k < list.len() ==> (#[trigger] list[k]).candidate.node < t.len() && uses_ok(
            t,
            s,
            list[k].uses@,
            list[k].candidate.entry,
        )
}

/// The candidates at some places of a list.
pub open spec fn picked(list: Seq<Helper>, places: Seq<usize>) -> Seq<Candidate> {
    places.map_values(|k: usize| list[k as int].candidate)
}

pub open spec fn picks_ok(places: Seq<usize>, count: int) -> bool {
    forall|k: int| 0 <= k < places.len() ==> #[trigger] places[k] < count
}

impl TestFacts {
    fn find_definition(&self, tree: &SyntaxTree, binding: Binding) -> (definition: Option<usize>)
        requires
            tree.wf(),
            self.ok(tree@),
        ensures
            found(definition) == helper_definition(tree@, self@, binding),
            definition is Some ==> definition->0 < tree@.len(),
    {
        match binding {
            Binding::Function(node) => if node < tree.nodes.len() {
                Some(node)
            } else {
                None
            },
            Binding::Expression(value, scope) => {
                assert(self@.bindings.scopes.len() == self.bindings.scopes@.len());
                if value >= tree.nodes.len() || scope >= self.bindings.scopes.len() {
                    return None;
                }
                let at: usize = unwrap_expression(tree, value);
                if callable_kind(tree, at) || self.resolve(tree, at, scope).is_some() || (tree.is(
                    at,
                    "identifier",
                ) && self.bindings.local_function(tree, at, scope)) {
                    if at > 0 {
                        assert(tree@.parent_at(at as int));
                        let parent: usize = tree.parents[at];
                        if tree.is(parent, "variable_declarator") {
                            return Some(parent);
                        }
                    }
                    Some(at)
                } else {
                    None
                }
            },
            _ => None,
        }
    }

    fn find_helper(&self, tree: &SyntaxTree, entry: Place) -> (node: Option<usize>)
        requires
            tree.wf(),
            self.ok(tree@),
            entry.node < tree@.len(),
            entry.scope < self@.bindings.scopes.len(),
        ensures
            found(node) == helper_node(tree@, self@, entry),
            node is Some ==> node->0 < tree@.len(),
    {
        let scopes = &self.bindings.scopes;
        assert(self@.bindings.scopes[entry.scope as int] == scopes@[entry.scope as int]@);
        let binding: Binding = match scopes[entry.scope].bindings.get(tree.text(entry.node)) {
            Some(binding) => *binding,
            None => Binding::Unknown,
        };
        match self.find_definition(tree, binding) {
            Some(definition) => {
                let node: usize = find_whole_declaration(tree, definition);
                if node > 0 {
                    assert(tree@.parent_at(node as int));
                    if tree.is(tree.parents[node], "export_statement") {
                        return None;
                    }
                }
                Some(node)
            },
            None => None,
        }
    }
}

impl TestFacts {
    /// The helpers that a source declares.
    fn list_helpers(&self, tree: &SyntaxTree) -> (list: Vec<Candidate>)
        requires
            tree.wf(),
            self.ok(tree@),
        ensures
            list@ == helpers(tree@, self@, self@.bindings.entries.len() as int),
            candidates_ok(list@, tree@.len()),
    {
        let entries = &self.bindings.entries;
        let mut list: Vec<Candidate> = Vec::new();
        let mut k: usize = 0;
        while k < entries.len()
            invariant
                tree.wf(),
                self.ok(tree@),
                entries@ == self@.bindings.entries,
                k <= entries@.len(),
                list@ == helpers(tree@, self@, k as int),
                candidates_ok(list@, tree@.len()),
            decreases entries@.len() - k,
        {
            let entry: Place = entries[k];
            assert(self@.bindings.entries[k as int] == entry);
            match self.find_helper(tree, entry) {
                Some(node) => list.push(Candidate { node, entry }),
                None => {},
            }
            k = k + 1;
        }
        list
    }
}

/// Candidates in the order in which they start and end.
fn sort_candidates(tree: &SyntaxTree, list: &Vec<Candidate>) -> (result: Vec<Candidate>)
    requires
        tree.wf(),
        candidates_ok(list@, tree@.len()),
    ensures
        result@ == sorted(list@, candidate_order(tree@)),
        candidates_ok(result@, tree@.len()),
{
    let mut result: Vec<Candidate> = Vec::new();
    let ghost order = candidate_order(tree@);
    assert(result@ =~= sorted(list@.subrange(0, 0), order));
    let mut i: usize = 0;
    while i < list.len()
        invariant
            tree.wf(),
            order == candidate_order(tree@),
            candidates_ok(list@, tree@.len()),
            candidates_ok(result@, tree@.len()),
            i <= list@.len(),
            result@ == sorted(list@.subrange(0, i as int), order),
        decreases list@.len() - i,
    {
        let candidate: Candidate = list[i];
        let mut at: usize = result.len();
        while at > 0 && starts_before(tree, candidate.node, result[at - 1].node)
            invariant
                tree.wf(),
                order == candidate_order(tree@),
                candidate.node < tree@.len(),
                candidates_ok(result@, tree@.len()),
                at <= result@.len(),
                forall|k: int| at <= k < result@.len() ==> order(candidate, #[trigger] result@[k]),
            decreases at,
        {
            at = at - 1;
            assert(order(candidate, result@[at as int]));
        }
        proof {
            assert(at == 0 || !order(candidate, result@[at - 1]));
            lemma_insert_at(result@, candidate, order, at as int);
            let prefix = list@.subrange(0, i + 1);
            assert(prefix.drop_last() =~= list@.subrange(0, i as int));
            assert(prefix.last() == candidate);
        }
        let ghost before = result@;
        result.insert(at, candidate);
        assert forall|k: int| 0 <= k < result@.len() implies (#[trigger] result@[k]).node
            < tree@.len() && result@[k].entry.node < tree@.len() by {
            if k < at {
                assert(result@[k] == before[k]);
            } else if k > at {
                assert(result@[k] == before[k - 1]);
            }
        }
        i = i + 1;
    }
    assert(list@.subrange(0, i as int) =~= list@);
    result
}

fn starts_before(tree: &SyntaxTree, a: usize, b: usize) -> (r: bool)
    requires
        tree.wf(),
        a < tree@.len(),
        b < tree@.len(),
    ensures
        r == (tree@.nodes[a as int].start_byte < tree@.nodes[b as int].start_byte || (
        tree@.nodes[a as int].start_byte == tree@.nodes[b as int].start_byte
            && tree@.nodes[a as int].end_byte < tree@.nodes[b as int].end_byte)),
{
    tree.nodes[a].start_byte < tree.nodes[b].start_byte || (tree.nodes[a].start_byte
        == tree.nodes[b].start_byte && tree.nodes[a].end_byte < tree.nodes[b].end_byte)
}

/// A node that reads a name, with the scope that binds it.
#[derive(Clone, Copy)]
pub struct Reference {
    pub node: usize,
    pub owner: Option<usize>,
}

/// The references are those among the first `n` nodes.
pub open spec fn references_ok(t: Syntax, s: Collected, list: Seq<Reference>, n: int) -> bool {
    &&& forall|k: int|
        0 <= k < list.len() ==> (#[trigger] list[k]).node < t.len() && is_reference(
            t,
            s,
            list[k].node as int,
        ) && found(list[k].owner) == lookup(
            s.scopes,
            t.text(list[k].node as int),
            s.scope_of[list[k].node as int] as int,
        )
    &&& forall|u: int|
        0 <= u < n && #[trigger] is_reference(t, s, u) ==> exists|k: int|
            0 <= k < list.len() && (#[trigger] list[k]).node == u
}

impl TestBindings {
    /// The nodes that read names.
    fn references(&self, tree: &SyntaxTree) -> (list: Vec<Reference>)
        requires
            tree.wf(),
            self.ok(tree@),
        ensures
            references_ok(tree@, self@, list@, tree@.len()),
    {
        let n: usize = tree.nodes.len();
        let mut list: Vec<Reference> = Vec::new();
        let mut i: usize = 0;
        while i < n
            invariant
                tree.wf(),
                self.ok(tree@),
                n == tree@.len(),
                i <= n,
                references_ok(tree@, self@, list@, i as int),
            decreases n - i,
        {
            let ghost before = list@;
            if self.reached[i] && !self.declared[i] && (tree.is(i, "identifier") || tree.is(
                i,
                "shorthand_property_identifier",
            )) {
                let scope: usize = self.scope_at(i, Ghost(tree@));
                let owner: Option<usize> = find_scope(&self.scopes, tree.text(i), scope);
                list.push(Reference { node: i, owner });
                assert(is_reference(tree@, self@, i as int));
            }
            assert forall|u: int| 0 <= u <= i && #[trigger] is_reference(
                tree@,
                self@,
                u,
            ) implies exists|k: int| 0 <= k < list@.len() && (#[trigger] list@[k]).node == u by {
                if u < i {
                    let k = choose|k: int| 0 <= k < before.len() && (#[trigger] before[k]).node == u;
                    assert(list@[k].node == u);
                } else {
                    assert(list@[list@.len() - 1].node == u);
                }
            }
            assert forall|k: int| 0 <= k < list@.len() implies (#[trigger] list@[k]).node
                < tree@.len() && is_reference(tree@, self@, list@[k].node as int) && found(
                list@[k].owner,
            ) == lookup(
                self@.scopes,
                tree@.text(list@[k].node as int),
                self@.scope_of[list@[k].node as int] as int,
            ) by {
                if k < before.len() {
                    assert(list@[k] == before[k]);
                }
            }
            i = i + 1;
        }
        list
    }

    /// The nodes that read a declared name.
    fn uses_of(&self, tree: &SyntaxTree, list: &Vec<Reference>, entry: Place) -> (uses: Vec<usize>)
        requires
            tree.wf(),
            self.ok(tree@),
            references_ok(tree@, self@, list@, tree@.len()),
            entry.node < tree@.len(),
        ensures
            uses_ok(tree@, self@, uses@, entry),
    {
        let name: &str = tree.text(entry.node);
        let mut uses: Vec<usize> = Vec::new();
        let mut r: usize = 0;
        while r < list.len()
            invariant
                tree.wf(),
                self.ok(tree@),
                references_ok(tree@, self@, list@, tree@.len()),
                entry.node < tree@.len(),
                name@ == tree@.text(entry.node as int),
                r <= list@.len(),
                forall|k: int|
                    0 <= k < uses@.len() ==> (#[trigger] uses@[k]) < tree@.len() && is_use(
                        tree@,
                        self@,
                        uses@[k] as int,
                        entry,
                    ),
                forall|m: int|
                    0 <= m < r && is_use(tree@, self@, (#[trigger] list@[m]).node as int, entry)
                        ==> exists|k: int| 0 <= k < uses@.len() && uses@[k] == list@[m].node,
            decreases list@.len() - r,
        {
            let reference: Reference = list[r];
            assert(list@[r as int] == reference);
            let owned: bool = match reference.owner {
                Some(owner) => owner == entry.scope,
                None => false,
            };
            let ghost before = uses@;
            if owned && same(tree.text(reference.node), name) {
                uses.push(reference.node);
                assert(is_use(tree@, self@, reference.node as int, entry));
            }
            assert forall|m: int|
                0 <= m <= r && is_use(
                    tree@,
                    self@,
                    (#[trigger] list@[m]).node as int,
                    entry,
                ) implies exists|k: int| 0 <= k < uses@.len() && uses@[k] == list@[m].node by {
                if m < r {
                    let k = choose|k: int| 0 <= k < before.len() && before[k] == list@[m].node;
                    assert(uses@[k] == list@[m].node);
                } else {
                    assert(uses@[uses@.len() - 1] == list@[m].node);
                }
            }
            r = r + 1;
        }
        assert forall|u: int|
            0 <= u < tree@.len() && #[trigger] is_use(tree@, self@, u, entry) implies exists|k: int|
            0 <= k < uses@.len() && uses@[k] == u by {
            assert(is_reference(tree@, self@, u));
            let m = choose|m: int| 0 <= m < list@.len() && (#[trigger] list@[m]).node == u;
            assert(is_use(tree@, self@, list@[m].node as int, entry));
        }
        uses
    }

    fn exclusive(
        &self,
        tree: &SyntaxTree,
        regions: &Vec<TestRegion>,
        helper: &Helper,
    ) -> (r: bool)
        requires
            tree.wf(),
            self.ok(tree@),
            helper.candidate.node < tree@.len(),
            uses_ok(tree@, self@, helper.uses@, helper.candidate.entry),
        ensures
            r == is_exclusive(tree@, self@, region_models(regions@), helper.candidate),
    {
        let node: usize = helper.candidate.node;
        let uses = &helper.uses;
        let ghost models = region_models(regions@);
        let ghost entry = helper.candidate.entry;
        let mut tested: bool = false;
        let mut k: usize = 0;
        while k < uses.len()
            invariant
                tree.wf(),
                self.ok(tree@),
                node < tree@.len(),
                node == helper.candidate.node,
                entry == helper.candidate.entry,
                models == region_models(regions@),
                uses@ == helper.uses@,
                uses_ok(tree@, self@, uses@, entry),
                k <= uses@.len(),
                tested ==> exists|u: int|
                    0 <= u < tree@.len() && #[trigger] is_use(tree@, self@, u, entry) && contained(
                        tree@,
                        models,
                        u,
                    ) && !spans(tree@, node as int, u),
                forall|n: int|
                    0 <= n < k ==> contained(tree@, models, #[trigger] uses@[n] as int) || spans(
                        tree@,
                        node as int,
                        uses@[n] as int,
                    ),
                !tested ==> forall|n: int|
                    0 <= n < k ==> !(contained(tree@, models, #[trigger] uses@[n] as int) && !spans(
                        tree@,
                        node as int,
                        uses@[n] as int,
                    )),
            decreases uses@.len() - k,
        {
            let usage: usize = uses[k];
            assert(is_use(tree@, self@, usage as int, entry));
            let own: bool = lies_in(tree, node, usage);
            let tests: bool = inside(tree, regions, usage);
            if !own && !tests {
                return false;
            }
            if tests && !own {
                tested = true;
            }
            k = k + 1;
        }
        proof {
            if tested {
                assert forall|u: int|
                    0 <= u < tree@.len() && #[trigger] is_use(
                        tree@,
                        self@,
                        u,
                        entry,
                    ) implies contained(tree@, models, u) || spans(tree@, node as int, u) by {
                    let n = choose|n: int| 0 <= n < uses@.len() && uses@[n] == u;
                    assert(contained(tree@, models, uses@[n] as int) || spans(
                        tree@,
                        node as int,
                        uses@[n] as int,
                    ));
                }
            } else {
                assert forall|u: int|
                    0 <= u < tree@.len() && #[trigger] is_use(
                        tree@,
                        self@,
                        u,
                        entry,
                    ) implies !(contained(tree@, models, u) && !spans(tree@, node as int, u)) by {
                    let n = choose|n: int| 0 <= n < uses@.len() && uses@[n] == u;
                    assert(!(contained(tree@, models, uses@[n] as int) && !spans(
                        tree@,
                        node as int,
                        uses@[n] as int,
                    )));
                }
            }
        }
        tested
    }

    /// Looks at some helpers in turn.
    fn pass(
        &self,
        tree: &SyntaxTree,
        list: &Vec<Helper>,
        places: &Vec<usize>,
        regions: &mut Vec<TestRegion>,
    ) -> (kept: Vec<usize>)
        requires
            tree.wf(),
            self.ok(tree@),
            helpers_ok(tree@, self@, list@),
            picks_ok(places@, list@.len() as int),
        ensures
            (Pass { kept: picked(list@, kept@), regions: region_models(final(regions)@) })
                == passed(
                tree@,
                self@,
                picked(list@, places@),
                region_models(old(regions)@),
                places@.len() as int,
            ),
            picks_ok(kept@, list@.len() as int),
    {
        let ghost start = region_models(regions@);
        let ghost all = picked(list@, places@);
        let mut kept: Vec<usize> = Vec::new();
        assert(picked(list@, kept@) =~= Seq::<Candidate>::empty());
        let mut k: usize = 0;
        while k < places.len()
            invariant
                tree.wf(),
                self.ok(tree@),
                helpers_ok(tree@, self@, list@),
                picks_ok(places@, list@.len() as int),
                picks_ok(kept@, list@.len() as int),
                all == picked(list@, places@),
                k <= places@.len(),
                (Pass { kept: picked(list@, kept@), regions: region_models(regions@) }) == passed(
                    tree@,
                    self@,
                    all,
                    start,
                    k as int,
                ),
            decreases places@.len() - k,
        {
            let place: usize = places[k];
            let helper = &list[place];
            assert(all[k as int] == helper.candidate);
            if inside(tree, regions, helper.candidate.node) {
            } else if self.exclusive(tree, regions, helper) {
                let ghost before = region_models(regions@);
                let region = test_region(
                    tree,
                    helper.candidate.node,
                    "local helper used exclusively by tests",
                );
                regions.push(region);
                assert(region_models(regions@) =~= before.push(region@));
            } else {
                let ghost before = picked(list@, kept@);
                kept.push(place);
                assert(picked(list@, kept@) =~= before.push(helper.candidate));
            }
            k = k + 1;
        }
        kept
    }

    /// Adds the helpers that only tests use.
    fn exclusive_helpers(
        &self,
        tree: &SyntaxTree,
        list: &Vec<Helper>,
        regions: &mut Vec<TestRegion>,
    )
        requires
            tree.wf(),
            self.ok(tree@),
            helpers_ok(tree@, self@, list@),
        ensures
            region_models(final(regions)@) == with_helpers(
                tree@,
                self@,
                list@.map_values(|h: Helper| h.candidate),
                region_models(old(regions)@),
            ),
    {
        let mut places: Vec<usize> = Vec::new();
        let mut k: usize = 0;
        while k < list.len()
            invariant
                k <= list@.len(),
                places@.len() == k,
                forall|n: int| 0 <= n < k ==> #[trigger] places@[n] == n,
            decreases list@.len() - k,
        {
            places.push(k);
            k = k + 1;
        }
        assert(picked(list@, places@) =~= list@.map_values(|h: Helper| h.candidate));
        let ghost goal = with_helpers(
            tree@,
            self@,
            picked(list@, places@),
            region_models(regions@),
        );
        loop
            invariant
                tree.wf(),
                self.ok(tree@),
                helpers_ok(tree@, self@, list@),
                picks_ok(places@, list@.len() as int),
                with_helpers(
                    tree@,
                    self@,
                    picked(list@, places@),
                    region_models(regions@),
                ) == goal,
                goal == with_helpers(
                    tree@,
                    self@,
                    list@.map_values(|h: Helper| h.candidate),
                    region_models(old(regions)@),
                ),
            decreases places@.len(),
        {
            let count: usize = regions.len();
            let ghost start = region_models(regions@);
            let ghost all = picked(list@, places@);
            assert(start.len() == count);
            assert(all.len() == places@.len());
            let kept = self.pass(tree, list, &places, regions);
            proof {
                lemma_pass(tree@, self@, all, start, all.len() as int);
            }
            assert(region_models(regions@).len() == regions@.len());
            assert(picked(list@, kept@).len() == kept@.len());
            if regions.len() == count {
                return;
            }
            places = kept;
        }
    }
}

/// Finds the regions of a source that belong to tests.
pub fn find_javascript_tests(tree: &SyntaxTree) -> (regions: Vec<TestRegion>)
    requires
        tree.wf(),
    ensures
        region_models(regions@) == javascript_test_regions(tree@),
{
    let known = TestBindings::collect(tree).settle(tree);
    if known.dynamic {
        let none: Vec<TestRegion> = Vec::new();
        assert(region_models(none@) =~= Seq::<RegionModel>::empty());
        return none;
    }
    let mut regions = known.find_registrations(tree);
    assert(region_models(regions@).len() == regions@.len());
    if regions.len() == 0 {
        return regions;
    }
    let candidates = known.list_helpers(tree);
    let ordered = sort_candidates(tree, &candidates);
    let references = known.bindings.references(tree);
    let mut list: Vec<Helper> = Vec::new();
    let mut k: usize = 0;
    while k < ordered.len()
        invariant
            tree.wf(),
            known.ok(tree@),
            references_ok(tree@, known@.bindings, references@, tree@.len()),
            candidates_ok(ordered@, tree@.len()),
            k <= ordered@.len(),
            list@.len() == k,
            helpers_ok(tree@, known@.bindings, list@),
            forall|n: int| 0 <= n < k ==> (#[trigger] list@[n]).candidate == ordered@[n],
        decreases ordered@.len() - k,
    {
        let candidate: Candidate = ordered[k];
        let uses = known.bindings.uses_of(tree, &references, candidate.entry);
        list.push(Helper { candidate, uses });
        k = k + 1;
    }
    assert(list@.map_values(|h: Helper| h.candidate) =~= ordered@);
    known.bindings.exclusive_helpers(tree, &list, &mut regions);
    regions
}

} // verus!
