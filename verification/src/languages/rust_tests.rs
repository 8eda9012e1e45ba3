//! Rust test code: the attributes that test frameworks provide, and the items
//! that exist only in test mode.

use vstd::hash_map::StringHashMap;
use vstd::prelude::*;
use vstd::string::*;

use super::rust_attributes::{
    agrees, any_holds_where_one_does, arguments, arguments_of, arguments_ok, attribute_meta,
    attribute_meta_of, cfg_holds, cfg_value, cfg_value_of, comment, is_comment, is_named,
    known_conditions_are_certain, meta_models, metas_ok, named, part_texts, AttributePath, Meta,
    MetaModel, PathModel, Truth, MAX_DEPTH,
};
use super::rust_scopes::{
    attached, attached_attributes, framework, framework_spec, path_models, scope_models, scope_of,
    Binding, Scope, ScopeModel, Scopes, ScopesModel, TestCrate,
};
use super::siblings::{find_previous, nodes_ok, previous_ok};
use super::syntax::{indices, remaining, Syntax, SyntaxTree};
use super::tree::{end_line, region_at, start_line, test_region};
use crate::metrics::{region_models, RegionModel, TestRegion};
use crate::text::same;

verus! {

/// What a path stands for.
#[derive(Clone, Copy, PartialEq, Eq, Structural)]
pub enum Resolved {
    Crate(TestCrate),
    Test,
    Unknown,
}

/// The crate provides a test attribute of the given name.
pub open spec fn provides(base: Resolved, name: Seq<char>) -> bool {
    match base {
        Resolved::Crate(TestCrate::Tokio) => name == "test"@,
        Resolved::Crate(TestCrate::AsyncStd) => name == "test"@,
        Resolved::Crate(TestCrate::Rstest) => name == "rstest"@,
        Resolved::Crate(TestCrate::TestCase) => name == "test_case"@,
        _ => false,
    }
}

/// What the parts of a path behind its first one lead to.
pub open spec fn member_spec(base: Resolved, parts: Seq<Seq<char>>) -> Resolved {
    if parts.len() <= 1 {
        base
    } else if parts.len() == 2 && provides(base, parts[1]) {
        Resolved::Test
    } else {
        Resolved::Unknown
    }
}

/// What the parts of a path behind its first one lead to.
fn member(base: Resolved, parts: &Vec<String>) -> (result: Resolved)
    ensures
        result == member_spec(base, part_texts(parts@)),
{
    assert(part_texts(parts@).len() == parts@.len());
    if parts.len() <= 1 {
        return base;
    }
    if parts.len() != 2 {
        return Resolved::Unknown;
    }
    assert(part_texts(parts@)[1] == parts@[1]@);
    let name: &str = parts[1].as_str();
    let provided: bool = match base {
        Resolved::Crate(TestCrate::Tokio) => same(name, "test"),
        Resolved::Crate(TestCrate::AsyncStd) => same(name, "test"),
        Resolved::Crate(TestCrate::Rstest) => same(name, "rstest"),
        Resolved::Crate(TestCrate::TestCase) => same(name, "test_case"),
        _ => false,
    };
    if provided {
        Resolved::Test
    } else {
        Resolved::Unknown
    }
}

/// The crate that a name stands for outside any scope: one that the file
/// declares, or a known one.
pub open spec fn outer_crate(s: ScopesModel, name: Seq<char>) -> Resolved {
    let externs = s.scopes[0].externs;
    if externs.contains_key(name) {
        match externs[name] {
            Binding::Crate(known) => Resolved::Crate(known),
            _ => Resolved::Unknown,
        }
    } else {
        match framework_spec(name) {
            Some(known) => Resolved::Crate(known),
            None => Resolved::Unknown,
        }
    }
}

/// A path that begins with this part is not followed.
pub open spec fn is_relative(part: Seq<char>) -> bool {
    part == "crate"@ || part == "self"@ || part == "super"@
}

/// What a path stands for in a scope. `from` is the import that led to the path:
/// its name and scope.
pub open spec fn resolve(
    s: ScopesModel,
    path: PathModel,
    scope: nat,
    from: Option<(Seq<char>, int)>,
    depth: int,
) -> Resolved
    decreases MAX_DEPTH - depth, scope + 1,
{
    if depth >= MAX_DEPTH || path.parts.len() == 0 || is_relative(path.parts[0]) {
        Resolved::Unknown
    } else if path.absolute {
        member_spec(outer_crate(s, path.parts[0]), path.parts)
    } else {
        resolve_from(s, path, scope, from, depth)
    }
}

/// What a path stands for, looked up from the scope `at` outwards.
pub open spec fn resolve_from(
    s: ScopesModel,
    path: PathModel,
    at: nat,
    from: Option<(Seq<char>, int)>,
    depth: int,
) -> Resolved
    decreases MAX_DEPTH - depth, at,
{
    let first = path.parts[0];
    let local = s.scopes[at as int];
    if depth >= MAX_DEPTH || local.types.contains(first) || local.macros.contains(first) {
        Resolved::Unknown
    } else if local.imports.contains_key(first) {
        let base = match local.imports[first] {
            Binding::Crate(known) => Resolved::Crate(known),
            Binding::Unknown => Resolved::Unknown,
            Binding::Import(index) => if from == Some((first, at as int)) {
                outer_crate(s, first)
            } else if index < s.paths.len() {
                resolve(s, s.paths[index as int], at, Some((first, at as int)), depth + 1)
            } else {
                Resolved::Unknown
            },
        };
        if base == Resolved::Test && path.parts.len() > 1 {
            member_spec(outer_crate(s, first), path.parts)
        } else {
            member_spec(base, path.parts)
        }
    } else if local.wildcard {
        Resolved::Unknown
    } else {
        match local.parent {
            Some(parent) => if !local.module && parent < at {
                resolve_from(s, path, parent as nat, from, depth)
            } else {
                member_spec(outer_crate(s, first), path.parts)
            },
            None => member_spec(outer_crate(s, first), path.parts),
        }
    }
}

/// No macro or import of the given name is in reach of a scope.
pub open spec fn builtin_from(s: ScopesModel, name: Seq<char>, at: nat, inherited: bool) -> bool
    decreases at,
{
    let local = s.scopes[at as int];
    if local.macros.contains(name) || (!inherited && (local.imports.contains_key(name)
        || local.wildcard)) {
        false
    } else {
        match local.parent {
            Some(parent) => if parent < at {
                builtin_from(s, name, parent as nat, inherited || local.module)
            } else {
                true
            },
            None => true,
        }
    }
}

fn lookup(bindings: &StringHashMap<Binding>, name: &str) -> (binding: Option<Binding>)
    ensures
        binding is Some <==> bindings@.contains_key(name@),
        binding is Some ==> binding->0 == bindings@[name@],
{
    match bindings.get(name) {
        Some(binding) => Some(*binding),
        None => None,
    }
}

impl Scopes {
    fn find_outer_crate(&self, name: &str) -> (result: Resolved)
        requires
            self.scopes@.len() > 0,
        ensures
            result == outer_crate(self@, name@),
    {
        assert(self@.scopes[0] == self.scopes@[0]@);
        match lookup(&self.scopes[0].externs, name) {
            Some(Binding::Crate(known)) => Resolved::Crate(known),
            Some(_) => Resolved::Unknown,
            None => match framework(name) {
                Some(known) => Resolved::Crate(known),
                None => Resolved::Unknown,
            },
        }
    }

    /// What an import of the given name leads to.
    fn follow(
        &self,
        binding: Binding,
        name: &str,
        at: usize,
        from: Option<(&str, usize)>,
        depth: usize,
    ) -> (base: Resolved)
        requires
            at < self.scopes@.len(),
            depth < MAX_DEPTH,
        ensures
            base == match binding {
                Binding::Crate(known) => Resolved::Crate(known),
                Binding::Unknown => Resolved::Unknown,
                Binding::Import(index) => if origin(from) == Some((name@, at as int)) {
                    outer_crate(self@, name@)
                } else if index < self@.paths.len() {
                    resolve(
                        self@,
                        self@.paths[index as int],
                        at as nat,
                        Some((name@, at as int)),
                        depth + 1,
                    )
                } else {
                    Resolved::Unknown
                },
            },
        decreases MAX_DEPTH - depth, 0int,
    {
        match binding {
            Binding::Crate(known) => Resolved::Crate(known),
            Binding::Unknown => Resolved::Unknown,
            Binding::Import(index) => {
                let repeated: bool = match from {
                    Some((source, scope)) => scope == at && same(source, name),
                    None => false,
                };
                if repeated {
                    return self.find_outer_crate(name);
                }
                assert(self@.paths.len() == self.paths@.len());
                if index < self.paths.len() {
                    assert(self@.paths[index as int] == self.paths@[index as int]@);
                    self.resolve_path(&self.paths[index], at, Some((name, at)), depth + 1)
                } else {
                    Resolved::Unknown
                }
            },
        }
    }

    /// What a path stands for in a scope.
    fn resolve_path(
        &self,
        path: &AttributePath,
        scope: usize,
        from: Option<(&str, usize)>,
        depth: usize,
    ) -> (result: Resolved)
        requires
            scope < self.scopes@.len(),
            depth <= MAX_DEPTH,
        ensures
            result == resolve(self@, path@, scope as nat, origin(from), depth as int),
        decreases MAX_DEPTH - depth, 1int,
    {
        assert(path@.parts.len() == path.parts@.len());
        if depth >= MAX_DEPTH || path.parts.len() == 0 {
            return Resolved::Unknown;
        }
        assert(path@.parts[0] == path.parts@[0]@);
        let first: &str = path.parts[0].as_str();
        if same(first, "crate") || same(first, "self") || same(first, "super") {
            return Resolved::Unknown;
        }
        if path.absolute {
            return member(self.find_outer_crate(first), &path.parts);
        }
        let mut at: usize = scope;
        loop
            invariant
                at < self.scopes@.len(),
                depth < MAX_DEPTH,
                path.parts@.len() > 0,
                path@.parts.len() == path.parts@.len(),
                path@.parts[0] == first@,
                resolve_from(self@, path@, at as nat, origin(from), depth as int) == resolve(
                    self@,
                    path@,
                    scope as nat,
                    origin(from),
                    depth as int,
                ),
            decreases at,
        {
            let local = &self.scopes[at];
            assert(self@.scopes[at as int] == local@);
            if local.types.contains(first) || local.macros.contains(first) {
                return Resolved::Unknown;
            }
            match lookup(&local.imports, first) {
                Some(binding) => {
                    let base = self.follow(binding, first, at, from, depth);
                    if base == Resolved::Test && path.parts.len() > 1 {
                        return member(self.find_outer_crate(first), &path.parts);
                    }
                    return member(base, &path.parts);
                },
                None => {},
            }
            if local.wildcard {
                return Resolved::Unknown;
            }
            match local.parent {
                Some(parent) if !local.module && parent < at => {
                    at = parent;
                },
                _ => {
                    return member(self.find_outer_crate(first), &path.parts);
                },
            }
        }
    }

    /// No macro or import of the given name is in reach of a scope.
    fn builtin(&self, name: &str, scope: usize) -> (r: bool)
        requires
            scope < self.scopes@.len(),
        ensures
            r == builtin_from(self@, name@, scope as nat, false),
    {
        let mut at: usize = scope;
        let mut inherited: bool = false;
        loop
            invariant
                at < self.scopes@.len(),
                builtin_from(self@, name@, at as nat, inherited) == builtin_from(
                    self@,
                    name@,
                    scope as nat,
                    false,
                ),
            decreases at,
        {
            let local = &self.scopes[at];
            assert(self@.scopes[at as int] == local@);
            if local.macros.contains(name) || (!inherited && (local.imports.contains_key(name)
                || local.wildcard)) {
                return false;
            }
            inherited = inherited || local.module;
            match local.parent {
                Some(parent) if parent < at => {
                    at = parent;
                },
                _ => {
                    return true;
                },
            }
        }
    }
}

/// The import that led to a path.
pub open spec fn origin(from: Option<(&str, usize)>) -> Option<(Seq<char>, int)> {
    match from {
        Some((name, scope)) => Some((name@, scope as int)),
        None => None,
    }
}

/// The attribute makes a function a test: the built-in one, or one that a test
/// framework provides.
pub open spec fn marks_test(s: ScopesModel, scope: nat, meta: MetaModel) -> bool {
    ||| is_named(meta.path, "test"@) && meta.bare && builtin_from(s, "test"@, scope, false)
    ||| (meta.bare || meta.arguments is Some) && resolve(s, meta.path, scope, None, 0)
        == Resolved::Test
}

/// Whether what an attribute stands on exists with or without test mode.
pub open spec fn survival(
    t: Syntax,
    s: ScopesModel,
    scope: nat,
    meta: MetaModel,
    function: bool,
    test: bool,
    depth: int,
) -> Truth
    decreases MAX_DEPTH - depth, 0int,
{
    let values = match meta.arguments {
        Some(node) => arguments_of(t, node as int),
        None => None,
    };
    if depth >= MAX_DEPTH {
        Truth::Unknown
    } else if is_named(meta.path, "cfg"@) {
        match values {
            Some(list) => if list.len() == 1 {
                cfg_value_of(t, list[0], test, depth + 1)
            } else {
                Truth::Unknown
            },
            None => Truth::Unknown,
        }
    } else if is_named(meta.path, "cfg_attr"@) {
        match values {
            Some(list) => if list.len() >= 2 {
                let condition = cfg_value_of(t, list[0], test, depth + 1);
                let applied = survivals(
                    t,
                    s,
                    scope,
                    list,
                    list.len() as int,
                    function,
                    test,
                    depth + 1,
                );
                Truth::any_spec(seq![condition.not_spec(), Truth::all_spec(applied)])
            } else {
                Truth::Unknown
            },
            None => Truth::Unknown,
        }
    } else if function && !test && marks_test(s, scope, meta) {
        Truth::False
    } else {
        Truth::True
    }
}

/// What the attributes from the second one of a list up to the `n`-th one say.
pub open spec fn survivals(
    t: Syntax,
    s: ScopesModel,
    scope: nat,
    list: Seq<MetaModel>,
    n: int,
    function: bool,
    test: bool,
    depth: int,
) -> Seq<Truth>
    decreases MAX_DEPTH - depth, n,
{
    if n <= 1 {
        Seq::empty()
    } else {
        survivals(t, s, scope, list, n - 1, function, test, depth).push(
            survival(t, s, scope, list[n - 1], function, test, depth),
        )
    }
}

/// What the first `n` attributes of an item say.
pub open spec fn attribute_survivals(
    t: Syntax,
    s: ScopesModel,
    scope: nat,
    attributes: Seq<int>,
    n: int,
    function: bool,
    test: bool,
) -> Seq<Truth>
    decreases n,
{
    if n <= 0 {
        Seq::empty()
    } else {
        attribute_survivals(t, s, scope, attributes, n - 1, function, test).push(
            match attribute_meta_of(t, attributes[n - 1]) {
                Some(meta) => survival(t, s, scope, meta, function, test, 0),
                None => Truth::Unknown,
            },
        )
    }
}

/// Whether an item with the given attributes exists with or without test mode.
pub open spec fn item_survival(
    t: Syntax,
    s: ScopesModel,
    scope: nat,
    attributes: Seq<int>,
    function: bool,
    test: bool,
) -> Truth {
    Truth::all_spec(
        attribute_survivals(t, s, scope, attributes, attributes.len() as int, function, test),
    )
}

/// The item is certainly absent outside test mode, and may be there in it.
pub open spec fn is_test_only(
    t: Syntax,
    s: ScopesModel,
    scope: nat,
    attributes: Seq<int>,
    function: bool,
) -> bool {
    &&& item_survival(t, s, scope, attributes, function, false) == Truth::False
    &&& item_survival(t, s, scope, attributes, function, true) != Truth::False
}

/// Whether what an attribute stands on exists where the conditions that nothing is
/// known of hold as given.
pub open spec fn attribute_keeps(
    t: Syntax,
    s: ScopesModel,
    scope: nat,
    meta: MetaModel,
    function: bool,
    test: bool,
    given: spec_fn(MetaModel) -> bool,
    depth: int,
) -> bool
    decreases MAX_DEPTH - depth, 0int,
{
    let values = match meta.arguments {
        Some(node) => arguments_of(t, node as int),
        None => None,
    };
    if depth >= MAX_DEPTH {
        given(meta)
    } else if is_named(meta.path, "cfg"@) {
        match values {
            Some(list) => if list.len() == 1 {
                cfg_holds(t, list[0], test, given, depth + 1)
            } else {
                given(meta)
            },
            None => given(meta),
        }
    } else if is_named(meta.path, "cfg_attr"@) {
        match values {
            Some(list) => if list.len() >= 2 {
                cfg_holds(t, list[0], test, given, depth + 1) ==> all_keep(
                    t,
                    s,
                    scope,
                    list,
                    function,
                    test,
                    given,
                    depth + 1,
                )
            } else {
                given(meta)
            },
            None => given(meta),
        }
    } else {
        test || !(function && marks_test(s, scope, meta))
    }
}

/// Every attribute from the second one of a list on keeps what it stands on.
pub open spec fn all_keep(
    t: Syntax,
    s: ScopesModel,
    scope: nat,
    list: Seq<MetaModel>,
    function: bool,
    test: bool,
    given: spec_fn(MetaModel) -> bool,
    depth: int,
) -> bool
    decreases MAX_DEPTH - depth, 1int,
{
    forall|k: int|
        1 <= k < list.len() ==> attribute_keeps(
            t,
            s,
            scope,
            #[trigger] list[k],
            function,
            test,
            given,
            depth,
        )
}

/// Whether an item with the given attributes exists where the conditions that
/// nothing is known of hold as given.
pub open spec fn item_exists(
    t: Syntax,
    s: ScopesModel,
    scope: nat,
    attributes: Seq<int>,
    function: bool,
    test: bool,
    given: spec_fn(MetaModel) -> bool,
) -> bool {
    forall|k: int|
        0 <= k < attributes.len() ==> match attribute_meta_of(t, #[trigger] attributes[k]) {
            Some(meta) => attribute_keeps(t, s, scope, meta, function, test, given, 0),
            None => true,
        }
}

proof fn lemma_survivals(
    t: Syntax,
    s: ScopesModel,
    scope: nat,
    list: Seq<MetaModel>,
    n: int,
    function: bool,
    test: bool,
    depth: int,
)
    requires
        1 <= n <= list.len(),
    ensures
        survivals(t, s, scope, list, n, function, test, depth).len() == n - 1,
        forall|k: int|
            0 <= k < n - 1 ==> #[trigger] survivals(
                t,
                s,
                scope,
                list,
                n,
                function,
                test,
                depth,
            )[k] == survival(t, s, scope, list[k + 1], function, test, depth),
    decreases n,
{
    if n > 1 {
        lemma_survivals(t, s, scope, list, n - 1, function, test, depth);
    }
}

proof fn lemma_known_survival(
    t: Syntax,
    s: ScopesModel,
    scope: nat,
    meta: MetaModel,
    function: bool,
    test: bool,
    given: spec_fn(MetaModel) -> bool,
    depth: int,
)
    ensures
        agrees(
            survival(t, s, scope, meta, function, test, depth),
            attribute_keeps(t, s, scope, meta, function, test, given, depth),
        ),
    decreases MAX_DEPTH - depth,
{
    let values = match meta.arguments {
        Some(node) => arguments_of(t, node as int),
        None => None,
    };
    if depth < MAX_DEPTH && values is Some && values->0.len() > 0 {
        let list = values->0;
        let d = depth + 1;
        known_conditions_are_certain(t, list[0], test, given, d);
        let condition = cfg_value_of(t, list[0], test, d);
        let applied = survivals(t, s, scope, list, list.len() as int, function, test, d);
        lemma_survivals(t, s, scope, list, list.len() as int, function, test, d);
        assert forall|k: int| 1 <= k < list.len() implies agrees(
            applied[k - 1],
            attribute_keeps(t, s, scope, #[trigger] list[k], function, test, given, d),
        ) by {
            lemma_known_survival(t, s, scope, list[k], function, test, given, d);
        }
        let all = Truth::all_spec(applied);
        assert(agrees(all, all_keep(t, s, scope, list, function, test, given, d))) by {
            if applied.contains(Truth::False) {
                let k = choose|k: int| 0 <= k < applied.len() && applied[k] == Truth::False;
                assert(!attribute_keeps(t, s, scope, list[k + 1], function, test, given, d));
            } else if !applied.contains(Truth::Unknown) {
                assert forall|k: int| 1 <= k < list.len() implies attribute_keeps(
                    t,
                    s,
                    scope,
                    #[trigger] list[k],
                    function,
                    test,
                    given,
                    d,
                ) by {
                    assert(applied.contains(applied[k - 1]));
                }
            }
        }
        let either = seq![condition.not_spec(), all];
        any_holds_where_one_does(either);
        assert(either[0] == condition.not_spec() && either[1] == all);
        assert(either.contains(either[0]) && either.contains(either[1]));
        assert(forall|v: Truth| #[trigger]
            either.contains(v) ==> v == either[0] || v == either[1]);
    }
}

/// An item that is left out as test code is not there outside test mode, whatever
/// holds of the conditions that nothing is known of.
pub proof fn test_only_items_are_absent_otherwise(
    t: Syntax,
    s: ScopesModel,
    scope: nat,
    attributes: Seq<int>,
    function: bool,
    given: spec_fn(MetaModel) -> bool,
)
    requires
        is_test_only(t, s, scope, attributes, function),
    ensures
        !item_exists(t, s, scope, attributes, function, false, given),
{
    let n = attributes.len() as int;
    let said = attribute_survivals(t, s, scope, attributes, n, function, false);
    lemma_attribute_survivals(t, s, scope, attributes, n, function, false);
    let k = choose|k: int| 0 <= k < said.len() && said[k] == Truth::False;
    let meta = attribute_meta_of(t, attributes[k])->0;
    lemma_known_survival(t, s, scope, meta, function, false, given, 0);
}

proof fn lemma_attribute_survivals(
    t: Syntax,
    s: ScopesModel,
    scope: nat,
    attributes: Seq<int>,
    n: int,
    function: bool,
    test: bool,
)
    requires
        0 <= n <= attributes.len(),
    ensures
        attribute_survivals(t, s, scope, attributes, n, function, test).len() == n,
        forall|k: int|
            0 <= k < n ==> #[trigger] attribute_survivals(
                t,
                s,
                scope,
                attributes,
                n,
                function,
                test,
            )[k] == match attribute_meta_of(t, attributes[k]) {
                Some(meta) => survival(t, s, scope, meta, function, test, 0),
                None => Truth::Unknown,
            },
    decreases n,
{
    if n > 0 {
        lemma_attribute_survivals(t, s, scope, attributes, n - 1, function, test);
    }
}

impl Scopes {
    fn marks_test(&self, meta: &Meta, scope: usize) -> (r: bool)
        requires
            scope < self.scopes@.len(),
        ensures
            r == marks_test(self@, scope as nat, meta@),
    {
        if named(&meta.path, "test") && meta.bare && self.builtin("test", scope) {
            return true;
        }
        (meta.bare || meta.arguments.is_some()) && self.resolve_path(&meta.path, scope, None, 0)
            == Resolved::Test
    }

    /// Whether what an attribute stands on exists with or without test mode.
    fn attribute_survival(
        &self,
        tree: &SyntaxTree,
        meta: &Meta,
        scope: usize,
        function: bool,
        test: bool,
        depth: usize,
    ) -> (value: Truth)
        requires
            tree.wf(),
            arguments_ok(*meta, tree@),
            scope < self.scopes@.len(),
            depth <= MAX_DEPTH,
        ensures
            value == survival(
                tree@,
                self@,
                scope as nat,
                meta@,
                function,
                test,
                depth as int,
            ),
        decreases MAX_DEPTH - depth,
    {
        if depth >= MAX_DEPTH {
            return Truth::Unknown;
        }
        let condition: bool = named(&meta.path, "cfg");
        if condition || named(&meta.path, "cfg_attr") {
            let node: usize = match meta.arguments {
                Some(node) => node,
                None => {
                    return Truth::Unknown;
                },
            };
            let list = match arguments(tree, node) {
                Some(list) => list,
                None => {
                    return Truth::Unknown;
                },
            };
            let ghost models = meta_models(list@);
            assert(models.len() == list@.len());
            if condition {
                if list.len() != 1 {
                    return Truth::Unknown;
                }
                assert(models[0] == list@[0]@);
                return cfg_value(tree, &list[0], test, depth + 1);
            }
            if list.len() < 2 {
                return Truth::Unknown;
            }
            assert(models[0] == list@[0]@);
            let first: Truth = cfg_value(tree, &list[0], test, depth + 1);
            let mut applied: Vec<Truth> = Vec::new();
            let mut k: usize = 1;
            while k < list.len()
                invariant
                    tree.wf(),
                    depth < MAX_DEPTH,
                    scope < self.scopes@.len(),
                    metas_ok(list@, tree@),
                    models == meta_models(list@),
                    1 <= k <= list@.len(),
                    applied@ == survivals(
                        tree@,
                        self@,
                        scope as nat,
                        models,
                        k as int,
                        function,
                        test,
                        depth + 1,
                    ),
                decreases list@.len() - k,
            {
                assert(models[k as int] == list@[k as int]@);
                let value: Truth = self.attribute_survival(
                    tree,
                    &list[k],
                    scope,
                    function,
                    test,
                    depth + 1,
                );
                applied.push(value);
                k = k + 1;
            }
            let mut either: Vec<Truth> = Vec::new();
            either.push(first.not());
            either.push(Truth::all(&applied));
            assert(either@ =~= seq![first.not_spec(), Truth::all_spec(applied@)]);
            return Truth::any(&either);
        }
        if function && !test && self.marks_test(meta, scope) {
            Truth::False
        } else {
            Truth::True
        }
    }

    fn item_survival(
        &self,
        tree: &SyntaxTree,
        attributes: &Vec<usize>,
        function: bool,
        scope: usize,
        test: bool,
    ) -> (value: Truth)
        requires
            tree.wf(),
            nodes_ok(attributes@, tree@.len()),
            scope < self.scopes@.len(),
        ensures
            value == item_survival(
                tree@,
                self@,
                scope as nat,
                indices(attributes@),
                function,
                test,
            ),
    {
        let ghost all = indices(attributes@);
        let mut values: Vec<Truth> = Vec::new();
        let mut k: usize = 0;
        while k < attributes.len()
            invariant
                tree.wf(),
                nodes_ok(attributes@, tree@.len()),
                scope < self.scopes@.len(),
                all == indices(attributes@),
                k <= attributes@.len(),
                values@ == attribute_survivals(
                    tree@,
                    self@,
                    scope as nat,
                    all,
                    k as int,
                    function,
                    test,
                ),
            decreases attributes@.len() - k,
        {
            assert(all[k as int] == attributes@[k as int]);
            let value: Truth = match attribute_meta(tree, attributes[k]) {
                Some(meta) => self.attribute_survival(tree, &meta, scope, function, test, 0),
                None => Truth::Unknown,
            };
            values.push(value);
            k = k + 1;
        }
        Truth::all(&values)
    }

    /// The item is certainly absent outside test mode, and may be there in it.
    fn test_only(
        &self,
        tree: &SyntaxTree,
        attributes: &Vec<usize>,
        function: bool,
        scope: usize,
    ) -> (r: bool)
        requires
            tree.wf(),
            nodes_ok(attributes@, tree@.len()),
            scope < self.scopes@.len(),
        ensures
            r == is_test_only(tree@, self@, scope as nat, indices(attributes@), function),
    {
        self.item_survival(tree, attributes, function, scope, false) == Truth::False
            && self.item_survival(tree, attributes, function, scope, true) != Truth::False
    }
}

/// The region of an item with the attributes before it.
pub open spec fn region_with_attributes(t: Syntax, i: int, reason: Seq<char>) -> RegionModel {
    let attributes = attached(t, i);
    if attributes.len() > 0 {
        RegionModel {
            start_byte: t.nodes[attributes.last()].start_byte,
            start_line: start_line(t, attributes.last()) as usize,
            ..region_at(t, i, reason)
        }
    } else {
        region_at(t, i, reason)
    }
}

fn attributed_region(
    tree: &SyntaxTree,
    previous: &Vec<Option<usize>>,
    i: usize,
    reason: &str,
) -> (region: TestRegion)
    requires
        tree.wf(),
        previous_ok(tree@, previous@),
        i < tree@.len(),
    ensures
        region@ == region_with_attributes(tree@, i as int, reason@),
{
    let attributes = attached_attributes(tree, previous, i);
    assert(indices(attributes@).len() == attributes@.len());
    let mut region = test_region(tree, i, reason);
    if attributes.len() > 0 {
        let last: usize = attributes[attributes.len() - 1];
        assert(indices(attributes@).last() == last);
        region.start_byte = tree.nodes[last].start_byte;
        region.start_line = tree.nodes[last].start_row + 1;
    }
    region
}

/// A node of this kind holds its own attributes.
pub open spec fn holds_attributes(kind: Seq<char>) -> bool {
    kind == "match_arm"@ || kind == "field_initializer"@ || kind == "shorthand_field_initializer"@
}

pub open spec fn is_attribute(kind: Seq<char>) -> bool {
    kind == "attribute_item"@ || kind == "inner_attribute_item"@
}

/// The attributes among the siblings from `c` up to `stop`, as far as only
/// attributes and comments stand there.
pub open spec fn leading_attributes(t: Syntax, c: int, stop: int) -> Seq<int>
    decreases remaining(c, stop),
{
    if c >= stop || t.end(c) <= c {
        Seq::empty()
    } else if !t.named(c) || is_comment(t.kind(c)) {
        leading_attributes(t, t.end(c), stop)
    } else if is_attribute(t.kind(c)) {
        seq![c] + leading_attributes(t, t.end(c), stop)
    } else {
        Seq::empty()
    }
}

/// The attributes inside a node that hold of it.
pub open spec fn embedded(t: Syntax, i: int) -> Seq<int> {
    if holds_attributes(t.kind(i)) {
        leading_attributes(t, i + 1, t.end(i))
    } else {
        Seq::empty()
    }
}

fn attribute_node(tree: &SyntaxTree, i: usize) -> (r: bool)
    requires
        tree.wf(),
        i < tree@.len(),
    ensures
        r == is_attribute(tree@.kind(i as int)),
{
    tree.is(i, "attribute_item") || tree.is(i, "inner_attribute_item")
}

/// Adds the attributes inside a node that hold of it.
fn add_embedded(tree: &SyntaxTree, i: usize, list: &mut Vec<usize>)
    requires
        tree.wf(),
        i < tree@.len(),
        nodes_ok(old(list)@, tree@.len()),
    ensures
        indices(final(list)@) == indices(old(list)@) + embedded(tree@, i as int),
        nodes_ok(final(list)@, tree@.len()),
{
    let ghost goal = indices(list@) + embedded(tree@, i as int);
    if !(tree.is(i, "match_arm") || tree.is(i, "field_initializer") || tree.is(
        i,
        "shorthand_field_initializer",
    )) {
        assert(goal =~= indices(list@));
        return;
    }
    assert(tree@.end_at(i as int));
    let stop: usize = tree.ends[i];
    let mut c: usize = i + 1;
    while c < stop
        invariant
            tree.wf(),
            stop <= tree@.len(),
            nodes_ok(list@, tree@.len()),
            goal == indices(old(list)@) + embedded(tree@, i as int),
            indices(list@) + leading_attributes(tree@, c as int, stop as int) == goal,
        decreases remaining(c as int, stop as int),
    {
        assert(tree@.end_at(c as int));
        let ghost rest = leading_attributes(tree@, tree@.end(c as int), stop as int);
        if tree.nodes[c].named && !comment(tree, c) {
            if !attribute_node(tree, c) {
                assert(indices(list@) + Seq::<int>::empty() =~= indices(list@));
                return;
            }
            let ghost before = list@;
            list.push(c);
            assert(indices(list@) =~= indices(before).push(c as int));
            assert(indices(before) + (seq![c as int] + rest) =~= indices(list@) + rest);
        }
        c = tree.ends[c];
    }
    assert(indices(list@) + Seq::<int>::empty() =~= indices(list@));
}

/// A node of this kind takes an inner attribute of its body for its own.
pub open spec fn owns_body(kind: Seq<char>) -> bool {
    kind == "mod_item"@ || kind == "impl_item"@ || kind == "trait_item"@ || kind
        == "function_item"@ || kind == "closure_expression"@ || kind == "foreign_mod_item"@
}

/// What the inner attributes of a scope hold of.
pub open spec fn inner_target(t: Syntax, i: int) -> int {
    if i > 0 && t.field(t.parent(i), "body"@) == Some(i) && owns_body(t.kind(t.parent(i))) {
        t.parent(i)
    } else {
        i
    }
}

fn find_inner_target(tree: &SyntaxTree, i: usize) -> (target: usize)
    requires
        tree.wf(),
        i < tree@.len(),
    ensures
        target == inner_target(tree@, i as int),
        target < tree@.len(),
{
    if i == 0 {
        return i;
    }
    assert(tree@.parent_at(i as int));
    let parent: usize = tree.parents[i];
    let body: bool = match tree.field(parent, "body") {
        Some(body) => body == i,
        None => false,
    };
    if body && (tree.is(parent, "mod_item") || tree.is(parent, "impl_item") || tree.is(
        parent,
        "trait_item",
    ) || tree.is(parent, "function_item") || tree.is(parent, "closure_expression") || tree.is(
        parent,
        "foreign_mod_item",
    )) {
        parent
    } else {
        i
    }
}

/// The first of the siblings from `c` up to `stop` that is named and no comment.
pub open spec fn code_after(t: Syntax, c: int, stop: int) -> Option<int>
    decreases remaining(c, stop),
{
    if c >= stop || t.end(c) <= c {
        None
    } else if t.named(c) && !is_comment(t.kind(c)) {
        Some(c)
    } else {
        code_after(t, t.end(c), stop)
    }
}

/// The region of an item that its attributes gate. The visibility of a tuple
/// field takes the field's type with it.
pub open spec fn gated_region(t: Syntax, i: int) -> RegionModel {
    let region = region_with_attributes(t, i, "Rust test attribute or test-only cfg gate"@);
    if t.kind(i) == "visibility_modifier"@ && i > 0 && t.kind(t.parent(i))
        == "ordered_field_declaration_list"@ {
        match code_after(t, t.end(i), t.end(t.parent(i))) {
            Some(next) => RegionModel {
                end_byte: t.nodes[next].end_byte,
                end_line: end_line(t, next) as usize,
                ..region
            },
            None => region,
        }
    } else {
        region
    }
}

fn find_gated_region(tree: &SyntaxTree, previous: &Vec<Option<usize>>, i: usize) -> (region:
    TestRegion)
    requires
        tree.wf(),
        previous_ok(tree@, previous@),
        i < tree@.len(),
    ensures
        region@ == gated_region(tree@, i as int),
{
    let mut region = attributed_region(
        tree,
        previous,
        i,
        "Rust test attribute or test-only cfg gate",
    );
    if !tree.is(i, "visibility_modifier") || i == 0 {
        return region;
    }
    assert(tree@.parent_at(i as int));
    let parent: usize = tree.parents[i];
    if !tree.is(parent, "ordered_field_declaration_list") {
        return region;
    }
    assert(tree@.end_at(i as int));
    assert(tree@.end_at(parent as int));
    let stop: usize = tree.ends[parent];
    let mut c: usize = tree.ends[i];
    while c < stop && (!tree.nodes[c].named || comment(tree, c))
        invariant
            tree.wf(),
            stop <= tree@.len(),
            code_after(tree@, c as int, stop as int) == code_after(
                tree@,
                tree@.end(i as int),
                stop as int,
            ),
        decreases remaining(c as int, stop as int),
    {
        assert(tree@.end_at(c as int));
        c = tree.ends[c];
    }
    if c < stop {
        assert(tree@.end_at(c as int));
        let field = test_region(tree, c, "");
        region.end_byte = field.end_byte;
        region.end_line = field.end_line;
    }
    region
}

/// A walk over a tree: the scopes that it opened, the scope that the children of
/// each node stand in, and the regions that it found.
#[verifier::ext_equal]
pub struct WalkModel {
    pub scopes: ScopesModel,
    pub contexts: Seq<Option<usize>>,
    pub regions: Seq<RegionModel>,
}

pub open spec fn is_unread(kind: Seq<char>) -> bool {
    is_comment(kind) || is_attribute(kind) || kind == "token_tree"@
}

pub open spec fn opens_scope(kind: Seq<char>) -> bool {
    kind == "source_file"@ || kind == "declaration_list"@ || kind == "block"@
}

/// The scope that a node stands in.
pub open spec fn scope_around(t: Syntax, w: WalkModel, at: int) -> Option<usize> {
    if at > 0 {
        w.contexts[t.parent(at)]
    } else {
        None
    }
}

/// The attributes that hold of a node.
pub open spec fn attributes_of(t: Syntax, i: int) -> Seq<int> {
    attached(t, i) + embedded(t, i)
}

/// The node's attributes keep it out of everything but tests.
pub open spec fn is_gated(t: Syntax, w: WalkModel, at: int) -> bool {
    match scope_around(t, w, at) {
        Some(scope) => attributes_of(t, at).len() > 0 && is_test_only(
            t,
            w.scopes,
            scope as nat,
            attributes_of(t, at),
            t.kind(at) == "function_item"@,
        ),
        None => false,
    }
}

/// The scopes with one more.
pub open spec fn with_scope(t: Syntax, w: WalkModel, at: int) -> ScopesModel {
    let built = scope_of(t, at, scope_around(t, w, at), w.scopes.paths);
    ScopesModel { scopes: w.scopes.scopes.push(built.scope), paths: built.paths }
}

/// What one node changes, and whether the walk goes on into it.
pub open spec fn visit(t: Syntax, w: WalkModel, at: int) -> (WalkModel, bool) {
    let kind = t.kind(at);
    if (at > 0 && !t.named(at)) || is_unread(kind) {
        (w, false)
    } else if is_gated(t, w, at) {
        (WalkModel { regions: w.regions.push(gated_region(t, at)), ..w }, false)
    } else if kind == "macro_definition"@ || kind == "macro_invocation"@ {
        (w, false)
    } else if opens_scope(kind) {
        let index = w.scopes.scopes.len();
        let scopes = with_scope(t, w, at);
        let inner = t.named_of_kind(at, "inner_attribute_item"@);
        if inner.len() > 0 && is_test_only(t, scopes, index as nat, inner, false) {
            let region = region_with_attributes(
                t,
                inner_target(t, at),
                "Rust inner test-only cfg gate"@,
            );
            (WalkModel { scopes, regions: w.regions.push(region), ..w }, false)
        } else {
            (WalkModel { scopes, contexts: w.contexts.update(at, Some(index as usize)), ..w }, true)
        }
    } else {
        (WalkModel { contexts: w.contexts.update(at, scope_around(t, w, at)), ..w }, true)
    }
}

/// The walk from a node on.
pub open spec fn walk_from(t: Syntax, w: WalkModel, at: int) -> WalkModel
    decreases remaining(at, t.len()),
{
    if at >= t.len() || t.end(at) <= at {
        w
    } else {
        let (next, inside) = visit(t, w, at);
        walk_from(
            t,
            next,
            if inside {
                at + 1
            } else {
                t.end(at)
            },
        )
    }
}

/// The regions of a Rust file that hold test code.
pub open spec fn rust_test_regions(t: Syntax) -> Seq<RegionModel> {
    walk_from(
        t,
        WalkModel {
            scopes: ScopesModel { scopes: Seq::empty(), paths: Seq::empty() },
            contexts: Seq::new(t.nodes.len(), |i: int| None),
            regions: Seq::empty(),
        },
        0,
    ).regions
}

/// The attributes of an item keep it out of everything but tests.
pub open spec fn gates(t: Syntax, s: ScopesModel, scope: nat, i: int) -> bool {
    is_test_only(t, s, scope, attributes_of(t, i), t.kind(i) == "function_item"@)
}

/// The attributes inside a node keep what holds it out of everything but tests.
pub open spec fn gates_inside(t: Syntax, s: ScopesModel, scope: nat, i: int) -> bool {
    is_test_only(t, s, scope, t.named_of_kind(i, "inner_attribute_item"@), false)
}

/// A region is that of an item that exists only in test mode.
pub open spec fn is_gated_region(t: Syntax, region: RegionModel) -> bool {
    ||| exists|s: ScopesModel, scope: nat, i: int| #[trigger]
        gates(t, s, scope, i) && region == gated_region(t, i)
    ||| exists|s: ScopesModel, scope: nat, i: int| #[trigger]
        gates_inside(t, s, scope, i) && region == region_with_attributes(
            t,
            inner_target(t, i),
            "Rust inner test-only cfg gate"@,
        )
}

spec fn all_gated(t: Syntax, regions: Seq<RegionModel>) -> bool {
    forall|at: int| 0 <= at < regions.len() ==> is_gated_region(t, #[trigger] regions[at])
}

proof fn lemma_visit_gated(t: Syntax, w: WalkModel, at: int)
    requires
        all_gated(t, w.regions),
    ensures
        all_gated(t, visit(t, w, at).0.regions),
{
    if is_gated(t, w, at) {
        assert(gates(t, w.scopes, scope_around(t, w, at)->0 as nat, at));
        assert(is_gated_region(t, gated_region(t, at)));
    }
    let scopes = with_scope(t, w, at);
    let index = w.scopes.scopes.len();
    if gates_inside(t, scopes, index, at) {
        assert(is_gated_region(
            t,
            region_with_attributes(t, inner_target(t, at), "Rust inner test-only cfg gate"@),
        ));
    }
}

proof fn lemma_walk_gated(t: Syntax, w: WalkModel, at: int)
    requires
        all_gated(t, w.regions),
    ensures
        all_gated(t, walk_from(t, w, at).regions),
    decreases remaining(at, t.len()),
{
    if at < t.len() && t.end(at) > at {
        lemma_visit_gated(t, w, at);
        let (next, inside) = visit(t, w, at);
        lemma_walk_gated(
            t,
            next,
            if inside {
                at + 1
            } else {
                t.end(at)
            },
        );
    }
}

/// Whatever is left out of a Rust file is an item, or holds an attribute, that
/// surely keeps it out of everything but tests.
pub proof fn left_out_items_exist_only_in_tests(t: Syntax)
    ensures
        forall|at: int|
            0 <= at < rust_test_regions(t).len() ==> is_gated_region(
                t,
                #[trigger] rust_test_regions(t)[at],
            ),
{
    let start = WalkModel {
        scopes: ScopesModel { scopes: Seq::empty(), paths: Seq::empty() },
        contexts: Seq::new(t.nodes.len(), |i: int| None),
        regions: Seq::empty(),
    };
    lemma_walk_gated(t, start, 0);
}

struct Walk {
    scopes: Scopes,
    contexts: Vec<Option<usize>>,
    regions: Vec<TestRegion>,
}

impl View for Walk {
    type V = WalkModel;

    closed spec fn view(&self) -> WalkModel {
        WalkModel {
            scopes: self.scopes@,
            contexts: self.contexts@,
            regions: region_models(self.regions@),
        }
    }
}

spec fn contexts_ok(contexts: Seq<Option<usize>>, count: int) -> bool {
    forall|i: int|
        0 <= i < contexts.len() && #[trigger] contexts[i] is Some ==> contexts[i]->0 < count
}

impl Walk {
    spec fn ok(&self, t: Syntax) -> bool {
        &&& self.contexts@.len() == t.len()
        &&& contexts_ok(self.contexts@, self.scopes.scopes@.len() as int)
    }

    fn start(tree: &SyntaxTree) -> (walk: Self)
        requires
            tree.wf(),
        ensures
            walk.ok(tree@),
            walk@.scopes == (ScopesModel { scopes: Seq::empty(), paths: Seq::empty() }),
            walk@.contexts == Seq::new(tree@.nodes.len(), |i: int| None::<usize>),
            walk@.regions == Seq::<RegionModel>::empty(),
    {
        let mut contexts: Vec<Option<usize>> = Vec::new();
        let n: usize = tree.nodes.len();
        let mut i: usize = 0;
        while i < n
            invariant
                n == tree@.len(),
                i <= n,
                contexts@.len() == i,
                forall|k: int| 0 <= k < i ==> #[trigger] contexts@[k] is None,
            decreases n - i,
        {
            contexts.push(None);
            i = i + 1;
        }
        let scopes: Vec<Scope> = Vec::new();
        let paths: Vec<AttributePath> = Vec::new();
        assert(scope_models(scopes@) =~= Seq::<ScopeModel>::empty());
        assert(path_models(paths@) =~= Seq::<PathModel>::empty());
        let walk = Walk { scopes: Scopes { scopes, paths }, contexts, regions: Vec::new() };
        assert(walk@.contexts =~= Seq::new(tree@.nodes.len(), |i: int| None::<usize>));
        assert(walk@.regions =~= Seq::<RegionModel>::empty());
        walk
    }

    fn around(&self, tree: &SyntaxTree, at: usize) -> (scope: Option<usize>)
        requires
            tree.wf(),
            at < tree@.len(),
            self.ok(tree@),
        ensures
            scope == scope_around(tree@, self@, at as int),
            scope is Some ==> scope->0 < self.scopes.scopes@.len(),
    {
        if at > 0 {
            assert(tree@.parent_at(at as int));
            self.contexts[tree.parents[at]]
        } else {
            None
        }
    }

    fn gated(&self, tree: &SyntaxTree, previous: &Vec<Option<usize>>, at: usize) -> (r: bool)
        requires
            tree.wf(),
            previous_ok(tree@, previous@),
            at < tree@.len(),
            self.ok(tree@),
        ensures
            r == is_gated(tree@, self@, at as int),
    {
        let scope: usize = match self.around(tree, at) {
            Some(scope) => scope,
            None => {
                return false;
            },
        };
        let mut attributes = attached_attributes(tree, previous, at);
        add_embedded(tree, at, &mut attributes);
        assert(indices(attributes@).len() == attributes@.len());
        attributes.len() > 0 && self.scopes.test_only(
            tree,
            &attributes,
            tree.is(at, "function_item"),
            scope,
        )
    }

    fn add_region(&mut self, region: TestRegion)
        ensures
            final(self)@ == (WalkModel {
                regions: old(self)@.regions.push(region@),
                ..old(self)@
            }),
            final(self).contexts == old(self).contexts,
            final(self).scopes == old(self).scopes,
    {
        self.regions.push(region);
        assert(self@.regions =~= old(self)@.regions.push(region@));
    }

    /// Takes one node into account, and says whether to go on into it.
    fn visit(&mut self, tree: &SyntaxTree, previous: &Vec<Option<usize>>, at: usize) -> (inside:
        bool)
        requires
            tree.wf(),
            previous_ok(tree@, previous@),
            at < tree@.len(),
            old(self).ok(tree@),
        ensures
            final(self).ok(tree@),
            (final(self)@, inside) == visit(tree@, old(self)@, at as int),
    {
        if (at > 0 && !tree.nodes[at].named) || comment(tree, at) || attribute_node(tree, at)
            || tree.is(at, "token_tree") {
            return false;
        }
        if self.gated(tree, previous, at) {
            let region = find_gated_region(tree, previous, at);
            self.add_region(region);
            return false;
        }
        if tree.is(at, "macro_definition") || tree.is(at, "macro_invocation") {
            return false;
        }
        let scope: Option<usize> = self.around(tree, at);
        if tree.is(at, "source_file") || tree.is(at, "declaration_list") || tree.is(at, "block") {
            let ghost before = self@;
            let index: usize = self.scopes.scopes.len();
            assert(before.scopes.scopes.len() == index);
            self.scopes.open(tree, previous, at, scope);
            assert(self@.scopes == with_scope(tree@, before, at as int));
            assert(self@.scopes.scopes.len() == index + 1);
            assert(self.scopes.scopes@.len() == index + 1);
            let inner = tree.named_of_kind(at, "inner_attribute_item");
            assert(indices(inner@).len() == inner@.len());
            if inner.len() > 0 && self.scopes.test_only(tree, &inner, false, index) {
                let target: usize = find_inner_target(tree, at);
                let region = attributed_region(
                    tree,
                    previous,
                    target,
                    "Rust inner test-only cfg gate",
                );
                self.add_region(region);
                return false;
            }
            self.contexts.set(at, Some(index));
        } else {
            self.contexts.set(at, scope);
        }
        true
    }
}

/// Finds the regions of a Rust file that hold test code.
pub fn find_rust_tests(tree: &SyntaxTree) -> (regions: Vec<TestRegion>)
    requires
        tree.wf(),
    ensures
        region_models(regions@) == rust_test_regions(tree@),
{
    let previous = find_previous(tree);
    let mut walk = Walk::start(tree);
    let n: usize = tree.nodes.len();
    let mut at: usize = 0;
    while at < n
        invariant
            tree.wf(),
            n == tree@.len(),
            previous_ok(tree@, previous@),
            walk.ok(tree@),
            walk_from(tree@, walk@, at as int).regions == rust_test_regions(tree@),
        decreases remaining(at as int, n as int),
    {
        assert(tree@.end_at(at as int));
        if walk.visit(tree, &previous, at) {
            at = at + 1;
        } else {
            at = tree.ends[at];
        }
    }
    walk.regions
}

} // verus!
