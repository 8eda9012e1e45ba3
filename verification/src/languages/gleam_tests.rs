//! Gleam test code: test functions, calls of the gleeunit runner, and the
//! declarations that only tests use.

use vstd::hash_map::StringHashMap;
use vstd::prelude::*;
use vstd::string::*;

use super::regions::covers;
use super::siblings::{find_previous, previous_named, previous_ok};
use super::syntax::{found, indices, remaining, Syntax, SyntaxTree};
use super::tree::{region_at, start_line, test_region};
use crate::metrics::{region_models, RegionModel, TestRegion};
use crate::text::{ends_with, same};

verus! {

pub open spec fn is_comment(kind: Seq<char>) -> bool {
    kind == "module_comment"@ || kind == "statement_comment"@ || kind == "comment"@
}

pub fn comment(tree: &SyntaxTree, i: usize) -> (r: bool)
    requires
        tree.wf(),
        i < tree@.len(),
    ensures
        r == is_comment(tree@.kind(i as int)),
{
    tree.is(i, "module_comment") || tree.is(i, "statement_comment") || tree.is(i, "comment")
}

/// The declaration is exported.
pub open spec fn is_public(t: Syntax, i: int) -> bool {
    t.named_of_kind(i, "visibility_modifier"@).len() > 0
}

fn public(tree: &SyntaxTree, i: usize) -> (r: bool)
    requires
        tree.wf(),
        i < tree@.len(),
    ensures
        r == is_public(tree@, i as int),
{
    let marks = tree.named_of_kind(i, "visibility_modifier");
    assert(indices(marks@).len() == marks@.len());
    marks.len() > 0
}

/// The function takes no arguments.
pub open spec fn has_no_parameters(t: Syntax, i: int) -> bool {
    match t.field(i, "parameters"@) {
        Some(list) => t.named_of_kind(list, "function_parameter"@).len() == 0,
        None => false,
    }
}

fn zero_parameters(tree: &SyntaxTree, i: usize) -> (r: bool)
    requires
        tree.wf(),
        i < tree@.len(),
    ensures
        r == has_no_parameters(tree@, i as int),
{
    match tree.field(i, "parameters") {
        Some(list) => {
            let parameters = tree.named_of_kind(list, "function_parameter");
            assert(indices(parameters@).len() == parameters@.len());
            parameters.len() == 0
        },
        None => false,
    }
}

/// A node of this kind before a declaration belongs to it.
pub open spec fn is_attachment(kind: Seq<char>) -> bool {
    kind == "attribute"@ || kind == "statement_comment"@ || kind == "comment"@
}

fn attachment(tree: &SyntaxTree, i: usize) -> (r: bool)
    requires
        tree.wf(),
        i < tree@.len(),
    ensures
        r == is_attachment(tree@.kind(i as int)),
{
    tree.is(i, "attribute") || tree.is(i, "statement_comment") || tree.is(i, "comment")
}

/// The first node that belongs to a declaration: an attribute or a comment
/// before it, or the declaration itself.
pub open spec fn first_attached(t: Syntax, at: int) -> int
    decreases at,
{
    match previous_named(t, at) {
        Some(before) => if 0 <= before < at && is_attachment(t.kind(before)) {
            first_attached(t, before)
        } else {
            at
        },
        None => at,
    }
}

/// One of the attributes before a declaration is `external`.
pub open spec fn is_overridden(t: Syntax, at: int) -> bool
    decreases at,
{
    match previous_named(t, at) {
        Some(before) => if 0 <= before < at && is_attachment(t.kind(before)) {
            is_external(t, before) || is_overridden(t, before)
        } else {
            false
        },
        None => false,
    }
}

/// The attribute is `external`.
pub open spec fn is_external(t: Syntax, i: int) -> bool {
    t.kind(i) == "attribute"@ && match t.field(i, "name"@) {
        Some(name) => t.text(name) == "external"@,
        None => false,
    }
}

/// The region of a declaration with the attributes and comments before it.
pub open spec fn declared_region(t: Syntax, i: int, reason: Seq<char>) -> RegionModel {
    RegionModel {
        start_byte: t.nodes[first_attached(t, i)].start_byte,
        start_line: start_line(t, first_attached(t, i)) as usize,
        ..region_at(t, i, reason)
    }
}

fn declaration_region(
    tree: &SyntaxTree,
    previous: &Vec<Option<usize>>,
    i: usize,
    reason: &str,
) -> (region: TestRegion)
    requires
        tree.wf(),
        previous_ok(tree@, previous@),
        i < tree@.len(),
    ensures
        region@ == declared_region(tree@, i as int, reason@),
{
    let mut at: usize = i;
    loop
        invariant
            tree.wf(),
            previous_ok(tree@, previous@),
            i < tree@.len(),
            at < tree@.len(),
            first_attached(tree@, at as int) == first_attached(tree@, i as int),
        decreases at,
    {
        assert(found(previous@[at as int]) == previous_named(tree@, at as int));
        match previous[at] {
            Some(before) if attachment(tree, before) => {
                at = before;
            },
            _ => {
                let mut region = test_region(tree, i, reason);
                region.start_byte = tree.nodes[at].start_byte;
                region.start_line = tree.nodes[at].start_row + 1;
                return region;
            },
        }
    }
}

fn has_external_attribute(tree: &SyntaxTree, previous: &Vec<Option<usize>>, i: usize) -> (r: bool)
    requires
        tree.wf(),
        previous_ok(tree@, previous@),
        i < tree@.len(),
    ensures
        r == is_overridden(tree@, i as int),
{
    let mut at: usize = i;
    loop
        invariant
            tree.wf(),
            previous_ok(tree@, previous@),
            at < tree@.len(),
            is_overridden(tree@, at as int) == is_overridden(tree@, i as int),
        decreases at,
    {
        assert(found(previous@[at as int]) == previous_named(tree@, at as int));
        match previous[at] {
            Some(before) if attachment(tree, before) => {
                if tree.is(before, "attribute") {
                    match tree.field(before, "name") {
                        Some(name) => {
                            if same(tree.text(name), "external") {
                                return true;
                            }
                        },
                        None => {},
                    }
                }
                at = before;
            },
            _ => {
                return false;
            },
        }
    }
}

/// What a module-level name is to the test runner.
#[derive(Clone, Copy, PartialEq, Eq, Structural)]
pub enum Runner {
    Unknown,
    Module,
    Main,
}

/// What a name is bound to.
#[derive(Clone, Copy, PartialEq, Eq, Structural)]
pub struct Binding {
    pub runner: Runner,
    pub declaration: Option<usize>,
}

pub open spec fn unbound() -> Binding {
    Binding { runner: Runner::Unknown, declaration: None }
}

/// A declaration, and whether it may turn out to serve tests alone.
#[derive(Clone, Copy, PartialEq, Eq, Structural)]
pub struct Declaration {
    pub node: usize,
    pub helper: bool,
}

/// What the declarations of a file bind, and the test functions among them.
#[verifier::ext_equal]
pub struct ModuleModel {
    pub names: Map<Seq<char>, Binding>,
    pub declarations: Seq<Declaration>,
    pub regions: Seq<RegionModel>,
}

pub struct Module {
    pub names: StringHashMap<Binding>,
    pub declarations: Vec<Declaration>,
    pub regions: Vec<TestRegion>,
}

impl View for Module {
    type V = ModuleModel;

    open spec fn view(&self) -> ModuleModel {
        ModuleModel {
            names: self.names@,
            declarations: self.declarations@,
            regions: region_models(self.regions@),
        }
    }
}

/// Binds a name. A second binding, which may be one for another target, leaves
/// it without a meaning.
pub open spec fn bound(m: ModuleModel, name: Seq<char>, binding: Binding) -> ModuleModel {
    ModuleModel {
        names: m.names.insert(
            name,
            if m.names.contains_key(name) {
                unbound()
            } else {
                binding
            },
        ),
        ..m
    }
}

/// The node declares something of the whole file: it stands in the file itself
/// or in a group for one target.
pub open spec fn is_top_level(t: Syntax, i: int) -> bool
    decreases i,
{
    i > 0 && t.named(i) && (t.parent(i) == 0 || (0 < t.parent(i) < i && t.kind(t.parent(i))
        == "target_group"@ && is_top_level(t, t.parent(i))))
}

/// Names of this form are those of tests that EUnit discovers.
pub open spec fn is_test_name(name: Seq<char>) -> bool {
    "_test"@.is_suffix_of(name) || "_test_"@.is_suffix_of(name)
}

pub open spec fn is_function(kind: Seq<char>) -> bool {
    kind == "function"@ || kind == "external_function"@
}

/// The declaration can be a helper of tests.
pub open spec fn may_help(t: Syntax, i: int) -> bool {
    !is_public(t, i) && (t.kind(i) == "constant"@ || (t.kind(i) == "function"@ && t.field(
        i,
        "body"@,
    ) is Some))
}

/// Takes a function or a constant into account.
pub open spec fn with_value(t: Syntax, m: ModuleModel, i: int, name: Seq<char>) -> ModuleModel {
    let index = m.declarations.len() as usize;
    let declared = bound(
        ModuleModel {
            declarations: m.declarations.push(
                Declaration { node: i as usize, helper: may_help(t, i) },
            ),
            ..m
        },
        name,
        Binding { runner: Runner::Unknown, declaration: Some(index) },
    );
    if is_function(t.kind(i)) && is_public(t, i) && has_no_parameters(t, i) && is_test_name(name) {
        ModuleModel {
            regions: declared.regions.push(
                declared_region(t, i, "Gleam public EUnit test function"@),
            ),
            ..declared
        }
    } else {
        declared
    }
}

/// The names that a test module is known to export.
pub open spec fn is_known_export(module: Seq<char>, name: Seq<char>) -> bool {
    ||| module == "gleeunit"@ && name == "main"@
    ||| module == "gleeunit/should"@ && (name == "equal"@ || name == "not_equal"@ || name
        == "be_ok"@ || name == "be_error"@ || name == "be_some"@ || name == "be_none"@ || name
        == "be_true"@ || name == "be_false"@ || name == "fail"@)
}

pub open spec fn is_test_module(module: Seq<char>) -> bool {
    module == "gleeunit"@ || module == "gleeunit/should"@
}

/// The names imported one by one.
pub open spec fn selected(t: Syntax, i: int) -> Seq<int> {
    match t.field(i, "imports"@) {
        Some(list) => t.named_children(list),
        None => Seq::empty(),
    }
}

/// The import selects a value that the module is known to export.
pub open spec fn is_accounted(t: Syntax, module: Seq<char>, import: int) -> bool {
    match t.field(import, "name"@) {
        Some(name) => t.kind(name) == "identifier"@ && is_known_export(module, t.text(name)),
        None => true,
    }
}

pub open spec fn all_accounted(t: Syntax, module: Seq<char>, list: Seq<int>) -> bool {
    forall|k: int| 0 <= k < list.len() ==> is_accounted(t, module, #[trigger] list[k])
}

/// The part of a path behind its last slash.
pub open spec fn last_segment(path: Seq<char>) -> Seq<char>
    decreases path.len(),
{
    if path.len() == 0 || path.last() == '/' {
        Seq::empty()
    } else {
        last_segment(path.drop_last()).push(path.last())
    }
}

/// The name that an import gives to its module.
pub open spec fn module_alias(t: Syntax, i: int, module: Seq<char>) -> Seq<char> {
    match t.field(i, "alias"@) {
        Some(alias) => t.text(alias),
        None => last_segment(module),
    }
}

/// Binds the first `n` of the names imported one by one.
pub open spec fn with_selected(
    t: Syntax,
    m: ModuleModel,
    module: Seq<char>,
    declaration: Option<usize>,
    list: Seq<int>,
    n: int,
) -> ModuleModel
    decreases n,
{
    if n <= 0 {
        m
    } else {
        let before = with_selected(t, m, module, declaration, list, n - 1);
        let import = list[n - 1];
        match t.field(import, "name"@) {
            Some(name) => if t.kind(name) == "identifier"@ {
                let alias = match t.field(import, "alias"@) {
                    Some(alias) => alias,
                    None => name,
                };
                let runner = if module == "gleeunit"@ && t.text(name) == "main"@ {
                    Runner::Main
                } else {
                    Runner::Unknown
                };
                bound(before, t.text(alias), Binding { runner, declaration })
            } else {
                before
            },
            None => before,
        }
    }
}

/// Takes an import into account.
pub open spec fn with_import(t: Syntax, m: ModuleModel, i: int) -> ModuleModel {
    match t.field(i, "module"@) {
        None => m,
        Some(node) => {
            let module = t.text(node);
            let list = selected(t, i);
            let declaration = if is_test_module(module) {
                Some(m.declarations.len() as usize)
            } else {
                None
            };
            let declared = if is_test_module(module) {
                ModuleModel {
                    declarations: m.declarations.push(
                        Declaration { node: i as usize, helper: all_accounted(t, module, list) },
                    ),
                    ..m
                }
            } else {
                m
            };
            let alias = module_alias(t, i, module);
            let runner = if module == "gleeunit"@ {
                Runner::Module
            } else {
                Runner::Unknown
            };
            let named = if alias.len() > 0 && alias[0] == '_' {
                declared
            } else {
                bound(declared, alias, Binding { runner, declaration })
            };
            with_selected(t, named, module, declaration, list, list.len() as int)
        },
    }
}

/// Takes a declaration into account.
pub open spec fn with_item(t: Syntax, m: ModuleModel, i: int) -> ModuleModel {
    let kind = t.kind(i);
    if kind == "import"@ {
        with_import(t, m, i)
    } else if is_function(kind) || kind == "constant"@ {
        match t.field(i, "name"@) {
            Some(name) => with_value(t, m, i, t.text(name)),
            None => m,
        }
    } else {
        m
    }
}

pub open spec fn empty_module() -> ModuleModel {
    ModuleModel { names: Map::empty(), declarations: Seq::empty(), regions: Seq::empty() }
}

/// What the declarations from the node `i` on bind, the last ones first.
pub open spec fn module_from(t: Syntax, i: int) -> ModuleModel
    decreases t.len() - i,
{
    if i >= t.len() {
        empty_module()
    } else if is_top_level(t, i) {
        with_item(t, module_from(t, i + 1), i)
    } else {
        module_from(t, i + 1)
    }
}

/// What the declarations of a file bind.
pub open spec fn module_of(t: Syntax) -> ModuleModel {
    module_from(t, 1)
}

/// Each declaration stands at a node of the tree.
pub open spec fn declarations_ok(declarations: Seq<Declaration>, count: int) -> bool {
    forall|k: int| 0 <= k < declarations.len() ==> (#[trigger] declarations[k]).node < count
}

fn top_level_nodes(tree: &SyntaxTree) -> (flags: Vec<bool>)
    requires
        tree.wf(),
    ensures
        flags@.len() == tree@.len(),
        forall|i: int|
            0 <= i < flags@.len() ==> #[trigger] flags@[i] == is_top_level(tree@, i),
{
    let n: usize = tree.nodes.len();
    let mut flags: Vec<bool> = Vec::new();
    let mut i: usize = 0;
    while i < n
        invariant
            tree.wf(),
            n == tree@.len(),
            i <= n,
            flags@.len() == i,
            forall|k: int| 0 <= k < i ==> #[trigger] flags@[k] == is_top_level(tree@, k),
        decreases n - i,
    {
        let mut top: bool = false;
        if i > 0 && tree.nodes[i].named {
            assert(tree@.parent_at(i as int));
            let parent: usize = tree.parents[i];
            top = parent == 0 || (tree.is(parent, "target_group") && flags[parent]);
        }
        flags.push(top);
        i = i + 1;
    }
    flags
}

/// The part of a path behind its last slash.
fn find_last_segment(path: &str) -> (segment: &str)
    ensures
        segment@ == last_segment(path@),
{
    let length: usize = path.unicode_len();
    let mut at: usize = length;
    assert(path@.subrange(0, length as int) =~= path@);
    assert(last_segment(path@) + path@.subrange(length as int, length as int) =~= last_segment(
        path@,
    ));
    while at > 0
        invariant
            length == path@.len(),
            at <= length,
            last_segment(path@) == last_segment(path@.subrange(0, at as int)) + path@.subrange(
                at as int,
                length as int,
            ),
        decreases at,
    {
        let ghost front = path@.subrange(0, at as int);
        assert(front.drop_last() =~= path@.subrange(0, at - 1));
        if path.get_char(at - 1) == '/' {
            assert(last_segment(path@) =~= path@.subrange(at as int, length as int));
            return path.substring_char(at, length);
        }
        at = at - 1;
        assert(last_segment(path@) =~= last_segment(path@.subrange(0, at as int)) + path@.subrange(
            at as int,
            length as int,
        ));
    }
    assert(last_segment(path@) =~= path@.subrange(0, length as int));
    path.substring_char(0, length)
}

fn known_export(module: &str, name: &str) -> (r: bool)
    ensures
        r == is_known_export(module@, name@),
{
    (same(module, "gleeunit") && same(name, "main")) || (same(module, "gleeunit/should") && (same(
        name,
        "equal",
    ) || same(name, "not_equal") || same(name, "be_ok") || same(name, "be_error") || same(
        name,
        "be_some",
    ) || same(name, "be_none") || same(name, "be_true") || same(name, "be_false") || same(
        name,
        "fail",
    )))
}

fn accounted(tree: &SyntaxTree, module: &str, list: &Vec<usize>) -> (r: bool)
    requires
        tree.wf(),
        forall|k: int| 0 <= k < list@.len() ==> #[trigger] list@[k] < tree@.len(),
    ensures
        r == all_accounted(tree@, module@, indices(list@)),
{
    let ghost all = indices(list@);
    let mut k: usize = 0;
    while k < list.len()
        invariant
            tree.wf(),
            forall|n: int| 0 <= n < list@.len() ==> #[trigger] list@[n] < tree@.len(),
            all == indices(list@),
            k <= list@.len(),
            forall|n: int| 0 <= n < k ==> is_accounted(tree@, module@, #[trigger] all[n]),
        decreases list@.len() - k,
    {
        assert(all[k as int] == list@[k as int]);
        match tree.field(list[k], "name") {
            Some(name) => {
                if !tree.is(name, "identifier") || !known_export(module, tree.text(name)) {
                    assert(!is_accounted(tree@, module@, all[k as int]));
                    return false;
                }
            },
            None => {},
        }
        k = k + 1;
    }
    true
}

fn find_selected(tree: &SyntaxTree, i: usize) -> (list: Vec<usize>)
    requires
        tree.wf(),
        i < tree@.len(),
    ensures
        indices(list@) == selected(tree@, i as int),
        forall|k: int| 0 <= k < list@.len() ==> #[trigger] list@[k] < tree@.len(),
{
    match tree.field(i, "imports") {
        Some(list) => tree.named_children(list),
        None => {
            let list: Vec<usize> = Vec::new();
            assert(indices(list@) =~= Seq::<int>::empty());
            list
        },
    }
}

impl Module {
    fn empty() -> (module: Self)
        ensures
            module@ == empty_module(),
    {
        let module = Module {
            names: StringHashMap::new(),
            declarations: Vec::new(),
            regions: Vec::new(),
        };
        assert(module@ =~= empty_module());
        module
    }

    fn bind(&mut self, name: &str, binding: Binding)
        ensures
            final(self)@ == bound(old(self)@, name@, binding),
            final(self).declarations == old(self).declarations,
    {
        if self.names.contains_key(name) {
            self.names.insert(
                name.to_owned(),
                Binding { runner: Runner::Unknown, declaration: None },
            );
        } else {
            self.names.insert(name.to_owned(), binding);
        }
    }

    fn declare(&mut self, node: usize, helper: bool)
        ensures
            final(self)@ == (ModuleModel {
                declarations: old(self)@.declarations.push(Declaration { node, helper }),
                ..old(self)@
            }),
    {
        self.declarations.push(Declaration { node, helper });
    }

    fn add_value(
        &mut self,
        tree: &SyntaxTree,
        previous: &Vec<Option<usize>>,
        i: usize,
        name: &str,
    )
        requires
            tree.wf(),
            previous_ok(tree@, previous@),
            i < tree@.len(),
            declarations_ok(old(self).declarations@, tree@.len()),
        ensures
            final(self)@ == with_value(tree@, old(self)@, i as int, name@),
            declarations_ok(final(self).declarations@, tree@.len()),
    {
        let exported: bool = public(tree, i);
        let function: bool = tree.is(i, "function");
        let helper: bool = !exported && (tree.is(i, "constant") || (function && tree.field(
            i,
            "body",
        ).is_some()));
        let index: usize = self.declarations.len();
        self.declare(i, helper);
        self.bind(name, Binding { runner: Runner::Unknown, declaration: Some(index) });
        if (function || tree.is(i, "external_function")) && exported && zero_parameters(tree, i)
            && (ends_with(name, "_test") || ends_with(name, "_test_")) {
            let region = declaration_region(
                tree,
                previous,
                i,
                "Gleam public EUnit test function",
            );
            let ghost before = self@;
            self.regions.push(region);
            assert(self@.regions =~= before.regions.push(region@));
        }
    }

    fn add_selected(
        &mut self,
        tree: &SyntaxTree,
        module: &str,
        declaration: Option<usize>,
        list: &Vec<usize>,
    )
        requires
            tree.wf(),
            forall|k: int| 0 <= k < list@.len() ==> #[trigger] list@[k] < tree@.len(),
        ensures
            final(self)@ == with_selected(
                tree@,
                old(self)@,
                module@,
                declaration,
                indices(list@),
                list@.len() as int,
            ),
            final(self).declarations == old(self).declarations,
    {
        let ghost all = indices(list@);
        let mut k: usize = 0;
        while k < list.len()
            invariant
                tree.wf(),
                forall|n: int| 0 <= n < list@.len() ==> #[trigger] list@[n] < tree@.len(),
                all == indices(list@),
                k <= list@.len(),
                self@ == with_selected(
                    tree@,
                    old(self)@,
                    module@,
                    declaration,
                    all,
                    k as int,
                ),
                self.declarations == old(self).declarations,
            decreases list@.len() - k,
        {
            assert(all[k as int] == list@[k as int]);
            match tree.field(list[k], "name") {
                Some(name) => {
                    if tree.is(name, "identifier") {
                        let alias: usize = match tree.field(list[k], "alias") {
                            Some(alias) => alias,
                            None => name,
                        };
                        let runner = if same(module, "gleeunit") && same(tree.text(name), "main") {
                            Runner::Main
                        } else {
                            Runner::Unknown
                        };
                        self.bind(tree.text(alias), Binding { runner, declaration });
                    }
                },
                None => {},
            }
            k = k + 1;
        }
    }

    fn add_import(&mut self, tree: &SyntaxTree, i: usize)
        requires
            tree.wf(),
            i < tree@.len(),
            declarations_ok(old(self).declarations@, tree@.len()),
        ensures
            final(self)@ == with_import(tree@, old(self)@, i as int),
            declarations_ok(final(self).declarations@, tree@.len()),
    {
        let node: usize = match tree.field(i, "module") {
            Some(node) => node,
            None => {
                return;
            },
        };
        let module: &str = tree.text(node);
        let list = find_selected(tree, i);
        assert(indices(list@).len() == list@.len());
        let known: bool = same(module, "gleeunit") || same(module, "gleeunit/should");
        let declaration: Option<usize> = if known {
            Some(self.declarations.len())
        } else {
            None
        };
        if known {
            let helper: bool = accounted(tree, module, &list);
            self.declare(i, helper);
        }
        let alias: &str = match tree.field(i, "alias") {
            Some(alias) => tree.text(alias),
            None => find_last_segment(module),
        };
        let hidden: bool = alias.unicode_len() > 0 && alias.get_char(0) == '_';
        if !hidden {
            let runner = if same(module, "gleeunit") {
                Runner::Module
            } else {
                Runner::Unknown
            };
            self.bind(alias, Binding { runner, declaration });
        }
        self.add_selected(tree, module, declaration, &list);
    }

    /// What the declarations of a file bind.
    pub fn collect(tree: &SyntaxTree, previous: &Vec<Option<usize>>) -> (module: Self)
        requires
            tree.wf(),
            previous_ok(tree@, previous@),
        ensures
            module@ == module_of(tree@),
            declarations_ok(module.declarations@, tree@.len()),
    {
        let flags = top_level_nodes(tree);
        let mut module = Module::empty();
        let mut i: usize = tree.nodes.len();
        while i > 1
            invariant
                tree.wf(),
                previous_ok(tree@, previous@),
                flags@.len() == tree@.len(),
                forall|k: int|
                    0 <= k < flags@.len() ==> #[trigger] flags@[k] == is_top_level(tree@, k),
                1 <= i <= tree@.len(),
                module@ == module_from(tree@, i as int),
                declarations_ok(module.declarations@, tree@.len()),
            decreases i,
        {
            i = i - 1;
            if flags[i] {
                if tree.is(i, "import") {
                    module.add_import(tree, i);
                } else if tree.is(i, "function") || tree.is(i, "external_function") || tree.is(
                    i,
                    "constant",
                ) {
                    match tree.field(i, "name") {
                        Some(name) => {
                            module.add_value(tree, previous, i, tree.text(name));
                        },
                        None => {},
                    }
                }
            }
        }
        module
    }
}

/// How a node is looked at: for what it reads, for what a pattern reads inside
/// it, or not at all.
#[derive(Clone, Copy, PartialEq, Eq, Structural)]
pub enum Mode {
    Unread,
    Read,
    Pattern,
}

/// The options of a segment of a bit array, which grammars call a bit string too.
pub open spec fn is_segment_options(kind: Seq<char>) -> bool {
    kind == "bit_array_segment_options"@ || kind == "bit_string_segment_options"@
}

fn segment_options(tree: &SyntaxTree, i: usize) -> (r: bool)
    requires
        tree.wf(),
        i < tree@.len(),
    ensures
        r == is_segment_options(tree@.kind(i as int)),
{
    tree.is(i, "bit_array_segment_options") || tree.is(i, "bit_string_segment_options")
}

/// Inside a pattern, only the options of a bit array read anything.
pub open spec fn pattern_mode(kind: Seq<char>) -> Mode {
    if is_segment_options(kind) {
        Mode::Read
    } else {
        Mode::Pattern
    }
}

pub open spec fn is_callable(kind: Seq<char>) -> bool {
    kind == "function"@ || kind == "anonymous_function"@
}

/// The statement binds what its pattern names.
pub open spec fn is_assignment(kind: Seq<char>) -> bool {
    kind == "let"@ || kind == "let_assert"@ || kind == "use"@
}

/// The pattern of a statement that binds names.
pub open spec fn assigned_pattern(t: Syntax, i: int) -> Option<int> {
    match t.field(i, "pattern"@) {
        Some(pattern) => Some(pattern),
        None => t.field(i, "assignments"@),
    }
}

pub open spec fn is_argument(kind: Seq<char>) -> bool {
    kind == "argument"@ || kind == "record_update_argument"@
}

pub open spec fn read_if(condition: bool) -> Mode {
    if condition {
        Mode::Read
    } else {
        Mode::Unread
    }
}

/// How a child of a node that is read is looked at.
pub open spec fn child_mode(t: Syntax, parent: int, i: int) -> Mode {
    let kind = t.kind(parent);
    if kind == "import"@ || kind == "external_function"@ {
        Mode::Unread
    } else if is_callable(kind) {
        read_if(t.field(parent, "body"@) == Some(i))
    } else if kind == "case_clause"@ {
        if t.field(parent, "patterns"@) == Some(i) {
            pattern_mode(t.kind(i))
        } else {
            read_if(t.field(parent, "guard"@) == Some(i) || t.field(parent, "value"@) == Some(i))
        }
    } else if kind == "constant"@ {
        read_if(t.field(parent, "value"@) == Some(i))
    } else if is_assignment(kind) {
        if assigned_pattern(t, parent) == Some(i) {
            pattern_mode(t.kind(i))
        } else {
            read_if(t.field(parent, "message"@) == Some(i) || t.field(parent, "value"@) == Some(i))
        }
    } else if kind == "field_access"@ {
        read_if(t.field(parent, "record"@) == Some(i))
    } else if is_argument(kind) && t.field(parent, "value"@) is None {
        Mode::Unread
    } else {
        read_if(t.named(i))
    }
}

/// How a node is looked at.
pub open spec fn mode(t: Syntax, i: int) -> Mode
    decreases i,
{
    if i <= 0 {
        Mode::Read
    } else if t.parent(i) >= i {
        Mode::Unread
    } else {
        match mode(t, t.parent(i)) {
            Mode::Unread => Mode::Unread,
            Mode::Pattern => if t.named(i) {
                pattern_mode(t.kind(i))
            } else {
                Mode::Unread
            },
            Mode::Read => child_mode(t, t.parent(i), i),
        }
    }
}

pub open spec fn modes_ok(t: Syntax, modes: Seq<Mode>) -> bool {
    &&& modes.len() == t.len()
    &&& forall|i: int| 0 <= i < modes.len() ==> #[trigger] modes[i] == mode(t, i)
}

fn fills(tree: &SyntaxTree, parent: usize, field: &str, i: usize) -> (r: bool)
    requires
        tree.wf(),
        parent < tree@.len(),
    ensures
        r == (tree@.field(parent as int, field@) == Some(i as int)),
{
    match tree.field(parent, field) {
        Some(child) => child == i,
        None => false,
    }
}

fn find_pattern_mode(tree: &SyntaxTree, i: usize) -> (r: Mode)
    requires
        tree.wf(),
        i < tree@.len(),
    ensures
        r == pattern_mode(tree@.kind(i as int)),
{
    if segment_options(tree, i) {
        Mode::Read
    } else {
        Mode::Pattern
    }
}

fn find_read(condition: bool) -> (r: Mode)
    ensures
        r == read_if(condition),
{
    if condition {
        Mode::Read
    } else {
        Mode::Unread
    }
}

fn assignment(tree: &SyntaxTree, i: usize) -> (r: bool)
    requires
        tree.wf(),
        i < tree@.len(),
    ensures
        r == is_assignment(tree@.kind(i as int)),
{
    tree.is(i, "let") || tree.is(i, "let_assert") || tree.is(i, "use")
}

fn callable(tree: &SyntaxTree, i: usize) -> (r: bool)
    requires
        tree.wf(),
        i < tree@.len(),
    ensures
        r == is_callable(tree@.kind(i as int)),
{
    tree.is(i, "function") || tree.is(i, "anonymous_function")
}

fn find_assigned_pattern(tree: &SyntaxTree, i: usize) -> (pattern: Option<usize>)
    requires
        tree.wf(),
        i < tree@.len(),
    ensures
        found(pattern) == assigned_pattern(tree@, i as int),
        pattern is Some ==> i < pattern->0 < tree@.len(),
{
    match tree.field(i, "pattern") {
        Some(pattern) => Some(pattern),
        None => tree.field(i, "assignments"),
    }
}

fn find_child_mode(tree: &SyntaxTree, parent: usize, i: usize) -> (r: Mode)
    requires
        tree.wf(),
        parent < tree@.len(),
        i < tree@.len(),
    ensures
        r == child_mode(tree@, parent as int, i as int),
{
    if tree.is(parent, "import") || tree.is(parent, "external_function") {
        return Mode::Unread;
    }
    if callable(tree, parent) {
        return find_read(fills(tree, parent, "body", i));
    }
    if tree.is(parent, "case_clause") {
        if fills(tree, parent, "patterns", i) {
            return find_pattern_mode(tree, i);
        }
        return find_read(fills(tree, parent, "guard", i) || fills(tree, parent, "value", i));
    }
    if tree.is(parent, "constant") {
        return find_read(fills(tree, parent, "value", i));
    }
    if assignment(tree, parent) {
        let bound: bool = match find_assigned_pattern(tree, parent) {
            Some(pattern) => pattern == i,
            None => false,
        };
        if bound {
            return find_pattern_mode(tree, i);
        }
        return find_read(fills(tree, parent, "message", i) || fills(tree, parent, "value", i));
    }
    if tree.is(parent, "field_access") {
        return find_read(fills(tree, parent, "record", i));
    }
    if (tree.is(parent, "argument") || tree.is(parent, "record_update_argument")) && tree.field(
        parent,
        "value",
    ).is_none() {
        return Mode::Unread;
    }
    find_read(tree.nodes[i].named)
}

fn find_modes(tree: &SyntaxTree) -> (modes: Vec<Mode>)
    requires
        tree.wf(),
    ensures
        modes_ok(tree@, modes@),
{
    let n: usize = tree.nodes.len();
    let mut modes: Vec<Mode> = Vec::new();
    let mut i: usize = 0;
    while i < n
        invariant
            tree.wf(),
            n == tree@.len(),
            i <= n,
            modes@.len() == i,
            forall|k: int| 0 <= k < i ==> #[trigger] modes@[k] == mode(tree@, k),
        decreases n - i,
    {
        let next: Mode = if i == 0 {
            Mode::Read
        } else {
            assert(tree@.parent_at(i as int));
            let parent: usize = tree.parents[i];
            match modes[parent] {
                Mode::Unread => Mode::Unread,
                Mode::Pattern => if tree.nodes[i].named {
                    find_pattern_mode(tree, i)
                } else {
                    Mode::Unread
                },
                Mode::Read => find_child_mode(tree, parent, i),
            }
        };
        modes.push(next);
        i = i + 1;
    }
    modes
}

pub open spec fn opens_scope(kind: Seq<char>) -> bool {
    is_callable(kind) || kind == "source_file"@ || kind == "block"@ || kind == "case_clause"@
}

/// The node whose scope a node stands in.
pub open spec fn scope_around(t: Syntax, i: int) -> int
    decreases i,
{
    if i <= 0 || t.parent(i) >= i || t.parent(i) < 0 {
        0
    } else if mode(t, t.parent(i)) == Mode::Read && opens_scope(t.kind(t.parent(i))) {
        t.parent(i)
    } else {
        scope_around(t, t.parent(i))
    }
}

fn find_scope(tree: &SyntaxTree, modes: &Vec<Mode>, i: usize) -> (scope: usize)
    requires
        tree.wf(),
        modes_ok(tree@, modes@),
        i < tree@.len(),
    ensures
        scope == scope_around(tree@, i as int),
        scope < tree@.len(),
{
    let mut at: usize = i;
    while at > 0
        invariant
            tree.wf(),
            modes_ok(tree@, modes@),
            at < tree@.len(),
            scope_around(tree@, at as int) == scope_around(tree@, i as int),
        decreases at,
    {
        assert(tree@.parent_at(at as int));
        let parent: usize = tree.parents[at];
        if modes[parent] == Mode::Read && (callable(tree, parent) || tree.is(parent, "source_file")
            || tree.is(parent, "block") || tree.is(parent, "case_clause")) {
            return parent;
        }
        at = parent;
    }
    0
}

/// A local name that hides one of the whole file for the nodes from `from` up
/// to `to`.
pub struct Local {
    pub name: String,
    pub from: usize,
    pub to: usize,
}

pub struct LocalModel {
    pub name: Seq<char>,
    pub from: usize,
    pub to: usize,
}

impl View for Local {
    type V = LocalModel;

    open spec fn view(&self) -> LocalModel {
        LocalModel { name: self.name@, from: self.from, to: self.to }
    }
}

pub open spec fn local_models(locals: Seq<Local>) -> Seq<LocalModel> {
    locals.map_values(|l: Local| l@)
}

/// The node names what a pattern binds.
pub open spec fn is_binder(t: Syntax, i: int) -> bool {
    ||| t.kind(i) == "identifier"@
    ||| t.kind(i) == "label"@ && i > 0 && t.kind(t.parent(i)) == "record_pattern_argument"@
        && t.field(t.parent(i), "pattern"@) is None
}

fn binder(tree: &SyntaxTree, i: usize) -> (r: bool)
    requires
        tree.wf(),
        i < tree@.len(),
    ensures
        r == is_binder(tree@, i as int),
{
    if tree.is(i, "identifier") {
        return true;
    }
    if !tree.is(i, "label") || i == 0 {
        return false;
    }
    assert(tree@.parent_at(i as int));
    let parent: usize = tree.parents[i];
    tree.is(parent, "record_pattern_argument") && tree.field(parent, "pattern").is_none()
}

/// Adds what the nodes from `at` up to `stop` of the pattern `root` bind, where
/// it hides a name of the whole file.
pub open spec fn pattern_locals(
    t: Syntax,
    names: Map<Seq<char>, Binding>,
    list: Seq<LocalModel>,
    root: int,
    at: int,
    stop: int,
    from: usize,
    to: usize,
) -> Seq<LocalModel>
    decreases remaining(at, stop),
{
    if at >= stop || t.end(at) <= at {
        list
    } else if (at != root && !t.named(at)) || is_segment_options(t.kind(at)) {
        pattern_locals(t, names, list, root, t.end(at), stop, from, to)
    } else if is_binder(t, at) {
        let added = if names.contains_key(t.text(at)) {
            list.push(LocalModel { name: t.text(at), from, to })
        } else {
            list
        };
        pattern_locals(t, names, added, root, t.end(at), stop, from, to)
    } else {
        pattern_locals(t, names, list, root, at + 1, stop, from, to)
    }
}

/// Adds what a pattern binds.
pub open spec fn with_pattern(
    t: Syntax,
    names: Map<Seq<char>, Binding>,
    list: Seq<LocalModel>,
    pattern: int,
    from: usize,
    to: usize,
) -> Seq<LocalModel> {
    pattern_locals(t, names, list, pattern, pattern, t.end(pattern), from, to)
}

/// Adds what the first `n` parameters bind.
pub open spec fn with_parameters(
    t: Syntax,
    names: Map<Seq<char>, Binding>,
    list: Seq<LocalModel>,
    parameters: Seq<int>,
    n: int,
    from: usize,
    to: usize,
) -> Seq<LocalModel>
    decreases n,
{
    if n <= 0 {
        list
    } else {
        let before = with_parameters(t, names, list, parameters, n - 1, from, to);
        match t.field(parameters[n - 1], "name"@) {
            Some(name) => with_pattern(t, names, before, name, from, to),
            None => before,
        }
    }
}

/// Adds what the siblings from `c` up to `stop` that give a pattern another name
/// bind.
pub open spec fn with_aliases(
    t: Syntax,
    names: Map<Seq<char>, Binding>,
    list: Seq<LocalModel>,
    c: int,
    stop: int,
    from: usize,
    to: usize,
) -> Seq<LocalModel>
    decreases remaining(c, stop),
{
    if c >= stop || t.end(c) <= c {
        list
    } else if t.nodes[c].field@ == "assign"@ {
        with_aliases(
            t,
            names,
            with_pattern(t, names, list, c, from, to),
            t.end(c),
            stop,
            from,
            to,
        )
    } else {
        with_aliases(t, names, list, t.end(c), stop, from, to)
    }
}

/// The nodes that stand for the parameters of a function.
pub open spec fn parameters_of(t: Syntax, i: int) -> Seq<int> {
    match t.field(i, "parameters"@) {
        Some(list) => t.named_children(list),
        None => Seq::empty(),
    }
}

/// Adds what a node binds: the parameters of a function inside it, the patterns
/// of a clause behind them in the clause, and the pattern of a statement behind
/// it in the scope around.
pub open spec fn with_locals(
    t: Syntax,
    names: Map<Seq<char>, Binding>,
    list: Seq<LocalModel>,
    i: int,
) -> Seq<LocalModel> {
    let kind = t.kind(i);
    if is_callable(kind) {
        let parameters = parameters_of(t, i);
        with_parameters(
            t,
            names,
            list,
            parameters,
            parameters.len() as int,
            i as usize,
            t.ends[i],
        )
    } else if kind == "case_clause"@ {
        match t.field(i, "patterns"@) {
            Some(patterns) => with_pattern(t, names, list, patterns, t.ends[patterns], t.ends[i]),
            None => list,
        }
    } else if is_assignment(kind) {
        match assigned_pattern(t, i) {
            Some(pattern) => {
                let to = t.ends[scope_around(t, i)];
                let aliased = with_aliases(t, names, list, i + 1, t.end(i), t.ends[i], to);
                with_pattern(t, names, aliased, pattern, t.ends[i], to)
            },
            None => list,
        }
    } else {
        list
    }
}

/// What the first `n` nodes bind.
pub open spec fn locals_of(t: Syntax, names: Map<Seq<char>, Binding>, n: int) -> Seq<LocalModel>
    decreases n,
{
    if n <= 0 {
        Seq::empty()
    } else if mode(t, n - 1) == Mode::Read {
        with_locals(t, names, locals_of(t, names, n - 1), n - 1)
    } else {
        locals_of(t, names, n - 1)
    }
}

fn add_pattern(
    tree: &SyntaxTree,
    names: &StringHashMap<Binding>,
    locals: &mut Vec<Local>,
    pattern: usize,
    from: usize,
    to: usize,
)
    requires
        tree.wf(),
        pattern < tree@.len(),
    ensures
        local_models(final(locals)@) == with_pattern(
            tree@,
            names@,
            local_models(old(locals)@),
            pattern as int,
            from,
            to,
        ),
{
    assert(tree@.end_at(pattern as int));
    let stop: usize = tree.ends[pattern];
    let ghost goal = with_pattern(
        tree@,
        names@,
        local_models(locals@),
        pattern as int,
        from,
        to,
    );
    let mut at: usize = pattern;
    while at < stop
        invariant
            tree.wf(),
            stop <= tree@.len(),
            pattern_locals(
                tree@,
                names@,
                local_models(locals@),
                pattern as int,
                at as int,
                stop as int,
                from,
                to,
            ) == goal,
        decreases remaining(at as int, stop as int),
    {
        assert(tree@.end_at(at as int));
        if (at != pattern && !tree.nodes[at].named) || segment_options(tree, at) {
            at = tree.ends[at];
        } else if binder(tree, at) {
            let name: &str = tree.text(at);
            if names.contains_key(name) {
                let ghost before = local_models(locals@);
                let local = Local { name: name.to_owned(), from, to };
                locals.push(local);
                assert(local_models(locals@) =~= before.push(local@));
            }
            at = tree.ends[at];
        } else {
            at = at + 1;
        }
    }
}

fn add_parameters(
    tree: &SyntaxTree,
    names: &StringHashMap<Binding>,
    locals: &mut Vec<Local>,
    i: usize,
)
    requires
        tree.wf(),
        i < tree@.len(),
    ensures
        local_models(final(locals)@) == with_parameters(
            tree@,
            names@,
            local_models(old(locals)@),
            parameters_of(tree@, i as int),
            parameters_of(tree@, i as int).len() as int,
            i,
            tree@.ends[i as int],
        ),
{
    let list: usize = match tree.field(i, "parameters") {
        Some(list) => list,
        None => {
            return;
        },
    };
    let parameters = tree.named_children(list);
    let ghost all = parameters_of(tree@, i as int);
    assert(indices(parameters@).len() == parameters@.len());
    assert(tree@.end_at(i as int));
    let to: usize = tree.ends[i];
    let mut k: usize = 0;
    while k < parameters.len()
        invariant
            tree.wf(),
            to == tree@.ends[i as int],
            indices(parameters@) == all,
            all.len() == parameters@.len(),
            tree@.end(list as int) <= tree@.len(),
            forall|n: int|
                0 <= n < parameters@.len() ==> list < #[trigger] parameters@[n] < tree@.end(
                    list as int,
                ),
            k <= parameters@.len(),
            local_models(locals@) == with_parameters(
                tree@,
                names@,
                local_models(old(locals)@),
                all,
                k as int,
                i,
                to,
            ),
        decreases parameters@.len() - k,
    {
        assert(all[k as int] == parameters@[k as int]);
        match tree.field(parameters[k], "name") {
            Some(name) => {
                add_pattern(tree, names, locals, name, i, to);
            },
            None => {},
        }
        k = k + 1;
    }
}

fn add_assigned(
    tree: &SyntaxTree,
    names: &StringHashMap<Binding>,
    modes: &Vec<Mode>,
    locals: &mut Vec<Local>,
    i: usize,
    pattern: usize,
)
    requires
        tree.wf(),
        modes_ok(tree@, modes@),
        i < tree@.len(),
        pattern < tree@.len(),
    ensures
        ({
            let to = tree@.ends[scope_around(tree@, i as int)];
            local_models(final(locals)@) == with_pattern(
                tree@,
                names@,
                with_aliases(
                    tree@,
                    names@,
                    local_models(old(locals)@),
                    i + 1,
                    tree@.end(i as int),
                    tree@.ends[i as int],
                    to,
                ),
                pattern as int,
                tree@.ends[i as int],
                to,
            )
        }),
{
    let to: usize = tree.ends[find_scope(tree, modes, i)];
    assert(tree@.end_at(i as int));
    let from: usize = tree.ends[i];
    let ghost goal = with_aliases(
        tree@,
        names@,
        local_models(locals@),
        i + 1,
        from as int,
        from,
        to,
    );
    let mut c: usize = i + 1;
    while c < from
        invariant
            tree.wf(),
            from <= tree@.len(),
            with_aliases(
                tree@,
                names@,
                local_models(locals@),
                c as int,
                from as int,
                from,
                to,
            ) == goal,
        decreases remaining(c as int, from as int),
    {
        assert(tree@.end_at(c as int));
        if same(tree.nodes[c].field, "assign") {
            add_pattern(tree, names, locals, c, from, to);
        }
        c = tree.ends[c];
    }
    add_pattern(tree, names, locals, pattern, from, to);
}

fn add_locals(
    tree: &SyntaxTree,
    names: &StringHashMap<Binding>,
    modes: &Vec<Mode>,
    locals: &mut Vec<Local>,
    i: usize,
)
    requires
        tree.wf(),
        modes_ok(tree@, modes@),
        i < tree@.len(),
    ensures
        local_models(final(locals)@) == with_locals(
            tree@,
            names@,
            local_models(old(locals)@),
            i as int,
        ),
{
    if callable(tree, i) {
        add_parameters(tree, names, locals, i);
    } else if tree.is(i, "case_clause") {
        match tree.field(i, "patterns") {
            Some(patterns) => {
                add_pattern(tree, names, locals, patterns, tree.ends[patterns], tree.ends[i]);
            },
            None => {},
        }
    } else if assignment(tree, i) {
        match find_assigned_pattern(tree, i) {
            Some(pattern) => {
                add_assigned(tree, names, modes, locals, i, pattern);
            },
            None => {},
        }
    }
}

fn find_locals(tree: &SyntaxTree, names: &StringHashMap<Binding>, modes: &Vec<Mode>) -> (locals:
    Vec<Local>)
    requires
        tree.wf(),
        modes_ok(tree@, modes@),
    ensures
        local_models(locals@) == locals_of(tree@, names@, tree@.len()),
{
    let n: usize = tree.nodes.len();
    let mut locals: Vec<Local> = Vec::new();
    assert(local_models(locals@) =~= Seq::<LocalModel>::empty());
    let mut i: usize = 0;
    while i < n
        invariant
            tree.wf(),
            modes_ok(tree@, modes@),
            n == tree@.len(),
            i <= n,
            local_models(locals@) == locals_of(tree@, names@, i as int),
        decreases n - i,
    {
        if modes[i] == Mode::Read {
            add_locals(tree, names, modes, &mut locals, i);
        }
        i = i + 1;
    }
    locals
}

/// A local name hides a name of the whole file at a node.
pub open spec fn is_hidden(locals: Seq<LocalModel>, name: Seq<char>, i: int) -> bool {
    exists|k: int|
        0 <= k < locals.len() && (#[trigger] locals[k]).name == name && locals[k].from <= i
            < locals[k].to
}

/// What a name is bound to at a node.
pub open spec fn binding_at(
    names: Map<Seq<char>, Binding>,
    locals: Seq<LocalModel>,
    name: Seq<char>,
    i: int,
) -> Binding {
    if names.contains_key(name) && !is_hidden(locals, name, i) {
        names[name]
    } else {
        unbound()
    }
}

/// A file with what its names are bound to.
pub struct NamesModel {
    pub names: Map<Seq<char>, Binding>,
    pub locals: Seq<LocalModel>,
}

impl NamesModel {
    pub open spec fn at(self, name: Seq<char>, i: int) -> Binding {
        binding_at(self.names, self.locals, name, i)
    }
}

struct Names<'a> {
    names: &'a StringHashMap<Binding>,
    locals: Vec<Local>,
}

impl<'a> View for Names<'a> {
    type V = NamesModel;

    closed spec fn view(&self) -> NamesModel {
        NamesModel { names: self.names@, locals: local_models(self.locals@) }
    }
}

impl<'a> Names<'a> {
    fn binding(&self, name: &str, i: usize) -> (binding: Binding)
        ensures
            binding == self@.at(name@, i as int),
    {
        match self.names.get(name) {
            None => {},
            Some(known) => {
                let binding: Binding = *known;
                let ghost models = local_models(self.locals@);
                let mut k: usize = 0;
                while k < self.locals.len()
                    invariant
                        models == local_models(self.locals@),
                        k <= self.locals@.len(),
                        self.names@.contains_key(name@),
                        forall|n: int|
                            0 <= n < k ==> !((#[trigger] models[n]).name == name@
                                && models[n].from <= i < models[n].to),
                    decreases self.locals@.len() - k,
                {
                    let local = &self.locals[k];
                    assert(models[k as int] == local@);
                    if local.from <= i && i < local.to && same(local.name.as_str(), name) {
                        assert(is_hidden(models, name@, i as int));
                        return Binding { runner: Runner::Unknown, declaration: None };
                    }
                    k = k + 1;
                }
                assert(!is_hidden(models, name@, i as int));
                return binding;
            },
        }
        Binding { runner: Runner::Unknown, declaration: None }
    }
}

/// The call hands over its arguments by other means than its argument list.
pub open spec fn has_implicit_argument(t: Syntax, i: int) -> bool {
    let parent = t.parent(i);
    i > 0 && ((t.kind(parent) == "use"@ && t.field(parent, "value"@) == Some(i)) || (t.kind(parent)
        == "binary_expression"@ && t.field(parent, "right"@) == Some(i) && match t.field(
        parent,
        "operator"@,
    ) {
        Some(operator) => t.kind(operator) == "|>"@,
        None => false,
    }))
}

/// The called function is the runner of gleeunit.
pub open spec fn is_runner(t: Syntax, names: NamesModel, function: int) -> bool {
    if t.kind(function) == "identifier"@ {
        names.at(t.text(function), function).runner == Runner::Main
    } else if t.kind(function) == "field_access"@ {
        (match t.field(function, "record"@) {
            Some(record) => t.kind(record) == "identifier"@ && names.at(
                t.text(record),
                record,
            ).runner == Runner::Module,
            None => false,
        }) && (match t.field(function, "field"@) {
            Some(field) => t.text(field) == "main"@,
            None => false,
        })
    } else {
        false
    }
}

/// The call runs the tests of gleeunit.
pub open spec fn is_runner_call(t: Syntax, names: NamesModel, i: int) -> bool {
    match (t.field(i, "function"@), t.field(i, "arguments"@)) {
        (Some(function), Some(arguments)) => t.named_of_kind(arguments, "argument"@).len() == 0
            && !has_implicit_argument(t, i) && is_runner(t, names, function),
        _ => false,
    }
}

fn implicit_argument(tree: &SyntaxTree, i: usize) -> (r: bool)
    requires
        tree.wf(),
        i < tree@.len(),
    ensures
        r == has_implicit_argument(tree@, i as int),
{
    if i == 0 {
        return false;
    }
    assert(tree@.parent_at(i as int));
    let parent: usize = tree.parents[i];
    if tree.is(parent, "use") && fills(tree, parent, "value", i) {
        return true;
    }
    if !tree.is(parent, "binary_expression") || !fills(tree, parent, "right", i) {
        return false;
    }
    match tree.field(parent, "operator") {
        Some(operator) => tree.is(operator, "|>"),
        None => false,
    }
}

fn runner(tree: &SyntaxTree, names: &Names, function: usize) -> (r: bool)
    requires
        tree.wf(),
        function < tree@.len(),
    ensures
        r == is_runner(tree@, names@, function as int),
{
    if tree.is(function, "identifier") {
        return names.binding(tree.text(function), function).runner == Runner::Main;
    }
    if !tree.is(function, "field_access") {
        return false;
    }
    let module: bool = match tree.field(function, "record") {
        Some(record) => tree.is(record, "identifier") && names.binding(
            tree.text(record),
            record,
        ).runner == Runner::Module,
        None => false,
    };
    module && match tree.field(function, "field") {
        Some(field) => same(tree.text(field), "main"),
        None => false,
    }
}

fn runner_call(tree: &SyntaxTree, names: &Names, i: usize) -> (r: bool)
    requires
        tree.wf(),
        i < tree@.len(),
    ensures
        r == is_runner_call(tree@, names@, i as int),
{
    let function: usize = match tree.field(i, "function") {
        Some(function) => function,
        None => {
            return false;
        },
    };
    let arguments: usize = match tree.field(i, "arguments") {
        Some(arguments) => arguments,
        None => {
            return false;
        },
    };
    let given = tree.named_of_kind(arguments, "argument");
    assert(indices(given@).len() == given@.len());
    given.len() == 0 && !implicit_argument(tree, i) && runner(tree, names, function)
}

/// The siblings from `c` up to `stop` that are named and no comments.
pub open spec fn statements_from(t: Syntax, c: int, stop: int) -> Seq<int>
    decreases remaining(c, stop),
{
    if c >= stop || t.end(c) <= c {
        Seq::empty()
    } else if t.named(c) && !is_comment(t.kind(c)) {
        seq![c] + statements_from(t, t.end(c), stop)
    } else {
        statements_from(t, t.end(c), stop)
    }
}

/// The statements of a block.
pub open spec fn statements(t: Syntax, i: int) -> Seq<int> {
    statements_from(t, i + 1, t.end(i))
}

fn count_statements(tree: &SyntaxTree, i: usize) -> (count: usize)
    requires
        tree.wf(),
        i < tree@.len(),
    ensures
        count == statements(tree@, i as int).len(),
{
    assert(tree@.end_at(i as int));
    let stop: usize = tree.ends[i];
    let mut c: usize = i + 1;
    let mut count: usize = 0;
    while c < stop
        invariant
            tree.wf(),
            i < c,
            stop <= tree@.len(),
            stop == tree@.end(i as int),
            count < c,
            count + statements_from(tree@, c as int, stop as int).len() == statements(
                tree@,
                i as int,
            ).len(),
        decreases remaining(c as int, stop as int),
    {
        assert(tree@.end_at(c as int));
        if tree.nodes[c].named && !comment(tree, c) {
            count = count + 1;
        }
        c = tree.ends[c];
    }
    count
}

/// The function does nothing but run the tests with the given call.
pub open spec fn is_runner_function(t: Syntax, i: int, function: int) -> bool {
    &&& i > 0 && (t.kind(t.parent(i)) == "block"@ || t.kind(t.parent(i)) == "function_body"@)
    &&& t.parent(i) > 0 && t.parent(t.parent(i)) == function
    &&& t.kind(function) == "function"@
    &&& has_no_parameters(t, function)
    &&& statements(t, t.parent(i)).len() == 1
    &&& !is_overridden(t, function)
}

/// The region of a call that runs the tests: the function that does nothing
/// else, or the call alone.
pub open spec fn runner_region(t: Syntax, i: int) -> RegionModel {
    let function = t.parent(t.parent(i));
    if is_runner_function(t, i, function) {
        declared_region(t, function, "Gleam gleeunit main runner"@)
    } else {
        region_at(t, i, "Gleam gleeunit main call"@)
    }
}

fn find_runner_region(tree: &SyntaxTree, previous: &Vec<Option<usize>>, i: usize) -> (region:
    TestRegion)
    requires
        tree.wf(),
        previous_ok(tree@, previous@),
        i < tree@.len(),
    ensures
        region@ == runner_region(tree@, i as int),
{
    if i > 0 {
        assert(tree@.parent_at(i as int));
        let body: usize = tree.parents[i];
        if body > 0 {
            assert(tree@.parent_at(body as int));
            let function: usize = tree.parents[body];
            if (tree.is(body, "block") || tree.is(body, "function_body")) && tree.is(
                function,
                "function",
            ) && zero_parameters(tree, function) && count_statements(tree, body) == 1 && !has_external_attribute(
                tree,
                previous,
                function,
            ) {
                return declaration_region(
                    tree,
                    previous,
                    function,
                    "Gleam gleeunit main runner",
                );
            }
        }
    }
    test_region(tree, i, "Gleam gleeunit main call")
}

/// The regions of the calls among the first `n` nodes that run the tests.
pub open spec fn runner_regions(t: Syntax, names: NamesModel, n: int) -> Seq<RegionModel>
    decreases n,
{
    if n <= 0 {
        Seq::empty()
    } else if mode(t, n - 1) == Mode::Read && t.kind(n - 1) == "function_call"@ && is_runner_call(
        t,
        names,
        n - 1,
    ) {
        runner_regions(t, names, n - 1).push(runner_region(t, n - 1))
    } else {
        runner_regions(t, names, n - 1)
    }
}

/// The node that a node reads the name of: itself, or the label of an argument
/// that stands for a variable of the same name.
pub open spec fn read_name(t: Syntax, i: int) -> Option<int> {
    if t.kind(i) == "identifier"@ {
        Some(i)
    } else if is_argument(t.kind(i)) && t.field(i, "value"@) is None {
        t.field(i, "label"@)
    } else {
        None
    }
}

/// A place where a declaration is read.
#[derive(Clone, Copy, PartialEq, Eq, Structural)]
pub struct Reference {
    pub declaration: usize,
    pub byte: usize,
}

/// The places among the first `n` nodes where declarations are read.
pub open spec fn references(t: Syntax, names: NamesModel, n: int) -> Seq<Reference>
    decreases n,
{
    if n <= 0 {
        Seq::empty()
    } else {
        let before = references(t, names, n - 1);
        match read_name(t, n - 1) {
            Some(name) => match names.at(t.text(name), n - 1).declaration {
                Some(declaration) => if mode(t, n - 1) == Mode::Read {
                    before.push(Reference { declaration, byte: t.nodes[name].start_byte })
                } else {
                    before
                },
                None => before,
            },
            None => before,
        }
    }
}

fn find_read_name(tree: &SyntaxTree, i: usize) -> (name: Option<usize>)
    requires
        tree.wf(),
        i < tree@.len(),
    ensures
        found(name) == read_name(tree@, i as int),
        name is Some ==> name->0 < tree@.len(),
{
    if tree.is(i, "identifier") {
        Some(i)
    } else if (tree.is(i, "argument") || tree.is(i, "record_update_argument")) && tree.field(
        i,
        "value",
    ).is_none() {
        tree.field(i, "label")
    } else {
        None
    }
}

fn find_runner_regions(
    tree: &SyntaxTree,
    previous: &Vec<Option<usize>>,
    modes: &Vec<Mode>,
    names: &Names,
    regions: &mut Vec<TestRegion>,
)
    requires
        tree.wf(),
        previous_ok(tree@, previous@),
        modes_ok(tree@, modes@),
    ensures
        region_models(final(regions)@) == region_models(old(regions)@) + runner_regions(
            tree@,
            names@,
            tree@.len(),
        ),
{
    let n: usize = tree.nodes.len();
    let ghost start = region_models(regions@);
    assert(start + Seq::<RegionModel>::empty() =~= start);
    let mut i: usize = 0;
    while i < n
        invariant
            tree.wf(),
            previous_ok(tree@, previous@),
            modes_ok(tree@, modes@),
            n == tree@.len(),
            i <= n,
            region_models(regions@) == start + runner_regions(tree@, names@, i as int),
        decreases n - i,
    {
        if modes[i] == Mode::Read && tree.is(i, "function_call") && runner_call(tree, names, i) {
            let region = find_runner_region(tree, previous, i);
            let ghost before = region_models(regions@);
            regions.push(region);
            assert(region_models(regions@) =~= before.push(region@));
            assert(region_models(regions@) =~= start + runner_regions(tree@, names@, i + 1));
        }
        i = i + 1;
    }
}

fn find_references(tree: &SyntaxTree, modes: &Vec<Mode>, names: &Names) -> (list: Vec<Reference>)
    requires
        tree.wf(),
        modes_ok(tree@, modes@),
    ensures
        list@ == references(tree@, names@, tree@.len()),
{
    let n: usize = tree.nodes.len();
    let mut list: Vec<Reference> = Vec::new();
    let mut i: usize = 0;
    while i < n
        invariant
            tree.wf(),
            modes_ok(tree@, modes@),
            n == tree@.len(),
            i <= n,
            list@ == references(tree@, names@, i as int),
        decreases n - i,
    {
        match find_read_name(tree, i) {
            Some(name) => {
                if modes[i] == Mode::Read {
                    match names.binding(tree.text(name), i).declaration {
                        Some(declaration) => {
                            list.push(Reference { declaration, byte: tree.nodes[name].start_byte });
                        },
                        None => {},
                    }
                }
            },
            None => {},
        }
        i = i + 1;
    }
    list
}

/// The byte lies in the region.
pub open spec fn in_region(region: RegionModel, byte: usize) -> bool {
    region.start_byte <= byte < region.end_byte
}

/// A declaration is read in test code, and nowhere else but in itself.
pub open spec fn serves_tests(
    list: Seq<Reference>,
    declaration: int,
    own: RegionModel,
    regions: Seq<RegionModel>,
) -> bool {
    &&& forall|k: int|
        0 <= k < list.len() && (#[trigger] list[k]).declaration == declaration ==> in_region(
            own,
            list[k].byte,
        ) || covers(regions, list[k].byte as int)
    &&& exists|k: int|
        0 <= k < list.len() && (#[trigger] list[k]).declaration == declaration && !in_region(
            own,
            list[k].byte,
        ) && covers(regions, list[k].byte as int)
}

/// Declarations that may serve tests alone, and the regions known to be tests.
#[verifier::ext_equal]
pub struct HelpersModel {
    pub declarations: Seq<Declaration>,
    pub regions: Seq<RegionModel>,
}

pub open spec fn helper_region(t: Syntax, declaration: Declaration) -> RegionModel {
    declared_region(t, declaration.node as int, "Gleam test-only dependency"@)
}

/// Moves those of the first `n` declarations that serve tests alone to the
/// tests, one after the other.
pub open spec fn helper_pass(t: Syntax, list: Seq<Reference>, h: HelpersModel, n: int) -> HelpersModel
    decreases n,
{
    if n <= 0 {
        h
    } else {
        let before = helper_pass(t, list, h, n - 1);
        let declaration = before.declarations[n - 1];
        let own = helper_region(t, declaration);
        if declaration.helper && serves_tests(list, n - 1, own, before.regions) {
            HelpersModel {
                declarations: before.declarations.update(
                    n - 1,
                    Declaration { helper: false, ..declaration },
                ),
                regions: before.regions.push(own),
            }
        } else {
            before
        }
    }
}

/// How many of the first `n` declarations may still serve tests alone.
pub open spec fn open_helpers(declarations: Seq<Declaration>, n: int) -> int
    decreases n,
{
    if n <= 0 {
        0
    } else {
        open_helpers(declarations, n - 1) + if declarations[n - 1].helper {
            1int
        } else {
            0
        }
    }
}

pub open spec fn open_count(declarations: Seq<Declaration>) -> int {
    open_helpers(declarations, declarations.len() as int)
}

pub open spec fn full_pass(t: Syntax, list: Seq<Reference>, h: HelpersModel) -> HelpersModel {
    helper_pass(t, list, h, h.declarations.len() as int)
}

/// Moves declarations that serve tests alone to the tests until none is left.
pub open spec fn helpers_settled(t: Syntax, list: Seq<Reference>, h: HelpersModel) -> HelpersModel
    decreases open_count(h.declarations),
{
    let next = full_pass(t, list, h);
    if 0 <= open_count(next.declarations) < open_count(h.declarations) {
        helpers_settled(t, list, next)
    } else {
        h
    }
}

proof fn lemma_open_nonnegative(declarations: Seq<Declaration>, n: int)
    ensures
        open_helpers(declarations, n) >= 0,
    decreases n,
{
    if n > 0 {
        lemma_open_nonnegative(declarations, n - 1);
    }
}

proof fn lemma_open_update(declarations: Seq<Declaration>, k: int, value: Declaration, n: int)
    requires
        0 <= k < declarations.len(),
        n <= declarations.len(),
        declarations[k].helper,
        !value.helper,
    ensures
        open_helpers(declarations.update(k, value), n) == open_helpers(declarations, n) - if k < n {
            1int
        } else {
            0
        },
    decreases n,
{
    if n > 0 {
        lemma_open_update(declarations, k, value, n - 1);
    }
}

proof fn lemma_pass(t: Syntax, list: Seq<Reference>, h: HelpersModel, n: int)
    requires
        n <= h.declarations.len(),
    ensures
        ({
            let next = helper_pass(t, list, h, n);
            &&& next.declarations.len() == h.declarations.len()
            &&& open_count(next.declarations) + next.regions.len() == open_count(h.declarations)
                + h.regions.len()
            &&& next.regions.len() >= h.regions.len()
            &&& next.regions.len() == h.regions.len() ==> next == h
        }),
    decreases n,
{
    if n > 0 {
        lemma_pass(t, list, h, n - 1);
        let before = helper_pass(t, list, h, n - 1);
        let declaration = before.declarations[n - 1];
        if declaration.helper && serves_tests(
            list,
            n - 1,
            helper_region(t, declaration),
            before.regions,
        ) {
            lemma_open_update(
                before.declarations,
                n - 1,
                Declaration { helper: false, ..declaration },
                before.declarations.len() as int,
            );
        }
    }
}

proof fn lemma_unchanged_pass(t: Syntax, list: Seq<Reference>, h: HelpersModel, n: int, k: int)
    requires
        0 <= k < n <= h.declarations.len(),
        helper_pass(t, list, h, n) == h,
    ensures
        h.declarations[k].helper ==> !serves_tests(
            list,
            k,
            helper_region(t, h.declarations[k]),
            h.regions,
        ),
    decreases n,
{
    lemma_pass(t, list, h, n - 1);
    let before = helper_pass(t, list, h, n - 1);
    assert(before == h);
    if k < n - 1 {
        lemma_unchanged_pass(t, list, h, n - 1, k);
    }
}

/// Of the declarations that are left, none is read in test code and nowhere else
/// but in itself.
pub proof fn remaining_helpers_are_used(
    t: Syntax,
    list: Seq<Reference>,
    h: HelpersModel,
    declaration: int,
)
    requires
        0 <= declaration < h.declarations.len(),
        helpers_settled(t, list, h).declarations[declaration].helper,
    ensures
        !serves_tests(
            list,
            declaration,
            helper_region(t, helpers_settled(t, list, h).declarations[declaration]),
            helpers_settled(t, list, h).regions,
        ),
    decreases open_count(h.declarations),
{
    let next = full_pass(t, list, h);
    lemma_pass(t, list, h, h.declarations.len() as int);
    if 0 <= open_count(next.declarations) < open_count(h.declarations) {
        remaining_helpers_are_used(t, list, next, declaration);
    } else {
        lemma_open_nonnegative(next.declarations, next.declarations.len() as int);
        lemma_unchanged_pass(t, list, h, h.declarations.len() as int, declaration);
    }
}

/// One list of regions starts with another one.
spec fn extends(longer: Seq<RegionModel>, shorter: Seq<RegionModel>) -> bool {
    &&& shorter.len() <= longer.len()
    &&& forall|k: int| 0 <= k < shorter.len() ==> #[trigger] longer[k] == shorter[k]
}

/// A region is that of a private declaration that serves tests alone.
pub open spec fn is_test_helper(
    t: Syntax,
    list: Seq<Reference>,
    declarations: Seq<Declaration>,
    regions: Seq<RegionModel>,
    region: RegionModel,
) -> bool {
    exists|k: int|
        0 <= k < declarations.len() && (#[trigger] declarations[k]).helper && region
            == helper_region(t, declarations[k]) && serves_tests(list, k, region, regions)
}

proof fn lemma_more_regions(
    list: Seq<Reference>,
    declaration: int,
    own: RegionModel,
    shorter: Seq<RegionModel>,
    longer: Seq<RegionModel>,
)
    requires
        extends(longer, shorter),
        serves_tests(list, declaration, own, shorter),
    ensures
        serves_tests(list, declaration, own, longer),
{
    assert forall|byte: int| #[trigger] covers(shorter, byte) implies covers(longer, byte) by {
        let k = choose|k: int|
            0 <= k < shorter.len() && (#[trigger] shorter[k]).start_byte <= byte
                && byte < shorter[k].end_byte;
        assert(longer[k] == shorter[k]);
    }
}

/// The declarations are those of before, of which some may be helpers no more.
spec fn only_settles(after: Seq<Declaration>, before: Seq<Declaration>) -> bool {
    &&& after.len() == before.len()
    &&& forall|k: int|
        0 <= k < after.len() ==> (#[trigger] after[k] == before[k] || !after[k].helper)
}

proof fn lemma_pass_helpers(t: Syntax, list: Seq<Reference>, h: HelpersModel, n: int)
    requires
        0 <= n <= h.declarations.len(),
    ensures
        ({
            let next = helper_pass(t, list, h, n);
            &&& extends(next.regions, h.regions)
            &&& only_settles(next.declarations, h.declarations)
            &&& forall|k: int|
                n <= k < h.declarations.len() ==> #[trigger] next.declarations[k]
                    == h.declarations[k]
            &&& forall|at: int|
                h.regions.len() <= at < next.regions.len() ==> is_test_helper(
                    t,
                    list,
                    h.declarations,
                    next.regions,
                    #[trigger] next.regions[at],
                )
        }),
    decreases n,
{
    if n > 0 {
        lemma_pass_helpers(t, list, h, n - 1);
        let before = helper_pass(t, list, h, n - 1);
        let next = helper_pass(t, list, h, n);
        assert(extends(next.regions, before.regions));
        assert(before.declarations[n - 1] == h.declarations[n - 1]);
        assert forall|at: int| h.regions.len() <= at < next.regions.len() implies is_test_helper(
            t,
            list,
            h.declarations,
            next.regions,
            #[trigger] next.regions[at],
        ) by {
            let k = if at < before.regions.len() {
                assert(next.regions[at] == before.regions[at]);
                choose|k: int|
                    0 <= k < h.declarations.len() && (#[trigger] h.declarations[k]).helper
                        && next.regions[at] == helper_region(t, h.declarations[k])
                        && serves_tests(list, k, next.regions[at], before.regions)
            } else {
                n - 1
            };
            lemma_more_regions(list, k, next.regions[at], before.regions, next.regions);
        }
    }
}

/// Besides tests and runners, only private declarations are left out, and only
/// those that are read in test code and nowhere else but in themselves.
pub proof fn only_test_helpers_are_left_out(t: Syntax, list: Seq<Reference>, h: HelpersModel)
    ensures
        ({
            let all = helpers_settled(t, list, h).regions;
            &&& h.regions.len() <= all.len()
            &&& forall|at: int| 0 <= at < h.regions.len() ==> #[trigger] all[at] == h.regions[at]
            &&& forall|at: int|
                h.regions.len() <= at < all.len() ==> is_test_helper(
                    t,
                    list,
                    h.declarations,
                    all,
                    #[trigger] all[at],
                )
        }),
    decreases open_count(h.declarations),
{
    let next = full_pass(t, list, h);
    let all = helpers_settled(t, list, h).regions;
    lemma_pass_helpers(t, list, h, h.declarations.len() as int);
    if 0 <= open_count(next.declarations) < open_count(h.declarations) {
        only_test_helpers_are_left_out(t, list, next);
        assert(extends(all, next.regions));
        assert forall|at: int| h.regions.len() <= at < all.len() implies is_test_helper(
            t,
            list,
            h.declarations,
            all,
            #[trigger] all[at],
        ) by {
            if at < next.regions.len() {
                assert(all[at] == next.regions[at]);
                let k = choose|k: int|
                    0 <= k < h.declarations.len() && (#[trigger] h.declarations[k]).helper
                        && all[at] == helper_region(t, h.declarations[k]) && serves_tests(
                        list,
                        k,
                        all[at],
                        next.regions,
                    );
                lemma_more_regions(list, k, all[at], next.regions, all);
            } else {
                let k = choose|k: int|
                    0 <= k < next.declarations.len() && (#[trigger] next.declarations[k]).helper
                        && all[at] == helper_region(t, next.declarations[k]) && serves_tests(
                        list,
                        k,
                        all[at],
                        all,
                    );
                assert(next.declarations[k] == h.declarations[k]);
            }
        }
        assert forall|at: int| 0 <= at < h.regions.len() implies #[trigger] all[at]
            == h.regions[at] by {
            assert(all[at] == next.regions[at]);
        }
    }
}

fn lies_in(region: &TestRegion, byte: usize) -> (r: bool)
    ensures
        r == in_region(region@, byte),
{
    region.start_byte <= byte && byte < region.end_byte
}

fn covered(regions: &Vec<TestRegion>, byte: usize) -> (r: bool)
    ensures
        r == covers(region_models(regions@), byte as int),
{
    let ghost models = region_models(regions@);
    let mut k: usize = 0;
    while k < regions.len()
        invariant
            models == region_models(regions@),
            k <= regions@.len(),
            forall|n: int| 0 <= n < k ==> !in_region(#[trigger] models[n], byte),
        decreases regions@.len() - k,
    {
        assert(models[k as int] == regions@[k as int]@);
        if lies_in(&regions[k], byte) {
            assert(models[k as int].start_byte <= byte < models[k as int].end_byte);
            return true;
        }
        k = k + 1;
    }
    assert forall|n: int| 0 <= n < models.len() implies !((#[trigger] models[n]).start_byte <= byte
        < models[n].end_byte) by {
        assert(!in_region(models[n], byte));
    }
    false
}

fn only_tests(
    list: &Vec<Reference>,
    declaration: usize,
    own: &TestRegion,
    regions: &Vec<TestRegion>,
) -> (r: bool)
    ensures
        r == serves_tests(list@, declaration as int, own@, region_models(regions@)),
{
    let ghost models = region_models(regions@);
    let mut tested: bool = false;
    let mut k: usize = 0;
    while k < list.len()
        invariant
            models == region_models(regions@),
            k <= list@.len(),
            forall|n: int|
                0 <= n < k && (#[trigger] list@[n]).declaration == declaration ==> in_region(
                    own@,
                    list@[n].byte,
                ) || covers(models, list@[n].byte as int),
            tested <==> exists|n: int|
                0 <= n < k && (#[trigger] list@[n]).declaration == declaration && !in_region(
                    own@,
                    list@[n].byte,
                ) && covers(models, list@[n].byte as int),
        decreases list@.len() - k,
    {
        let reference = list[k];
        if reference.declaration == declaration && !lies_in(own, reference.byte) {
            if !covered(regions, reference.byte) {
                assert(list@[k as int].declaration == declaration);
                return false;
            }
            assert(list@[k as int].declaration == declaration);
            tested = true;
        }
        k = k + 1;
    }
    tested
}

fn run_pass(
    tree: &SyntaxTree,
    previous: &Vec<Option<usize>>,
    list: &Vec<Reference>,
    declarations: &mut Vec<Declaration>,
    regions: &mut Vec<TestRegion>,
)
    requires
        tree.wf(),
        previous_ok(tree@, previous@),
        declarations_ok(old(declarations)@, tree@.len()),
    ensures
        (HelpersModel {
            declarations: final(declarations)@,
            regions: region_models(final(regions)@),
        }) == full_pass(
            tree@,
            list@,
            HelpersModel {
                declarations: old(declarations)@,
                regions: region_models(old(regions)@),
            },
        ),
        declarations_ok(final(declarations)@, tree@.len()),
{
    let ghost start = HelpersModel {
        declarations: declarations@,
        regions: region_models(regions@),
    };
    let count: usize = declarations.len();
    let mut k: usize = 0;
    while k < count
        invariant
            tree.wf(),
            previous_ok(tree@, previous@),
            declarations_ok(declarations@, tree@.len()),
            count == declarations@.len(),
            count == start.declarations.len(),
            k <= count,
            (HelpersModel { declarations: declarations@, regions: region_models(regions@) })
                == helper_pass(tree@, list@, start, k as int),
        decreases count - k,
    {
        let declaration = declarations[k];
        if declaration.helper {
            let own = declaration_region(
                tree,
                previous,
                declaration.node,
                "Gleam test-only dependency",
            );
            if only_tests(list, k, &own, regions) {
                let ghost before = region_models(regions@);
                regions.push(own);
                assert(region_models(regions@) =~= before.push(own@));
                declarations.set(k, Declaration { node: declaration.node, helper: false });
            }
        }
        k = k + 1;
    }
}

fn exclude_helpers(
    tree: &SyntaxTree,
    previous: &Vec<Option<usize>>,
    list: &Vec<Reference>,
    declarations: &mut Vec<Declaration>,
    regions: &mut Vec<TestRegion>,
)
    requires
        tree.wf(),
        previous_ok(tree@, previous@),
        declarations_ok(old(declarations)@, tree@.len()),
    ensures
        region_models(final(regions)@) == helpers_settled(
            tree@,
            list@,
            HelpersModel {
                declarations: old(declarations)@,
                regions: region_models(old(regions)@),
            },
        ).regions,
{
    let ghost goal = helpers_settled(
        tree@,
        list@,
        HelpersModel { declarations: declarations@, regions: region_models(regions@) },
    );
    loop
        invariant
            tree.wf(),
            previous_ok(tree@, previous@),
            declarations_ok(declarations@, tree@.len()),
            goal == helpers_settled(
                tree@,
                list@,
                HelpersModel {
                    declarations: old(declarations)@,
                    regions: region_models(old(regions)@),
                },
            ),
            helpers_settled(
                tree@,
                list@,
                HelpersModel { declarations: declarations@, regions: region_models(regions@) },
            ) == goal,
        decreases open_count(declarations@),
    {
        let ghost before = HelpersModel {
            declarations: declarations@,
            regions: region_models(regions@),
        };
        let known: usize = regions.len();
        assert(before.regions.len() == known);
        run_pass(tree, previous, list, declarations, regions);
        proof {
            lemma_pass(tree@, list@, before, before.declarations.len() as int);
            lemma_open_nonnegative(declarations@, declarations@.len() as int);
        }
        assert(region_models(regions@).len() == regions@.len());
        if regions.len() == known {
            return;
        }
    }
}

/// The names of a file and what they are bound to.
pub open spec fn names_of(t: Syntax) -> NamesModel {
    let module = module_of(t);
    NamesModel { names: module.names, locals: locals_of(t, module.names, t.len()) }
}

/// The regions of a Gleam file that hold test code.
pub open spec fn gleam_test_regions(t: Syntax) -> Seq<RegionModel> {
    let module = module_of(t);
    let names = names_of(t);
    helpers_settled(
        t,
        references(t, names, t.len()),
        HelpersModel {
            declarations: module.declarations,
            regions: module.regions + runner_regions(t, names, t.len()),
        },
    ).regions
}

/// Finds the regions of a Gleam file that hold test code.
pub fn find_gleam_tests(tree: &SyntaxTree) -> (regions: Vec<TestRegion>)
    requires
        tree.wf(),
    ensures
        region_models(regions@) == gleam_test_regions(tree@),
{
    let previous = find_previous(tree);
    let module = Module::collect(tree, &previous);
    let modes = find_modes(tree);
    let locals = find_locals(tree, &module.names, &modes);
    let names = Names { names: &module.names, locals };
    assert(names@.locals == names_of(tree@).locals);
    assert(names@ == names_of(tree@));
    let mut regions = module.regions;
    find_runner_regions(tree, &previous, &modes, &names, &mut regions);
    let list = find_references(tree, &modes, &names);
    let mut declarations = module.declarations;
    exclude_helpers(tree, &previous, &list, &mut declarations, &mut regions);
    regions
}

} // verus!
