//! What a whole file comes to once its parts are judged.

use vstd::prelude::*;

use crate::languages::gleam_tests::{
    full_pass, gleam_test_regions, helpers_settled, locals_of, module_from, open_count, references,
    runner_regions, serves_tests, HelpersModel, NamesModel, Reference,
};
use crate::languages::javascript_tests::{
    is_exclusive, is_use, passed, spans, with_helpers, Candidate,
};
use crate::languages::python_tests::{
    binding_scope, claimed, claimed_all, class_mutated, collected_from, discoverable_scopes,
    discovery_overridden, judged, judged_all, lookup, mutation_applied, mutation_root,
    mutations_applied, nothing_collected, opts_out, python_test_regions, sets_discovery,
    DeclarationModel, Facts, Findings, Place, ScopeModel, TestSymbol,
};
use crate::languages::regions::{contained, covers};
use crate::languages::rust_scopes::ScopesModel;
use crate::languages::rust_tests::{rust_test_regions, walk_from, WalkModel};
use crate::languages::syntax::Syntax;
use crate::metrics::RegionModel;
use crate::sort::sorted;

verus! {

/// A helper that only tests use may make another one such a helper: as long as a look at
/// the candidates finds one, those that are left are looked at again.
pub proof fn javascript_helpers_are_sought_again(
    t: Syntax,
    s: crate::languages::javascript_tests::Collected,
    candidates: Seq<Candidate>,
    regions: Seq<RegionModel>,
)
    ensures
        ({
            let pass = passed(t, s, candidates, regions, candidates.len() as int);
            let found = pass.regions.len() != regions.len();
            &&& found && pass.kept.len() < candidates.len() ==> with_helpers(
                t,
                s,
                candidates,
                regions,
            ) == with_helpers(t, s, pass.kept, pass.regions)
            &&& !found ==> with_helpers(t, s, candidates, regions) == pass.regions
        }),
        with_helpers(t, s, Seq::empty(), regions) == regions,
{
}

/// The same holds of the functions of a Gleam module: they are looked at again as long
/// as one of them turned out to serve tests alone.
pub proof fn gleam_helpers_are_sought_again(t: Syntax, list: Seq<Reference>, h: HelpersModel)
    ensures
        ({
            let next = full_pass(t, list, h);
            let fewer = 0 <= open_count(next.declarations) < open_count(h.declarations);
            &&& fewer ==> helpers_settled(t, list, h) == helpers_settled(t, list, next)
            &&& !fewer ==> helpers_settled(t, list, h) == h
        }),
{
}

/// The test code of a Gleam module is what its declarations and its runners hold, and the
/// helpers of both.
pub proof fn gleam_modules_hold_tests(t: Syntax)
    ensures
        ({
            let module = module_from(t, 1);
            let names = NamesModel {
                names: module.names,
                locals: locals_of(t, module.names, t.len()),
            };
            gleam_test_regions(t) == helpers_settled(
                t,
                references(t, names, t.len()),
                HelpersModel {
                    declarations: module.declarations,
                    regions: module.regions + runner_regions(t, names, t.len()),
                },
            ).regions
        }),
{
}

/// A write that sets how a name is discovered marks the name where it is bound, and a
/// class that it names is no longer discovered.
pub proof fn python_discovery_is_overridden(
    f: Facts,
    name: Seq<char>,
    scope: int,
    owner: int,
    id: usize,
    from: usize,
)
    requires
        0 <= owner < f.scopes.len(),
        id < f.class_scopes.len(),
        f.class_scopes[id as int] < f.scopes.len(),
    ensures
        ({
            let after = discovery_overridden(f, name, scope);
            let bound = f.scopes[owner].bindings[name];
            let marked = f.scopes.update(
                owner,
                ScopeModel {
                    overrides: f.scopes[owner].overrides.insert(name),
                    ..f.scopes[owner]
                },
            );
            let body = f.class_scopes[id as int] as int;
            &&& binding_scope(f.scopes, name, scope) is None ==> after == f
            &&& binding_scope(f.scopes, name, scope) == Some(owner) ==> {
                &&& after == Facts { scopes: after.scopes, ..f }
                &&& bound is None || !((bound->0).0 is Class) ==> after.scopes == marked
                &&& bound == Some((TestSymbol::Class(id), from)) && body == 0 ==> after.scopes
                    == marked
                &&& bound == Some((TestSymbol::Class(id), from)) && body > 0 ==> {
                    &&& !after.scopes[body].pytest_class
                    &&& after.scopes == marked.update(body, after.scopes[body])
                    &&& after.scopes[body] == ScopeModel { pytest_class: false, ..marked[body] }
                }
            }
        }),
{
}

/// A helper is used by tests alone where tests use it and everything else that does is
/// the helper itself: its own uses do not make it one.
pub proof fn javascript_helpers_serve_tests_alone(
    t: Syntax,
    s: crate::languages::javascript_tests::Collected,
    regions: Seq<RegionModel>,
    c: Candidate,
    u: int,
)
    requires
        0 <= u < t.len(),
        is_use(t, s, u, c.entry),
    ensures
        !contained(t, regions, u) && !spans(t, c.node as int, u) ==> !is_exclusive(
            t,
            s,
            regions,
            c,
        ),
        contained(t, regions, u) && !spans(t, c.node as int, u) && (forall|v: int|
            0 <= v < t.len() && #[trigger] is_use(t, s, v, c.entry) ==> contained(t, regions, v)
                || spans(t, c.node as int, v)) ==> is_exclusive(t, s, regions, c),
        (forall|v: int|
            0 <= v < t.len() && #[trigger] is_use(t, s, v, c.entry) ==> spans(
                t,
                c.node as int,
                v,
            )) ==> !is_exclusive(t, s, regions, c),
{
}

/// A helper that nothing uses is none.
pub proof fn unused_functions_are_no_helpers(
    t: Syntax,
    s: crate::languages::javascript_tests::Collected,
    regions: Seq<RegionModel>,
    c: Candidate,
)
    requires
        forall|v: int| 0 <= v < t.len() ==> !(#[trigger] is_use(t, s, v, c.entry)),
    ensures
        !is_exclusive(t, s, regions, c),
{
}

/// A function of a Gleam module that only itself refers to serves no tests, nor does one
/// that is referred to outside them.
pub proof fn gleam_helpers_serve_tests_alone(
    list: Seq<Reference>,
    declaration: int,
    own: RegionModel,
    regions: Seq<RegionModel>,
    k: int,
)
    requires
        0 <= k < list.len(),
        list[k].declaration == declaration,
    ensures
        ({
            let inside = own.start_byte <= list[k].byte < own.end_byte;
            &&& !inside && !covers(regions, list[k].byte as int) ==> !serves_tests(
                list,
                declaration,
                own,
                regions,
            )
            &&& !inside && covers(regions, list[k].byte as int) && (forall|j: int|
                0 <= j < list.len() && (#[trigger] list[j]).declaration == declaration ==> covers(
                    regions,
                    list[j].byte as int,
                )) ==> serves_tests(list, declaration, own, regions)
        }),
        (forall|j: int|
            0 <= j < list.len() && (#[trigger] list[j]).declaration == declaration
                ==> own.start_byte <= list[j].byte < own.end_byte) ==> !serves_tests(
            list,
            declaration,
            own,
            regions,
        ),
{
    if covers(regions, list[k].byte as int) {
        assert(list[k].declaration == declaration);
    }
}

/// Only a write through a plain name reaches a class or its discovery, and only one
/// that sets the attribute of discovery reaches that; a write to what stands for a
/// framework is remembered as one.
pub proof fn python_writes_reach_names(t: Syntax, f: Facts, place: Place)
    ensures
        ({
            let after = mutation_applied(t, f, place);
            let root = mutation_root(t, place.node as int);
            let scope = place.scope as int;
            let plain = t.kind(root) == "identifier"@;
            let sets = sets_discovery(t, place.node as int);
            let classes = class_mutated(t, f, root, scope);
            &&& !plain ==> after.scopes == f.scopes && after.mutated_classes == f.mutated_classes
            &&& plain ==> after.mutated_classes == classes.mutated_classes
            &&& plain && !sets ==> after.scopes == f.scopes
            &&& plain && sets ==> after.scopes == discovery_overridden(
                classes,
                t.text(root),
                scope,
            ).scopes
            &&& after.subclasses == f.subclasses
            &&& after.class_scopes == f.class_scopes
            &&& f.mutated_unittest ==> after.mutated_unittest
            &&& f.mutated_pytest ==> after.mutated_pytest
        }),
{
}

/// A write to a class is remembered under the class, and no other write is.
pub proof fn python_writes_to_classes(t: Syntax, f: Facts, root: int, scope: int, id: usize)
    ensures
        lookup(f.scopes, t.text(root), scope, usize::MAX as int) == Some(TestSymbol::Class(id)) && id
            < f.mutated_classes.len() ==> class_mutated(t, f, root, scope) == (Facts {
            mutated_classes: f.mutated_classes.update(id as int, true),
            ..f
        }),
        !(lookup(f.scopes, t.text(root), scope, usize::MAX as int) is Some && lookup(
            f.scopes,
            t.text(root),
            scope,
            usize::MAX as int,
        )->0 is Class) ==> class_mutated(t, f, root, scope) == f,
{
}

/// Every class that opts out is not discovered; then every declaration of a name and
/// every write is taken into account, in the order of the file.
pub proof fn python_facts_are_gathered(
    t: Syntax,
    f: Facts,
    scopes: Seq<ScopeModel>,
    declarations: Seq<DeclarationModel>,
    places: Seq<Place>,
    n: int,
    k: int,
)
    requires
        0 <= n,
        0 <= k < scopes.len(),
    ensures
        claimed_all(scopes, declarations, 0) == scopes,
        claimed_all(scopes, declarations, n + 1) == claimed(
            claimed_all(scopes, declarations, n),
            declarations[n],
        ),
        mutations_applied(t, f, places, 0) == f,
        mutations_applied(t, f, places, n + 1) == mutation_applied(
            t,
            mutations_applied(t, f, places, n),
            places[n],
        ),
        discoverable_scopes(scopes).len() == scopes.len(),
        discoverable_scopes(scopes)[k] == (ScopeModel {
            pytest_class: scopes[k].pytest_class && !opts_out(scopes[k].bindings),
            ..scopes[k]
        }),
{
}

/// What is known of a Python module starts with nothing written to and no class of tests.
pub proof fn python_modules_start_unwritten(t: Syntax)
    ensures
        ({
            let s = collected_from(t, nothing_collected(t), 0);
            let clear = Seq::new(t.nodes.len(), |k: int| false);
            crate::languages::python_tests::facts(t) == mutations_applied(
                t,
                Facts {
                    scopes: claimed_all(
                        discoverable_scopes(s.scopes),
                        s.declarations,
                        s.declarations.len() as int,
                    ),
                    class_scopes: s.class_scopes,
                    mutated_classes: clear,
                    subclasses: clear,
                    mutated_unittest: false,
                    mutated_pytest: false,
                },
                s.mutations,
                s.mutations.len() as int,
            )
        }),
{
}

/// Every candidate of a Python module is judged, in the order of the file.
pub proof fn python_candidates_are_judged(t: Syntax, r: Findings, places: Seq<Place>, n: int)
    requires
        0 <= n,
    ensures
        judged_all(t, r, places, 0) == r,
        judged_all(t, r, places, n + 1) == judged(t, judged_all(t, r, places, n), places[n]),
        ({
            let found = sorted(
                collected_from(t, nothing_collected(t), 0).candidates,
                |a: Place, b: Place|
                    t.nodes[a.node as int].start_byte < t.nodes[b.node as int].start_byte,
            );
            python_test_regions(t) == judged_all(
                t,
                Findings {
                    facts: crate::languages::python_tests::facts(t),
                    regions: Seq::empty(),
                },
                found,
                found.len() as int,
            ).regions
        }),
{
    let order = |a: Place, b: Place|
        t.nodes[a.node as int].start_byte < t.nodes[b.node as int].start_byte;
    assert(crate::languages::python_tests::place_order(t) =~= order);
}

/// A Rust file is walked from its root, with nothing known before.
pub proof fn rust_files_are_walked_whole(t: Syntax)
    ensures
        rust_test_regions(t) == walk_from(
            t,
            WalkModel {
                scopes: ScopesModel { scopes: Seq::empty(), paths: Seq::empty() },
                contexts: Seq::new(t.nodes.len(), |i: int| None),
                regions: Seq::empty(),
            },
            0,
        ).regions,
{
}

} // verus!
