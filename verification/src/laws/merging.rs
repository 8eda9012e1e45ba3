//! How regions are merged, and which nodes stand next to each other.

use vstd::prelude::*;

use crate::languages::javascript_tests::candidate_order;
use crate::languages::python_tests::place_order;
use crate::languages::regions::{coalesced, joined};
use crate::languages::siblings::{last_named_before, previous_named};
use crate::languages::syntax::Syntax;
use crate::metrics::RegionModel;

verus! {

/// A region that starts inside the one before it is merged with it: the merged region
/// keeps the start and the reason of the first and reaches as far as either. Any other
/// region stands for itself.
pub proof fn overlapping_regions_are_merged(regions: Seq<RegionModel>, region: RegionModel)
    ensures
        regions.len() == 0 || region.start_byte >= regions.last().end_byte ==> joined(
            regions,
            region,
        ) == regions.push(region),
        regions.len() > 0 && region.start_byte < regions.last().end_byte ==> {
            let after = joined(regions, region);
            let last = regions.last();
            &&& after.len() == regions.len()
            &&& after.drop_last() == regions.drop_last()
            &&& after.last().start_byte == last.start_byte
            &&& after.last().start_line == last.start_line
            &&& after.last().reason == last.reason
            &&& region.end_byte > last.end_byte ==> after.last().end_byte == region.end_byte
                && after.last().end_line == region.end_line
            &&& region.end_byte <= last.end_byte ==> after == regions
        },
        coalesced(Seq::empty()).len() == 0,
        coalesced(regions.push(region)) == joined(coalesced(regions), region),
{
    assert(regions.push(region).drop_last() =~= regions);
    if regions.len() > 0 && region.start_byte < regions.last().end_byte {
        assert(joined(regions, region).drop_last() =~= regions.drop_last());
    }
}

/// The sibling before a node is the last named child of its parent before it.
pub proof fn siblings_before(t: Syntax, parent: int, at: int)
    requires
        0 <= parent < at,
    ensures
        match last_named_before(t, parent, at) {
            Some(k) => parent < k < at && t.named(k) && t.parent(k) == parent && forall|j: int|
                k < j < at ==> !(#[trigger] t.named(j) && t.parent(j) == parent),
            None => forall|j: int|
                parent < j < at ==> !(#[trigger] t.named(j) && t.parent(j) == parent),
        },
        previous_named(t, 0) is None,
        previous_named(t, at) == last_named_before(t, t.parent(at), at),
    decreases at - parent,
{
    if at - 1 > parent && !(t.named(at - 1) && t.parent(at - 1) == parent) {
        siblings_before(t, parent, at - 1);
    }
}

/// A child of a kind is one of the children, and children of a kind are named ones.
pub proof fn children_of_a_kind(t: Syntax, i: int, kind: Seq<char>, c: int, stop: int)
    requires
        c < stop,
        t.end(c) > c,
    ensures
        t.has_child(i, kind) <==> exists|k: int|
            0 <= k < t.children(i).len() && t.kind(#[trigger] t.children(i)[k]) == kind,
        t.named_of_kind(i, kind) == t.named_kind_from(i + 1, t.end(i), kind),
        t.named(c) && t.kind(c) == kind ==> t.named_kind_from(c, stop, kind) == seq![c]
            + t.named_kind_from(t.end(c), stop, kind),
        !t.named(c) || t.kind(c) != kind ==> t.named_kind_from(c, stop, kind)
            == t.named_kind_from(t.end(c), stop, kind),
        t.named_kind_from(stop, stop, kind).len() == 0,
{
}

/// Candidates are judged from the start of a file to its end.
pub proof fn candidates_are_judged_in_order(
    t: Syntax,
    a: crate::languages::javascript_tests::Candidate,
    b: crate::languages::javascript_tests::Candidate,
    p: crate::languages::python_tests::Place,
    q: crate::languages::python_tests::Place,
)
    ensures
        ({
            let before = candidate_order(t);
            let x = t.nodes[a.node as int];
            let y = t.nodes[b.node as int];
            &&& x.start_byte < y.start_byte ==> before(a, b) && !before(b, a)
            &&& x.start_byte == y.start_byte && x.end_byte < y.end_byte ==> before(a, b)
                && !before(b, a)
            &&& x.start_byte == y.start_byte && x.end_byte == y.end_byte ==> !before(a, b)
        }),
        ({
            let before = place_order(t);
            before(p, q) <==> t.nodes[p.node as int].start_byte < t.nodes[q.node as int].start_byte
        }),
{
}

} // verus!
