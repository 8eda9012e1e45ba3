//! Regions of a source that hold test code: bounded, in order, and disjoint.

use vstd::prelude::*;

use super::syntax::{Syntax, SyntaxTree};
use crate::metrics::{region_models, RegionModel, TestRegion};
use crate::sort::{in_order, lemma_insert_at, sorted, strict_order};
use crate::text::{less, text_less};

verus! {

/// Regions by where they start, wider ones first, then by their reason.
pub open spec fn region_before(a: RegionModel, b: RegionModel) -> bool {
    ||| a.start_byte < b.start_byte
    ||| a.start_byte == b.start_byte && a.end_byte > b.end_byte
    ||| a.start_byte == b.start_byte && a.end_byte == b.end_byte && text_less(a.reason, b.reason)
}

pub open spec fn region_order() -> spec_fn(RegionModel, RegionModel) -> bool {
    |a: RegionModel, b: RegionModel| region_before(a, b)
}

/// A region is not empty and lies inside a source of the given length.
pub open spec fn region_fits(region: RegionModel, length: int) -> bool {
    region.start_byte < region.end_byte <= length
}

/// Adds a region to those before it. One that overlaps the last region widens
/// that region; any other stands behind it.
pub open spec fn joined(regions: Seq<RegionModel>, region: RegionModel) -> Seq<RegionModel> {
    if regions.len() > 0 && region.start_byte < regions.last().end_byte {
        if region.end_byte > regions.last().end_byte {
            regions.drop_last().push(
                RegionModel {
                    end_byte: region.end_byte,
                    end_line: region.end_line,
                    ..regions.last()
                },
            )
        } else {
            regions
        }
    } else {
        regions.push(region)
    }
}

/// Regions in order, with those that overlap joined.
pub open spec fn coalesced(regions: Seq<RegionModel>) -> Seq<RegionModel>
    decreases regions.len(),
{
    if regions.len() == 0 {
        regions
    } else {
        joined(coalesced(regions.drop_last()), regions.last())
    }
}

/// The regions that a detector found, in order and joined.
pub open spec fn normalized(regions: Seq<RegionModel>) -> Seq<RegionModel> {
    coalesced(sorted(regions, region_order()))
}

/// Every region fits the source.
pub open spec fn regions_fit(regions: Seq<RegionModel>, length: int) -> bool {
    forall|k: int| 0 <= k < regions.len() ==> region_fits(#[trigger] regions[k], length)
}

/// A byte lies in one of the regions.
pub open spec fn covers(regions: Seq<RegionModel>, byte: int) -> bool {
    exists|k: int|
        0 <= k < regions.len() && (#[trigger] regions[k]).start_byte <= byte < regions[k].end_byte
}

/// The regions stand in order and do not overlap.
pub open spec fn disjoint(regions: Seq<RegionModel>) -> bool {
    forall|i: int, j: int|
        0 <= i < j < regions.len() ==> (#[trigger] regions[i]).end_byte <= (
        #[trigger] regions[j]).start_byte
}

/// A node lies in one of the regions.
pub open spec fn contained(t: Syntax, regions: Seq<RegionModel>, i: int) -> bool {
    exists|k: int|
        0 <= k < regions.len() && (#[trigger] regions[k]).start_byte <= t.nodes[i].start_byte
            && t.nodes[i].end_byte <= regions[k].end_byte
}

pub proof fn lemma_region_order()
    ensures
        strict_order(region_order()),
{
    let before = region_order();
    assert forall|a: RegionModel, b: RegionModel| #[trigger] before(a, b) implies !before(b, a) by {
        crate::text::text_order_is_strict(a.reason, b.reason, b.reason);
    }
    assert forall|a: RegionModel, b: RegionModel, c: RegionModel| #[trigger]
        before(a, b) && !before(c, b) implies #[trigger] before(a, c) by {
        crate::text::text_order_is_strict(a.reason, b.reason, c.reason);
    }
}

proof fn lemma_coalesced(regions: Seq<RegionModel>, length: int)
    requires
        in_order(regions, region_order()),
        regions_fit(regions, length),
    ensures
        regions_fit(coalesced(regions), length),
        disjoint(coalesced(regions)),
        regions.len() > 0 ==> coalesced(regions).len() > 0 && coalesced(regions).last().start_byte
            <= regions.last().start_byte,
        forall|byte: int| covers(coalesced(regions), byte) <==> covers(regions, byte),
    decreases regions.len(),
{
    if regions.len() > 0 {
        let front = regions.drop_last();
        let region = regions.last();
        let before = coalesced(front);
        assert forall|i: int, j: int| 0 <= i < j < front.len() implies !(region_order())(
            #[trigger] front[j],
            #[trigger] front[i],
        ) by {
            assert(!(region_order())(regions[j], regions[i]));
        }
        assert forall|k: int| 0 <= k < front.len() implies region_fits(
            #[trigger] front[k],
            length,
        ) by {
            assert(region_fits(regions[k], length));
        }
        lemma_coalesced(front, length);
        let after = coalesced(regions);
        assert(region_fits(regions[regions.len() - 1], length));
        if front.len() > 0 {
            assert(!(region_order())(regions[regions.len() - 1], regions[regions.len() - 2]));
            assert(before.last().start_byte <= region.start_byte);
            assert(region_fits(before[before.len() - 1], length));
        }
        let widened = before.len() > 0 && region.start_byte < before.last().end_byte;
        assert forall|k: int| 0 <= k < after.len() implies region_fits(
            #[trigger] after[k],
            length,
        ) by {
            if k < before.len() {
                assert(region_fits(before[k], length));
            }
        }
        assert forall|i: int, j: int| 0 <= i < j < after.len() implies (
        #[trigger] after[i]).end_byte <= (#[trigger] after[j]).start_byte by {
            if j < before.len() {
                assert(before[i].end_byte <= before[j].start_byte);
            } else if i < before.len() - 1 {
                assert(before[i].end_byte <= before[before.len() - 1].start_byte);
            }
        }
        assert forall|byte: int| covers(after, byte) <==> covers(regions, byte) by {
            if covers(regions, byte) {
                let k = choose|k: int|
                    0 <= k < regions.len() && (#[trigger] regions[k]).start_byte <= byte
                        < regions[k].end_byte;
                if k < front.len() {
                    assert(front[k].start_byte <= byte < front[k].end_byte);
                    assert(covers(front, byte));
                    assert(covers(before, byte));
                    let m = choose|m: int|
                        0 <= m < before.len() && (#[trigger] before[m]).start_byte <= byte
                            < before[m].end_byte;
                    assert(after[m].start_byte <= byte < after[m].end_byte);
                } else {
                    assert(after[after.len() - 1].start_byte <= byte < after[after.len()
                        - 1].end_byte);
                }
            }
            if covers(after, byte) {
                let m = choose|m: int|
                    0 <= m < after.len() && (#[trigger] after[m]).start_byte <= byte
                        < after[m].end_byte;
                if m < before.len() && before[m].start_byte <= byte < before[m].end_byte {
                    assert(covers(before, byte));
                    assert(covers(front, byte));
                    let k = choose|k: int|
                        0 <= k < front.len() && (#[trigger] front[k]).start_byte <= byte
                            < front[k].end_byte;
                    assert(regions[k].start_byte <= byte < regions[k].end_byte);
                } else {
                    assert(regions[regions.len() - 1].start_byte <= byte < regions[regions.len()
                        - 1].end_byte);
                }
            }
        }
    } else {
        assert(coalesced(regions) =~= regions);
    }
}

/// Normalized regions stay inside the source, stand in order without
/// overlapping, and cover exactly the bytes that the given ones covered.
pub proof fn normalized_regions(regions: Seq<RegionModel>, length: int)
    requires
        regions_fit(regions, length),
    ensures
        regions_fit(normalized(regions), length),
        disjoint(normalized(regions)),
        forall|byte: int| covers(normalized(regions), byte) <==> covers(regions, byte),
        regions.len() > 0 <==> normalized(regions).len() > 0,
{
    let order = region_order();
    let all = sorted(regions, order);
    lemma_region_order();
    crate::sort::sorted_keeps_items(regions, order);
    crate::sort::sorted_is_in_order(regions, order);
    lemma_same_members(regions, all);
    lemma_same_members(all, regions);
    assert forall|k: int| 0 <= k < all.len() implies region_fits(#[trigger] all[k], length) by {
        assert(all.contains(all[k]));
        let m = choose|m: int| 0 <= m < regions.len() && regions[m] == all[k];
        assert(region_fits(regions[m], length));
    }
    lemma_coalesced(all, length);
    assert forall|byte: int| covers(all, byte) <==> covers(regions, byte) by {
        if covers(all, byte) {
            let k = choose|k: int|
                0 <= k < all.len() && (#[trigger] all[k]).start_byte <= byte < all[k].end_byte;
            assert(all.contains(all[k]));
            let m = choose|m: int| 0 <= m < regions.len() && regions[m] == all[k];
            assert(regions[m].start_byte <= byte < regions[m].end_byte);
        }
        if covers(regions, byte) {
            let k = choose|k: int|
                0 <= k < regions.len() && (#[trigger] regions[k]).start_byte <= byte
                    < regions[k].end_byte;
            assert(regions.contains(regions[k]));
            let m = choose|m: int| 0 <= m < all.len() && all[m] == regions[k];
            assert(all[m].start_byte <= byte < all[m].end_byte);
        }
    }
}

proof fn lemma_same_members<T>(a: Seq<T>, b: Seq<T>)
    requires
        a.to_multiset() == b.to_multiset(),
    ensures
        forall|x: T| #[trigger] a.contains(x) ==> b.contains(x),
{
    broadcast use vstd::seq_lib::group_to_multiset_ensures;

    assert forall|x: T| #[trigger] a.contains(x) implies b.contains(x) by {
        assert(a.to_multiset().count(x) > 0);
        assert(b.to_multiset().count(x) > 0);
    }
}

fn before(a: &TestRegion, b: &TestRegion) -> (r: bool)
    ensures
        r == region_before(a@, b@),
{
    a.start_byte < b.start_byte || (a.start_byte == b.start_byte && (a.end_byte > b.end_byte || (
    a.end_byte == b.end_byte && less(a.reason.as_str(), b.reason.as_str()))))
}

fn sort_regions(regions: &Vec<TestRegion>) -> (result: Vec<TestRegion>)
    ensures
        region_models(result@) == sorted(region_models(regions@), region_order()),
{
    let mut result: Vec<TestRegion> = Vec::new();
    let ghost models = region_models(regions@);
    let ghost order = region_order();
    let mut i: usize = 0;
    assert(region_models(result@) =~= sorted(models.subrange(0, 0), order));
    while i < regions.len()
        invariant
            i <= regions@.len(),
            models == region_models(regions@),
            order == region_order(),
            region_models(result@) == sorted(models.subrange(0, i as int), order),
        decreases regions@.len() - i,
    {
        let region = regions[i].clone();
        let mut at: usize = result.len();
        let ghost known = region_models(result@);
        while at > 0 && before(&region, &result[at - 1])
            invariant
                at <= result@.len(),
                known == region_models(result@),
                order == region_order(),
                forall|k: int| at <= k < known.len() ==> order(region@, #[trigger] known[k]),
            decreases at,
        {
            at = at - 1;
            assert(order(region@, known[at as int]));
        }
        proof {
            assert(at == 0 || !order(region@, known[at - 1]));
            lemma_insert_at(known, region@, order, at as int);
            let prefix = models.subrange(0, i + 1);
            assert(prefix.drop_last() =~= models.subrange(0, i as int));
            assert(prefix.last() == region@);
        }
        result.insert(at, region);
        assert(region_models(result@) =~= known.insert(at as int, region@));
        i = i + 1;
    }
    assert(models.subrange(0, i as int) =~= models);
    result
}

/// Puts the regions that a detector found in order and joins those that
/// overlap. `None` where one is empty or reaches beyond the source.
pub fn normalize_regions(regions: Vec<TestRegion>, length: usize) -> (result: Option<
    Vec<TestRegion>,
>)
    ensures
        result is Some <==> regions_fit(region_models(regions@), length as int),
        result is Some ==> region_models(result->0@) == normalized(region_models(regions@)),
{
    let mut i: usize = 0;
    while i < regions.len()
        invariant
            i <= regions@.len(),
            forall|k: int|
                0 <= k < i ==> region_fits(
                    #[trigger] region_models(regions@)[k],
                    length as int,
                ),
        decreases regions@.len() - i,
    {
        if regions[i].start_byte >= regions[i].end_byte || regions[i].end_byte > length {
            assert(!region_fits(region_models(regions@)[i as int], length as int));
            return None;
        }
        i = i + 1;
    }
    let all = sort_regions(&regions);
    let ghost models = region_models(all@);
    let mut result: Vec<TestRegion> = Vec::new();
    let mut k: usize = 0;
    assert(region_models(result@) =~= coalesced(models.subrange(0, 0)));
    while k < all.len()
        invariant
            k <= all@.len(),
            models == region_models(all@),
            region_models(result@) == coalesced(models.subrange(0, k as int)),
        decreases all@.len() - k,
    {
        let region = all[k].clone();
        let ghost known = region_models(result@);
        let ghost prefix = models.subrange(0, k + 1);
        assert(prefix.drop_last() =~= models.subrange(0, k as int));
        assert(prefix.last() == region@);
        let count: usize = result.len();
        if count > 0 && region.start_byte < result[count - 1].end_byte {
            if region.end_byte > result[count - 1].end_byte {
                let mut widened = result[count - 1].clone();
                widened.end_byte = region.end_byte;
                widened.end_line = region.end_line;
                result.set(count - 1, widened);
                assert(region_models(result@) =~= joined(known, region@));
            }
        } else {
            result.push(region);
            assert(region_models(result@) =~= joined(known, region@));
        }
        k = k + 1;
    }
    assert(models.subrange(0, k as int) =~= models);
    Some(result)
}

/// The node lies in one of the regions, which stand in order.
pub fn is_contained(tree: &SyntaxTree, regions: &Vec<TestRegion>, i: usize) -> (r: bool)
    requires
        tree.wf(),
        i < tree@.len(),
        disjoint(region_models(regions@)),
        regions_fit(region_models(regions@), tree@.source.len() as int),
    ensures
        r == contained(tree@, region_models(regions@), i as int),
{
    let ghost models = region_models(regions@);
    let start: usize = tree.nodes[i].start_byte;
    let end: usize = tree.nodes[i].end_byte;
    let mut low: usize = 0;
    let mut high: usize = regions.len();
    while low < high
        invariant
            low <= high <= regions@.len(),
            models == region_models(regions@),
            disjoint(models),
            regions_fit(models, tree@.source.len() as int),
            forall|k: int| 0 <= k < low ==> (#[trigger] models[k]).start_byte <= start,
            forall|k: int| high <= k < models.len() ==> (#[trigger] models[k]).start_byte > start,
        decreases high - low,
    {
        let middle: usize = low + (high - low) / 2;
        assert(regions@[middle as int]@ == models[middle as int]);
        if regions[middle].start_byte <= start {
            assert forall|k: int| 0 <= k <= middle implies (#[trigger] models[k]).start_byte
                <= start by {
                if k < middle {
                    assert(models[k].end_byte <= models[middle as int].start_byte);
                    assert(region_fits(models[k], tree@.source.len() as int));
                }
            }
            low = middle + 1;
        } else {
            assert forall|k: int| middle <= k < models.len() implies (
            #[trigger] models[k]).start_byte > start by {
                if k > middle {
                    assert(models[middle as int].end_byte <= models[k].start_byte);
                    assert(region_fits(models[middle as int], tree@.source.len() as int));
                }
            }
            high = middle;
        }
    }
    assert(node_fits_here(tree@, i as int));
    if low > 0 && end <= regions[low - 1].end_byte {
        assert(models[low - 1].start_byte <= start && end <= models[low - 1].end_byte);
        true
    } else {
        assert forall|k: int| 0 <= k < models.len() implies !((
        #[trigger] models[k]).start_byte <= start && end <= models[k].end_byte) by {
            if k < low - 1 {
                assert(models[k].end_byte <= models[low - 1].start_byte);
                assert(region_fits(models[low - 1], tree@.source.len() as int));
            }
        }
        false
    }
}

spec fn node_fits_here(t: Syntax, i: int) -> bool {
    t.nodes[i].start_byte <= t.nodes[i].end_byte
}

} // verus!
