//! What of a source is left to count, and in which order it is listed.

use vstd::prelude::*;

use crate::languages::lines::blanked;
use crate::languages::regions::{region_before, region_fits};
use crate::languages::syntax::Syntax;
use crate::languages::tree::{cleaned, live, node_before, without_regions, SyntaxRules};
use crate::metrics::RegionModel;

verus! {

/// A byte is left out with a region.
pub open spec fn in_some_region(regions: Seq<RegionModel>, n: int, k: int) -> bool {
    exists|r: int|
        0 <= r < n && (#[trigger] regions[r]).start_byte <= k && k < regions[r].end_byte
}

/// A byte is part of a measured comment, or of other text that is no source.
pub open spec fn in_some_comment<R: SyntaxRules>(
    t: Syntax,
    regions: Seq<RegionModel>,
    n: int,
    k: int,
) -> bool {
    exists|i: int|
        0 <= i < n && #[trigger] live(t, regions, i) && R::ignored_spec(t, i)
            && t.nodes[i].start_byte <= k && k < t.nodes[i].end_byte
}

/// The byte that stands for another one that is left out.
pub open spec fn blank(b: u8) -> u8 {
    if b == '\n' as u8 || b == '\r' as u8 {
        b
    } else {
        ' ' as u8
    }
}

/// Regions are blanked out of a source, and nothing else is.
pub proof fn regions_are_blanked(source: Seq<u8>, regions: Seq<RegionModel>, n: int, k: int)
    requires
        0 <= n <= regions.len(),
        0 <= k < source.len(),
    ensures
        without_regions(source, regions, n).len() == source.len(),
        in_some_region(regions, n, k) ==> without_regions(source, regions, n)[k] == blank(
            source[k],
        ),
        !in_some_region(regions, n, k) ==> without_regions(source, regions, n)[k] == source[k],
    decreases n,
{
    assert('\n' as u8 == 10u8 && '\r' as u8 == 13u8 && ' ' as u8 == 32u8);
    if n > 0 {
        regions_are_blanked(source, regions, n - 1, k);
        if in_some_region(regions, n - 1, k) {
            let r = choose|r: int|
                0 <= r < n - 1 && (#[trigger] regions[r]).start_byte <= k && k
                    < regions[r].end_byte;
            assert(0 <= r < n && regions[r].start_byte <= k && k < regions[r].end_byte);
            assert(in_some_region(regions, n, k));
        }
        if regions[n - 1].start_byte <= k && k < regions[n - 1].end_byte {
            assert(in_some_region(regions, n, k));
        } else if in_some_region(regions, n, k) {
            let r = choose|r: int|
                0 <= r < n && (#[trigger] regions[r]).start_byte <= k && k < regions[r].end_byte;
            assert(r < n - 1);
            assert(in_some_region(regions, n - 1, k));
        }
    }
}

/// What is left of a source to count is the source without its regions and without its
/// measured comments, byte for byte.
pub proof fn comments_are_blanked<R: SyntaxRules>(
    t: Syntax,
    regions: Seq<RegionModel>,
    n: int,
    k: int,
)
    requires
        0 <= n,
        0 <= k < t.source.len(),
    ensures
        cleaned::<R>(t, regions, n).len() == t.source.len(),
        in_some_region(regions, regions.len() as int, k) || in_some_comment::<R>(t, regions, n, k)
            ==> cleaned::<R>(t, regions, n)[k] == blank(t.source[k]),
        !in_some_region(regions, regions.len() as int, k) && !in_some_comment::<R>(
            t,
            regions,
            n,
            k,
        ) ==> cleaned::<R>(t, regions, n)[k] == t.source[k],
    decreases n,
{
    assert('\n' as u8 == 10u8 && '\r' as u8 == 13u8 && ' ' as u8 == 32u8);
    if n <= 0 {
        regions_are_blanked(t.source, regions, regions.len() as int, k);
    } else {
        comments_are_blanked::<R>(t, regions, n - 1, k);
        if in_some_comment::<R>(t, regions, n - 1, k) {
            let i = choose|i: int|
                0 <= i < n - 1 && #[trigger] live(t, regions, i) && R::ignored_spec(t, i)
                    && t.nodes[i].start_byte <= k && k < t.nodes[i].end_byte;
            assert(live(t, regions, i));
            assert(in_some_comment::<R>(t, regions, n, k));
        }
        let here = live(t, regions, n - 1) && R::ignored_spec(t, n - 1) && t.nodes[n
            - 1].start_byte <= k && k < t.nodes[n - 1].end_byte;
        if here {
            assert(live(t, regions, n - 1));
            assert(in_some_comment::<R>(t, regions, n, k));
        } else if in_some_comment::<R>(t, regions, n, k) {
            let i = choose|i: int|
                0 <= i < n && #[trigger] live(t, regions, i) && R::ignored_spec(t, i)
                    && t.nodes[i].start_byte <= k && k < t.nodes[i].end_byte;
            assert(i < n - 1);
            assert(live(t, regions, i));
            assert(in_some_comment::<R>(t, regions, n - 1, k));
        }
    }
}

/// Callables are listed by their first line, then by their last line; an inner one comes
/// before the one around it.
pub proof fn order_of_callables(t: Syntax, a: int, b: int)
    ensures
        t.nodes[a].start_row < t.nodes[b].start_row ==> node_before(t, a, b) && !node_before(
            t,
            b,
            a,
        ),
        ({
            let first = t.nodes[a].start_row == t.nodes[b].start_row;
            let ends = |i: int| crate::languages::tree::end_line(t, i);
            &&& first && ends(a) < ends(b) ==> node_before(t, a, b) && !node_before(t, b, a)
            &&& first && ends(a) == ends(b) && t.end(a) < t.end(b) ==> node_before(t, a, b)
                && !node_before(t, b, a)
            &&& first && ends(a) == ends(b) && t.end(a) == t.end(b) && a > b ==> node_before(
                t,
                a,
                b,
            ) && !node_before(t, b, a)
        }),
        !node_before(t, a, a),
{
}

/// Regions are ordered by their start; of two that start together the longer one comes
/// first. A region holds something and ends inside the source.
pub proof fn order_of_regions(a: RegionModel, b: RegionModel, length: int)
    ensures
        a.start_byte < b.start_byte ==> region_before(a, b) && !region_before(b, a),
        a.start_byte == b.start_byte && a.end_byte > b.end_byte ==> region_before(a, b)
            && !region_before(b, a),
        a.start_byte == b.start_byte && a.end_byte == b.end_byte ==> (region_before(a, b)
            <==> crate::text::text_less(a.reason, b.reason)),
        region_fits(a, length) <==> a.start_byte < a.end_byte && a.end_byte <= length,
{
}

} // verus!
