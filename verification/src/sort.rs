//! Stable sorting by insertion, as specifications speak of it.

use vstd::prelude::*;

verus! {

/// Inserts an item behind every item that it does not have to stand before.
pub open spec fn insert_sorted<T>(s: Seq<T>, x: T, before: spec_fn(T, T) -> bool) -> Seq<T>
    decreases s.len(),
{
    if s.len() == 0 || !before(x, s.last()) {
        s.push(x)
    } else {
        insert_sorted(s.drop_last(), x, before).push(s.last())
    }
}

/// The items in order; items of which neither stands before the other keep
/// their places relative to each other.
pub open spec fn sorted<T>(s: Seq<T>, before: spec_fn(T, T) -> bool) -> Seq<T>
    decreases s.len(),
{
    if s.len() == 0 {
        s
    } else {
        insert_sorted(sorted(s.drop_last(), before), s.last(), before)
    }
}

/// A strict order in which incomparable items are interchangeable.
pub open spec fn strict_order<T>(before: spec_fn(T, T) -> bool) -> bool {
    &&& forall|a: T, b: T| #[trigger] before(a, b) ==> !before(b, a)
    &&& forall|a: T, b: T, c: T|
        #[trigger] before(a, b) && !before(c, b) ==> #[trigger] before(a, c)
}

/// No item stands before an earlier one.
pub open spec fn in_order<T>(s: Seq<T>, before: spec_fn(T, T) -> bool) -> bool {
    forall|i: int, j: int| 0 <= i < j < s.len() ==> !before(#[trigger] s[j], #[trigger] s[i])
}

pub proof fn lemma_insert_at<T>(s: Seq<T>, x: T, before: spec_fn(T, T) -> bool, at: int)
    requires
        0 <= at <= s.len(),
        at == 0 || !before(x, s[at - 1]),
        forall|k: int| at <= k < s.len() ==> before(x, #[trigger] s[k]),
    ensures
        insert_sorted(s, x, before) == s.insert(at, x),
    decreases s.len(),
{
    if at == s.len() {
        assert(s.insert(at, x) =~= s.push(x));
    } else {
        assert(before(x, s[s.len() - 1]));
        assert forall|k: int| at <= k < s.drop_last().len() implies before(
            x,
            #[trigger] s.drop_last()[k],
        ) by {
            assert(before(x, s[k]));
        }
        lemma_insert_at(s.drop_last(), x, before, at);
        assert(s.drop_last().insert(at, x).push(s.last()) =~= s.insert(at, x));
    }
}

/// Insertion keeps what is there and adds the item.
pub proof fn lemma_insert_multiset<T>(s: Seq<T>, x: T, before: spec_fn(T, T) -> bool)
    ensures
        insert_sorted(s, x, before).to_multiset() =~= s.to_multiset().insert(x),
        insert_sorted(s, x, before).len() == s.len() + 1,
    decreases s.len(),
{
    broadcast use vstd::seq_lib::group_to_multiset_ensures;

    if s.len() == 0 || !before(x, s.last()) {
    } else {
        lemma_insert_multiset(s.drop_last(), x, before);
        assert(s.drop_last().push(s.last()) =~= s);
    }
}

/// Sorting neither drops nor invents an item.
pub proof fn sorted_keeps_items<T>(s: Seq<T>, before: spec_fn(T, T) -> bool)
    ensures
        sorted(s, before).to_multiset() =~= s.to_multiset(),
        sorted(s, before).len() == s.len(),
    decreases s.len(),
{
    broadcast use vstd::seq_lib::group_to_multiset_ensures;

    if s.len() > 0 {
        sorted_keeps_items(s.drop_last(), before);
        lemma_insert_multiset(sorted(s.drop_last(), before), s.last(), before);
        assert(s.drop_last().push(s.last()) =~= s);
    }
}

/// Insertion keeps items in order.
pub proof fn lemma_insert_in_order<T>(s: Seq<T>, x: T, before: spec_fn(T, T) -> bool)
    requires
        strict_order(before),
        in_order(s, before),
    ensures
        in_order(insert_sorted(s, x, before), before),
    decreases s.len(),
{
    let r = insert_sorted(s, x, before);
    if s.len() == 0 || !before(x, s.last()) {
        assert forall|i: int, j: int| 0 <= i < j < r.len() implies !before(
            #[trigger] r[j],
            #[trigger] r[i],
        ) by {
            if j == s.len() {
                if before(x, s[i]) {
                    assert(i == s.len() - 1 || !before(s.last(), s[i]));
                    assert(before(x, s.last()));
                }
            } else {
                assert(!before(s[j], s[i]));
            }
        }
    } else {
        assert(in_order(s.drop_last(), before)) by {
            assert forall|i: int, j: int| 0 <= i < j < s.drop_last().len() implies !before(
                #[trigger] s.drop_last()[j],
                #[trigger] s.drop_last()[i],
            ) by {
                assert(!before(s[j], s[i]));
            }
        }
        lemma_insert_in_order(s.drop_last(), x, before);
        let inner = insert_sorted(s.drop_last(), x, before);
        lemma_insert_multiset(s.drop_last(), x, before);
        assert forall|i: int, j: int| 0 <= i < j < r.len() implies !before(
            #[trigger] r[j],
            #[trigger] r[i],
        ) by {
            if j < inner.len() {
                assert(!before(inner[j], inner[i]));
            } else {
                lemma_insert_member(s.drop_last(), x, before, i);
                if inner[i] == x {
                    assert(before(x, s.last()));
                } else {
                    let k = choose|k: int| 0 <= k < s.drop_last().len() && s.drop_last()[k] == inner[i];
                    assert(!before(s[s.len() - 1], s[k]));
                }
            }
        }
    }
}

proof fn lemma_insert_member<T>(s: Seq<T>, x: T, before: spec_fn(T, T) -> bool, i: int)
    requires
        0 <= i < insert_sorted(s, x, before).len(),
    ensures
        insert_sorted(s, x, before)[i] == x || exists|k: int|
            0 <= k < s.len() && s[k] == insert_sorted(s, x, before)[i],
    decreases s.len(),
{
    let r = insert_sorted(s, x, before);
    if s.len() == 0 || !before(x, s.last()) {
        if i < s.len() {
            assert(s[i] == r[i]);
        }
    } else {
        let inner = insert_sorted(s.drop_last(), x, before);
        if i < inner.len() {
            lemma_insert_member(s.drop_last(), x, before, i);
            if inner[i] != x {
                let k = choose|k: int| 0 <= k < s.drop_last().len() && s.drop_last()[k] == inner[i];
                assert(s[k] == r[i]);
            }
        } else {
            assert(s[s.len() - 1] == r[i]);
        }
    }
}

/// Under a strict order the sorted items stand in order.
pub proof fn sorted_is_in_order<T>(s: Seq<T>, before: spec_fn(T, T) -> bool)
    requires
        strict_order(before),
    ensures
        in_order(sorted(s, before), before),
    decreases s.len(),
{
    if s.len() > 0 {
        sorted_is_in_order(s.drop_last(), before);
        lemma_insert_in_order(sorted(s.drop_last(), before), s.last(), before);
    }
}

} // verus!
