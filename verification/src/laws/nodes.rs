//! How nodes, their children and their fields hang together.

use vstd::prelude::*;

use crate::languages::syntax::Syntax;

verus! {

proof fn lemma_siblings(t: Syntax, i: int, c: int)
    requires
        t.wf(),
        0 <= i < c <= t.end(i),
        0 <= i < t.len(),
        c < t.end(i) ==> t.nodes[c].depth == t.nodes[i].depth + 1,
    ensures
        forall|k: int|
            0 <= k < t.siblings_from(c, t.end(i)).len() ==> {
                let child = #[trigger] t.siblings_from(c, t.end(i))[k];
                c <= child < t.end(i) && t.nodes[child].depth == t.nodes[i].depth + 1
            },
        forall|n: int|
            c <= n < t.end(i) && #[trigger] t.nodes[n].depth == t.nodes[i].depth + 1
                ==> t.siblings_from(c, t.end(i)).contains(n),
    decreases t.end(i) - c,
{
    assert(t.end_at(i));
    if c < t.end(i) {
        assert(t.end_at(c));
        let e = t.end(c);
        assert(e <= t.end(i)) by {
            if e > t.end(i) {
                assert(t.nodes[t.end(i)].depth > t.nodes[c].depth);
            }
        }
        if e < t.end(i) {
            assert(t.nodes[e].depth > t.nodes[i].depth);
        }
        lemma_siblings(t, i, e);
        let rest = t.siblings_from(e, t.end(i));
        let all = t.siblings_from(c, t.end(i));
        assert(all =~= seq![c] + rest);
        assert forall|k: int| 0 <= k < all.len() implies {
            let child = #[trigger] all[k];
            c <= child < t.end(i) && t.nodes[child].depth == t.nodes[i].depth + 1
        } by {
            if k > 0 {
                assert(all[k] == rest[k - 1]);
            }
        }
        assert forall|n: int|
            c <= n < t.end(i) && #[trigger] t.nodes[n].depth == t.nodes[i].depth
                + 1 implies all.contains(n) by {
            if n == c {
                assert(all[0] == n);
            } else if n < e {
                assert(t.nodes[n].depth > t.nodes[c].depth);
            } else {
                assert(rest.contains(n));
                let k = choose|k: int| 0 <= k < rest.len() && rest[k] == n;
                assert(all[k + 1] == n);
            }
        }
    }
}

proof fn lemma_first_child(t: Syntax, i: int)
    requires
        t.wf(),
        0 <= i < t.len(),
        i + 1 < t.end(i),
    ensures
        t.nodes[i + 1].depth == t.nodes[i].depth + 1,
{
    assert(t.end_at(i));
    assert(crate::languages::syntax::nested_at(t.nodes, i + 1));
}

/// A node inside another one, one level deeper, has it as its parent.
proof fn lemma_parent(t: Syntax, i: int, n: int)
    requires
        t.wf(),
        0 <= i < n < t.end(i),
        i < t.len(),
    ensures
        t.parent(n) == i <==> t.nodes[n].depth == t.nodes[i].depth + 1,
{
    assert(t.end_at(i));
    assert(t.parent_at(n));
    let p = t.parent(n);
    if t.nodes[n].depth == t.nodes[i].depth + 1 {
        if p < i {
            assert(t.nodes[i].depth >= t.nodes[n].depth);
        }
        if p > i {
            assert(t.nodes[p].depth > t.nodes[i].depth);
        }
    }
}

/// The children of a node are the nodes that have it as their parent.
pub proof fn children_are_nodes_below(t: Syntax, i: int)
    requires
        t.wf(),
        0 <= i < t.len(),
    ensures
        forall|k: int|
            0 <= k < t.children(i).len() ==> {
                let child = #[trigger] t.children(i)[k];
                i < child < t.end(i) <= t.len() && t.parent(child) == i
            },
        forall|n: int|
            i < n < t.len() && #[trigger] t.parent(n) == i ==> t.children(i).contains(n),
{
    assert(t.end_at(i));
    if i + 1 < t.end(i) {
        lemma_first_child(t, i);
    }
    lemma_siblings(t, i, i + 1);
    assert forall|k: int| 0 <= k < t.children(i).len() implies {
        let child = #[trigger] t.children(i)[k];
        i < child < t.end(i) <= t.len() && t.parent(child) == i
    } by {
        lemma_parent(t, i, t.children(i)[k]);
    }
    assert forall|n: int| i < n < t.len() && #[trigger] t.parent(n) == i implies t.children(
        i,
    ).contains(n) by {
        assert(t.parent_at(n));
        if n >= t.end(i) {
            let e = t.end(i);
            assert(t.nodes[e].depth <= t.nodes[i].depth);
            if n > e {
                assert(t.nodes[e].depth >= t.nodes[n].depth);
            }
        } else {
            lemma_parent(t, i, n);
        }
    }
}

proof fn lemma_field(t: Syntax, c: int, stop: int, field: Seq<char>)
    ensures
        t.find_field(c, stop, field) matches Some(n) ==> t.siblings_from(c, stop).contains(n)
            && t.nodes[n].field@ == field,
        t.find_field(c, stop, field) is None ==> forall|k: int|
            0 <= k < t.siblings_from(c, stop).len() ==> t.nodes[#[trigger] t.siblings_from(
                c,
                stop,
            )[k]].field@ != field,
    decreases crate::languages::syntax::remaining(c, stop),
{
    if c < stop && t.end(c) > c {
        let rest = t.siblings_from(t.end(c), stop);
        let all = t.siblings_from(c, stop);
        assert(all == seq![c] + rest);
        assert(all[0] == c);
        lemma_field(t, t.end(c), stop, field);
        match t.find_field(t.end(c), stop, field) {
            Some(n) => {
                let k = choose|k: int| 0 <= k < rest.len() && rest[k] == n;
                assert(all[k + 1] == n);
            },
            None => {
                assert forall|k: int| 0 <= k < all.len() && t.nodes[c].field@
                    != field implies t.nodes[#[trigger] all[k]].field@ != field by {
                    if k > 0 {
                        assert(all[k] == rest[k - 1]);
                    }
                }
            },
        }
    }
}

/// A field of a node is filled by a child that carries the field's name, where there is
/// one.
pub proof fn fields_are_children(t: Syntax, i: int, field: Seq<char>)
    requires
        t.wf(),
        0 <= i < t.len(),
    ensures
        t.field(i, field) matches Some(n) ==> i < n < t.len() && t.parent(n) == i
            && t.nodes[n].field@ == field,
        t.field(i, field) is None ==> forall|n: int|
            i < n < t.len() && #[trigger] t.parent(n) == i ==> t.nodes[n].field@ != field,
{
    children_are_nodes_below(t, i);
    lemma_field(t, i + 1, t.end(i), field);
    match t.field(i, field) {
        Some(n) => {
            let k = choose|k: int| 0 <= k < t.children(i).len() && t.children(i)[k] == n;
            assert(t.children(i)[k] == n);
        },
        None => {
            assert forall|n: int| i < n < t.len() && #[trigger] t.parent(n)
                == i implies t.nodes[n].field@ != field by {
                let k = choose|k: int| 0 <= k < t.children(i).len() && t.children(i)[k] == n;
                assert(t.nodes[t.children(i)[k]].field@ != field);
            }
        },
    }
}

proof fn lemma_named(t: Syntax, c: int, stop: int)
    ensures
        forall|n: int| #[trigger]
            t.named_from(c, stop).contains(n) <==> t.siblings_from(c, stop).contains(n) && t.named(
                n,
            ),
    decreases crate::languages::syntax::remaining(c, stop),
{
    if c < stop && t.end(c) > c {
        let (rest, all) = (t.siblings_from(t.end(c), stop), t.siblings_from(c, stop));
        let (some, named) = (t.named_from(t.end(c), stop), t.named_from(c, stop));
        lemma_named(t, t.end(c), stop);
        assert(all == seq![c] + rest);
        assert(all[0] == c);
        assert forall|n: int| #[trigger] named.contains(n) <==> all.contains(n) && t.named(n) by {
            assert(some.contains(n) <==> rest.contains(n) && t.named(n));
            if rest.contains(n) {
                let k = choose|k: int| 0 <= k < rest.len() && rest[k] == n;
                assert(all[k + 1] == n);
            }
            if all.contains(n) && n != c {
                let k = choose|k: int| 0 <= k < all.len() && all[k] == n;
                assert(rest[k - 1] == n);
            }
            if t.named(c) {
                assert(named == seq![c] + some);
                assert(named[0] == c);
                if some.contains(n) {
                    let k = choose|k: int| 0 <= k < some.len() && some[k] == n;
                    assert(named[k + 1] == n);
                }
                if named.contains(n) && n != c {
                    let k = choose|k: int| 0 <= k < named.len() && named[k] == n;
                    assert(some[k - 1] == n);
                }
            }
        }
    }
}

/// The named children of a node are the nodes with a name that have it as their parent.
pub proof fn named_children_are_named(t: Syntax, i: int)
    requires
        t.wf(),
        0 <= i < t.len(),
    ensures
        forall|k: int|
            0 <= k < t.named_children(i).len() ==> {
                let child = #[trigger] t.named_children(i)[k];
                i < child < t.end(i) <= t.len() && t.parent(child) == i && t.nodes[child].named
            },
        forall|n: int|
            i < n < t.len() && #[trigger] t.parent(n) == i && t.nodes[n].named
                ==> t.named_children(i).contains(n),
{
    children_are_nodes_below(t, i);
    lemma_named(t, i + 1, t.end(i));
    assert forall|k: int| 0 <= k < t.named_children(i).len() implies {
        let child = #[trigger] t.named_children(i)[k];
        i < child < t.end(i) <= t.len() && t.parent(child) == i && t.nodes[child].named
    } by {
        let child = t.named_children(i)[k];
        assert(t.named_children(i).contains(child));
        let n = choose|n: int| 0 <= n < t.children(i).len() && t.children(i)[n] == child;
        assert(t.children(i)[n] == child);
    }
    assert forall|n: int|
        i < n < t.len() && #[trigger] t.parent(n) == i && t.nodes[n].named implies t.named_children(
        i,
    ).contains(n) by {
        assert(t.children(i).contains(n));
    }
}

} // verus!
