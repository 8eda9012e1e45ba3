//! The named sibling before each node.

use vstd::prelude::*;

use super::syntax::{found, Syntax, SyntaxTree};

verus! {

pub open spec fn nodes_ok(nodes: Seq<usize>, count: int) -> bool {
    forall|k: int| 0 <= k < nodes.len() ==> #[trigger] nodes[k] < count
}

/// The last named child of `parent` before the node `at`.
pub open spec fn last_named_before(t: Syntax, parent: int, at: int) -> Option<int>
    decreases at - parent,
{
    if at - 1 <= parent {
        None
    } else if t.named(at - 1) && t.parent(at - 1) == parent {
        Some(at - 1)
    } else {
        last_named_before(t, parent, at - 1)
    }
}

/// The named sibling before a node.
pub open spec fn previous_named(t: Syntax, i: int) -> Option<int> {
    if i <= 0 {
        None
    } else {
        last_named_before(t, t.parent(i), i)
    }
}

/// For each node, the named sibling before it.
pub open spec fn previous_ok(t: Syntax, previous: Seq<Option<usize>>) -> bool {
    &&& previous.len() == t.len()
    &&& forall|i: int|
        0 <= i < previous.len() ==> found(#[trigger] previous[i]) == previous_named(t, i) && (
        previous[i] is Some ==> previous[i]->0 < i)
}

proof fn lemma_last_named(t: Syntax, parent: int, at: int)
    requires
        0 <= parent < at,
    ensures
        last_named_before(t, parent, at) is Some ==> parent < last_named_before(t, parent, at)->0
            < at,
    decreases at - parent,
{
    if at - 1 > parent && !(t.named(at - 1) && t.parent(at - 1) == parent) {
        lemma_last_named(t, parent, at - 1);
    }
}

/// For each node, the named sibling before it.
pub fn find_previous(tree: &SyntaxTree) -> (previous: Vec<Option<usize>>)
    requires
        tree.wf(),
    ensures
        previous_ok(tree@, previous@),
{
    let n: usize = tree.nodes.len();
    let mut previous: Vec<Option<usize>> = Vec::new();
    let mut last: Vec<Option<usize>> = Vec::new();
    let mut i: usize = 0;
    while i < n
        invariant
            tree.wf(),
            n == tree@.len(),
            i <= n,
            previous@.len() == i,
            last@.len() == i,
            forall|k: int|
                0 <= k < i ==> found(#[trigger] previous@[k]) == previous_named(tree@, k) && (
                previous@[k] is Some ==> previous@[k]->0 < k),
            forall|p: int|
                0 <= p < i ==> found(#[trigger] last@[p]) == last_named_before(
                    tree@,
                    p,
                    i as int,
                ),
        decreases n - i,
    {
        let ghost before = last@;
        if i == 0 {
            previous.push(None);
        } else {
            assert(tree@.parent_at(i as int));
            let parent: usize = tree.parents[i];
            assert(found(last@[parent as int]) == last_named_before(
                tree@,
                parent as int,
                i as int,
            ));
            proof {
                lemma_last_named(tree@, parent as int, i as int);
            }
            previous.push(last[parent]);
            if tree.nodes[i].named {
                last.set(parent, Some(i));
            }
        }
        last.push(None);
        i = i + 1;
        assert forall|p: int| 0 <= p < i implies found(#[trigger] last@[p]) == last_named_before(
            tree@,
            p,
            i as int,
        ) by {
            if p < i - 1 {
                assert(found(before[p]) == last_named_before(tree@, p, i - 1));
                if i - 1 > 0 {
                    assert(tree@.parent_at(i - 1));
                }
            }
        }
    }
    previous
}

} // verus!
