//! Symmetric subtrees
use vstd::prelude::*;

use crate::object::children;
use crate::object::types::ChildKind;
use crate::object::TopologyObject;
use crate::topology::tree;

verus! {

/// Identical subtrees are so in either order
proof fn lemma_shape_symmetric(objects: Seq<TopologyObject>, a: usize, b: usize)
    requires
        tree::same_shape(objects, a, b),
    ensures
        tree::same_shape(objects, b, a),
    decreases objects.len() - a, 0int,
{
    lemma_shapes_symmetric(
        objects,
        tree::first_below(objects, a),
        tree::first_below(objects, b),
    );
}

/// Lists of identical subtrees are so in either order
proof fn lemma_shapes_symmetric(
    objects: Seq<TopologyObject>,
    a: Option<usize>,
    b: Option<usize>,
)
    requires
        tree::same_shapes(objects, a, b),
    ensures
        tree::same_shapes(objects, b, a),
    decreases
            (match a {
                Some(i) => objects.len() - i,
                None => 0,
            }),
            1int,
{
    if let (Some(i), Some(j)) = (a, b) {
        lemma_shape_symmetric(objects, i, j);
        lemma_shapes_symmetric(
            objects,
            tree::next_after(objects, i),
            tree::next_after(objects, j),
        );
    }
}

/// Subtrees that are identical to the same one are identical
proof fn lemma_shape_transitive(objects: Seq<TopologyObject>, a: usize, b: usize, c: usize)
    requires
        tree::same_shape(objects, a, b),
        tree::same_shape(objects, b, c),
    ensures
        tree::same_shape(objects, a, c),
    decreases objects.len() - a, 0int,
{
    lemma_shapes_transitive(
        objects,
        tree::first_below(objects, a),
        tree::first_below(objects, b),
        tree::first_below(objects, c),
    );
}

/// Lists of subtrees that are identical to the same one are identical
proof fn lemma_shapes_transitive(
    objects: Seq<TopologyObject>,
    a: Option<usize>,
    b: Option<usize>,
    c: Option<usize>,
)
    requires
        tree::same_shapes(objects, a, b),
        tree::same_shapes(objects, b, c),
    ensures
        tree::same_shapes(objects, a, c),
    decreases
            (match a {
                Some(i) => objects.len() - i,
                None => 0,
            }),
            1int,
{
    if let (Some(i), Some(j), Some(k)) = (a, b, c) {
        lemma_shape_transitive(objects, i, j, k);
        lemma_shapes_transitive(
            objects,
            tree::next_after(objects, i),
            tree::next_after(objects, j),
            tree::next_after(objects, k),
        );
    }
}

/// If the subtree that begins with an object is symmetric, its normal children have
/// identical subtrees, which are symmetric too
pub proof fn law_symmetric_children(objects: Seq<TopologyObject>, i: int, j: int, k: int)
    requires
        tree::tree_wf(objects),
        0 <= i < objects.len(),
        objects[i].symmetric_subtree != 0,
        0 <= j < tree::child_ids(objects, i, ChildKind::Normal).len(),
        0 <= k < tree::child_ids(objects, i, ChildKind::Normal).len(),
    ensures
        ({
            let ids = tree::child_ids(objects, i, ChildKind::Normal);
            &&& objects[ids[j]].symmetric_subtree != 0
            &&& tree::same_shape(objects, ids[j] as usize, ids[k] as usize)
        }),
{
    assert(tree::object_wf(objects, i));
    let ids = tree::child_ids(objects, i, ChildKind::Normal);
    assert(objects[ids[j]].symmetric_subtree != 0);
    assert(objects[ids[k]].symmetric_subtree != 0);
    lemma_shape_symmetric(objects, ids[0] as usize, ids[j] as usize);
    lemma_shape_transitive(objects, ids[j] as usize, ids[0] as usize, ids[k] as usize);
}

/// Lists of identical subtrees have the same length, and identical elements
proof fn lemma_identical_lists(
    objects: Seq<TopologyObject>,
    a: Option<usize>,
    b: Option<usize>,
)
    requires
        tree::same_shapes(objects, a, b),
    ensures
        tree::sibling_ids(objects, a).len() == tree::sibling_ids(objects, b).len(),
        forall|k: int|
            0 <= k < tree::sibling_ids(objects, a).len() ==> tree::same_shape(
                objects,
                #[trigger] tree::sibling_ids(objects, a)[k] as usize,
                tree::sibling_ids(objects, b)[k] as usize,
            ),
    decreases
            match a {
                Some(i) => objects.len() - i,
                None => 0,
            },
{
    if let (Some(i), Some(j)) = (a, b) {
        let next_a = tree::next_after(objects, i);
        let next_b = tree::next_after(objects, j);
        lemma_identical_lists(objects, next_a, next_b);
        let rest_a = tree::sibling_ids(objects, next_a);
        let rest_b = tree::sibling_ids(objects, next_b);
        let ids_a = tree::sibling_ids(objects, a);
        let ids_b = tree::sibling_ids(objects, b);
        assert(ids_a =~= seq![i as int] + rest_a);
        assert(ids_b =~= seq![j as int] + rest_b);
        assert forall|k: int| 0 <= k < ids_a.len() implies tree::same_shape(
            objects,
            #[trigger] ids_a[k] as usize,
            ids_b[k] as usize,
        ) by {
            if k > 0 {
                assert(ids_a[k] == rest_a[k - 1] && ids_b[k] == rest_b[k - 1]);
            }
        }
    }
}

/// Objects with identical subtrees have the same type, depth and number of normal
/// children, and the children that have the same rank have identical subtrees
pub proof fn law_identical_subtrees(objects: Seq<TopologyObject>, a: int, b: int, k: int)
    requires
        tree::tree_wf(objects),
        0 <= a < objects.len(),
        0 <= b < objects.len(),
        tree::same_shape(objects, a as usize, b as usize),
        0 <= k,
    ensures
        objects[a].ty() == objects[b].ty(),
        objects[a].at_depth() == objects[b].at_depth(),
        objects[a].arity == objects[b].arity,
        k < objects[a].arity ==> tree::same_shape(
            objects,
            tree::child_ids(objects, a, ChildKind::Normal)[k] as usize,
            tree::child_ids(objects, b, ChildKind::Normal)[k] as usize,
        ),
{
    assert(objects[a].id == a && objects[b].id == b);
    lemma_first_below(objects, a);
    lemma_first_below(objects, b);
    lemma_identical_lists(objects, objects[a].first_child, objects[b].first_child);
    assert(tree::object_wf(objects, a));
    assert(tree::object_wf(objects, b));
    let ids = tree::child_ids(objects, a, ChildKind::Normal);
    if k < ids.len() {
        assert(tree::same_shape(
            objects,
            ids[k] as usize,
            tree::child_ids(objects, b, ChildKind::Normal)[k] as usize,
        ));
    }
}

/// In a tree, the first child of an object comes after it
proof fn lemma_first_below(objects: Seq<TopologyObject>, i: int)
    requires
        tree::tree_wf(objects),
        0 <= i < objects.len(),
    ensures
        tree::first_below(objects, i as usize) == objects[i].first_child,
        objects[i].first_child matches Some(first) ==> first < objects.len(),
{
    assert(tree::object_wf(objects, i));
    assert(objects[i].id == i);
    children::law_child_list(objects, i, ChildKind::Normal);
    if let Some(first) = objects[i].first_child {
        assert(tree::object_wf(objects, first as int));
    }
}

/// Lists of siblings are identical if they have the same length and identical elements
proof fn lemma_lists_identical(objects: Seq<TopologyObject>, a: Option<usize>, b: Option<usize>)
    requires
        a matches Some(i) ==> i < objects.len(),
        b matches Some(j) ==> j < objects.len(),
        tree::sibling_ids(objects, a).len() == tree::sibling_ids(objects, b).len(),
        forall|k: int|
            0 <= k < tree::sibling_ids(objects, a).len() ==> tree::same_shape(
                objects,
                #[trigger] tree::sibling_ids(objects, a)[k] as usize,
                tree::sibling_ids(objects, b)[k] as usize,
            ),
    ensures
        tree::same_shapes(objects, a, b),
    decreases
            match a {
                Some(i) => objects.len() - i,
                None => 0,
            },
{
    if let (Some(i), Some(j)) = (a, b) {
        let next_a = tree::next_after(objects, i);
        let next_b = tree::next_after(objects, j);
        let rest_a = tree::sibling_ids(objects, next_a);
        let rest_b = tree::sibling_ids(objects, next_b);
        let ids_a = tree::sibling_ids(objects, a);
        let ids_b = tree::sibling_ids(objects, b);
        assert(ids_a =~= seq![i as int] + rest_a);
        assert(ids_b =~= seq![j as int] + rest_b);
        assert(tree::same_shape(objects, ids_a[0] as usize, ids_b[0] as usize));
        assert forall|k: int| 0 <= k < rest_a.len() implies tree::same_shape(
            objects,
            #[trigger] rest_a[k] as usize,
            rest_b[k] as usize,
        ) by {
            assert(ids_a[k + 1] == rest_a[k] && ids_b[k + 1] == rest_b[k]);
        }
        lemma_lists_identical(objects, next_a, next_b);
    } else if let Some(i) = a {
        assert(tree::sibling_ids(objects, a)[0] == i);
    } else if let Some(j) = b {
        assert(tree::sibling_ids(objects, b)[0] == j);
    }
}

/// Objects of the same type and depth have identical subtrees if they have as many normal
/// children, and children of the same rank have identical subtrees
pub proof fn law_subtrees_identical(objects: Seq<TopologyObject>, a: int, b: int)
    requires
        tree::tree_wf(objects),
        0 <= a < objects.len(),
        0 <= b < objects.len(),
        objects[a].ty() == objects[b].ty(),
        objects[a].at_depth() == objects[b].at_depth(),
        objects[a].arity == objects[b].arity,
        forall|k: int|
            0 <= k < objects[a].arity ==> tree::same_shape(
                objects,
                #[trigger] tree::child_ids(objects, a, ChildKind::Normal)[k] as usize,
                tree::child_ids(objects, b, ChildKind::Normal)[k] as usize,
            ),
    ensures
        tree::same_shape(objects, a as usize, b as usize),
{
    assert(objects[a].id == a && objects[b].id == b);
    lemma_same_codes(objects, a, b);
    lemma_first_below(objects, a);
    lemma_first_below(objects, b);
    assert(tree::same_shapes(objects, objects[a].first_child, objects[b].first_child)) by {
        lemma_child_counts(objects, a);
        lemma_child_counts(objects, b);
        let ids_a = tree::sibling_ids(objects, objects[a].first_child);
        let ids_b = tree::sibling_ids(objects, objects[b].first_child);
        assert(ids_a == tree::child_ids(objects, a, ChildKind::Normal));
        assert(ids_b == tree::child_ids(objects, b, ChildKind::Normal));
        assert forall|k: int| 0 <= k < ids_a.len() implies tree::same_shape(
            objects,
            #[trigger] ids_a[k] as usize,
            ids_b[k] as usize,
        ) by {
            let id = tree::child_ids(objects, a, ChildKind::Normal)[k];
        }
        lemma_lists_identical(objects, objects[a].first_child, objects[b].first_child);
    }
}

/// Objects of the same type and depth have the same codes
proof fn lemma_same_codes(objects: Seq<TopologyObject>, a: int, b: int)
    requires
        tree::tree_wf(objects),
        0 <= a < objects.len(),
        0 <= b < objects.len(),
        objects[a].ty() == objects[b].ty(),
        objects[a].at_depth() == objects[b].at_depth(),
    ensures
        objects[a].object_type == objects[b].object_type,
        objects[a].depth == objects[b].depth,
{
    assert(objects[a].identified() && objects[b].identified());
}

/// An object has as many normal children as it says
proof fn lemma_child_counts(objects: Seq<TopologyObject>, i: int)
    requires
        tree::tree_wf(objects),
        0 <= i < objects.len(),
    ensures
        tree::sibling_ids(objects, objects[i].first_child).len() == objects[i].arity,
{
    children::law_child_list(objects, i, ChildKind::Normal);
}

} // verus!
