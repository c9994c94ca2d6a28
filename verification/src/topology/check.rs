//! Check that a list of objects makes up the tree of a topology
use vstd::prelude::*;

use crate::bitmap::{CpuSet, NodeSet};
use crate::object::types::{ChildKind, ObjectType};
use crate::object::{TopologyObject, HWLOC_UNKNOWN_INDEX};
use crate::topology::tree;

verus! {

/// Truth that all objects have the position that they say, and a known type and
/// depth
pub open spec fn all_identified(objects: Seq<TopologyObject>) -> bool {
    forall|i: int|
        #![trigger objects[i]]
        0 <= i < objects.len() ==> objects[i].id == i && objects[i].identified()
}

/// Truth that a list of objects makes up the tree of a topology
pub fn is_tree(objects: &Vec<TopologyObject>) -> (truth: bool)
    ensures
        truth == tree::tree_wf(objects@),
{
    if objects.len() == 0 {
        return false;
    }
    let mut i: usize = 0;
    while i < objects.len()
        invariant
            i <= objects@.len(),
            all_identified(objects@.take(i as int)),
        decreases objects@.len() - i,
    {
        if objects[i].id != i || !objects[i].is_identified() {
            assert(!(objects@[i as int].id == i && objects@[i as int].identified()));
            return false;
        }
        assert forall|j: int| 0 <= j < i + 1 implies (#[trigger] objects@.take(i + 1)[j]).id == j
            && objects@.take(i + 1)[j].identified() by {
            if j < i {
                assert(objects@.take(i as int)[j] == objects@[j]);
            }
        }
        i += 1;
    }
    assert(objects@.take(i as int) =~= objects@);
    let mut i: usize = 0;
    while i < objects.len()
        invariant
            i <= objects@.len(),
            all_identified(objects@),
            forall|j: int| 0 <= j < i ==> #[trigger] tree::object_wf(objects@, j),
        decreases objects@.len() - i,
    {
        if !fits(objects, i) {
            assert(!tree::object_wf(objects@, i as int));
            return false;
        }
        i += 1;
    }
    let mut i: usize = 0;
    while i < objects.len()
        invariant
            i <= objects@.len(),
            all_identified(objects@),
            forall|j: int| 0 <= j < i ==> #[trigger] tree::nodes_wf(objects@, j),
        decreases objects@.len() - i,
    {
        if !nodes_fit(objects, i) {
            assert(!tree::nodes_wf(objects@, i as int));
            return false;
        }
        i += 1;
    }
    true
}

/// Truth that object `i` fits in the tree
fn fits(objects: &Vec<TopologyObject>, i: usize) -> (truth: bool)
    requires
        all_identified(objects@),
        i < objects@.len(),
    ensures
        truth == tree::object_wf(objects@, i as int),
{
    if !parent_fits(objects, i) || !cousins_fit(objects, i) || !siblings_fit(objects, i) {
        return false;
    }
    if !index_fits(objects, i) || !os_index_fits(objects, i) || !memory_fits(objects, i)
        || !sets_fit(objects, i) {
        return false;
    }
    child_list_fits(objects, i, ChildKind::Normal) && child_list_fits(objects, i, ChildKind::Memory)
        && child_list_fits(objects, i, ChildKind::Io) && child_list_fits(
        objects,
        i,
        ChildKind::Misc,
    ) && normal_children_fit(objects, i) && cpus_fit(objects, i) && symmetry_fits(objects, i)
        && placement_fits(objects, i)
}

fn parent_fits(objects: &Vec<TopologyObject>, i: usize) -> (truth: bool)
    requires
        all_identified(objects@),
        i < objects@.len(),
    ensures
        truth == tree::parent_wf(objects@, i as int),
{
    match objects[i].parent {
        None => i == 0 && objects[i].depth == 0,
        Some(parent) => parent < i && (!objects[i].object_type().is_normal() || (0
            <= objects[parent].depth && objects[parent].depth < objects[i].depth && (
        objects[0].symmetric_subtree == 0 || objects[i].depth - 1 == objects[parent].depth))),
    }
}

/// Truth that a reference designates object `i`
fn points_to(link: Option<usize>, i: usize) -> (truth: bool)
    ensures
        truth == (link == Some(i)),
{
    match link {
        Some(id) => id == i,
        None => false,
    }
}

/// Truth that no object of the same depth comes after object `i`
fn is_last_cousin(objects: &Vec<TopologyObject>, i: usize) -> (truth: bool)
    requires
        i < objects@.len(),
    ensures
        truth == forall|j: int|
            0 <= j < objects@.len() && (#[trigger] objects@[j]).depth == objects@[i as int].depth
                ==> objects@[j].logical_index <= objects@[i as int].logical_index,
{
    let mut j: usize = 0;
    while j < objects.len()
        invariant
            j <= objects@.len(),
            i < objects@.len(),
            forall|k: int|
                0 <= k < j && (#[trigger] objects@[k]).depth == objects@[i as int].depth
                    ==> objects@[k].logical_index <= objects@[i as int].logical_index,
        decreases objects@.len() - j,
    {
        if objects[j].depth == objects[i].depth && objects[j].logical_index
            > objects[i].logical_index {
            assert(objects@[j as int].depth == objects@[i as int].depth);
            return false;
        }
        j += 1;
    }
    true
}

/// Truth that no object of the same depth comes before object `i`
fn is_first_cousin(objects: &Vec<TopologyObject>, i: usize) -> (truth: bool)
    requires
        i < objects@.len(),
    ensures
        truth == forall|j: int|
            0 <= j < objects@.len() && (#[trigger] objects@[j]).depth == objects@[i as int].depth
                ==> objects@[j].logical_index >= objects@[i as int].logical_index,
{
    let mut j: usize = 0;
    while j < objects.len()
        invariant
            j <= objects@.len(),
            i < objects@.len(),
            forall|k: int|
                0 <= k < j && (#[trigger] objects@[k]).depth == objects@[i as int].depth
                    ==> objects@[k].logical_index >= objects@[i as int].logical_index,
        decreases objects@.len() - j,
    {
        if objects[j].depth == objects[i].depth && objects[j].logical_index
            < objects[i].logical_index {
            assert(objects@[j as int].depth == objects@[i as int].depth);
            return false;
        }
        j += 1;
    }
    true
}

fn cousins_fit(objects: &Vec<TopologyObject>, i: usize) -> (truth: bool)
    requires
        all_identified(objects@),
        i < objects@.len(),
    ensures
        truth == tree::cousins_wf(objects@, i as int),
{
    let next_fits = match objects[i].next_cousin {
        None => is_last_cousin(objects, i),
        Some(next) => next < objects.len() && points_to(objects[next].prev_cousin, i)
            && objects[next].object_type == objects[i].object_type && objects[next].depth
            == objects[i].depth && objects[next].logical_index > 0 && objects[next].logical_index
            - 1 == objects[i].logical_index,
    };
    let prev_fits = match objects[i].prev_cousin {
        None => is_first_cousin(objects, i),
        Some(prev) => prev < objects.len() && points_to(objects[prev].next_cousin, i),
    };
    next_fits && prev_fits
}

fn index_fits(objects: &Vec<TopologyObject>, i: usize) -> (truth: bool)
    requires
        i < objects@.len(),
    ensures
        truth == tree::index_wf(objects@, i as int),
{
    let mut j: usize = 0;
    while j < i
        invariant
            j <= i < objects@.len(),
            forall|k: int|
                0 <= k < j && (#[trigger] objects@[k]).depth == objects@[i as int].depth
                    ==> objects@[k].logical_index != objects@[i as int].logical_index,
        decreases i - j,
    {
        if objects[j].depth == objects[i].depth && objects[j].logical_index
            == objects[i].logical_index {
            assert(!tree::index_wf(objects@, i as int));
            return false;
        }
        j += 1;
    }
    true
}

fn os_index_fits(objects: &Vec<TopologyObject>, i: usize) -> (truth: bool)
    requires
        all_identified(objects@),
        i < objects@.len(),
    ensures
        truth == tree::os_index_wf(objects@, i as int),
{
    let ty = objects[i].object_type();
    if !matches!(ty, ObjectType::PU | ObjectType::NUMANode) {
        return true;
    }
    if objects[i].os_index == HWLOC_UNKNOWN_INDEX {
        return false;
    }
    let mut j: usize = 0;
    while j < i
        invariant
            all_identified(objects@),
            j <= i < objects@.len(),
            ty == objects@[i as int].ty(),
            ty is PU || ty is NUMANode,
            objects@[i as int].os_index != HWLOC_UNKNOWN_INDEX,
            forall|k: int|
                0 <= k < j && (#[trigger] objects@[k]).ty() == ty ==> objects@[k].os_index
                    != objects@[i as int].os_index,
        decreases i - j,
    {
        if objects[j].object_type() == ty && objects[j].os_index == objects[i].os_index {
            assert(objects@[j as int].ty() == ty);
            return false;
        }
        j += 1;
    }
    true
}

fn memory_fits(objects: &Vec<TopologyObject>, i: usize) -> (truth: bool)
    requires
        all_identified(objects@),
        i < objects@.len(),
        tree::parent_wf(objects@, i as int),
    ensures
        truth == tree::memory_wf(objects@, i as int),
{
    let ty = objects[i].object_type();
    if !ty.is_memory() {
        return true;
    }
    let parent_fits = match objects[i].parent {
        Some(parent) => {
            let parent_ty = objects[parent].object_type();
            parent_ty.is_normal() || matches!(parent_ty, ObjectType::MemCache)
        },
        None => false,
    };
    parent_fits && (objects[i].memory_arity == 0) == matches!(ty, ObjectType::NUMANode)
}

/// Truth that object `a` is an ancestor of object `i`
fn is_above(objects: &Vec<TopologyObject>, a: usize, i: usize) -> (truth: bool)
    requires
        i < objects@.len(),
    ensures
        truth == tree::ancestor_ids(objects@, i as int).contains(a as int),
    decreases i,
{
    match objects[i].parent {
        Some(parent) => {
            if parent >= i {
                return false;
            }
            let ghost chain = tree::ancestor_ids(objects@, i as int);
            let ghost above = tree::ancestor_ids(objects@, parent as int);
            assert(chain[0] == parent);
            assert forall|k: int| 0 <= k < above.len() implies chain[k + 1]
                == #[trigger] above[k] by {
            }
            if parent == a {
                return true;
            }
            let truth = is_above(objects, a, parent);
            proof {
                if chain.contains(a as int) {
                    let k = chain.index_of(a as int);
                    assert(above[k - 1] == a);
                }
                if above.contains(a as int) {
                    let k = above.index_of(a as int);
                    assert(chain[k + 1] == a);
                }
            }
            truth
        },
        None => false,
    }
}

/// First object of the main tree on the way from object `i` to the root
fn attachment(objects: &Vec<TopologyObject>, i: usize) -> (id: usize)
    requires
        all_identified(objects@),
        i < objects@.len(),
    ensures
        id == tree::attachment(objects@, i as int),
        id <= i,
    decreases i,
{
    if objects[i].object_type().is_normal() {
        return i;
    }
    match objects[i].parent {
        Some(parent) => if parent < i {
            attachment(objects, parent)
        } else {
            i
        },
        None => i,
    }
}

/// NUMA nodes near object `i`, out of the first `k` objects
spec fn near_among(objects: Seq<TopologyObject>, i: int, k: int) -> Set<nat> {
    Set::new(|node: nat| exists|m: int| m < k && #[trigger] tree::is_node_near(objects, i, m, node))
}

fn nodes_fit(objects: &Vec<TopologyObject>, i: usize) -> (truth: bool)
    requires
        all_identified(objects@),
        i < objects@.len(),
    ensures
        truth == tree::nodes_wf(objects@, i as int),
{
    let ty = objects[i].object_type();
    if !ty.is_normal() && !ty.is_memory() {
        return true;
    }
    let mut near = NodeSet::new();
    let mut some = false;
    let mut m: usize = 0;
    assert(near@ =~= near_among(objects@, i as int, 0));
    while m < objects.len()
        invariant
            all_identified(objects@),
            i < objects@.len(),
            ty == objects@[i as int].ty(),
            m <= objects@.len(),
            near@ == near_among(objects@, i as int, m as int),
            some == exists|k: int| 0 <= k < m && (#[trigger] objects@[k]).ty() is NUMANode,
        decreases objects@.len() - m,
    {
        let ghost before = near@;
        let is_node = matches!(objects[m].object_type(), ObjectType::NUMANode);
        if is_node {
            assert(objects@[m as int].ty() is NUMANode);
            some = true;
            if m == i || is_above(objects, i, m) || (ty.is_normal() && is_above(
                objects,
                attachment(objects, m),
                i,
            )) {
                near.set(objects[m].os_index as usize);
            }
        }
        proof {
            assert forall|node: nat| #[trigger]
                near@.contains(node) == near_among(objects@, i as int, m + 1).contains(node) by {
                if before.contains(node) {
                    let k = choose|k: int|
                        k < m && #[trigger] tree::is_node_near(objects@, i as int, k, node);
                    assert(tree::is_node_near(objects@, i as int, k, node));
                }
                if near@.contains(node) && !before.contains(node) {
                    assert(tree::is_node_near(objects@, i as int, m as int, node));
                }
                if near_among(objects@, i as int, m + 1).contains(node) {
                    let k = choose|k: int|
                        k < m + 1 && #[trigger] tree::is_node_near(objects@, i as int, k, node);
                    assert(tree::is_node_near(objects@, i as int, k, node));
                }
            }
            assert(near@ =~= near_among(objects@, i as int, m + 1));
        }
        m += 1;
    }
    assert(some == tree::has_nodes(objects@));
    assert(near_among(objects@, i as int, m as int) =~= Set::new(
        |node: nat| exists|k: int| #[trigger] tree::is_node_near(objects@, i as int, k, node),
    ));
    match &objects[i].nodeset {
        Some(nodeset) => if some {
            nodeset.same(&near)
        } else {
            nodeset.same(&NodeSet::full())
        },
        None => false,
    }
}

/// Truth that the subtrees which begin with two objects are identical
fn identical(objects: &Vec<TopologyObject>, a: usize, b: usize) -> (truth: bool)
    requires
        a < objects@.len(),
        b < objects@.len(),
    ensures
        truth == tree::same_shape(objects@, a, b),
    decreases objects@.len() - a, 0int,
{
    objects[a].object_type == objects[b].object_type && objects[a].depth == objects[b].depth
        && identical_lists(objects, first_below(objects, a), first_below(objects, b))
}

/// Truth that the subtrees which begin with two objects are identical, and that so are
/// those which begin with the siblings that come after them
fn identical_lists(objects: &Vec<TopologyObject>, a: Option<usize>, b: Option<usize>) -> (truth:
    bool)
    requires
        a matches Some(i) ==> i < objects@.len(),
        b matches Some(j) ==> j < objects@.len(),
    ensures
        truth == tree::same_shapes(objects@, a, b),
    decreases
            (match a {
                Some(i) => objects@.len() - i,
                None => 0,
            }),
            1int,
{
    match (a, b) {
        (Some(i), Some(j)) => identical(objects, i, j) && identical_lists(
            objects,
            next_after(objects, i),
            next_after(objects, j),
        ),
        (None, None) => true,
        _ => false,
    }
}

/// First normal child of object `i`, if there is one
fn first_below(objects: &Vec<TopologyObject>, i: usize) -> (first: Option<usize>)
    requires
        i < objects@.len(),
    ensures
        first == tree::first_below(objects@, i),
        first matches Some(id) ==> i < id < objects@.len(),
{
    match objects[i].first_child {
        Some(first) => if i < first && first < objects.len() {
            Some(first)
        } else {
            None
        },
        None => None,
    }
}

/// Next sibling of object `i`, if there is one
fn next_after(objects: &Vec<TopologyObject>, i: usize) -> (next: Option<usize>)
    requires
        i < objects@.len(),
    ensures
        next == tree::next_after(objects@, i),
        next matches Some(id) ==> i < id < objects@.len(),
{
    match objects[i].next_sibling {
        Some(next) => if i < next && next < objects.len() {
            Some(next)
        } else {
            None
        },
        None => None,
    }
}

fn symmetry_fits(objects: &Vec<TopologyObject>, i: usize) -> (truth: bool)
    requires
        i < objects@.len(),
    ensures
        truth == tree::symmetric_wf(objects@, i as int),
{
    if objects[i].symmetric_subtree == 0 {
        return true;
    }
    let ids = siblings(objects, objects[i].first_child);
    let ghost all = tree::child_ids(objects@, i as int, ChildKind::Normal);
    let mut k: usize = 0;
    while k < ids.len()
        invariant
            k <= ids@.len(),
            i < objects@.len(),
            objects@[i as int].symmetric_subtree != 0,
            all == tree::child_ids(objects@, i as int, ChildKind::Normal),
            all == ids@.map_values(|id: usize| id as int),
            forall|j: int| 0 <= j < ids@.len() ==> #[trigger] ids@[j] < objects@.len(),
            forall|j: int|
                0 <= j < k ==> objects@[#[trigger] all[j]].symmetric_subtree != 0
                    && tree::same_shape(objects@, all[0] as usize, all[j] as usize),
        decreases ids@.len() - k,
    {
        assert(all[0] == ids@[0] && all[k as int] == ids@[k as int]);
        if objects[ids[k]].symmetric_subtree == 0 || !identical(objects, ids[0], ids[k]) {
            return false;
        }
        k += 1;
    }
    true
}

/// Truth that two references designate the same object
fn same_link(a: Option<usize>, b: Option<usize>) -> (truth: bool)
    ensures
        truth == (a == b),
{
    match (a, b) {
        (Some(x), Some(y)) => x == y,
        (None, None) => true,
        _ => false,
    }
}

fn siblings_fit(objects: &Vec<TopologyObject>, i: usize) -> (truth: bool)
    requires
        all_identified(objects@),
        i < objects@.len(),
    ensures
        truth == tree::siblings_wf(objects@, i as int),
{
    let next_fits = match objects[i].next_sibling {
        None => true,
        Some(next) => i < next && next < objects.len() && points_to(objects[next].prev_sibling, i)
            && same_link(objects[next].parent, objects[i].parent)
            && objects[next].object_type().child_kind() == objects[i].object_type().child_kind()
            && objects[next].sibling_rank > 0 && objects[next].sibling_rank - 1
            == objects[i].sibling_rank,
    };
    let prev_fits = match objects[i].prev_sibling {
        None => true,
        Some(prev) => prev < i && points_to(objects[prev].next_sibling, i),
    };
    next_fits && prev_fits
}

fn sets_fit(objects: &Vec<TopologyObject>, i: usize) -> (truth: bool)
    requires
        all_identified(objects@),
        i < objects@.len(),
        tree::parent_wf(objects@, i as int),
    ensures
        truth == tree::sets_wf(objects@, i as int),
{
    let object = &objects[i];
    let ty = object.object_type();
    if ty.is_io() || matches!(ty, ObjectType::Misc) {
        return object.cpuset.is_none() && object.complete_cpuset.is_none()
            && object.nodeset.is_none() && object.complete_nodeset.is_none();
    }
    match (&object.cpuset, &object.complete_cpuset, &object.nodeset, &object.complete_nodeset) {
        (Some(cpuset), Some(complete_cpuset), Some(nodeset), Some(complete_nodeset)) => {
            let nested = match object.parent {
                None => true,
                Some(parent) => match &objects[parent].cpuset {
                    Some(parent_cpuset) => parent_cpuset.includes(cpuset),
                    None => false,
                },
            };
            nested && complete_cpuset.includes(cpuset) && complete_nodeset.includes(nodeset)
        },
        _ => false,
    }
}

/// First child of an object in one of its child lists
fn first_child(object: &TopologyObject, kind: ChildKind) -> (first: Option<usize>)
    ensures
        first == tree::first_child_id(*object, kind),
{
    match kind {
        ChildKind::Normal => object.first_child,
        ChildKind::Memory => object.memory_first_child,
        ChildKind::Io => object.io_first_child,
        ChildKind::Misc => object.misc_first_child,
    }
}

/// Number of children of an object in one of its child lists
fn arity(object: &TopologyObject, kind: ChildKind) -> (arity: u32)
    ensures
        arity == tree::child_count(*object, kind),
{
    match kind {
        ChildKind::Normal => object.arity,
        ChildKind::Memory => object.memory_arity,
        ChildKind::Io => object.io_arity,
        ChildKind::Misc => object.misc_arity,
    }
}

/// Object `start` and the siblings that come after it
fn siblings(objects: &Vec<TopologyObject>, start: Option<usize>) -> (ids: Vec<usize>)
    ensures
        ids@.map_values(|id: usize| id as int) == tree::sibling_ids(objects@, start),
        forall|k: int| 0 <= k < ids@.len() ==> #[trigger] ids@[k] < objects@.len(),
{
    let ghost all = tree::sibling_ids(objects@, start);
    let mut ids: Vec<usize> = Vec::new();
    let mut current = start;
    assert(ids@.map_values(|id: usize| id as int) + tree::sibling_ids(objects@, current) =~= all);
    loop
        invariant
            ids@.map_values(|id: usize| id as int) + tree::sibling_ids(objects@, current) == all,
            forall|k: int| 0 <= k < ids@.len() ==> #[trigger] ids@[k] < objects@.len(),
        ensures
            ids@.map_values(|id: usize| id as int) == all,
        decreases
                match current {
                    Some(id) => if id < objects@.len() {
                        objects@.len() + 1 - id
                    } else {
                        1
                    },
                    None => 0,
                },
    {
        let ghost before = ids@;
        match current {
            Some(id) => {
                if id >= objects.len() {
                    assert(before.map_values(|id: usize| id as int) =~= all);
                    break ;
                }
                ids.push(id);
                current = match objects[id].next_sibling {
                    Some(next) => if id < next && next < objects.len() {
                        Some(next)
                    } else {
                        None
                    },
                    None => None,
                };
                assert(ids@.map_values(|id: usize| id as int) =~= before.map_values(
                    |id: usize| id as int,
                ).push(id as int));
                assert(ids@.map_values(|id: usize| id as int) + tree::sibling_ids(objects@, current)
                    =~= all);
            },
            None => {
                assert(before.map_values(|id: usize| id as int) =~= all);
                break ;
            },
        }
    }
    ids
}

fn child_list_fits(objects: &Vec<TopologyObject>, i: usize, kind: ChildKind) -> (truth: bool)
    requires
        all_identified(objects@),
        i < objects@.len(),
    ensures
        truth == tree::child_list_wf(objects@, i as int, kind),
{
    let first = first_child(&objects[i], kind);
    let first_fits = match first {
        None => true,
        Some(id) => id < objects.len() && points_to(objects[id].parent, i)
            && objects[id].object_type().child_kind() == kind && objects[id].sibling_rank == 0
            && objects[id].prev_sibling.is_none(),
    };
    let ids = siblings(objects, first);
    assert(ids@.len() == tree::child_ids(objects@, i as int, kind).len());
    first_fits && ids.len() as u64 == arity(&objects[i], kind) as u64
}

fn normal_children_fit(objects: &Vec<TopologyObject>, i: usize) -> (truth: bool)
    requires
        i < objects@.len(),
    ensures
        truth == tree::normal_children_wf(objects@, i as int),
{
    let children = &objects[i].children;
    let ids = siblings(objects, objects[i].first_child);
    let ghost expected = tree::child_ids(objects@, i as int, ChildKind::Normal);
    let ghost actual = children@.map_values(|id: usize| id as int);
    assert(ids@.len() == expected.len());
    if children.len() != ids.len() {
        assert(actual.len() != expected.len());
        return false;
    }
    let mut k: usize = 0;
    while k < ids.len()
        invariant
            k <= ids@.len(),
            ids@.len() == children@.len(),
            i < objects@.len(),
            *children == objects@[i as int].children,
            expected == tree::child_ids(objects@, i as int, ChildKind::Normal),
            expected == ids@.map_values(|id: usize| id as int),
            actual == children@.map_values(|id: usize| id as int),
            forall|j: int| 0 <= j < k ==> #[trigger] ids@[j] == children@[j],
        decreases ids@.len() - k,
    {
        if children[k] != ids[k] {
            assert(actual[k as int] != expected[k as int]);
            return false;
        }
        k += 1;
    }
    assert(actual =~= expected);
    if ids.len() == 0 {
        objects[i].last_child.is_none()
    } else {
        let last = ids[ids.len() - 1];
        assert(expected.last() == last);
        points_to(objects[i].last_child, last)
    }
}

fn cpus_fit(objects: &Vec<TopologyObject>, i: usize) -> (truth: bool)
    requires
        all_identified(objects@),
        i < objects@.len(),
    ensures
        truth == tree::cpus_wf(objects@, i as int),
{
    let ty = objects[i].object_type();
    if !ty.is_normal() {
        return true;
    }
    let mut expected = CpuSet::new();
    if matches!(ty, ObjectType::PU) {
        expected.set(objects[i].os_index as usize);
        assert(expected@ =~= set![objects@[i as int].os_index as nat]);
    } else {
        let ids = siblings(objects, objects[i].first_child);
        let ghost all = tree::child_ids(objects@, i as int, ChildKind::Normal);
        assert(expected@ =~= tree::cpus_of(objects@, all.take(0)));
        let mut k: usize = 0;
        while k < ids.len()
            invariant
                k <= ids@.len(),
                all == ids@.map_values(|id: usize| id as int),
                forall|j: int| 0 <= j < ids@.len() ==> #[trigger] ids@[j] < objects@.len(),
                expected@ == tree::cpus_of(objects@, all.take(k as int)),
            decreases ids@.len() - k,
        {
            let ghost before = expected@;
            let id = ids[k];
            if let Some(cpuset) = &objects[id].cpuset {
                expected.add_all(cpuset);
            }
            proof {
                let fewer = all.take(k as int);
                let more = all.take(k + 1);
                assert(more =~= fewer.push(id as int));
                assert forall|cpu: nat| #[trigger]
                    expected@.contains(cpu) == tree::cpus_of(objects@, more).contains(cpu) by {
                    if before.contains(cpu) {
                        let j = choose|j: int|
                            0 <= j < fewer.len() && objects@[#[trigger] fewer[j]].has_cpu(cpu);
                        assert(more[j] == fewer[j]);
                    }
                    if objects@[id as int].has_cpu(cpu) {
                        assert(more[k as int] == id);
                    }
                    if tree::cpus_of(objects@, more).contains(cpu) {
                        let j = choose|j: int|
                            0 <= j < more.len() && objects@[#[trigger] more[j]].has_cpu(cpu);
                        if j < k {
                            assert(fewer[j] == more[j]);
                        }
                    }
                }
                assert(expected@ =~= tree::cpus_of(objects@, more));
            }
            k += 1;
        }
        assert(all.take(all.len() as int) =~= all);
    }
    match &objects[i].cpuset {
        Some(cpuset) => cpuset.same(&expected),
        None => false,
    }
}

fn placement_fits(objects: &Vec<TopologyObject>, i: usize) -> (truth: bool)
    requires
        all_identified(objects@),
        i < objects@.len(),
        tree::parent_wf(objects@, i as int),
    ensures
        truth == tree::placement_wf(objects@, i as int),
{
    match objects[i].parent {
        None => true,
        Some(parent) => {
            let kind = objects[i].object_type().child_kind();
            let ids = siblings(objects, first_child(&objects[parent], kind));
            let ghost expected = tree::child_ids(objects@, parent as int, kind);
            let rank = objects[i].sibling_rank as usize;
            assert(ids@.len() == expected.len());
            if rank < ids.len() {
                assert(expected[rank as int] == ids@[rank as int]);
            }
            rank < ids.len() && ids[rank] == i
        },
    }
}

} // verus!
