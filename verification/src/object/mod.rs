//! Topology objects
//!
//! The objects of a topology are kept in one list, parents before their
//! children, and refer to each other by their position in that list. The
//! methods that follow such a reference take the topology as a parameter.
use vstd::prelude::*;

pub mod ancestors;
pub mod attributes;
pub mod children;
pub mod depth;
pub mod infos;
pub mod memory;
pub mod symmetry;
pub mod text;
pub mod types;

use crate::bitmap::{CpuSet, NodeSet};
use crate::object::attributes::{ObjectAttributes, RawObjectAttributes};
use crate::object::depth::Depth;
use crate::object::infos::ObjectInfo;
use crate::object::types::ObjectType;
use crate::strings;

verus! {

/// OS index by which hwloc says that there is none
pub const HWLOC_UNKNOWN_INDEX: u32 = u32::MAX;

/// Hardware topology object
///
/// See the matching method names for more details on field semantics.
#[derive(Clone, Debug)]
pub struct TopologyObject {
    /// Position of this object in the list of objects of its topology
    pub id: usize,
    /// Type, as hwloc represents it
    pub object_type: i32,
    pub subtype: Option<String>,
    /// Physical index, or [`HWLOC_UNKNOWN_INDEX`]
    pub os_index: u32,
    pub name: Option<String>,
    pub total_memory: u64,
    pub attr: Option<RawObjectAttributes>,
    /// Depth, as hwloc represents it
    pub depth: i32,
    pub logical_index: u32,
    pub next_cousin: Option<usize>,
    pub prev_cousin: Option<usize>,
    pub parent: Option<usize>,
    pub sibling_rank: u32,
    pub next_sibling: Option<usize>,
    pub prev_sibling: Option<usize>,
    pub arity: u32,
    pub children: Vec<usize>,
    pub first_child: Option<usize>,
    pub last_child: Option<usize>,
    /// Nonzero if the subtree below this object is symmetric
    pub symmetric_subtree: i32,
    pub memory_arity: u32,
    pub memory_first_child: Option<usize>,
    pub io_arity: u32,
    pub io_first_child: Option<usize>,
    pub misc_arity: u32,
    pub misc_first_child: Option<usize>,
    pub cpuset: Option<CpuSet>,
    pub complete_cpuset: Option<CpuSet>,
    pub nodeset: Option<NodeSet>,
    pub complete_nodeset: Option<NodeSet>,
    pub infos: Vec<ObjectInfo>,
}

/// Text of an optional string
pub open spec fn text_of(text: Option<String>) -> Option<Seq<char>> {
    match text {
        Some(s) => Some(s@),
        None => None,
    }
}

/// Text of an optional string slice
pub open spec fn str_of(text: Option<&str>) -> Option<Seq<char>> {
    match text {
        Some(s) => Some(s@),
        None => None,
    }
}

/// Truth that `object` is what a reference to another object designates
pub open spec fn designates(
    objects: Seq<TopologyObject>,
    object: Option<&TopologyObject>,
    id: Option<usize>,
) -> bool {
    match (object, id) {
        (Some(o), Some(i)) => i < objects.len() && *o == objects[i as int],
        (None, None) => true,
        _ => false,
    }
}

/// Truth that `list` is made of the objects at positions `ids`, in this order
pub open spec fn lists(
    objects: Seq<TopologyObject>,
    list: Seq<&TopologyObject>,
    ids: Seq<int>,
) -> bool {
    &&& list.len() == ids.len()
    &&& forall|k: int| 0 <= k < ids.len() ==> 0 <= #[trigger] ids[k] < objects.len()
    &&& forall|k: int| 0 <= k < ids.len() ==> *(#[trigger] list[k]) == objects[ids[k]]
}

/// A list of objects can be extended by one object
pub proof fn lemma_lists_push(
    objects: Seq<TopologyObject>,
    list: Seq<&TopologyObject>,
    ids: Seq<int>,
    object: &TopologyObject,
    id: int,
)
    requires
        lists(objects, list, ids),
        0 <= id < objects.len(),
        *object == objects[id],
    ensures
        lists(objects, list.push(object), ids.push(id)),
{
}

/// Truth that `object` is the first of the objects at positions `ids` which
/// satisfies a predicate, or that no object is if none of them does
pub open spec fn finds_first(
    objects: Seq<TopologyObject>,
    object: Option<&TopologyObject>,
    ids: Seq<int>,
    wanted: spec_fn(TopologyObject) -> bool,
) -> bool {
    match object {
        Some(o) => exists|k: int|
            {
                &&& 0 <= k < ids.len()
                &&& *o == objects[#[trigger] ids[k]]
                &&& wanted(objects[ids[k]])
                &&& forall|j: int| 0 <= j < k ==> !wanted(objects[#[trigger] ids[j]])
            },
        None => forall|k: int| 0 <= k < ids.len() ==> !wanted(objects[#[trigger] ids[k]]),
    }
}

/// Basic identity
impl TopologyObject {
    /// Truth that hwloc gave this object a type and a depth that are known, and
    /// that go together
    pub open spec fn identified(self) -> bool {
        &&& ObjectType::of_raw(self.object_type) is Some
        &&& Depth::of_raw(self.depth) is Some
        &&& self.at_depth().suits(self.ty())
    }

    /// Type of object
    pub open spec fn ty(self) -> ObjectType {
        ObjectType::of_raw(self.object_type)->0
    }

    /// Vertical index in the hierarchy
    pub open spec fn at_depth(self) -> Depth {
        Depth::of_raw(self.depth)->0
    }

    /// Truth that hwloc gave this object a type and a depth that are known, and
    /// that go together
    pub fn is_identified(&self) -> (identified: bool)
        ensures
            identified == self.identified(),
    {
        match (ObjectType::from_raw(self.object_type), Depth::from_raw(self.depth)) {
            (Some(ty), Some(depth)) => depth.is_depth_of(ty),
            _ => false,
        }
    }

    /// Type of object
    pub fn object_type(&self) -> (ty: ObjectType)
        requires
            ObjectType::of_raw(self.object_type) is Some,
        ensures
            ObjectType::of_raw(self.object_type) == Some(ty),
            ty == self.ty(),
            ty.raw() == self.object_type,
    {
        ObjectType::from_raw(self.object_type).unwrap()
    }

    /// Subtype string to better describe the type field
    pub fn subtype(&self) -> (subtype: Option<&str>)
        ensures
            str_of(subtype) == text_of(self.subtype),
    {
        match &self.subtype {
            Some(text) => Some(text.as_str()),
            None => None,
        }
    }

    /// Set the subtype string
    ///
    /// This is something you'll often want to do when creating Group or Misc
    /// objects in order to make them more descriptive.
    pub fn set_subtype(&mut self, subtype: &str)
        requires
            strings::nul_free(subtype@),
        ensures
            text_of(final(self).subtype) == Some(subtype@),
            *final(self) == (TopologyObject { subtype: final(self).subtype, ..*old(self) }),
    {
        self.subtype = Some(subtype.to_owned());
    }

    /// The OS-provided physical index number.
    ///
    /// It is not guaranteed unique across the entire machine, except for PUs
    /// and NUMA nodes.
    ///
    /// Not specified if unknown or irrelevant for this object.
    pub fn os_index(&self) -> (index: Option<u32>)
        ensures
            index == if self.os_index == HWLOC_UNKNOWN_INDEX {
                None
            } else {
                Some(self.os_index)
            },
    {
        if self.os_index != HWLOC_UNKNOWN_INDEX {
            Some(self.os_index)
        } else {
            None
        }
    }

    /// The name of the object
    pub fn name(&self) -> (name: Option<&str>)
        ensures
            str_of(name) == text_of(self.name),
    {
        match &self.name {
            Some(text) => Some(text.as_str()),
            None => None,
        }
    }

    /// Set the object name
    ///
    /// This is something you'll often want to do when creating Group or Misc
    /// objects in order to make them more descriptive.
    pub fn set_name(&mut self, name: &str)
        requires
            strings::nul_free(name@),
        ensures
            text_of(final(self).name) == Some(name@),
            *final(self) == (TopologyObject { name: final(self).name, ..*old(self) }),
    {
        self.name = Some(name.to_owned());
    }

    /// Object type-specific attributes
    pub fn attributes(&self) -> (attributes: Option<ObjectAttributes>)
        requires
            ObjectType::of_raw(self.object_type) is Some,
        ensures
            attributes == ObjectAttributes::of(self.ty(), self.attr),
    {
        ObjectAttributes::new(self.object_type(), self.attr)
    }

    /// Access to object type-specific attributes
    pub fn raw_attributes(&mut self) -> (attributes: Option<&mut RawObjectAttributes>)
        ensures
            match attributes {
                Some(attr) => old(self).attr == Some(*attr) && *final(self) == (TopologyObject {
                    attr: Some(*final(attr)),
                    ..*old(self)
                }),
                None => old(self).attr is None && *final(self) == *old(self),
            },
    {
        match &mut self.attr {
            Some(attr) => Some(attr),
            None => None,
        }
    }
}

/// CPU set
impl TopologyObject {
    /// CPUs covered by this object.
    ///
    /// This is the set of CPUs for which there are PU objects in the topology
    /// under this object, i.e. which are known to be physically contained in
    /// this object and known how (the children path between this object and
    /// the PU objects).
    ///
    /// All objects have CPU and node sets except Misc and I/O objects.
    pub fn cpuset(&self) -> (set: Option<&CpuSet>)
        ensures
            set is Some <==> self.cpuset is Some,
            set matches Some(s) ==> *s == self.cpuset->0,
    {
        self.cpuset.as_ref()
    }

    /// Truth that a CPU is covered by this object
    pub open spec fn has_cpu(self, cpu: nat) -> bool {
        match self.cpuset {
            Some(cpuset) => cpuset@.contains(cpu),
            None => false,
        }
    }

    /// Truth that this object is inside of `set`
    pub open spec fn inside_cpuset(self, set: Set<nat>) -> bool {
        match self.cpuset {
            Some(cpuset) => cpuset@.subset_of(set) && cpuset@ != Set::<nat>::empty(),
            None => false,
        }
    }

    /// Truth that this object covers `set`
    pub open spec fn covers(self, set: Set<nat>) -> bool {
        match self.cpuset {
            Some(cpuset) => set.subset_of(cpuset@) && set != Set::<nat>::empty(),
            None => false,
        }
    }

    /// Truth that this object is inside of the given cpuset `set`
    ///
    /// Objects are considered to be inside `set` if they have a non-empty
    /// cpuset which verifies `set.includes(object_cpuset)`
    pub fn is_inside_cpuset(&self, set: &CpuSet) -> (inside: bool)
        ensures
            inside == self.inside_cpuset(set@),
    {
        match self.cpuset() {
            Some(cpuset) => set.includes(cpuset) && !cpuset.is_empty(),
            None => false,
        }
    }

    /// Truth that this object covers the given cpuset `set`
    ///
    /// Objects are considered to cover `set` if it is non-empty and the object
    /// has a cpuset which verifies `object_cpuset.includes(set)`
    pub fn covers_cpuset(&self, set: &CpuSet) -> (covers: bool)
        ensures
            covers == self.covers(set@),
    {
        match self.cpuset() {
            Some(cpuset) => cpuset.includes(set) && !set.is_empty(),
            None => false,
        }
    }

    /// The complete CPU set of logical processors of this object.
    ///
    /// This includes not only the same as the cpuset field, but also the CPUs
    /// for which topology information is unknown or incomplete, some offline
    /// CPUs, and the CPUs that are ignored when disallowed objects are not
    /// included in the topology.
    ///
    /// Thus no corresponding PU object may be found in the topology, because
    /// the precise position is undefined. It is however known that it would be
    /// somewhere under this object.
    pub fn complete_cpuset(&self) -> (set: Option<&CpuSet>)
        ensures
            set is Some <==> self.complete_cpuset is Some,
            set matches Some(s) ==> *s == self.complete_cpuset->0,
    {
        self.complete_cpuset.as_ref()
    }
}

/// NUMA node set
impl TopologyObject {
    /// Truth that a NUMA node is covered by this object or contains it
    pub open spec fn has_node(self, node: nat) -> bool {
        match self.nodeset {
            Some(nodeset) => nodeset@.contains(node),
            None => false,
        }
    }

    /// NUMA nodes covered by this object or containing this object.
    ///
    /// This is the set of NUMA nodes for which there are NUMANode objects in
    /// the topology under or above this object, i.e. which are known to be
    /// physically contained in this object or containing it and known how (the
    /// children path between this object and the NUMANode objects).
    ///
    /// If there are no NUMA nodes in the machine, all the memory is close to
    /// this object, so the nodeset is full.
    ///
    /// All objects have CPU and node sets except Misc and I/O objects.
    pub fn nodeset(&self) -> (set: Option<&NodeSet>)
        ensures
            set is Some <==> self.nodeset is Some,
            set matches Some(s) ==> *s == self.nodeset->0,
    {
        self.nodeset.as_ref()
    }

    /// The complete NUMA node set of this object.
    ///
    /// This includes not only the same as the nodeset field, but also the NUMA
    /// nodes for which topology information is unknown or incomplete, some
    /// offline nodes, and the nodes that are ignored when disallowed objects
    /// are not included in the topology.
    ///
    /// If there are no NUMA nodes in the machine, all the memory is close to
    /// this object, so the complete nodeset is full.
    pub fn complete_nodeset(&self) -> (set: Option<&NodeSet>)
        ensures
            set is Some <==> self.complete_nodeset is Some,
            set matches Some(s) ==> *s == self.complete_nodeset->0,
    {
        self.complete_nodeset.as_ref()
    }
}

/// No OS index is larger than the one by which hwloc says that there is none
pub proof fn law_unknown_index(index: u32)
    ensures
        index <= HWLOC_UNKNOWN_INDEX,
{
}

/// An object has the CPUs and NUMA nodes of its sets, and none without such a set
pub proof fn law_members(object: TopologyObject, index: nat)
    ensures
        object.has_cpu(index) <==> (object.cpuset matches Some(set) && set@.contains(index)),
        object.has_node(index) <==> (object.nodeset matches Some(set) && set@.contains(index)),
{
}

/// There is a text if and only if there is a string, and it is that of the string, be it
/// empty
pub proof fn law_texts(owned: String, borrowed: &str)
    ensures
        text_of(None) == None::<Seq<char>>,
        text_of(Some(owned)) == Some(owned@),
        str_of(None) == None::<Seq<char>>,
        str_of(Some(borrowed)) == Some(borrowed@),
{
}

/// A reference designates an object if and only if there is one at this position, and no
/// other object
pub proof fn law_references(
    objects: Seq<TopologyObject>,
    a: &TopologyObject,
    b: &TopologyObject,
    id: usize,
)
    requires
        id < objects.len(),
    ensures
        designates(objects, None, None),
        !designates(objects, None, Some(id)),
        !designates(objects, Some(a), None),
        designates(objects, Some(&objects[id as int]), Some(id)),
        designates(objects, Some(a), Some(id)) && designates(objects, Some(b), Some(id)) ==> *a
            == *b,
{
}

/// Objects are listed one by one, in order
pub proof fn law_lists(
    objects: Seq<TopologyObject>,
    list: Seq<&TopologyObject>,
    ids: Seq<int>,
    k: int,
)
    requires
        lists(objects, list, ids),
    ensures
        list.len() == ids.len(),
        0 <= k < ids.len() ==> 0 <= ids[k] < objects.len() && *list[k] == objects[ids[k]],
{
}

/// A search finds an object that is searched for, unless there is none, and no such object
/// comes before the one that is found
pub proof fn law_search(
    objects: Seq<TopologyObject>,
    found: Option<&TopologyObject>,
    ids: Seq<int>,
    wanted: spec_fn(TopologyObject) -> bool,
    k: int,
)
    requires
        finds_first(objects, found, ids, wanted),
        0 <= k < ids.len(),
        wanted(objects[ids[k]]),
    ensures
        found matches Some(object) && wanted(*object) && exists|first: int|
            0 <= first <= k && *object == objects[#[trigger] ids[first]],
{
    let object = found->0;
    let first = choose|first: int|
        {
            &&& 0 <= first < ids.len()
            &&& *object == objects[#[trigger] ids[first]]
            &&& wanted(objects[ids[first]])
            &&& forall|j: int| 0 <= j < first ==> !wanted(objects[#[trigger] ids[j]])
        };
    if k < first {
        assert(!wanted(objects[ids[k]]));
    }
    assert(*object == objects[ids[first]]);
}

/// A search that finds nothing that is searched for finds nothing, and what is found is
/// among the objects that are searched through
pub proof fn law_search_in_vain(
    objects: Seq<TopologyObject>,
    found: Option<&TopologyObject>,
    ids: Seq<int>,
    wanted: spec_fn(TopologyObject) -> bool,
)
    requires
        finds_first(objects, found, ids, wanted),
    ensures
        found is None <==> forall|k: int| 0 <= k < ids.len() ==> !wanted(objects[#[trigger] ids[k]]),
        found matches Some(object) ==> exists|k: int|
            0 <= k < ids.len() && *object == objects[#[trigger] ids[k]],
{
}

/// Objects are identified by a code of a known type and the code of a depth at which this
/// type may be found
pub proof fn law_identified(object: TopologyObject, ty: ObjectType, depth: Depth)
    requires
        object.object_type == ty.raw(),
        object.depth == depth.raw(),
    ensures
        object.identified() <==> depth.suits(ty),
        object.ty() == ty,
        object.at_depth() == depth,
{
    crate::object::types::law_type_code_round_trip(ty);
    crate::object::depth::law_depth_round_trip(depth, object.depth);
}

/// An object is inside of a set if and only if it has CPUs and all of them are in the set
pub proof fn law_inside_cpuset(object: TopologyObject, set: Set<nat>)
    ensures
        object.inside_cpuset(set) <==> {
            &&& exists|cpu: nat| #[trigger] object.has_cpu(cpu)
            &&& forall|cpu: nat| #[trigger] object.has_cpu(cpu) ==> set.contains(cpu)
        },
{
    if let Some(cpuset) = object.cpuset {
        if object.inside_cpuset(set) {
            assert(exists|cpu: nat| #[trigger] object.has_cpu(cpu)) by {
                if forall|cpu: nat| !#[trigger] object.has_cpu(cpu) {
                    assert forall|cpu: nat| !#[trigger] cpuset@.contains(cpu) by {
                        assert(!object.has_cpu(cpu));
                    }
                    assert(cpuset@ =~= Set::<nat>::empty());
                }
            }
        }
        if (exists|cpu: nat| #[trigger] object.has_cpu(cpu)) && forall|cpu: nat| #[trigger]
            object.has_cpu(cpu) ==> set.contains(cpu) {
            let cpu = choose|cpu: nat| #[trigger] object.has_cpu(cpu);
            assert(cpuset@.contains(cpu));
            assert forall|other: nat| cpuset@.contains(other) implies set.contains(other) by {
                assert(object.has_cpu(other));
            }
        }
    }
}

/// An object covers a set if and only if there are CPUs in the set and the object has all
/// of them
pub proof fn law_covers_cpuset(object: TopologyObject, set: Set<nat>)
    ensures
        object.covers(set) <==> {
            &&& exists|cpu: nat| #[trigger] set.contains(cpu)
            &&& forall|cpu: nat| #[trigger] set.contains(cpu) ==> object.has_cpu(cpu)
        },
{
    if object.covers(set) {
        assert(exists|cpu: nat| #[trigger] set.contains(cpu)) by {
            if forall|cpu: nat| !#[trigger] set.contains(cpu) {
                assert(set =~= Set::<nat>::empty());
            }
        }
    }
    if exists|cpu: nat| #[trigger] set.contains(cpu) {
        let cpu = choose|cpu: nat| #[trigger] set.contains(cpu);
        assert(set != Set::<nat>::empty());
        if forall|cpu: nat| #[trigger] set.contains(cpu) ==> object.has_cpu(cpu) {
            assert(object.has_cpu(cpu));
            assert forall|other: nat| set.contains(other) implies (
            object.cpuset->0)@.contains(other) by {
                assert(object.has_cpu(other));
            }
        }
    }
}

/// An object that has CPUs is inside of its own cpuset and covers it, stays inside of sets
/// that grow, and still covers sets that shrink
pub proof fn law_inside_and_covers(object: TopologyObject, smaller: Set<nat>, larger: Set<nat>)
    requires
        smaller.subset_of(larger),
    ensures
        object.cpuset matches Some(cpuset) && cpuset@ != Set::<nat>::empty() ==> {
            &&& object.inside_cpuset((object.cpuset->0)@)
            &&& object.covers((object.cpuset->0)@)
        },
        object.inside_cpuset(smaller) ==> object.inside_cpuset(larger),
        object.covers(larger) && smaller != Set::<nat>::empty() ==> object.covers(smaller),
        !object.inside_cpuset(Set::empty()),
        !object.covers(Set::empty()),
        object.cpuset is None ==> !object.inside_cpuset(larger) && !object.covers(larger),
{
    if let Some(cpuset) = object.cpuset {
        if object.inside_cpuset(Set::empty()) {
            assert(cpuset@ =~= Set::<nat>::empty());
        }
    }
}

/// An object is inside of the cpuset of another one if and only if the other one covers
/// its cpuset
pub proof fn law_inside_is_covered(inner: TopologyObject, outer: TopologyObject)
    requires
        inner.cpuset is Some,
        outer.cpuset is Some,
    ensures
        inner.inside_cpuset((outer.cpuset->0)@) <==> outer.covers((inner.cpuset->0)@),
{
}

} // verus!
