use hwlocality::bitmap::{CpuSet, NodeSet};
use hwlocality::errors::HwlocReply;
use hwlocality::object::attributes::{ObjectAttributes, RawObjectAttributes};
use hwlocality::object::depth::Depth;
use hwlocality::object::text::TextCall;
use hwlocality::object::types::{ChildKind, ObjectType};
use hwlocality::object::{TopologyObject, HWLOC_UNKNOWN_INDEX};
use hwlocality::topology::builder::TopologyBuilder;
use hwlocality::topology::check::is_tree;
use hwlocality::topology::AllowedSets;
use hwlocality::Topology;

fn set_of(indices: &[usize]) -> CpuSet {
    let mut set = CpuSet::new();
    for &index in indices {
        set.set(index);
    }
    set
}

/// Objects with the given type, depth, parent and CPUs, whose other links follow
fn objects(layout: &[(ObjectType, i32, Option<usize>, &[usize])]) -> Vec<TopologyObject> {
    let mut objects: Vec<TopologyObject> = Vec::new();
    for (id, &(ty, depth, parent, cpus)) in layout.iter().enumerate() {
        let has_sets = !ty.is_io() && ty != ObjectType::Misc;
        let cpuset = has_sets.then_some(set_of(cpus));
        let nodeset = has_sets.then_some(NodeSet::full());
        let prev_cousin = objects.iter().rposition(|other| other.depth == depth);
        let prev_sibling = objects.iter().rposition(|other| {
            parent.is_some()
                && other.parent == parent
                && other.object_type().child_kind() == ty.child_kind()
        });
        let logical_index =
            prev_cousin.map_or(0, |prev| objects[prev].logical_index + 1);
        let sibling_rank = prev_sibling.map_or(0, |prev| objects[prev].sibling_rank + 1);
        if let Some(prev) = prev_cousin {
            objects[prev].next_cousin = Some(id);
        }
        if let Some(prev) = prev_sibling {
            objects[prev].next_sibling = Some(id);
        }
        if let Some(parent) = parent {
            let parent = &mut objects[parent];
            let (arity, first) = match ty.child_kind() {
                ChildKind::Normal => {
                    parent.children.push(id);
                    parent.last_child = Some(id);
                    (&mut parent.arity, &mut parent.first_child)
                }
                ChildKind::Memory => (&mut parent.memory_arity, &mut parent.memory_first_child),
                ChildKind::Io => (&mut parent.io_arity, &mut parent.io_first_child),
                ChildKind::Misc => (&mut parent.misc_arity, &mut parent.misc_first_child),
            };
            *arity += 1;
            first.get_or_insert(id);
        }
        objects.push(TopologyObject {
            id,
            object_type: ty.into_raw(),
            subtype: None,
            os_index: match ty {
                ObjectType::PU => cpus[0] as u32,
                ObjectType::NUMANode => logical_index,
                _ => HWLOC_UNKNOWN_INDEX,
            },
            name: None,
            total_memory: 0,
            attr: None,
            depth,
            logical_index,
            next_cousin: None,
            prev_cousin,
            parent,
            sibling_rank,
            next_sibling: None,
            prev_sibling,
            arity: 0,
            children: Vec::new(),
            first_child: None,
            last_child: None,
            symmetric_subtree: 0,
            memory_arity: 0,
            memory_first_child: None,
            io_arity: 0,
            io_first_child: None,
            misc_arity: 0,
            misc_first_child: None,
            complete_cpuset: cpuset.clone(),
            cpuset,
            complete_nodeset: nodeset.clone(),
            nodeset,
            infos: Vec::new(),
        });
    }
    set_nodes(&mut objects);
    objects
}

/// Give objects the NUMA nodes that are under or above them
fn set_nodes(objects: &mut [TopologyObject]) {
    let above = |id: usize| {
        let mut chain = Vec::new();
        let mut current = objects[id].parent;
        while let Some(parent) = current {
            chain.push(parent);
            current = objects[parent].parent;
        }
        chain
    };
    let nodes: Vec<usize> = (0..objects.len())
        .filter(|&id| objects[id].object_type() == ObjectType::NUMANode)
        .collect();
    let sets: Vec<Option<NodeSet>> = (0..objects.len())
        .map(|id| {
            objects[id].nodeset.as_ref()?;
            if nodes.is_empty() {
                return Some(NodeSet::full());
            }
            let is_normal = |id: usize| objects[id].object_type().is_normal();
            let mut set = NodeSet::new();
            for &node in &nodes {
                let chain = above(node);
                let start = chain.iter().copied().find(|&id| is_normal(id)).unwrap();
                if node == id
                    || chain.contains(&id)
                    || (is_normal(id) && above(id).contains(&start))
                {
                    set.set(objects[node].os_index as usize);
                }
            }
            Some(set)
        })
        .collect();
    for (object, set) in objects.iter_mut().zip(sets) {
        object.complete_nodeset = set.clone();
        object.nodeset = set;
    }
}

const MACHINE: usize = 0;
const PACKAGE0: usize = 1;
const CORE0: usize = 2;
const PU0: usize = 3;
const CORE1: usize = 4;
const PU1: usize = 5;
const NODE0: usize = 6;
const PACKAGE1: usize = 7;
const PU2: usize = 8;
const PU3: usize = 9;
const NODE1: usize = 10;
const BRIDGE: usize = 11;
const DEVICE: usize = 12;
const MISC: usize = 13;

/// A machine with two packages, the second of which has PUs but no cores
fn machine() -> Vec<TopologyObject> {
    objects(&[
        (ObjectType::Machine, 0, None, &[0, 1, 2, 3]),
        (ObjectType::Package, 1, Some(MACHINE), &[0, 1]),
        (ObjectType::Core, 2, Some(PACKAGE0), &[0]),
        (ObjectType::PU, 3, Some(CORE0), &[0]),
        (ObjectType::Core, 2, Some(PACKAGE0), &[1]),
        (ObjectType::PU, 3, Some(CORE1), &[1]),
        (ObjectType::NUMANode, -3, Some(PACKAGE0), &[0, 1]),
        (ObjectType::Package, 1, Some(MACHINE), &[2, 3]),
        (ObjectType::PU, 3, Some(PACKAGE1), &[2]),
        (ObjectType::PU, 3, Some(PACKAGE1), &[3]),
        (ObjectType::NUMANode, -3, Some(PACKAGE1), &[2, 3]),
        (ObjectType::Bridge, -4, Some(MACHINE), &[]),
        (ObjectType::PCIDevice, -5, Some(BRIDGE), &[]),
        (ObjectType::Misc, -7, Some(PACKAGE0), &[]),
    ])
}

fn topology_of(objects: Vec<TopologyObject>) -> Option<Topology> {
    let configuration = TopologyBuilder::new()
        .build()
        .finish(HwlocReply { result: 0, errno: None })
        .unwrap();
    let nodeset = objects.first().and_then(|root| root.nodeset.clone()).unwrap_or_default();
    let allowed = AllowedSets { cpuset: set_of(&[0, 1, 2, 3]), nodeset };
    Topology::from_objects(configuration, objects, allowed, false)
}

fn topology() -> Topology {
    topology_of(machine()).unwrap()
}

fn ids(objects: &[&TopologyObject]) -> Vec<usize> {
    objects.iter().map(|object| object.id).collect()
}

fn id(object: Option<&TopologyObject>) -> Option<usize> {
    object.map(|object| object.id)
}

#[test]
fn trees() {
    assert!(is_tree(&machine()));
    let topology = topology();
    assert_eq!(topology.len(), 14);
    for id in 0..14 {
        assert_eq!(topology.at(id).id, id);
    }
}

#[test]
fn broken_trees() {
    let breaks: [fn(&mut Vec<TopologyObject>); 26] = [
        |objects| objects.clear(),
        |objects| objects[CORE0].id = CORE1,
        |objects| objects[CORE0].object_type = 20,
        |objects| objects[CORE0].depth = -9,
        |objects| objects[CORE0].depth = -3,
        |objects| objects[CORE0].parent = None,
        |objects| objects[CORE0].parent = Some(PACKAGE1),
        |objects| objects[CORE0].depth = 1,
        |objects| objects[CORE0].next_cousin = None,
        |objects| objects[CORE1].prev_cousin = None,
        |objects| objects[CORE1].logical_index = 0,
        |objects| objects[CORE0].next_sibling = None,
        |objects| objects[CORE1].prev_sibling = None,
        |objects| objects[CORE1].sibling_rank = 0,
        |objects| objects[PACKAGE0].arity = 1,
        |objects| objects[PACKAGE0].children.reverse(),
        |objects| objects[PACKAGE0].last_child = Some(CORE0),
        |objects| objects[PACKAGE0].memory_first_child = None,
        |objects| objects[CORE0].cpuset = Some(set_of(&[2])),
        |objects| objects[MISC].cpuset = Some(set_of(&[0])),
        |objects| objects[CORE0].cpuset = Some(set_of(&[])),
        |objects| objects[PU0].os_index = 1,
        |objects| objects[PU0].cpuset = Some(set_of(&[])),
        |objects| objects[MACHINE].symmetric_subtree = 1,
        |objects| objects[PACKAGE0].symmetric_subtree = 1,
        |objects| objects[PU0].nodeset = Some(set_of(&[])),
    ];
    for (index, damage) in breaks.iter().enumerate() {
        let mut objects = machine();
        damage(&mut objects);
        assert!(!is_tree(&objects), "break {index}");
        assert!(topology_of(objects).is_none());
    }
}

/// Logical indices are unique among objects of the same depth, whose links go from one
/// end of the level to the other
#[test]
fn levels() {
    let mut objects = machine();
    objects[CORE0].next_cousin = None;
    objects[CORE1].prev_cousin = None;
    assert!(!is_tree(&objects));
    objects[CORE1].logical_index = 7;
    assert!(!is_tree(&objects));
    objects[CORE1].logical_index = objects[CORE0].logical_index;
    assert!(!is_tree(&objects));
}

/// OS indices of PUs and NUMA nodes are known and unique
#[test]
fn duplicate_os_index() {
    let mut objects = machine();
    objects[NODE0].os_index = 5;
    set_nodes(&mut objects);
    assert!(is_tree(&objects));
    objects[NODE1].os_index = 5;
    set_nodes(&mut objects);
    assert!(!is_tree(&objects));
    objects[NODE1].os_index = HWLOC_UNKNOWN_INDEX;
    assert!(!is_tree(&objects));
    objects[NODE1].os_index = 6;
    set_nodes(&mut objects);
    assert!(is_tree(&objects));
    // Other objects may share an index
    objects[CORE0].os_index = 5;
    objects[CORE1].os_index = 5;
    assert!(is_tree(&objects));
}

/// Memory hierarchies start from normal objects and end with NUMA nodes, and tell which
/// NUMA nodes objects have
#[test]
fn memory_hierarchy() {
    const CORE: usize = 2;
    const CACHE: usize = 4;
    const NEAR: usize = 5;
    const OTHER: usize = 6;
    const FAR: usize = 7;
    let layout: [(ObjectType, i32, Option<usize>, &[usize]); 8] = [
        (ObjectType::Machine, 0, None, &[0]),
        (ObjectType::Package, 1, Some(0), &[0]),
        (ObjectType::Core, 2, Some(1), &[0]),
        (ObjectType::PU, 3, Some(2), &[0]),
        (ObjectType::MemCache, -8, Some(1), &[0]),
        (ObjectType::NUMANode, -3, Some(4), &[0]),
        (ObjectType::NUMANode, -3, Some(1), &[0]),
        (ObjectType::NUMANode, -3, Some(0), &[0]),
    ];
    let all = objects(&layout);
    assert!(is_tree(&all));
    let nodes = |id: usize| -> Vec<usize> {
        (0..4).filter(|&node| all[id].nodeset().unwrap().is_set(node)).collect()
    };
    for id in [0, 1, CORE] {
        assert_eq!(nodes(id), [0, 1, 2]);
    }
    assert_eq!(nodes(CACHE), [0]);
    assert_eq!(nodes(NEAR), [0]);
    assert_eq!(nodes(OTHER), [1]);
    assert_eq!(nodes(FAR), [2]);

    let mut wrong = objects(&layout);
    wrong[CORE].nodeset = Some(set_of(&[0, 1]));
    assert!(!is_tree(&wrong));
    // A memory-side cache needs a NUMA node below it
    assert!(!is_tree(&objects(&layout[..CACHE + 1])));
    // NUMA nodes have no memory children
    let mut wrong = layout;
    wrong[OTHER].2 = Some(NEAR);
    assert!(!is_tree(&objects(&wrong)));
    // Without NUMA nodes, all memory is close to all objects
    let none = objects(&layout[..CACHE]);
    assert!(is_tree(&none));
    assert!(none[CORE].nodeset().unwrap().same(&NodeSet::full()));
}

/// NUMA nodes that are local to one package are no business of the other
#[test]
fn local_nodes() {
    let all = machine();
    let nodes = |id: usize| -> Vec<usize> {
        (0..4).filter(|&node| all[id].nodeset().unwrap().is_set(node)).collect()
    };
    assert_eq!(nodes(MACHINE), [0, 1]);
    for id in [PACKAGE0, CORE0, PU0, CORE1, PU1, NODE0] {
        assert_eq!(nodes(id), [0]);
    }
    for id in [PACKAGE1, PU2, PU3, NODE1] {
        assert_eq!(nodes(id), [1]);
    }
}

/// The children of a symmetric object have identical subtrees
#[test]
fn symmetric_children() {
    let layout: [(ObjectType, i32, Option<usize>, &[usize]); 7] = [
        (ObjectType::Machine, 0, None, &[0, 1, 2]),
        (ObjectType::Core, 1, Some(0), &[0, 1]),
        (ObjectType::PU, 2, Some(1), &[0]),
        (ObjectType::PU, 2, Some(1), &[1]),
        (ObjectType::Core, 1, Some(0), &[2]),
        (ObjectType::PU, 2, Some(4), &[2]),
        (ObjectType::Misc, -7, Some(4), &[]),
    ];
    let mut all = objects(&layout);
    for object in &mut all[1..] {
        object.symmetric_subtree = 1;
    }
    assert!(is_tree(&all));
    all[0].symmetric_subtree = 1;
    assert!(!is_tree(&all));

    // Misc children are ignored
    let mut more = layout.to_vec();
    more[0].3 = &[0, 1, 2, 3];
    more[4].3 = &[2, 3];
    more.insert(6, (ObjectType::PU, 2, Some(4), &[3]));
    let mut all = objects(&more);
    for object in &mut all {
        object.symmetric_subtree = 1;
    }
    assert!(is_tree(&all));
    all[1].symmetric_subtree = 0;
    assert!(!is_tree(&all));
}

/// In a symmetric topology, depth counts the links from the root
#[test]
fn symmetric_depth() {
    let mut layout = objects(&[
        (ObjectType::Machine, 0, None, &[0, 1]),
        (ObjectType::Core, 1, Some(0), &[0]),
        (ObjectType::PU, 2, Some(1), &[0]),
        (ObjectType::Core, 1, Some(0), &[1]),
        (ObjectType::PU, 2, Some(3), &[1]),
    ]);
    for object in &mut layout {
        object.symmetric_subtree = 1;
    }
    assert!(is_tree(&layout));
    for object in &layout {
        let mut links = 0;
        let mut current = object;
        while let Some(parent) = current.parent {
            current = &layout[parent];
            links += 1;
        }
        assert_eq!(object.depth(), Depth::Normal(links));
    }
    layout[2].depth = 3;
    layout[4].depth = 3;
    assert!(!is_tree(&layout));
}

/// The CPUs of an object are those of the PUs below it
#[test]
fn cpus_of_pus() {
    let topology = topology();
    for id in [MACHINE, PACKAGE0, CORE0, PU0, CORE1, PU1, PACKAGE1, PU2, PU3] {
        let mut cpus = CpuSet::new();
        for pu in [PU0, PU1, PU2, PU3] {
            if topology.at(pu).is_in_subtree(&topology, topology.at(id)) {
                cpus.set(topology.at(pu).os_index().unwrap() as usize);
            }
        }
        assert!(topology.at(id).cpuset().unwrap().same(&cpus));
    }
}

/// Annotations do not matter for the shape of the tree
#[test]
fn annotations_keep_tree() {
    let mut objects = machine();
    for object in &mut objects {
        object.set_name("name");
        object.set_subtype("subtype");
        object.add_info("key", "value");
        object.attr = Some(RawObjectAttributes(1));
    }
    assert!(is_tree(&objects));
}

#[test]
fn identity() {
    let mut object = machine().swap_remove(CORE0);
    assert!(object.is_identified());
    assert_eq!(object.object_type(), ObjectType::Core);
    assert_eq!(object.os_index(), None);
    object.os_index = 3;
    assert_eq!(object.os_index(), Some(3));
    assert_eq!(object.name(), None);
    object.set_name("first");
    assert_eq!(object.name(), Some("first"));
    object.set_name("second");
    assert_eq!(object.name(), Some("second"));
    assert_eq!(object.subtype(), None);
    object.set_subtype("odd");
    assert_eq!(object.subtype(), Some("odd"));
    assert_eq!(object.name(), Some("second"));
    assert_eq!(object.depth(), Depth::Normal(2));
    object.object_type = -1;
    assert!(!object.is_identified());
}

#[test]
fn attributes() {
    let raw = RawObjectAttributes(5);
    let of = |ty| ObjectAttributes::new(ty, Some(raw));
    assert_eq!(of(ObjectType::NUMANode), Some(ObjectAttributes::NUMANode(raw)));
    assert_eq!(of(ObjectType::L1Cache), Some(ObjectAttributes::Cache(raw)));
    assert_eq!(of(ObjectType::L3ICache), Some(ObjectAttributes::Cache(raw)));
    assert_eq!(of(ObjectType::MemCache), Some(ObjectAttributes::Cache(raw)));
    assert_eq!(of(ObjectType::Group), Some(ObjectAttributes::Group(raw)));
    assert_eq!(of(ObjectType::PCIDevice), Some(ObjectAttributes::PCIDevice(raw)));
    assert_eq!(of(ObjectType::Bridge), Some(ObjectAttributes::Bridge(raw)));
    assert_eq!(of(ObjectType::OSDevice), Some(ObjectAttributes::OSDevice(raw)));
    assert_eq!(of(ObjectType::Core), None);
    assert_eq!(ObjectAttributes::new(ObjectType::Group, None), None);

    let mut node = machine().swap_remove(NODE0);
    assert_eq!(node.attributes(), None);
    assert_eq!(node.raw_attributes(), None);
    node.attr = Some(raw);
    *node.raw_attributes().unwrap() = RawObjectAttributes(6);
    assert_eq!(node.attributes(), Some(ObjectAttributes::NUMANode(RawObjectAttributes(6))));
}

#[test]
fn ancestors() {
    let topology = topology();
    let object = |id| topology.at(id);
    assert_eq!(id(object(MACHINE).parent(&topology)), None);
    assert_eq!(id(object(PU1).parent(&topology)), Some(CORE1));
    assert_eq!(ids(&object(PU1).ancestors(&topology)), [CORE1, PACKAGE0, MACHINE]);
    assert_eq!(ids(&object(PU2).ancestors(&topology)), [PACKAGE1, MACHINE]);
    assert_eq!(ids(&object(DEVICE).ancestors(&topology)), [BRIDGE, MACHINE]);
    assert!(object(MACHINE).ancestors(&topology).is_empty());
    for id in 1..14 {
        assert_eq!(object(id).ancestors(&topology).last().unwrap().id, MACHINE);
    }
}

#[test]
fn ancestor_at_depth() {
    let topology = topology();
    let search = |id: usize, depth| self::id(topology.at(id).ancestor_at_depth(&topology, depth));
    assert_eq!(search(PU1, Depth::Normal(0)), Some(MACHINE));
    assert_eq!(search(PU1, Depth::Normal(1)), Some(PACKAGE0));
    assert_eq!(search(PU1, Depth::Normal(2)), Some(CORE1));
    assert_eq!(search(PU1, Depth::Normal(3)), None);
    assert_eq!(search(PU1, Depth::Normal(4)), None);
    assert_eq!(search(PU2, Depth::Normal(2)), None);
    assert_eq!(search(PU2, Depth::NUMANode), None);
    assert_eq!(search(DEVICE, Depth::Bridge), Some(BRIDGE));
    assert_eq!(search(DEVICE, Depth::Normal(0)), Some(MACHINE));
    assert_eq!(search(NODE1, Depth::Normal(1)), Some(PACKAGE1));
}

#[test]
fn first_ancestor_with_type() {
    let topology = topology();
    let search = |id: usize, ty| self::id(topology.at(id).first_ancestor_with_type(&topology, ty));
    assert_eq!(search(PU1, ObjectType::Core), Some(CORE1));
    assert_eq!(search(PU1, ObjectType::Machine), Some(MACHINE));
    assert_eq!(search(PU1, ObjectType::PU), None);
    assert_eq!(search(CORE1, ObjectType::PU), None);
    assert_eq!(search(PU2, ObjectType::Core), None);
    assert_eq!(search(DEVICE, ObjectType::Bridge), Some(BRIDGE));
}

#[test]
fn common_ancestor() {
    let topology = topology();
    let search =
        |a: usize, b: usize| id(topology.at(a).common_ancestor(&topology, topology.at(b)));
    assert_eq!(search(PU0, PU0), Some(CORE0));
    assert_eq!(search(PU0, PU1), Some(PACKAGE0));
    assert_eq!(search(PU0, CORE1), Some(PACKAGE0));
    assert_eq!(search(PU0, CORE0), Some(PACKAGE0));
    assert_eq!(search(PU0, PU2), Some(MACHINE));
    assert_eq!(search(CORE0, PU3), Some(MACHINE));
    assert_eq!(search(PU2, PU3), Some(PACKAGE1));
    assert_eq!(search(PACKAGE0, PU3), Some(MACHINE));
    assert_eq!(search(MACHINE, PU3), None);
    assert_eq!(search(MACHINE, MACHINE), None);
    let normal = [MACHINE, PACKAGE0, CORE0, PU0, CORE1, PU1, PACKAGE1, PU2, PU3];
    for a in normal {
        for b in normal {
            let above_a = ids(&topology.at(a).ancestors(&topology));
            let above_b = ids(&topology.at(b).ancestors(&topology));
            let expected = above_a.iter().copied().find(|id| above_b.contains(id));
            assert_eq!(search(a, b), expected, "{a} and {b}");
            assert_eq!(search(b, a), expected, "{b} and {a}");
        }
    }
}

#[test]
fn subtrees() {
    let topology = topology();
    let inside = |a: usize, b: usize| topology.at(a).is_in_subtree(&topology, topology.at(b));
    assert!(inside(PU1, CORE1));
    assert!(inside(PU1, PACKAGE0));
    assert!(!inside(PU1, CORE0));
    assert!(!inside(PACKAGE0, PU1));
    assert!(inside(DEVICE, BRIDGE));
    assert!(inside(DEVICE, MACHINE));
    assert!(!inside(DEVICE, PACKAGE0));
    assert!(inside(MISC, PACKAGE0));
    assert!(inside(CORE0, CORE0));
    assert!(!inside(BRIDGE, BRIDGE));
    assert!(!inside(MISC, MISC));
    // Objects may have the CPUs of their only child
    assert!(inside(PU0, CORE0));
    assert!(!inside(CORE0, PU0));
    assert!(!inside(NODE0, CORE0));
    for a in 0..14 {
        let above = ids(&topology.at(a).ancestors(&topology));
        for b in 0..14 {
            let itself = a == b && topology.at(a).cpuset().is_some();
            assert_eq!(inside(a, b), itself || above.contains(&b), "{a} in {b}");
        }
    }
}

#[test]
fn cousins_and_siblings() {
    let topology = topology();
    let object = |id: usize| topology.at(id);
    assert_eq!(id(object(PU0).next_cousin(&topology)), Some(PU1));
    assert_eq!(id(object(PU1).next_cousin(&topology)), Some(PU2));
    assert_eq!(id(object(PU3).next_cousin(&topology)), None);
    assert_eq!(id(object(PU3).prev_cousin(&topology)), Some(PU2));
    assert_eq!(id(object(PU0).prev_cousin(&topology)), None);
    assert_eq!(id(object(NODE0).next_cousin(&topology)), Some(NODE1));
    assert_eq!(object(PU3).logical_index(), 3);
    assert_eq!(id(object(CORE0).next_sibling(&topology)), Some(CORE1));
    assert_eq!(id(object(CORE1).next_sibling(&topology)), None);
    assert_eq!(id(object(CORE1).prev_sibling(&topology)), Some(CORE0));
    assert_eq!(id(object(CORE0).prev_sibling(&topology)), None);
    assert_eq!(object(CORE1).sibling_rank(), 1);
    assert_eq!(object(NODE0).sibling_rank(), 0);
}

#[test]
fn children() {
    let mut all = machine();
    for id in [PACKAGE0, CORE0, PU0, CORE1, PU1] {
        all[id].symmetric_subtree = 1;
    }
    all[PACKAGE0].total_memory = 1 << 40;
    let topology = topology_of(all).unwrap();
    let package = topology.at(PACKAGE0);
    assert_eq!(package.normal_arity(), 2);
    assert_eq!(ids(&package.normal_children(&topology)), [CORE0, CORE1]);
    assert_eq!(id(package.first_normal_child(&topology)), Some(CORE0));
    assert_eq!(id(package.last_normal_child(&topology)), Some(CORE1));
    assert_eq!(package.memory_arity(), 1);
    assert_eq!(ids(&package.memory_children(&topology)), [NODE0]);
    assert_eq!(package.io_arity(), 0);
    assert!(package.io_children(&topology).is_empty());
    assert_eq!(package.misc_arity(), 1);
    assert_eq!(ids(&package.misc_children(&topology)), [MISC]);
    assert_eq!(ids(&package.all_children(&topology)), [CORE0, CORE1, NODE0, MISC]);
    assert!(package.symmetric_subtree());
    assert_eq!(package.total_memory(), 1 << 40);

    let root = topology.at(MACHINE);
    assert!(!root.symmetric_subtree());
    assert_eq!(root.io_arity(), 1);
    assert_eq!(ids(&root.io_children(&topology)), [BRIDGE]);
    assert_eq!(ids(&root.all_children(&topology)), [PACKAGE0, PACKAGE1, BRIDGE]);

    let leaf = topology.at(PU0);
    assert!(leaf.all_children(&topology).is_empty());
    assert_eq!(id(leaf.first_normal_child(&topology)), None);
    assert_eq!(id(leaf.last_normal_child(&topology)), None);

    // Every object but the root is a child of its parent
    let mut count = 0;
    for parent in 0..topology.len() {
        for child in topology.at(parent).all_children(&topology) {
            assert_eq!(child.parent, Some(parent));
            count += 1;
        }
    }
    assert_eq!(count, 13);
}

#[test]
fn normal_child_covering_cpuset() {
    let topology = topology();
    let search = |parent: usize, cpus: &[usize]| {
        id(topology.at(parent).normal_child_covering_cpuset(&topology, &set_of(cpus)))
    };
    assert_eq!(search(MACHINE, &[1]), Some(PACKAGE0));
    assert_eq!(search(MACHINE, &[2, 3]), Some(PACKAGE1));
    assert_eq!(search(MACHINE, &[1, 2]), None);
    assert_eq!(search(MACHINE, &[]), None);
    assert_eq!(search(PACKAGE0, &[1]), Some(CORE1));
    assert_eq!(search(BRIDGE, &[1]), None);
}

#[test]
fn sets() {
    let topology = topology();
    let core = topology.at(CORE1);
    assert!(core.cpuset().unwrap().is_set(1));
    assert!(!core.cpuset().unwrap().is_set(0));
    assert!(core.complete_cpuset().unwrap().includes(core.cpuset().unwrap()));
    assert!(core.complete_nodeset().unwrap().includes(core.nodeset().unwrap()));
    assert!(core.is_inside_cpuset(&set_of(&[0, 1])));
    assert!(!core.is_inside_cpuset(&set_of(&[0])));
    assert!(core.covers_cpuset(&set_of(&[1])));
    assert!(!core.covers_cpuset(&set_of(&[0, 1])));
    assert!(!core.covers_cpuset(&set_of(&[])));

    let misc = topology.at(MISC);
    assert!(misc.cpuset().is_none());
    assert!(misc.complete_cpuset().is_none());
    assert!(misc.nodeset().is_none());
    assert!(misc.complete_nodeset().is_none());
    assert!(!misc.is_inside_cpuset(&CpuSet::full()));
    assert!(!misc.covers_cpuset(&set_of(&[0])));

    // An object without CPUs is inside of no set
    let mut object = machine().swap_remove(CORE1);
    object.cpuset = Some(CpuSet::new());
    assert!(!object.is_inside_cpuset(&CpuSet::full()));
}

#[test]
fn infos() {
    let mut object = machine().swap_remove(PU0);
    assert!(object.infos().is_empty());
    assert_eq!(object.info("Color"), None);
    object.add_info("Color", "red");
    object.add_info("Size", "");
    object.add_info("Color", "blue");
    let pairs: Vec<_> =
        object.infos().iter().map(|info| (info.name(), info.value())).collect();
    assert_eq!(pairs, [("Color", "red"), ("Size", ""), ("Color", "blue")]);
    assert_eq!(object.info("Color"), Some("red"));
    assert_eq!(object.info("Size"), Some(""));
    assert_eq!(object.info("color"), None);
}

#[test]
fn description() {
    assert_eq!(TopologyObject::attr_separator(false), "  ");
    assert_eq!(TopologyObject::attr_separator(true), "\n  ");
    assert_eq!(
        TopologyObject::text_calls(false, false),
        (TextCall::Type { verbose: 0 }, TextCall::Attr { separator: "  ", verbose: 0 })
    );
    assert_eq!(
        TopologyObject::text_calls(true, true),
        (TextCall::Type { verbose: 1 }, TextCall::Attr { separator: "\n  ", verbose: 1 })
    );
    assert_eq!(TopologyObject::display("Core", "", false), "Core");
    assert_eq!(TopologyObject::display("Core", "", true), "Core");
    assert_eq!(
        TopologyObject::display("L2Cache", "size=2MiB  ways=16", false),
        "L2Cache (size=2MiB  ways=16)"
    );
    assert_eq!(
        TopologyObject::display("L2Cache", "size=2MiB\n  ways=16", true),
        "L2Cache (\n  size=2MiB\n  ways=16\n)"
    );
}
