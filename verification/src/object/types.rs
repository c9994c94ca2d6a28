//! Types of topology objects
use vstd::prelude::*;

verus! {

/// Number of object types
pub const OBJECT_TYPE_COUNT: usize = 20;

/// Type of a topology object
#[derive(Clone, Copy, Debug, Hash, PartialEq, Eq, Structural)]
pub enum ObjectType {
    /// The root object, a set of processors and memory with cache coherency
    Machine,
    /// Physical package, what goes into a physical motherboard socket
    Package,
    /// A computation unit (may be shared by several logical processors)
    Core,
    /// Processing unit, or (logical) processor
    PU,
    /// Level 1 data (or unified) cache
    L1Cache,
    /// Level 2 data (or unified) cache
    L2Cache,
    /// Level 3 data (or unified) cache
    L3Cache,
    /// Level 4 data (or unified) cache
    L4Cache,
    /// Level 5 data (or unified) cache
    L5Cache,
    /// Level 1 instruction cache
    L1ICache,
    /// Level 2 instruction cache
    L2ICache,
    /// Level 3 instruction cache
    L3ICache,
    /// Objects that have no other type and only add structure
    Group,
    /// NUMA node, a set of processors around memory
    NUMANode,
    /// Bridge between the host or an I/O bus and another I/O bus
    Bridge,
    /// PCI device
    PCIDevice,
    /// Operating system device
    OSDevice,
    /// Miscellaneous objects, created by the application
    Misc,
    /// Memory-side cache, in front of a specific NUMA node
    MemCache,
    /// Subset of the cores of a package
    Die,
}

/// Child list of its parent that an object is found in
#[derive(Clone, Copy, Debug, Hash, PartialEq, Eq, Structural)]
pub enum ChildKind {
    /// Objects of the main tree
    Normal,
    /// NUMA nodes and memory-side caches
    Memory,
    /// Bridges, PCI and OS devices
    Io,
    /// Misc objects
    Misc,
}

impl ObjectType {
    /// Value of this type in hwloc's `hwloc_obj_type_t` enumeration
    pub open spec fn raw(self) -> i32 {
        match self {
            ObjectType::Machine => 0,
            ObjectType::Package => 1,
            ObjectType::Core => 2,
            ObjectType::PU => 3,
            ObjectType::L1Cache => 4,
            ObjectType::L2Cache => 5,
            ObjectType::L3Cache => 6,
            ObjectType::L4Cache => 7,
            ObjectType::L5Cache => 8,
            ObjectType::L1ICache => 9,
            ObjectType::L2ICache => 10,
            ObjectType::L3ICache => 11,
            ObjectType::Group => 12,
            ObjectType::NUMANode => 13,
            ObjectType::Bridge => 14,
            ObjectType::PCIDevice => 15,
            ObjectType::OSDevice => 16,
            ObjectType::Misc => 17,
            ObjectType::MemCache => 18,
            ObjectType::Die => 19,
        }
    }

    /// Value of this type in hwloc's `hwloc_obj_type_t` enumeration
    pub fn into_raw(self) -> (raw: i32)
        ensures
            raw == self.raw(),
            0 <= raw < OBJECT_TYPE_COUNT,
    {
        match self {
            ObjectType::Machine => 0,
            ObjectType::Package => 1,
            ObjectType::Core => 2,
            ObjectType::PU => 3,
            ObjectType::L1Cache => 4,
            ObjectType::L2Cache => 5,
            ObjectType::L3Cache => 6,
            ObjectType::L4Cache => 7,
            ObjectType::L5Cache => 8,
            ObjectType::L1ICache => 9,
            ObjectType::L2ICache => 10,
            ObjectType::L3ICache => 11,
            ObjectType::Group => 12,
            ObjectType::NUMANode => 13,
            ObjectType::Bridge => 14,
            ObjectType::PCIDevice => 15,
            ObjectType::OSDevice => 16,
            ObjectType::Misc => 17,
            ObjectType::MemCache => 18,
            ObjectType::Die => 19,
        }
    }

    /// Object type that a `hwloc_obj_type_t` value stands for, if any
    pub open spec fn of_raw(raw: i32) -> Option<ObjectType> {
        match raw {
            0 => Some(ObjectType::Machine),
            1 => Some(ObjectType::Package),
            2 => Some(ObjectType::Core),
            3 => Some(ObjectType::PU),
            4 => Some(ObjectType::L1Cache),
            5 => Some(ObjectType::L2Cache),
            6 => Some(ObjectType::L3Cache),
            7 => Some(ObjectType::L4Cache),
            8 => Some(ObjectType::L5Cache),
            9 => Some(ObjectType::L1ICache),
            10 => Some(ObjectType::L2ICache),
            11 => Some(ObjectType::L3ICache),
            12 => Some(ObjectType::Group),
            13 => Some(ObjectType::NUMANode),
            14 => Some(ObjectType::Bridge),
            15 => Some(ObjectType::PCIDevice),
            16 => Some(ObjectType::OSDevice),
            17 => Some(ObjectType::Misc),
            18 => Some(ObjectType::MemCache),
            19 => Some(ObjectType::Die),
            _ => None,
        }
    }

    /// Object type that a `hwloc_obj_type_t` value stands for, if any
    pub fn from_raw(raw: i32) -> (ty: Option<ObjectType>)
        ensures
            ty == ObjectType::of_raw(raw),
            ty is Some <==> 0 <= raw < OBJECT_TYPE_COUNT,
            ty matches Some(t) ==> t.raw() == raw,
    {
        match raw {
            0 => Some(ObjectType::Machine),
            1 => Some(ObjectType::Package),
            2 => Some(ObjectType::Core),
            3 => Some(ObjectType::PU),
            4 => Some(ObjectType::L1Cache),
            5 => Some(ObjectType::L2Cache),
            6 => Some(ObjectType::L3Cache),
            7 => Some(ObjectType::L4Cache),
            8 => Some(ObjectType::L5Cache),
            9 => Some(ObjectType::L1ICache),
            10 => Some(ObjectType::L2ICache),
            11 => Some(ObjectType::L3ICache),
            12 => Some(ObjectType::Group),
            13 => Some(ObjectType::NUMANode),
            14 => Some(ObjectType::Bridge),
            15 => Some(ObjectType::PCIDevice),
            16 => Some(ObjectType::OSDevice),
            17 => Some(ObjectType::Misc),
            18 => Some(ObjectType::MemCache),
            19 => Some(ObjectType::Die),
            _ => None,
        }
    }

    /// Truth that objects of this type are bridges, PCI devices or OS devices
    pub open spec fn io(self) -> bool {
        self is Bridge || self is PCIDevice || self is OSDevice
    }

    /// Truth that objects of this type are NUMA nodes or memory-side caches
    pub open spec fn memory(self) -> bool {
        self is NUMANode || self is MemCache
    }

    /// Truth that objects of this type are in the main tree
    pub open spec fn normal(self) -> bool {
        !self.io() && !self.memory() && !(self is Misc)
    }

    /// Truth that objects of this type are CPU-side data or unified caches
    pub open spec fn cpu_data_cache(self) -> bool {
        self is L1Cache || self is L2Cache || self is L3Cache || self is L4Cache || self is L5Cache
    }

    /// Truth that objects of this type are CPU-side instruction caches
    pub open spec fn cpu_instruction_cache(self) -> bool {
        self is L1ICache || self is L2ICache || self is L3ICache
    }

    /// Truth that objects of this type are CPU-side caches
    pub open spec fn cpu_cache(self) -> bool {
        self.cpu_data_cache() || self.cpu_instruction_cache()
    }

    /// Child list of its parent that an object of this type is found in
    pub open spec fn kind(self) -> ChildKind {
        if self.io() {
            ChildKind::Io
        } else if self.memory() {
            ChildKind::Memory
        } else if self is Misc {
            ChildKind::Misc
        } else {
            ChildKind::Normal
        }
    }

    /// Truth that objects of this type are bridges, PCI devices or OS devices
    pub fn is_io(self) -> (truth: bool)
        ensures
            truth == self.io(),
    {
        matches!(self, ObjectType::Bridge | ObjectType::PCIDevice | ObjectType::OSDevice)
    }

    /// Truth that objects of this type are NUMA nodes or memory-side caches
    pub fn is_memory(self) -> (truth: bool)
        ensures
            truth == self.memory(),
    {
        matches!(self, ObjectType::NUMANode | ObjectType::MemCache)
    }

    /// Truth that objects of this type are in the main tree
    pub fn is_normal(self) -> (truth: bool)
        ensures
            truth == self.normal(),
    {
        !self.is_io() && !self.is_memory() && !matches!(self, ObjectType::Misc)
    }

    /// Truth that objects of this type are CPU-side data or unified caches
    pub fn is_cpu_data_cache(self) -> (truth: bool)
        ensures
            truth == self.cpu_data_cache(),
    {
        matches!(
            self,
            ObjectType::L1Cache | ObjectType::L2Cache | ObjectType::L3Cache | ObjectType::L4Cache
                | ObjectType::L5Cache
        )
    }

    /// Truth that objects of this type are CPU-side instruction caches
    pub fn is_cpu_instruction_cache(self) -> (truth: bool)
        ensures
            truth == self.cpu_instruction_cache(),
    {
        matches!(self, ObjectType::L1ICache | ObjectType::L2ICache | ObjectType::L3ICache)
    }

    /// Truth that objects of this type are CPU-side caches
    pub fn is_cpu_cache(self) -> (truth: bool)
        ensures
            truth == self.cpu_cache(),
    {
        self.is_cpu_data_cache() || self.is_cpu_instruction_cache()
    }

    /// Child list of its parent that an object of this type is found in
    pub fn child_kind(self) -> (kind: ChildKind)
        ensures
            kind == self.kind(),
    {
        if self.is_io() {
            ChildKind::Io
        } else if self.is_memory() {
            ChildKind::Memory
        } else if matches!(self, ObjectType::Misc) {
            ChildKind::Misc
        } else {
            ChildKind::Normal
        }
    }
}

/// Two object types with the same hwloc code are the same type
pub proof fn law_type_codes_distinct(a: ObjectType, b: ObjectType)
    ensures
        a.raw() == b.raw() ==> a == b,
{
}

/// An object type is read back from the code that it was turned into
pub proof fn law_type_code_round_trip(ty: ObjectType)
    ensures
        ObjectType::of_raw(ty.raw()) == Some(ty),
{
}

/// The normal, memory, I/O and Misc types have no type in common, and every
/// type is one of them
pub proof fn law_type_classes_partition(ty: ObjectType)
    ensures
        ty.normal() <==> !(ty.memory() || ty.io() || ty is Misc),
        !(ty.memory() && ty.io()),
        !(ty.memory() && ty is Misc),
        !(ty.io() && ty is Misc),
        ty.cpu_cache() ==> ty.normal(),
{
}

/// CPU caches are the data caches of five levels and the instruction caches of three
/// levels, I/O objects are bridges and devices, memory objects are NUMA nodes and their
/// caches, and all others but Misc are in the main tree
pub proof fn law_type_families(ty: ObjectType)
    ensures
        ty.cpu_data_cache() <==> ty == ObjectType::L1Cache || ty == ObjectType::L2Cache || ty
            == ObjectType::L3Cache || ty == ObjectType::L4Cache || ty == ObjectType::L5Cache,
        ty.cpu_instruction_cache() <==> ty == ObjectType::L1ICache || ty == ObjectType::L2ICache
            || ty == ObjectType::L3ICache,
        ty.cpu_cache() <==> ty.cpu_data_cache() || ty.cpu_instruction_cache(),
        !(ty.cpu_data_cache() && ty.cpu_instruction_cache()),
        ty.io() <==> ty == ObjectType::Bridge || ty == ObjectType::PCIDevice || ty
            == ObjectType::OSDevice,
        ty.memory() <==> ty == ObjectType::NUMANode || ty == ObjectType::MemCache,
        ty.normal() <==> ty == ObjectType::Machine || ty == ObjectType::Package || ty
            == ObjectType::Die || ty == ObjectType::Core || ty == ObjectType::PU || ty
            == ObjectType::Group || ty.cpu_cache(),
{
}

/// Each type is found in the child list that is named after its family
pub proof fn law_child_kinds(ty: ObjectType)
    ensures
        ty.kind() == ChildKind::Normal <==> ty.normal(),
        ty.kind() == ChildKind::Memory <==> ty.memory(),
        ty.kind() == ChildKind::Io <==> ty.io(),
        ty.kind() == ChildKind::Misc <==> ty == ObjectType::Misc,
{
}

/// Codes follow each other, from machines down to PUs, then through the levels of data
/// caches and instruction caches, then groups, NUMA nodes, bridges, devices and Misc
/// objects, then what came to hwloc later on
pub proof fn law_type_codes_follow(code: i32)
    ensures
        ObjectType::of_raw(code) is Some <==> 0 <= code < OBJECT_TYPE_COUNT,
        ObjectType::of_raw(code) matches Some(ty) ==> {
            &&& ty.raw() == code
            &&& ty.cpu_data_cache() <==> 4 <= code <= 8
            &&& ty.cpu_instruction_cache() <==> 9 <= code <= 11
            &&& ty.io() <==> 14 <= code <= 16
            &&& ty.memory() <==> code == 13 || code == 18
        },
        ObjectType::Machine.raw() == 0,
        ObjectType::Package.raw() == ObjectType::Machine.raw() + 1,
        ObjectType::Core.raw() == ObjectType::Package.raw() + 1,
        ObjectType::PU.raw() == ObjectType::Core.raw() + 1,
        ObjectType::L1Cache.raw() == ObjectType::PU.raw() + 1,
        ObjectType::L2Cache.raw() == ObjectType::L1Cache.raw() + 1,
        ObjectType::L3Cache.raw() == ObjectType::L2Cache.raw() + 1,
        ObjectType::L4Cache.raw() == ObjectType::L3Cache.raw() + 1,
        ObjectType::L5Cache.raw() == ObjectType::L4Cache.raw() + 1,
        ObjectType::L1ICache.raw() == ObjectType::L5Cache.raw() + 1,
        ObjectType::L2ICache.raw() == ObjectType::L1ICache.raw() + 1,
        ObjectType::L3ICache.raw() == ObjectType::L2ICache.raw() + 1,
        ObjectType::Group.raw() == ObjectType::L3ICache.raw() + 1,
        ObjectType::NUMANode.raw() == ObjectType::Group.raw() + 1,
        ObjectType::Bridge.raw() == ObjectType::NUMANode.raw() + 1,
        ObjectType::PCIDevice.raw() == ObjectType::Bridge.raw() + 1,
        ObjectType::OSDevice.raw() == ObjectType::PCIDevice.raw() + 1,
        ObjectType::Misc.raw() == ObjectType::OSDevice.raw() + 1,
        ObjectType::MemCache.raw() == ObjectType::Misc.raw() + 1,
        ObjectType::Die.raw() == ObjectType::MemCache.raw() + 1,
{
}

} // verus!
