//! Vertical position of objects in the topology
use vstd::prelude::*;

use crate::object::types::ObjectType;

verus! {

/// Vertical index of an object in the topology hierarchy
#[derive(Clone, Copy, Debug, Hash, PartialEq, Eq, Structural)]
pub enum Depth {
    /// Number of levels of the main tree above the object
    Normal(u32),
    /// Objects of the requested type exist at several depths
    Multiple,
    /// Virtual depth of NUMA nodes
    NUMANode,
    /// Virtual depth of bridges
    Bridge,
    /// Virtual depth of PCI devices
    PCIDevice,
    /// Virtual depth of OS devices
    OSDevice,
    /// Virtual depth of Misc objects
    Misc,
    /// Virtual depth of memory-side caches
    MemCache,
}

impl Depth {
    /// Value by which hwloc represents this depth
    pub open spec fn raw(self) -> int {
        match self {
            Depth::Normal(levels) => levels as int,
            Depth::Multiple => -2,
            Depth::NUMANode => -3,
            Depth::Bridge => -4,
            Depth::PCIDevice => -5,
            Depth::OSDevice => -6,
            Depth::Misc => -7,
            Depth::MemCache => -8,
        }
    }

    /// Depth that is represented by an hwloc value, if any
    pub open spec fn of_raw(raw: i32) -> Option<Depth> {
        match raw {
            -2 => Some(Depth::Multiple),
            -3 => Some(Depth::NUMANode),
            -4 => Some(Depth::Bridge),
            -5 => Some(Depth::PCIDevice),
            -6 => Some(Depth::OSDevice),
            -7 => Some(Depth::Misc),
            -8 => Some(Depth::MemCache),
            _ => if raw >= 0 {
                Some(Depth::Normal(raw as u32))
            } else {
                None
            },
        }
    }

    /// Depth that is represented by an hwloc value, if any
    pub fn from_raw(raw: i32) -> (depth: Option<Depth>)
        ensures
            depth == Depth::of_raw(raw),
            depth is Some <==> raw >= -8 && raw != -1,
            depth matches Some(d) ==> d.raw() == raw,
    {
        match raw {
            -2 => Some(Depth::Multiple),
            -3 => Some(Depth::NUMANode),
            -4 => Some(Depth::Bridge),
            -5 => Some(Depth::PCIDevice),
            -6 => Some(Depth::OSDevice),
            -7 => Some(Depth::Misc),
            -8 => Some(Depth::MemCache),
            _ => if raw >= 0 {
                Some(Depth::Normal(raw as u32))
            } else {
                None
            },
        }
    }

    /// Number of levels of the main tree above an object, if this is a normal
    /// depth
    pub open spec fn levels(self) -> Option<u32> {
        match self {
            Depth::Normal(levels) => Some(levels),
            _ => None,
        }
    }

    /// Number of levels of the main tree above an object, if this is a normal
    /// depth
    pub fn normal(self) -> (levels: Option<u32>)
        ensures
            levels == self.levels(),
    {
        match self {
            Depth::Normal(levels) => Some(levels),
            _ => None,
        }
    }

    /// Truth that objects of type `ty` may be found at this depth
    pub open spec fn suits(self, ty: ObjectType) -> bool {
        match self {
            Depth::Normal(_) => ty.normal(),
            Depth::Multiple => false,
            Depth::NUMANode => ty is NUMANode,
            Depth::Bridge => ty is Bridge,
            Depth::PCIDevice => ty is PCIDevice,
            Depth::OSDevice => ty is OSDevice,
            Depth::Misc => ty is Misc,
            Depth::MemCache => ty is MemCache,
        }
    }

    /// Truth that objects of type `ty` may be found at this depth
    pub fn is_depth_of(self, ty: ObjectType) -> (suits: bool)
        ensures
            suits == self.suits(ty),
    {
        match self {
            Depth::Normal(_) => ty.is_normal(),
            Depth::Multiple => false,
            Depth::NUMANode => matches!(ty, ObjectType::NUMANode),
            Depth::Bridge => matches!(ty, ObjectType::Bridge),
            Depth::PCIDevice => matches!(ty, ObjectType::PCIDevice),
            Depth::OSDevice => matches!(ty, ObjectType::OSDevice),
            Depth::Misc => matches!(ty, ObjectType::Misc),
            Depth::MemCache => matches!(ty, ObjectType::MemCache),
        }
    }
}

/// Two depths with the same hwloc representation are the same depth
pub proof fn law_depth_codes_distinct(a: Depth, b: Depth)
    ensures
        a.raw() == b.raw() ==> a == b,
{
}

/// A depth is read back from the value that represents it
pub proof fn law_depth_round_trip(depth: Depth, raw: i32)
    requires
        depth.raw() == raw,
    ensures
        Depth::of_raw(raw) == Some(depth),
{
}

/// A special depth is that of a single object type
pub proof fn law_special_depth_unique(depth: Depth, a: ObjectType, b: ObjectType)
    requires
        depth.levels() is None,
        depth.suits(a),
        depth.suits(b),
    ensures
        a == b,
{
}

/// A non-negative code is the number of levels above an object, whatever it is, and a
/// negative one stands for a special depth, if for any
pub proof fn law_depth_codes(code: i32)
    ensures
        code >= 0 ==> (Depth::of_raw(code) matches Some(Depth::Normal(levels)) && levels == code),
        code < 0 ==> !(Depth::of_raw(code) matches Some(Depth::Normal(_))),
        Depth::of_raw(code) is Some <==> code >= 0 || -8 <= code <= -2,
        Depth::of_raw(code) matches Some(depth) ==> depth.raw() == code,
{
}

/// Special depths are coded downwards from that of objects at several depths
pub proof fn law_special_depth_codes()
    ensures
        Depth::Multiple.raw() == -2,
        Depth::NUMANode.raw() == Depth::Multiple.raw() - 1,
        Depth::Bridge.raw() == Depth::NUMANode.raw() - 1,
        Depth::PCIDevice.raw() == Depth::Bridge.raw() - 1,
        Depth::OSDevice.raw() == Depth::PCIDevice.raw() - 1,
        Depth::Misc.raw() == Depth::OSDevice.raw() - 1,
        Depth::MemCache.raw() == Depth::Misc.raw() - 1,
{
}

/// Objects of the main tree may be at any normal depth and at no other, and each other
/// type has a depth of its own
pub proof fn law_depths_of_types(ty: ObjectType, depth: Depth, levels: u32)
    ensures
        depth.levels() == Some(levels) <==> depth == Depth::Normal(levels),
        Depth::Normal(levels).suits(ty) <==> !(ty.io() || ty.memory() || ty == ObjectType::Misc),
        depth.suits(ty) && depth.levels() is None ==> ty.io() || ty.memory() || ty
            == ObjectType::Misc,
        Depth::NUMANode.suits(ObjectType::NUMANode),
        Depth::MemCache.suits(ObjectType::MemCache),
        Depth::Bridge.suits(ObjectType::Bridge),
        Depth::PCIDevice.suits(ObjectType::PCIDevice),
        Depth::OSDevice.suits(ObjectType::OSDevice),
        Depth::Misc.suits(ObjectType::Misc),
        !Depth::Multiple.suits(ty),
{
}

} // verus!
