//! Object type-specific attributes
use vstd::prelude::*;

use crate::object::types::ObjectType;

verus! {

/// Attributes of an object, as hwloc keeps them
///
/// Which attributes there are depends on the type of the object, and some of
/// them are not integers: this is the place where the hwloc bindings find them.
#[derive(Clone, Copy, Debug, Hash, PartialEq, Eq, Structural)]
pub struct RawObjectAttributes(pub usize);

/// Attributes of an object, with the way in which they are to be read
#[derive(Clone, Copy, Debug, Hash, PartialEq, Eq, Structural)]
pub enum ObjectAttributes {
    /// Attributes of a NUMA node
    NUMANode(RawObjectAttributes),
    /// Attributes of a CPU-side or memory-side cache
    Cache(RawObjectAttributes),
    /// Attributes of a group
    Group(RawObjectAttributes),
    /// Attributes of a PCI device
    PCIDevice(RawObjectAttributes),
    /// Attributes of a bridge
    Bridge(RawObjectAttributes),
    /// Attributes of an OS device
    OSDevice(RawObjectAttributes),
}

impl ObjectAttributes {
    /// Attributes of an object of type `ty`
    pub open spec fn of(ty: ObjectType, attr: Option<RawObjectAttributes>) -> Option<
        ObjectAttributes,
    > {
        match attr {
            None => None,
            Some(raw) => if ty is NUMANode {
                Some(ObjectAttributes::NUMANode(raw))
            } else if ty.cpu_cache() || ty is MemCache {
                Some(ObjectAttributes::Cache(raw))
            } else if ty is Group {
                Some(ObjectAttributes::Group(raw))
            } else if ty is PCIDevice {
                Some(ObjectAttributes::PCIDevice(raw))
            } else if ty is Bridge {
                Some(ObjectAttributes::Bridge(raw))
            } else if ty is OSDevice {
                Some(ObjectAttributes::OSDevice(raw))
            } else {
                None
            },
        }
    }

    /// Attributes of an object of type `ty`
    pub fn new(ty: ObjectType, attr: Option<RawObjectAttributes>) -> (attributes: Option<
        ObjectAttributes,
    >)
        ensures
            attributes == ObjectAttributes::of(ty, attr),
    {
        match attr {
            None => None,
            Some(raw) => match ty {
                ObjectType::NUMANode => Some(ObjectAttributes::NUMANode(raw)),
                ObjectType::Group => Some(ObjectAttributes::Group(raw)),
                ObjectType::PCIDevice => Some(ObjectAttributes::PCIDevice(raw)),
                ObjectType::Bridge => Some(ObjectAttributes::Bridge(raw)),
                ObjectType::OSDevice => Some(ObjectAttributes::OSDevice(raw)),
                ObjectType::MemCache => Some(ObjectAttributes::Cache(raw)),
                _ => if ty.is_cpu_cache() {
                    Some(ObjectAttributes::Cache(raw))
                } else {
                    None
                },
            },
        }
    }
}

/// Objects have attributes if hwloc gave them some, unless they are of a type that has
/// none, and all kinds of caches have cache attributes
pub proof fn law_attributes_of_types(ty: ObjectType, raw: RawObjectAttributes)
    ensures
        ObjectAttributes::of(ty, None) is None,
        ObjectAttributes::of(ty, Some(raw)) is None <==> ty == ObjectType::Machine || ty
            == ObjectType::Package || ty == ObjectType::Die || ty == ObjectType::Core || ty
            == ObjectType::PU || ty == ObjectType::Misc,
        ObjectAttributes::of(ty, Some(raw)) == Some(ObjectAttributes::Cache(raw)) <==> ty
            == ObjectType::L1Cache || ty == ObjectType::L2Cache || ty == ObjectType::L3Cache || ty
            == ObjectType::L4Cache || ty == ObjectType::L5Cache || ty == ObjectType::L1ICache
            || ty == ObjectType::L2ICache || ty == ObjectType::L3ICache || ty
            == ObjectType::MemCache,
        ObjectAttributes::of(ty, Some(raw)) == Some(ObjectAttributes::NUMANode(raw)) <==> ty
            == ObjectType::NUMANode,
        ObjectAttributes::of(ty, Some(raw)) == Some(ObjectAttributes::Group(raw)) <==> ty
            == ObjectType::Group,
        ObjectAttributes::of(ty, Some(raw)) == Some(ObjectAttributes::PCIDevice(raw)) <==> ty
            == ObjectType::PCIDevice,
        ObjectAttributes::of(ty, Some(raw)) == Some(ObjectAttributes::Bridge(raw)) <==> ty
            == ObjectType::Bridge,
        ObjectAttributes::of(ty, Some(raw)) == Some(ObjectAttributes::OSDevice(raw)) <==> ty
            == ObjectType::OSDevice,
{
}

/// Which attributes there are is a matter of the type alone, and different attributes are
/// told apart
pub proof fn law_attributes_keep_raw_value(
    ty: ObjectType,
    a: RawObjectAttributes,
    b: RawObjectAttributes,
)
    ensures
        ObjectAttributes::of(ty, Some(a)) is Some <==> ObjectAttributes::of(ty, Some(b)) is Some,
        ObjectAttributes::of(ty, Some(a)) is Some && ObjectAttributes::of(ty, Some(a))
            == ObjectAttributes::of(ty, Some(b)) ==> a == b,
{
}

} // verus!
