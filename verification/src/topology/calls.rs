//! Calls that the hwloc library is asked to make
use vstd::prelude::*;

use crate::strings::LibcString;

verus! {

/// Identifier of a process
pub type ProcessId = i32;

/// `HWLOC_TOPOLOGY_COMPONENTS_FLAG_BLACKLIST`
pub const HWLOC_TOPOLOGY_COMPONENTS_FLAG_BLACKLIST: u64 = 1;

/// Call to an hwloc entry point, with the parameters that follow the topology
#[derive(Clone, Debug, Hash, PartialEq, Eq)]
pub enum HwlocCall {
    /// `hwloc_topology_load()`
    Load,
    /// `hwloc_topology_set_pid()`
    SetPid { pid: ProcessId },
    /// `hwloc_topology_set_synthetic()`
    SetSynthetic { description: LibcString },
    /// `hwloc_topology_set_xmlbuffer()`
    SetXmlBuffer { xml: LibcString, size: i32 },
    /// `hwloc_topology_set_xml()`
    SetXml { path: LibcString },
    /// `hwloc_topology_set_components()`
    SetComponents { flags: u64, name: LibcString },
    /// `hwloc_topology_set_flags()`
    SetFlags { flags: u64 },
    /// `hwloc_topology_set_type_filter()`
    SetTypeFilter { ty: i32, filter: i32 },
    /// `hwloc_topology_set_all_types_filter()`
    SetAllTypesFilter { filter: i32 },
    /// `hwloc_topology_set_cache_types_filter()`
    SetCacheTypesFilter { filter: i32 },
    /// `hwloc_topology_set_icache_types_filter()`
    SetICacheTypesFilter { filter: i32 },
    /// `hwloc_topology_set_io_types_filter()`
    SetIoTypesFilter { filter: i32 },
    /// `hwloc_topology_get_type_filter()`
    GetTypeFilter { ty: i32 },
    /// `hwloc_topology_is_thissystem()`
    IsThisSystem,
    /// `hwloc_windows_get_nr_processor_groups()`
    WindowsGetNrProcessorGroups { flags: u64 },
    /// `hwloc_windows_get_processor_group_cpuset()`
    WindowsGetProcessorGroupCpuset { index: u32, flags: u64 },
}

} // verus!
