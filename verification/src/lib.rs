//! Hardware locality
//!
//! hwloc detects the hardware of a machine and hands it out as a tree of
//! objects: machine, packages, cores, processing units, caches, NUMA nodes, I/O
//! devices. This library holds what surrounds the hwloc library proper:
//!
//! - [`topology::builder`] checks how a topology should be configured, decides
//!   which calls hwloc should make, and gives a meaning to its replies.
//! - [`object`] answers questions about topology objects and the tree that they
//!   form.
//! - [`windows`] enumerates Windows processor groups.
//!
//! Nothing here calls hwloc. Requests come as a [`topology::calls::HwlocCall`],
//! replies as an [`errors::HwlocReply`].
pub mod bitmap;
pub mod errors;
pub mod object;
pub mod strings;
pub mod topology;
pub mod windows;

pub use crate::topology::calls::ProcessId;
pub use crate::topology::Topology;
