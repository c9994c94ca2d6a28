//! Building a topology with a custom configuration
//!
//! The topology building process can be customized, which means that at any
//! given point in time, a topology can either be in a non-built state that only
//! allows for configuration operations, or in a built state that cannot be
//! configured anymore but allows for most operations. This module is about the
//! former.
//!
//! Configuration operations take two steps. Methods of [`TopologyBuilder`] check
//! a request, and hand out the call that hwloc should make if the request is
//! right. Once hwloc has made this call, `finish()` turns its reply into either
//! a builder with an updated configuration or an error.
use vstd::prelude::*;

pub mod detection;
pub mod input;
pub mod source;

pub use crate::topology::builder::input::{
    FileInputError, FromPIDError, PathError, StringInputError,
};
pub use crate::topology::filter::{TypeFilter, TypeFilterError};
pub use crate::topology::flags::{BuildFlag, BuildFlags};

use crate::errors;
use crate::errors::{call_hwloc_int_normal, ErrnoCodes, HwlocReply, RawHwlocError};
use crate::topology::calls::HwlocCall;
use crate::topology::configuration;
use crate::topology::configuration::{Configuration, ConfigurationView};

verus! {

/// Mechanism to build a topology with custom configuration
#[derive(Debug)]
pub struct TopologyBuilder {
    configuration: Configuration,
    codes: ErrnoCodes,
}

impl View for TopologyBuilder {
    type V = ConfigurationView;

    closed spec fn view(&self) -> ConfigurationView {
        self.configuration@
    }
}

impl Default for TopologyBuilder {
    fn default() -> (builder: Self)
        ensures
            builder.wf(),
            builder@ == ConfigurationView::initial(),
            builder.errno_codes().genuine(),
    {
        TopologyBuilder::new()
    }
}

/// # Topology building
impl TopologyBuilder {
    /// Truth that flags and filters are in a state that hwloc supports
    pub closed spec fn wf(self) -> bool {
        self.configuration.wf()
    }

    /// Codes by which `errno` values are told apart
    pub closed spec fn errno_codes(self) -> ErrnoCodes {
        self.codes
    }

    /// Start building a topology
    ///
    /// Values of `errno` are told apart by the codes of the platform that this
    /// library was compiled for.
    pub fn new() -> (builder: TopologyBuilder)
        ensures
            builder.wf(),
            builder@ == ConfigurationView::initial(),
            builder.errno_codes().genuine(),
    {
        TopologyBuilder::with_codes(ErrnoCodes::host())
    }

    /// Start building a topology on a platform with certain `errno` codes
    pub fn with_codes(codes: ErrnoCodes) -> (builder: TopologyBuilder)
        ensures
            builder.wf(),
            builder@ == ConfigurationView::initial(),
            builder.errno_codes() == codes,
    {
        TopologyBuilder { configuration: Configuration::new(), codes }
    }

    /// Current configuration
    pub(crate) fn configuration(&self) -> (configuration: &Configuration)
        requires
            self.wf(),
        ensures
            configuration.wf(),
            configuration@ == self@,
    {
        &self.configuration
    }

    /// Codes by which `errno` values are told apart
    pub fn codes(&self) -> (codes: ErrnoCodes)
        ensures
            codes == self.errno_codes(),
    {
        self.codes
    }

    /// Load the topology with the previously specified parameters
    pub fn build(self) -> (request: PendingLoad)
        requires
            self.wf(),
        ensures
            request.wf(),
            request.pending.builder == self,
            request.pending.call == HwlocCall::Load,
    {
        PendingLoad { pending: Pending { builder: self, call: HwlocCall::Load } }
    }
}

/// Configuration change that awaits a reply of hwloc
#[derive(Debug)]
pub struct Pending {
    /// Builder before the change
    pub builder: TopologyBuilder,
    /// Call that hwloc should make
    pub call: HwlocCall,
}

impl Pending {
    /// Truth that the builder is valid and the call is one that hwloc knows
    pub open spec fn wf(self) -> bool {
        &&& self.builder.wf()
        &&& configuration::well_formed(self.call)
    }

    /// Configuration after a successful call
    pub open spec fn outcome(self) -> ConfigurationView {
        self.builder@.after(self.call)
    }

    /// Truth that a builder is what this change leads to
    pub open spec fn completed(self, builder: TopologyBuilder) -> bool {
        &&& builder.wf()
        &&& builder@ == self.outcome()
        &&& builder.errno_codes() == self.builder.errno_codes()
    }

    /// Interpret the reply to the call
    pub(crate) fn settle(self, api: &'static str, reply: HwlocReply) -> (result: Result<
        TopologyBuilder,
        RawHwlocError,
    >)
        requires
            self.wf(),
            reply.conventional(),
        ensures
            match errors::int_normal(api, reply) {
                Ok(_) => result matches Ok(builder) && self.completed(builder),
                Err(error) => result == Err::<TopologyBuilder, RawHwlocError>(error),
            },
    {
        match call_hwloc_int_normal(api, reply) {
            Ok(_) => Ok(
                TopologyBuilder {
                    configuration: self.builder.configuration.record(self.call),
                    codes: self.builder.codes,
                },
            ),
            Err(error) => Err(error),
        }
    }
}

/// Request to load the topology
#[derive(Debug)]
pub struct PendingLoad {
    pub pending: Pending,
}

impl PendingLoad {
    /// Truth that this request is valid
    pub open spec fn wf(self) -> bool {
        &&& self.pending.wf()
        &&& self.pending.call is Load
    }

    /// Call that hwloc should make
    pub fn call(&self) -> (call: &HwlocCall)
        ensures
            *call == self.pending.call,
    {
        &self.pending.call
    }

    /// Configuration of the loaded topology, if hwloc could load it
    ///
    /// Which objects the topology holds is up to hwloc.
    pub fn finish(self, reply: HwlocReply) -> (result: Result<Configuration, RawHwlocError>)
        requires
            self.wf(),
            reply.conventional(),
        ensures
            match errors::int_normal("hwloc_topology_load", reply) {
                Ok(_) => result matches Ok(loaded) && loaded.wf() && loaded@
                    == self.pending.builder@,
                Err(error) => result == Err::<Configuration, RawHwlocError>(error),
            },
    {
        match self.pending.settle("hwloc_topology_load", reply) {
            Ok(builder) => Ok(builder.configuration),
            Err(error) => Err(error),
        }
    }
}

/// Flags and filters of a builder are always in a state that hwloc supports
pub proof fn law_builder_consistent(builder: TopologyBuilder)
    requires
        builder.wf(),
    ensures
        builder@.consistent(),
{
}

/// A change that was carried out leads to what its call leads to, and leaves the codes alone
pub proof fn law_completed_change(change: Pending, builder: TopologyBuilder)
    ensures
        change.completed(builder) <==> {
            &&& builder.wf()
            &&& builder@ == change.builder@.after(change.call)
            &&& builder.errno_codes() == change.builder.errno_codes()
        },
{
}

} // verus!
