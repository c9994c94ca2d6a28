//! Detection configuration and query
use vstd::prelude::*;

use crate::errors;
use crate::errors::{call_hwloc_int_normal, FlagsError, HwlocReply, HybridError, RawHwlocError};
use crate::object::types;
use crate::object::types::ObjectType;
use crate::topology::builder;
use crate::topology::builder::{Pending, TopologyBuilder};
use crate::topology::calls::HwlocCall;
use crate::topology::configuration::ConfigurationView;
use crate::topology::filter;
use crate::topology::filter::{FilterScope, TypeFilter, TypeFilterError};
use crate::topology::flags;
use crate::topology::flags::{BuildFlag, BuildFlags};

verus! {

/// # Detection configuration and query
impl TopologyBuilder {
    /// Set topology building flags
    ///
    /// If this function is called multiple times, the last invocation will
    /// erase and replace the set of flags that was previously set.
    ///
    /// Fails with [`FlagsError`] if `flags` are not a valid combination.
    pub fn with_flags(self, flags: BuildFlags) -> (request: Result<
        PendingFlags,
        HybridError<FlagsError<BuildFlags>>,
    >)
        requires
            self.wf(),
        ensures
            !BuildFlags::valid(flags@) ==> request == Err::<
                PendingFlags,
                HybridError<FlagsError<BuildFlags>>,
            >(HybridError::Rust(FlagsError(flags))),
            BuildFlags::valid(flags@) ==> {
                &&& request matches Ok(request)
                &&& request.wf()
                &&& request.pending.builder == self
                &&& request.pending.call == HwlocCall::SetFlags { flags: flags.mask() }
                &&& request.pending.outcome() == (ConfigurationView { flags: flags@, ..self@ })
            },
    {
        if !flags.is_valid() {
            return Err(HybridError::Rust(FlagsError(flags)));
        }
        let bits: u64 = flags.bits();
        proof {
            assert(Set::new(|flag: BuildFlag| flags::has_bit(bits, flag)) =~= flags@);
        }
        Ok(
            PendingFlags {
                pending: Pending { builder: self, call: HwlocCall::SetFlags { flags: bits } },
            },
        )
    }

    /// Current topology building flags (empty by default)
    ///
    /// These are the flags that hwloc was last told to set. What hwloc itself
    /// reports is turned into flags by [`TopologyBuilder::reported_flags()`].
    pub fn flags(&self) -> (flags: BuildFlags)
        requires
            self.wf(),
        ensures
            flags.known(),
            flags@ == self@.flags,
    {
        self.configuration().flags
    }

    /// Topology building flags that hwloc reports as a bit mask
    pub fn reported_flags(bits: u64) -> (flags: BuildFlags)
        requires
            BuildFlags::valid(Set::new(|flag: BuildFlag| flags::has_bit(bits, flag))),
        ensures
            flags.known(),
            flags@ == Set::new(|flag: BuildFlag| flags::has_bit(bits, flag)),
    {
        BuildFlags::from_bits_truncate(bits)
    }

    /// Set the filtering for the given object type
    ///
    /// - Fails with [`TypeFilterError::CantKeepGroup`] if one attempts to set
    ///   [`TypeFilter::KeepAll`] for [`ObjectType::Group`] objects, which is not
    ///   allowed by hwloc.
    /// - Fails with [`TypeFilterError::CantIgnore`] if one attempts to ignore the
    ///   top- and bottom-level [`ObjectType::Machine`], [`ObjectType::PU`] and
    ///   [`ObjectType::NUMANode`] types.
    /// - Fails with [`TypeFilterError::StructureIrrelevant`] if one attempts to
    ///   set [`TypeFilter::KeepStructure`] for I/O and [`ObjectType::Misc`]
    ///   objects, for which topology structure does not matter.
    pub fn with_type_filter(self, ty: ObjectType, filter: TypeFilter) -> (request: Result<
        PendingTypeFilter,
        HybridError<TypeFilterError>,
    >)
        requires
            self.wf(),
        ensures
            match TypeFilterError::reason(ty, filter) {
                Some(error) => request == Err::<PendingTypeFilter, HybridError<TypeFilterError>>(
                    HybridError::Rust(error),
                ),
                None => {
                    &&& request matches Ok(request)
                    &&& request.wf()
                    &&& request.pending.builder == self
                    &&& request.pending.call == HwlocCall::SetTypeFilter {
                        ty: ty.raw(),
                        filter: filter.effective(ty).raw(),
                    }
                    &&& request.pending.outcome() == ConfigurationView {
                        filters: self@.filters.insert(ty, filter.effective(ty)),
                        ..self@
                    }
                },
            },
    {
        match TypeFilterError::check(ty, filter) {
            Some(error) => Err(HybridError::Rust(error)),
            None => {
                let call = HwlocCall::SetTypeFilter {
                    ty: ty.into_raw(),
                    filter: filter.effective_for(ty).into_raw(),
                };
                let request = PendingTypeFilter { pending: Pending { builder: self, call } };
                proof {
                    builder::law_builder_consistent(self);
                    types::law_type_code_round_trip(ty);
                    filter::law_filter_round_trip(filter.effective(ty));
                    assert(request.pending.outcome().filters =~= self@.filters.insert(
                        ty,
                        filter.effective(ty),
                    ));
                }
                Ok(request)
            },
        }
    }

    /// Set the filtering for all object types
    ///
    /// If some types do not support this filtering, they are silently ignored.
    pub fn with_common_type_filter(self, filter: TypeFilter) -> (request: PendingCommonTypeFilter)
        requires
            self.wf(),
        ensures
            request.wf(),
            request.filter == filter,
            request.pending.builder == self,
            request.pending.call == (HwlocCall::SetAllTypesFilter { filter: filter.raw() }),
            request.pending.outcome() == self@.refiltered(FilterScope::All, filter),
    {
        proof {
            filter::law_filter_round_trip(filter);
        }
        let call = HwlocCall::SetAllTypesFilter { filter: filter.into_raw() };
        PendingCommonTypeFilter { pending: Pending { builder: self, call }, filter }
    }

    /// Set the filtering for all CPU cache object types
    ///
    /// Memory-side caches are not involved since they are not CPU caches.
    pub fn with_cpu_cache_type_filter(self, filter: TypeFilter) -> (request: PendingCpuCacheFilter)
        requires
            self.wf(),
        ensures
            request.wf(),
            request.pending.builder == self,
            request.pending.call == (HwlocCall::SetCacheTypesFilter {
                filter: all_if_important(filter).raw(),
            }),
            request.pending.outcome() == self@.refiltered(FilterScope::CpuCaches, filter),
    {
        let filter = keep_all_if_important(filter);
        proof {
            filter::law_filter_round_trip(filter);
        }
        let call = HwlocCall::SetCacheTypesFilter { filter: filter.into_raw() };
        PendingCpuCacheFilter { pending: Pending { builder: self, call } }
    }

    /// Set the filtering for all CPU instruction cache object types
    ///
    /// Memory-side caches are not involved since they are not CPU caches.
    pub fn with_cpu_icache_type_filter(self, filter: TypeFilter) -> (request:
        PendingCpuICacheFilter)
        requires
            self.wf(),
        ensures
            request.wf(),
            request.pending.builder == self,
            request.pending.call == (HwlocCall::SetICacheTypesFilter {
                filter: all_if_important(filter).raw(),
            }),
            request.pending.outcome() == self@.refiltered(
                FilterScope::CpuInstructionCaches,
                filter,
            ),
    {
        let filter = keep_all_if_important(filter);
        proof {
            filter::law_filter_round_trip(filter);
        }
        let call = HwlocCall::SetICacheTypesFilter { filter: filter.into_raw() };
        PendingCpuICacheFilter { pending: Pending { builder: self, call } }
    }

    /// Set the filtering for all I/O object types
    ///
    /// Fails with [`TypeFilterError::StructureIrrelevant`] if one attempts to set
    /// [`TypeFilter::KeepStructure`], as topology structure does not matter for
    /// I/O objects.
    pub fn with_io_type_filter(self, filter: TypeFilter) -> (request: Result<
        PendingIoFilter,
        HybridError<TypeFilterError>,
    >)
        requires
            self.wf(),
        ensures
            filter is KeepStructure ==> request == Err::<
                PendingIoFilter,
                HybridError<TypeFilterError>,
            >(HybridError::Rust(TypeFilterError::StructureIrrelevant)),
            !(filter is KeepStructure) ==> {
                &&& request matches Ok(request)
                &&& request.wf()
                &&& request.pending.builder == self
                &&& request.pending.call == HwlocCall::SetIoTypesFilter { filter: filter.raw() }
                &&& request.pending.outcome() == self@.refiltered(FilterScope::Io, filter)
            },
    {
        if matches!(filter, TypeFilter::KeepStructure) {
            return Err(HybridError::Rust(TypeFilterError::StructureIrrelevant));
        }
        proof {
            filter::law_filter_round_trip(filter);
        }
        let call = HwlocCall::SetIoTypesFilter { filter: filter.into_raw() };
        Ok(PendingIoFilter { pending: Pending { builder: self, call } })
    }

    /// Current filtering for the given object type
    ///
    /// This is the filter that is in effect. Hwloc itself may report
    /// [`TypeFilter::KeepImportant`] in place of the equivalent
    /// [`TypeFilter::KeepAll`] for types other than I/O types.
    pub fn type_filter(&self, ty: ObjectType) -> (filter: TypeFilter)
        requires
            self.wf(),
        ensures
            filter == self@.filters[ty],
    {
        self.configuration().filters.get(ty)
    }

    /// Call by which hwloc is asked for its filtering for the given object type
    pub fn query_type_filter(ty: ObjectType) -> (call: HwlocCall)
        ensures
            call == (HwlocCall::GetTypeFilter { ty: ty.raw() }),
    {
        HwlocCall::GetTypeFilter { ty: ty.into_raw() }
    }

    /// Filtering that hwloc reports for an object type
    ///
    /// `raw` is the value that hwloc wrote, which only matters if it reports
    /// success.
    pub fn reported_type_filter(reply: HwlocReply, raw: i32) -> (result: Result<
        TypeFilter,
        RawHwlocError,
    >)
        requires
            reply.conventional(),
            reply.success() ==> TypeFilter::of_raw(raw) is Some,
        ensures
            match errors::int_normal("hwloc_topology_get_type_filter", reply) {
                Ok(_) => result matches Ok(filter) && filter.raw() == raw,
                Err(error) => result == Err::<TypeFilter, RawHwlocError>(error),
            },
    {
        match call_hwloc_int_normal("hwloc_topology_get_type_filter", reply) {
            Ok(_) => Ok(TypeFilter::from_raw(raw).unwrap()),
            Err(error) => Err(error),
        }
    }
}

/// Filter that CPU caches are given if a certain filter is asked for
///
/// No CPU cache is less important than others.
pub open spec fn all_if_important(filter: TypeFilter) -> TypeFilter {
    if filter is KeepImportant {
        TypeFilter::KeepAll
    } else {
        filter
    }
}

/// Filter that CPU caches are given if a certain filter is asked for
fn keep_all_if_important(filter: TypeFilter) -> (effective: TypeFilter)
    ensures
        effective == all_if_important(filter),
{
    if matches!(filter, TypeFilter::KeepImportant) {
        TypeFilter::KeepAll
    } else {
        filter
    }
}

/// Filters after a request to change the filters of all types
///
/// Groups are never kept for importance alone.
pub open spec fn common_filters(
    filters: Map<ObjectType, TypeFilter>,
    filter: TypeFilter,
) -> Map<ObjectType, TypeFilter> {
    let filters = filter::refiltered(filters, FilterScope::All, filter);
    if filter is KeepImportant {
        filters.insert(ObjectType::Group, TypeFilter::KeepStructure)
    } else {
        filters
    }
}

/// Setting a filter for all types from the initial filters on gives it to the
/// types that support it, and leaves the other types alone
///
/// Important objects are all objects, but for I/O objects, and groups bring
/// structure at best.
pub proof fn law_common_filters(filter: TypeFilter, ty: ObjectType)
    ensures
        common_filters(filter::initial_filters(), filter)[ty] == if (ty is Group && (
        filter is KeepAll || filter is KeepImportant)) || ty is Machine || ty is PU || ty is NUMANode
            || (filter is KeepStructure && (ty.io() || ty is Misc)) {
            TypeFilter::initial(ty)
        } else if filter is KeepImportant && !ty.io() {
            TypeFilter::KeepAll
        } else {
            filter
        },
{
}

/// Request to set topology building flags
#[derive(Debug)]
pub struct PendingFlags {
    pub pending: Pending,
}

impl PendingFlags {
    /// Truth that this request is valid
    pub open spec fn wf(self) -> bool {
        &&& self.pending.wf()
        &&& self.pending.call is SetFlags
    }

    /// Call that hwloc should make
    pub fn call(&self) -> (call: &HwlocCall)
        ensures
            *call == self.pending.call,
    {
        &self.pending.call
    }

    /// Builder of a topology with the requested flags
    pub fn finish(self, reply: HwlocReply) -> (result: Result<
        TopologyBuilder,
        HybridError<FlagsError<BuildFlags>>,
    >)
        requires
            self.wf(),
            reply.conventional(),
        ensures
            match errors::int_normal("hwloc_topology_set_flags", reply) {
                Ok(_) => result matches Ok(builder) && self.pending.completed(builder),
                Err(error) => result == Err::<
                    TopologyBuilder,
                    HybridError<FlagsError<BuildFlags>>,
                >(HybridError::Hwloc(error)),
            },
    {
        match self.pending.settle("hwloc_topology_set_flags", reply) {
            Ok(builder) => Ok(builder),
            Err(error) => Err(HybridError::Hwloc(error)),
        }
    }
}

/// Request to set the filtering for one object type
#[derive(Debug)]
pub struct PendingTypeFilter {
    pub pending: Pending,
}

impl PendingTypeFilter {
    /// Truth that this request is valid
    pub open spec fn wf(self) -> bool {
        &&& self.pending.wf()
        &&& self.pending.call is SetTypeFilter
    }

    /// Call that hwloc should make
    pub fn call(&self) -> (call: &HwlocCall)
        ensures
            *call == self.pending.call,
    {
        &self.pending.call
    }

    /// Builder of a topology with the requested filtering
    pub fn finish(self, reply: HwlocReply) -> (result: Result<
        TopologyBuilder,
        HybridError<TypeFilterError>,
    >)
        requires
            self.wf(),
            reply.conventional(),
        ensures
            match errors::int_normal("hwloc_topology_set_type_filter", reply) {
                Ok(_) => result matches Ok(builder) && self.pending.completed(builder),
                Err(error) => result == Err::<TopologyBuilder, HybridError<TypeFilterError>>(
                    HybridError::Hwloc(error),
                ),
            },
    {
        match self.pending.settle("hwloc_topology_set_type_filter", reply) {
            Ok(builder) => Ok(builder),
            Err(error) => Err(HybridError::Hwloc(error)),
        }
    }
}

/// Request to set the filtering for all object types
#[derive(Debug)]
pub struct PendingCommonTypeFilter {
    pub pending: Pending,
    /// Requested filter
    pub filter: TypeFilter,
}

/// What remains to be done to set the filtering for all object types
#[derive(Debug)]
pub enum CommonTypeFilterStep {
    /// Nothing
    Done(TopologyBuilder),
    /// The filtering of Group objects should be set, lest hwloc's own checks
    /// fail. This should not fail since the combination is supported.
    GroupFilter(PendingTypeFilter),
}

impl CommonTypeFilterStep {
    /// Truth that this step is valid
    pub open spec fn wf(self) -> bool {
        match self {
            CommonTypeFilterStep::Done(builder) => builder.wf(),
            CommonTypeFilterStep::GroupFilter(request) => request.wf(),
        }
    }

    /// Configuration once nothing remains to be done
    pub open spec fn outcome(self) -> ConfigurationView {
        match self {
            CommonTypeFilterStep::Done(builder) => builder@,
            CommonTypeFilterStep::GroupFilter(request) => request.pending.outcome(),
        }
    }
}

impl PendingCommonTypeFilter {
    /// Truth that this request is valid
    pub open spec fn wf(self) -> bool {
        &&& self.pending.wf()
        &&& self.pending.call == (HwlocCall::SetAllTypesFilter { filter: self.filter.raw() })
    }

    /// Call that hwloc should make
    pub fn call(&self) -> (call: &HwlocCall)
        ensures
            *call == self.pending.call,
    {
        &self.pending.call
    }

    /// Builder of a topology with the requested filtering, or what remains to be
    /// done to get there
    pub fn finish(self, reply: HwlocReply) -> (result: Result<CommonTypeFilterStep, RawHwlocError>)
        requires
            self.wf(),
            reply.conventional(),
        ensures
            match errors::int_normal("hwloc_topology_set_all_types_filter", reply) {
                Ok(_) => {
                    &&& result matches Ok(step)
                    &&& step.wf()
                    &&& step.outcome() == ConfigurationView {
                        filters: common_filters(self.pending.builder@.filters, self.filter),
                        ..self.pending.builder@
                    }
                    &&& if self.filter is KeepImportant {
                        &&& step matches CommonTypeFilterStep::GroupFilter(request)
                        &&& self.pending.completed(request.pending.builder)
                        &&& request.pending.call == HwlocCall::SetTypeFilter {
                            ty: ObjectType::Group.raw(),
                            filter: TypeFilter::KeepStructure.raw(),
                        }
                    } else {
                        &&& step matches CommonTypeFilterStep::Done(builder)
                        &&& self.pending.completed(builder)
                    }
                },
                Err(error) => result == Err::<CommonTypeFilterStep, RawHwlocError>(error),
            },
    {
        let filter = self.filter;
        proof {
            filter::law_filter_round_trip(filter);
        }
        match self.pending.settle("hwloc_topology_set_all_types_filter", reply) {
            Ok(builder) => {
                if matches!(filter, TypeFilter::KeepImportant) {
                    match builder.with_type_filter(ObjectType::Group, TypeFilter::KeepStructure) {
                        Ok(request) => Ok(CommonTypeFilterStep::GroupFilter(request)),
                        Err(_) => {
                            vstd::pervasive::unreached()
                        },
                    }
                } else {
                    Ok(CommonTypeFilterStep::Done(builder))
                }
            },
            Err(error) => Err(error),
        }
    }
}

/// Request to set the filtering for all CPU cache types
#[derive(Debug)]
pub struct PendingCpuCacheFilter {
    pub pending: Pending,
}

impl PendingCpuCacheFilter {
    /// Truth that this request is valid
    pub open spec fn wf(self) -> bool {
        &&& self.pending.wf()
        &&& self.pending.call is SetCacheTypesFilter
    }

    /// Call that hwloc should make
    pub fn call(&self) -> (call: &HwlocCall)
        ensures
            *call == self.pending.call,
    {
        &self.pending.call
    }

    /// Builder of a topology with the requested filtering
    pub fn finish(self, reply: HwlocReply) -> (result: Result<TopologyBuilder, RawHwlocError>)
        requires
            self.wf(),
            reply.conventional(),
        ensures
            match errors::int_normal("hwloc_topology_set_cache_types_filter", reply) {
                Ok(_) => result matches Ok(builder) && self.pending.completed(builder),
                Err(error) => result == Err::<TopologyBuilder, RawHwlocError>(error),
            },
    {
        self.pending.settle("hwloc_topology_set_cache_types_filter", reply)
    }
}

/// Request to set the filtering for all CPU instruction cache types
#[derive(Debug)]
pub struct PendingCpuICacheFilter {
    pub pending: Pending,
}

impl PendingCpuICacheFilter {
    /// Truth that this request is valid
    pub open spec fn wf(self) -> bool {
        &&& self.pending.wf()
        &&& self.pending.call is SetICacheTypesFilter
    }

    /// Call that hwloc should make
    pub fn call(&self) -> (call: &HwlocCall)
        ensures
            *call == self.pending.call,
    {
        &self.pending.call
    }

    /// Builder of a topology with the requested filtering
    pub fn finish(self, reply: HwlocReply) -> (result: Result<TopologyBuilder, RawHwlocError>)
        requires
            self.wf(),
            reply.conventional(),
        ensures
            match errors::int_normal("hwloc_topology_set_icache_types_filter", reply) {
                Ok(_) => result matches Ok(builder) && self.pending.completed(builder),
                Err(error) => result == Err::<TopologyBuilder, RawHwlocError>(error),
            },
    {
        self.pending.settle("hwloc_topology_set_icache_types_filter", reply)
    }
}

/// Request to set the filtering for all I/O object types
#[derive(Debug)]
pub struct PendingIoFilter {
    pub pending: Pending,
}

impl PendingIoFilter {
    /// Truth that this request is valid
    pub open spec fn wf(self) -> bool {
        &&& self.pending.wf()
        &&& self.pending.call is SetIoTypesFilter
    }

    /// Call that hwloc should make
    pub fn call(&self) -> (call: &HwlocCall)
        ensures
            *call == self.pending.call,
    {
        &self.pending.call
    }

    /// Builder of a topology with the requested filtering
    pub fn finish(self, reply: HwlocReply) -> (result: Result<
        TopologyBuilder,
        HybridError<TypeFilterError>,
    >)
        requires
            self.wf(),
            reply.conventional(),
        ensures
            match errors::int_normal("hwloc_topology_set_io_types_filter", reply) {
                Ok(_) => result matches Ok(builder) && self.pending.completed(builder),
                Err(error) => result == Err::<TopologyBuilder, HybridError<TypeFilterError>>(
                    HybridError::Hwloc(error),
                ),
            },
    {
        match self.pending.settle("hwloc_topology_set_io_types_filter", reply) {
            Ok(builder) => Ok(builder),
            Err(error) => Err(HybridError::Hwloc(error)),
        }
    }
}

/// A filter that was set for all types is the filter of each type that supports it, whatever
/// filter the type had, and the others keep theirs
///
/// Groups are kept for structure if important objects are asked for.
pub proof fn law_common_filters_replace(
    filters: Map<ObjectType, TypeFilter>,
    filter: TypeFilter,
    ty: ObjectType,
)
    ensures
        ty == ObjectType::Group && filter == TypeFilter::KeepImportant ==> common_filters(
            filters,
            filter,
        )[ty] == TypeFilter::KeepStructure,
        !(ty == ObjectType::Group && filter == TypeFilter::KeepImportant)
            && TypeFilterError::reason(ty, filter) is None ==> common_filters(filters, filter)[ty]
            == filter.effective(ty),
        !(ty == ObjectType::Group && filter == TypeFilter::KeepImportant)
            && TypeFilterError::reason(ty, filter) is Some ==> common_filters(filters, filter)[ty]
            == filters[ty],
{
}

/// The last of two filters that were set for all types wins
pub proof fn law_last_common_filter_wins(
    filters: Map<ObjectType, TypeFilter>,
    first: TypeFilter,
    last: TypeFilter,
    ty: ObjectType,
)
    requires
        TypeFilterError::reason(ty, last) is None,
    ensures
        common_filters(common_filters(filters, first), last)[ty] == common_filters(
            filters,
            last,
        )[ty],
        common_filters(filters.insert(ty, first), last)[ty] == common_filters(filters, last)[ty],
{
}

/// CPU caches get the filter that was asked for, and all of them are important
pub proof fn law_all_if_important(filter: TypeFilter, ty: ObjectType)
    requires
        ty.cpu_cache(),
    ensures
        all_if_important(TypeFilter::KeepImportant) == TypeFilter::KeepAll,
        filter != TypeFilter::KeepImportant ==> all_if_important(filter) == filter,
        all_if_important(filter) == filter.effective(ty),
{
}

} // verus!
