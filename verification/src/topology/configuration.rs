//! Configuration of a topology
use vstd::prelude::*;

use crate::object::types;
use crate::object::types::ObjectType;
use crate::strings::LibcString;
use crate::topology::calls::{HwlocCall, ProcessId};
use crate::topology::filter::{self, FilterScope, TypeFilter, TypeFilters};
use crate::topology::flags::{self, BuildFlag, BuildFlags};

verus! {

/// Where the topology information comes from
#[derive(Clone, Debug, Hash, PartialEq, Eq)]
pub enum TopologySource {
    /// The system on which we are running
    ThisSystem,
    /// A synthetic textual description
    Synthetic(LibcString),
    /// An XML description
    Xml(LibcString),
    /// The XML file at a certain path
    XmlFile(LibcString),
}

/// Where the topology information comes from, in the abstract
pub enum SourceView {
    ThisSystem,
    Synthetic(Seq<char>),
    Xml(Seq<char>),
    XmlFile(Seq<char>),
}

impl View for TopologySource {
    type V = SourceView;

    open spec fn view(&self) -> SourceView {
        match *self {
            TopologySource::ThisSystem => SourceView::ThisSystem,
            TopologySource::Synthetic(text) => SourceView::Synthetic(text@),
            TopologySource::Xml(text) => SourceView::Xml(text@),
            TopologySource::XmlFile(text) => SourceView::XmlFile(text@),
        }
    }
}

/// Configuration of a topology
#[derive(Clone, Debug)]
pub struct Configuration {
    /// Topology building flags
    pub flags: BuildFlags,
    /// Filtering of objects by type
    pub filters: TypeFilters,
    /// Where the topology information comes from
    pub source: TopologySource,
    /// Process that the topology is viewed from, if not this one
    pub pid: Option<ProcessId>,
    /// Discovery components that are not to be used
    pub excluded: Vec<LibcString>,
}

/// Configuration of a topology, in the abstract
#[verifier::ext_equal]
pub struct ConfigurationView {
    pub flags: Set<BuildFlag>,
    pub filters: Map<ObjectType, TypeFilter>,
    pub source: SourceView,
    pub pid: Option<ProcessId>,
    pub excluded: Seq<Seq<char>>,
}

impl View for Configuration {
    type V = ConfigurationView;

    open spec fn view(&self) -> ConfigurationView {
        ConfigurationView {
            flags: self.flags@,
            filters: self.filters@,
            source: self.source@,
            pid: self.pid,
            excluded: self.excluded@.map_values(|name: LibcString| name@),
        }
    }
}

impl ConfigurationView {
    /// Configuration that hwloc starts from
    pub open spec fn initial() -> ConfigurationView {
        ConfigurationView {
            flags: Set::empty(),
            filters: filter::initial_filters(),
            source: SourceView::ThisSystem,
            pid: None,
            excluded: Seq::empty(),
        }
    }

    /// Truth that flags and filters are in a state that hwloc supports
    pub open spec fn consistent(self) -> bool {
        &&& BuildFlags::valid(self.flags)
        &&& filter::supported(self.filters)
    }

    /// Truth that the topology information comes from the system on which we are
    /// running
    ///
    /// Users can have it come from elsewhere by way of environment variables, unless
    /// the application chose a source already.
    pub open spec fn from_this_system(self, overridden: bool) -> bool {
        self.source is ThisSystem && !overridden
    }

    /// Truth that the topology is considered to be that of the system on which we are
    /// running
    pub open spec fn this_system(self, overridden: bool) -> bool {
        self.from_this_system(overridden) || self.flags.contains(BuildFlag::AssumeThisSystem)
    }

    /// Configuration with other filters for some object types
    pub open spec fn refiltered(self, scope: FilterScope, filter: TypeFilter) -> ConfigurationView {
        ConfigurationView { filters: filter::refiltered(self.filters, scope, filter), ..self }
    }

    /// Configuration that a call leads to, if hwloc carries it out
    pub open spec fn after(self, call: HwlocCall) -> ConfigurationView {
        match call {
            HwlocCall::SetPid { pid } => ConfigurationView { pid: Some(pid), ..self },
            HwlocCall::SetSynthetic { description } => ConfigurationView {
                source: SourceView::Synthetic(description@),
                ..self
            },
            HwlocCall::SetXmlBuffer { xml, size } => ConfigurationView {
                source: SourceView::Xml(xml@),
                ..self
            },
            HwlocCall::SetXml { path } => ConfigurationView {
                source: SourceView::XmlFile(path@),
                ..self
            },
            HwlocCall::SetComponents { flags, name } => ConfigurationView {
                excluded: self.excluded.push(name@),
                ..self
            },
            HwlocCall::SetFlags { flags } => ConfigurationView {
                flags: Set::new(|flag: BuildFlag| flags::has_bit(flags, flag)),
                ..self
            },
            HwlocCall::SetTypeFilter { ty, filter } => self.refiltered(
                FilterScope::One(ObjectType::of_raw(ty)->0),
                TypeFilter::of_raw(filter)->0,
            ),
            HwlocCall::SetAllTypesFilter { filter } => self.refiltered(
                FilterScope::All,
                TypeFilter::of_raw(filter)->0,
            ),
            HwlocCall::SetCacheTypesFilter { filter } => self.refiltered(
                FilterScope::CpuCaches,
                TypeFilter::of_raw(filter)->0,
            ),
            HwlocCall::SetICacheTypesFilter { filter } => self.refiltered(
                FilterScope::CpuInstructionCaches,
                TypeFilter::of_raw(filter)->0,
            ),
            HwlocCall::SetIoTypesFilter { filter } => self.refiltered(
                FilterScope::Io,
                TypeFilter::of_raw(filter)->0,
            ),
            _ => self,
        }
    }
}

/// Truth that the parameters of a call are among those that hwloc knows
pub open spec fn well_formed(call: HwlocCall) -> bool {
    match call {
        HwlocCall::SetFlags { flags } => BuildFlags::valid(
            Set::new(|flag: BuildFlag| flags::has_bit(flags, flag)),
        ),
        HwlocCall::SetTypeFilter { ty, filter } => ObjectType::of_raw(ty) is Some
            && TypeFilter::of_raw(filter) is Some,
        HwlocCall::SetAllTypesFilter { filter } => TypeFilter::of_raw(filter) is Some,
        HwlocCall::SetCacheTypesFilter { filter } => TypeFilter::of_raw(filter) is Some,
        HwlocCall::SetICacheTypesFilter { filter } => TypeFilter::of_raw(filter) is Some,
        HwlocCall::SetIoTypesFilter { filter } => TypeFilter::of_raw(filter) is Some,
        _ => true,
    }
}

impl Configuration {
    /// Truth that this configuration is complete and in a state that hwloc
    /// supports
    pub open spec fn wf(self) -> bool {
        &&& self.flags.known()
        &&& self.filters.complete()
        &&& self@.consistent()
    }

    /// Configuration that hwloc starts from
    pub fn new() -> (configuration: Configuration)
        ensures
            configuration.wf(),
            configuration@ == ConfigurationView::initial(),
    {
        let configuration = Configuration {
            flags: BuildFlags::empty(),
            filters: TypeFilters::new(),
            source: TopologySource::ThisSystem,
            pid: None,
            excluded: Vec::new(),
        };
        proof {
            filter::law_filters_stay_supported(
                filter::initial_filters(),
                FilterScope::All,
                TypeFilter::KeepAll,
            );
            assert(configuration@ =~= ConfigurationView::initial());
        }
        configuration
    }

    /// Configuration that a call leads to, once hwloc has carried it out
    pub fn record(self, call: HwlocCall) -> (configuration: Configuration)
        requires
            self.wf(),
            well_formed(call),
        ensures
            configuration.wf(),
            configuration@ == self@.after(call),
    {
        let mut configuration = self;
        proof {
            law_after_keeps_consistency(self@, call);
        }
        match call {
            HwlocCall::SetPid { pid } => {
                configuration.pid = Some(pid);
            },
            HwlocCall::SetSynthetic { description } => {
                configuration.source = TopologySource::Synthetic(description);
            },
            HwlocCall::SetXmlBuffer { xml, size: _ } => {
                configuration.source = TopologySource::Xml(xml);
            },
            HwlocCall::SetXml { path } => {
                configuration.source = TopologySource::XmlFile(path);
            },
            HwlocCall::SetComponents { flags: _, name } => {
                configuration.excluded.push(name);
            },
            HwlocCall::SetFlags { flags } => {
                configuration.flags = BuildFlags::from_bits_truncate(flags);
            },
            HwlocCall::SetTypeFilter { ty, filter } => {
                let ty = ObjectType::from_raw(ty).unwrap();
                let filter = TypeFilter::from_raw(filter).unwrap();
                configuration.filters.set(FilterScope::One(ty), filter);
            },
            HwlocCall::SetAllTypesFilter { filter } => {
                let filter = TypeFilter::from_raw(filter).unwrap();
                configuration.filters.set(FilterScope::All, filter);
            },
            HwlocCall::SetCacheTypesFilter { filter } => {
                let filter = TypeFilter::from_raw(filter).unwrap();
                configuration.filters.set(FilterScope::CpuCaches, filter);
            },
            HwlocCall::SetICacheTypesFilter { filter } => {
                let filter = TypeFilter::from_raw(filter).unwrap();
                configuration.filters.set(FilterScope::CpuInstructionCaches, filter);
            },
            HwlocCall::SetIoTypesFilter { filter } => {
                let filter = TypeFilter::from_raw(filter).unwrap();
                configuration.filters.set(FilterScope::Io, filter);
            },
            _ => {},
        }
        assert(configuration@ =~= self@.after(call));
        configuration
    }
}

/// Calls with parameters that hwloc knows keep flags and filters in a state that
/// hwloc supports
pub proof fn law_after_keeps_consistency(configuration: ConfigurationView, call: HwlocCall)
    requires
        configuration.consistent(),
        well_formed(call),
    ensures
        configuration.after(call).consistent(),
{
    match call {
        HwlocCall::SetTypeFilter { ty, filter } => {
            filter::law_filters_stay_supported(
                configuration.filters,
                FilterScope::One(ObjectType::of_raw(ty)->0),
                TypeFilter::of_raw(filter)->0,
            );
        },
        HwlocCall::SetAllTypesFilter { filter } => {
            filter::law_filters_stay_supported(
                configuration.filters,
                FilterScope::All,
                TypeFilter::of_raw(filter)->0,
            );
        },
        HwlocCall::SetCacheTypesFilter { filter } => {
            filter::law_filters_stay_supported(
                configuration.filters,
                FilterScope::CpuCaches,
                TypeFilter::of_raw(filter)->0,
            );
        },
        HwlocCall::SetICacheTypesFilter { filter } => {
            filter::law_filters_stay_supported(
                configuration.filters,
                FilterScope::CpuInstructionCaches,
                TypeFilter::of_raw(filter)->0,
            );
        },
        HwlocCall::SetIoTypesFilter { filter } => {
            filter::law_filters_stay_supported(
                configuration.filters,
                FilterScope::Io,
                TypeFilter::of_raw(filter)->0,
            );
        },
        _ => {},
    }
}

/// Flags are read back from the bits that they were turned into
pub proof fn law_flags_read_back(configuration: ConfigurationView, flags: BuildFlags)
    ensures
        configuration.after(HwlocCall::SetFlags { flags: flags.mask() }) == (ConfigurationView {
            flags: flags@,
            ..configuration
        }),
{
    assert(Set::new(|flag: BuildFlag| flags::has_bit(flags.mask(), flag)) =~= flags@);
}

/// Flags are kept by a topology that is read from an XML description, whatever it
/// is
pub proof fn law_xml_keeps_flags(
    configuration: ConfigurationView,
    flags: BuildFlags,
    xml: LibcString,
    size: i32,
)
    ensures
        configuration.after(HwlocCall::SetFlags { flags: flags.mask() }).after(
            HwlocCall::SetXmlBuffer { xml, size },
        ).after(HwlocCall::Load) == (ConfigurationView {
            flags: flags@,
            source: SourceView::Xml(xml@),
            ..configuration
        }),
{
    law_flags_read_back(configuration, flags);
}

/// Setting flags replaces the flags that were set before
pub proof fn law_last_flags_win(configuration: ConfigurationView, first: u64, last: u64)
    ensures
        configuration.after(HwlocCall::SetFlags { flags: first }).after(
            HwlocCall::SetFlags { flags: last },
        ) == configuration.after(HwlocCall::SetFlags { flags: last }),
{
}

/// A filter that was set for a type is the filter of this type, and leaves the
/// filters of other types alone
pub proof fn law_type_filter_read_back(
    configuration: ConfigurationView,
    ty: ObjectType,
    filter: TypeFilter,
    other: ObjectType,
)
    requires
        filter::TypeFilterError::reason(ty, filter) is None,
    ensures
        ({
            let call = HwlocCall::SetTypeFilter {
                ty: ty.raw(),
                filter: filter.effective(ty).raw(),
            };
            configuration.after(call).filters[other] == if other == ty {
                filter.effective(ty)
            } else {
                configuration.filters[other]
            }
        }),
{
    types::law_type_code_round_trip(ty);
    filter::law_filter_round_trip(filter.effective(ty));
}

/// A filter that was set for CPU caches is the filter of these types, and leaves
/// the filters of other types alone
///
/// Important CPU caches are all CPU caches.
pub proof fn law_cpu_cache_filters(
    configuration: ConfigurationView,
    filter: TypeFilter,
    ty: ObjectType,
)
    ensures
        configuration.refiltered(FilterScope::CpuCaches, filter).filters[ty] == if ty.cpu_cache() {
            if filter is KeepImportant {
                TypeFilter::KeepAll
            } else {
                filter
            }
        } else {
            configuration.filters[ty]
        },
        configuration.refiltered(FilterScope::CpuInstructionCaches, filter).filters[ty]
            == if ty.cpu_instruction_cache() {
            if filter is KeepImportant {
                TypeFilter::KeepAll
            } else {
                filter
            }
        } else {
            configuration.filters[ty]
        },
{
}

/// A filter that was set for I/O objects is the filter of these types, and leaves
/// the filters of other types alone
pub proof fn law_io_filters(
    configuration: ConfigurationView,
    filter: TypeFilter,
    ty: ObjectType,
)
    requires
        !(filter is KeepStructure),
    ensures
        configuration.refiltered(FilterScope::Io, filter).filters[ty] == if ty.io() {
            filter
        } else {
            configuration.filters[ty]
        },
{
}

/// A call changes no other aspect of the configuration than the one that it is
/// about
pub proof fn law_calls_are_independent(configuration: ConfigurationView, call: HwlocCall)
    ensures
        !(call is SetFlags) ==> configuration.after(call).flags == configuration.flags,
        !(call is SetTypeFilter || call is SetAllTypesFilter || call is SetCacheTypesFilter
            || call is SetICacheTypesFilter || call is SetIoTypesFilter) ==> configuration.after(
            call,
        ).filters == configuration.filters,
        !(call is SetSynthetic || call is SetXmlBuffer || call is SetXml) ==> configuration.after(
            call,
        ).source == configuration.source,
        !(call is SetPid) ==> configuration.after(call).pid == configuration.pid,
        !(call is SetComponents) ==> configuration.after(call).excluded == configuration.excluded,
{
}

/// A topology that is assumed to be that of this system is considered to be so,
/// wherever it comes from, and no other topology is unless it does come from
/// this system
pub proof fn law_this_system(configuration: ConfigurationView, overridden: bool)
    ensures
        configuration.flags.contains(BuildFlag::AssumeThisSystem) ==> configuration.this_system(
            overridden,
        ),
        ConfigurationView::initial().this_system(false),
        configuration.source is ThisSystem && !overridden ==> configuration.this_system(overridden),
        (!(configuration.source is ThisSystem) || overridden) && !configuration.flags.contains(
            BuildFlag::AssumeThisSystem,
        ) ==> !configuration.this_system(overridden),
{
}

/// At first, no flag is set, all of this system is detected as this process sees it, and
/// no discovery component is left out
pub proof fn law_initial_configuration(flag: BuildFlag, ty: ObjectType)
    ensures
        !ConfigurationView::initial().flags.contains(flag),
        ConfigurationView::initial().source == SourceView::ThisSystem,
        ConfigurationView::initial().pid is None,
        ConfigurationView::initial().excluded.len() == 0,
        ConfigurationView::initial().filters[ty] == filter::initial_filters()[ty],
        ConfigurationView::initial().consistent(),
{
    filter::law_filters_stay_supported(
        filter::initial_filters(),
        FilterScope::All,
        TypeFilter::KeepAll,
    );
}

/// A configuration is consistent if and only if its flags go together and its filters are
/// supported
pub proof fn law_consistency(configuration: ConfigurationView)
    ensures
        configuration.consistent() <==> BuildFlags::valid(configuration.flags)
            && filter::supported(configuration.filters),
{
}

/// The last source and the last process that were chosen win, and all components that were
/// left out stay so
pub proof fn law_sources(
    configuration: ConfigurationView,
    text: LibcString,
    size: i32,
    pid: ProcessId,
    flags: u64,
    call: HwlocCall,
)
    ensures
        configuration.after(HwlocCall::SetSynthetic { description: text }).source
            == SourceView::Synthetic(text@),
        configuration.after(HwlocCall::SetXmlBuffer { xml: text, size }).source
            == SourceView::Xml(text@),
        configuration.after(HwlocCall::SetXml { path: text }).source == SourceView::XmlFile(text@),
        configuration.after(HwlocCall::SetPid { pid }).pid == Some(pid),
        configuration.after(HwlocCall::SetComponents { flags, name: text }).excluded.last()
            == text@,
        configuration.after(HwlocCall::SetComponents { flags, name: text }).excluded.drop_last()
            == configuration.excluded,
        configuration.excluded.is_prefix_of(configuration.after(call).excluded),
        configuration.after(HwlocCall::Load) == configuration,
{
    assert(configuration.excluded.push(text@).drop_last() =~= configuration.excluded);
    if let HwlocCall::SetComponents { flags: _, name } = call {
        let more = configuration.excluded.push(name@);
        assert(more.subrange(0, configuration.excluded.len() as int) =~= configuration.excluded);
    } else {
        assert(configuration.excluded.subrange(0, configuration.excluded.len() as int)
            =~= configuration.excluded);
    }
}

/// Setting the filter of types that hwloc knows by their codes does what the request says
pub proof fn law_filter_calls(
    configuration: ConfigurationView,
    ty: ObjectType,
    filter: TypeFilter,
)
    ensures
        configuration.after(HwlocCall::SetTypeFilter { ty: ty.raw(), filter: filter.raw() }).filters
            == filter::refiltered(configuration.filters, FilterScope::One(ty), filter),
        configuration.after(HwlocCall::SetAllTypesFilter { filter: filter.raw() }).filters
            == filter::refiltered(configuration.filters, FilterScope::All, filter),
        configuration.after(HwlocCall::SetCacheTypesFilter { filter: filter.raw() }).filters
            == filter::refiltered(configuration.filters, FilterScope::CpuCaches, filter),
        configuration.after(HwlocCall::SetICacheTypesFilter { filter: filter.raw() }).filters
            == filter::refiltered(
            configuration.filters,
            FilterScope::CpuInstructionCaches,
            filter,
        ),
        configuration.after(HwlocCall::SetIoTypesFilter { filter: filter.raw() }).filters
            == filter::refiltered(configuration.filters, FilterScope::Io, filter),
{
    types::law_type_code_round_trip(ty);
    filter::law_filter_round_trip(filter);
}

} // verus!
