use hwlocality::bitmap::{CpuSet, NodeSet};
use hwlocality::errors::{
    Errno, ErrnoCodes, FlagsError, HwlocReply, HybridError, RawHwlocError,
};
use hwlocality::object::types::ObjectType;
use hwlocality::object::{TopologyObject, HWLOC_UNKNOWN_INDEX};
use hwlocality::strings::{LibcString, NulError};
use hwlocality::topology::builder::detection::CommonTypeFilterStep;
use hwlocality::topology::builder::{
    BuildFlag, BuildFlags, FileInputError, FromPIDError, PathError, StringInputError,
    TopologyBuilder, TypeFilter, TypeFilterError,
};
use hwlocality::topology::calls::HwlocCall;
use hwlocality::topology::configuration::Configuration;
use hwlocality::topology::AllowedSets;
use hwlocality::Topology;

const CODES: ErrnoCodes = ErrnoCodes { einval: 22, enosys: 38 };

const FILTERS: [TypeFilter; 4] = [
    TypeFilter::KeepAll,
    TypeFilter::KeepNone,
    TypeFilter::KeepStructure,
    TypeFilter::KeepImportant,
];

fn success() -> HwlocReply {
    HwlocReply { result: 0, errno: None }
}

fn failure(errno: Option<i32>) -> HwlocReply {
    HwlocReply { result: -1, errno: errno.map(Errno) }
}

fn raw_error(api: &'static str, errno: Option<i32>) -> RawHwlocError {
    RawHwlocError { api, errno: errno.map(Errno) }
}

fn all_types() -> Vec<ObjectType> {
    (0..20).map(|raw| ObjectType::from_raw(raw).unwrap()).collect()
}

fn c_string(text: &str) -> LibcString {
    LibcString::new(text).unwrap()
}

fn flag(flag: BuildFlag) -> BuildFlags {
    BuildFlags::single(flag)
}

fn default_type_filter(object_type: ObjectType) -> TypeFilter {
    match object_type {
        ObjectType::Group => TypeFilter::KeepStructure,
        ObjectType::Misc => TypeFilter::KeepNone,
        ObjectType::MemCache => TypeFilter::KeepNone,
        ty if ty.is_cpu_instruction_cache() || ty.is_io() => TypeFilter::KeepNone,
        ObjectType::Die => TypeFilter::KeepAll,
        _ => TypeFilter::KeepAll,
    }
}

fn check_default_builder(builder: &TopologyBuilder) {
    assert_eq!(builder.flags(), BuildFlags::default());
    for object_type in all_types() {
        assert_eq!(
            builder.type_filter(object_type),
            default_type_filter(object_type),
            "Unexpected filtering for objects of type {object_type:?}"
        );
    }
}

#[derive(Clone, Copy, Debug, Eq, Hash, PartialEq)]
enum DataSource {
    ThisSystem,
    Synthetic,
    Xml,
}

fn check_topology(
    topology: &Topology,
    data_source: DataSource,
    build_flags: BuildFlags,
    type_filter: impl Fn(ObjectType) -> TypeFilter,
) {
    assert_eq!(topology.build_flags(), build_flags);
    assert_eq!(
        topology.is_this_system(),
        data_source == DataSource::ThisSystem
            || build_flags.contains(flag(BuildFlag::AssumeThisSystem))
    );
    for object_type in all_types() {
        assert_eq!(
            topology.type_filter(object_type),
            type_filter(object_type),
            "Unexpected filtering for objects of type {object_type:?}"
        );
    }
    if !build_flags.contains(flag(BuildFlag::GetAllowedResourcesFromThisSystem))
        || data_source == DataSource::ThisSystem
    {
        if build_flags.contains(flag(BuildFlag::IncludeDisallowed)) {
            assert!(topology.allowed_cpuset().includes(topology.cpuset()));
            assert!(topology.allowed_nodeset().includes(topology.nodeset()));
        } else {
            assert!(topology.allowed_cpuset().same(topology.cpuset()));
            assert!(topology.allowed_nodeset().same(topology.nodeset()));
        }
    }
    assert!(topology.complete_cpuset().includes(topology.cpuset()));
    assert!(topology.complete_nodeset().includes(topology.nodeset()));
}

/// A machine with a single PU
fn machine() -> Vec<TopologyObject> {
    let mut cpus = CpuSet::new();
    cpus.set(0);
    let nodes = NodeSet::full();
    let root = TopologyObject {
        id: 0,
        object_type: ObjectType::Machine.into_raw(),
        subtype: None,
        os_index: HWLOC_UNKNOWN_INDEX,
        name: None,
        total_memory: 0,
        attr: None,
        depth: 0,
        logical_index: 0,
        next_cousin: None,
        prev_cousin: None,
        parent: None,
        sibling_rank: 0,
        next_sibling: None,
        prev_sibling: None,
        arity: 1,
        children: vec![1],
        first_child: Some(1),
        last_child: Some(1),
        symmetric_subtree: 1,
        memory_arity: 0,
        memory_first_child: None,
        io_arity: 0,
        io_first_child: None,
        misc_arity: 0,
        misc_first_child: None,
        cpuset: Some(cpus.clone()),
        complete_cpuset: Some(cpus),
        nodeset: Some(nodes.clone()),
        complete_nodeset: Some(nodes),
        infos: Vec::new(),
    };
    let pu = TopologyObject {
        id: 1,
        object_type: ObjectType::PU.into_raw(),
        os_index: 0,
        depth: 1,
        parent: Some(0),
        arity: 0,
        children: Vec::new(),
        first_child: None,
        last_child: None,
        ..root.clone()
    };
    vec![root, pu]
}

/// The only CPU and the only NUMA node
fn allowed() -> AllowedSets {
    let root = &machine()[0];
    AllowedSets {
        cpuset: root.cpuset.clone().unwrap(),
        nodeset: root.nodeset.clone().unwrap(),
    }
}

fn loaded(configuration: Configuration) -> Topology {
    Topology::from_objects(configuration, machine(), allowed(), false).unwrap()
}

fn built(builder: TopologyBuilder) -> Topology {
    let request = builder.build();
    assert_eq!(*request.call(), HwlocCall::Load);
    loaded(request.finish(success()).unwrap())
}

fn builder_with_flags(build_flags: BuildFlags) -> Option<TopologyBuilder> {
    let builder = TopologyBuilder::with_codes(CODES);
    if build_flags.is_valid() {
        let request = builder.with_flags(build_flags).unwrap();
        assert_eq!(*request.call(), HwlocCall::SetFlags { flags: build_flags.bits() });
        let builder = request.finish(success()).unwrap();
        assert_eq!(builder.flags(), build_flags);
        Some(builder)
    } else {
        let error = builder.with_flags(build_flags).unwrap_err();
        assert_eq!(error, HybridError::Rust(FlagsError(build_flags)));
        None
    }
}

fn all_flags() -> Vec<BuildFlags> {
    (0..1024).map(BuildFlags::from_bits_truncate).collect()
}

/// Some combinations of flags, valid ones among them
fn some_flags() -> Vec<BuildFlags> {
    [0, 1, 2, 6, 18, 50, 64, 896, 1023].into_iter().map(BuildFlags::from_bits_truncate).collect()
}

/// The ways to get a topology builder and a built topology in their default state
#[test]
fn default() {
    let mut default_topologies = Vec::new();
    for default_builder in
        [Topology::builder(), TopologyBuilder::new(), TopologyBuilder::default()]
    {
        check_default_builder(&default_builder);
        default_topologies.push(built(default_builder));
    }
    for topology in &default_topologies {
        check_topology(
            topology,
            DataSource::ThisSystem,
            BuildFlags::default(),
            default_type_filter,
        )
    }
}

#[test]
fn host_codes() {
    assert_eq!(ErrnoCodes::host().einval, libc::EINVAL);
    assert_eq!(ErrnoCodes::host().enosys, libc::ENOSYS);
    assert!([14, 22, 28, 1073741846, -2147483643].contains(&libc::EINVAL));
    assert!([38, 40, 52, 71, 78, 88, 89, 90, 109, 1073741902, -2147454967]
        .contains(&libc::ENOSYS));
    for builder in [Topology::builder(), TopologyBuilder::new(), TopologyBuilder::default()] {
        assert_eq!(builder.codes(), ErrnoCodes::host());
    }
    assert_eq!(TopologyBuilder::with_codes(CODES).codes(), CODES);
}

#[test]
fn build_failure() {
    let error = TopologyBuilder::new().build().finish(failure(Some(5))).unwrap_err();
    assert_eq!(error, raw_error("hwloc_topology_load", Some(5)));
}

#[test]
fn unconventional_replies() {
    assert!(success().is_conventional());
    assert!(failure(None).is_conventional());
    assert!(HwlocReply { result: 7, errno: None }.is_conventional());
    assert!(!HwlocReply { result: -2, errno: None }.is_conventional());
}

#[test]
fn objects_must_make_up_a_tree() {
    let configuration = || TopologyBuilder::new().build().finish(success()).unwrap();
    assert!(Topology::from_objects(configuration(), Vec::new(), allowed(), false).is_none());
    let mut twice = machine();
    twice.extend(machine());
    assert!(Topology::from_objects(configuration(), twice, allowed(), false).is_none());
    let topology = Topology::from_objects(configuration(), machine(), allowed(), false).unwrap();
    assert_eq!(topology.len(), 2);
    assert_eq!(topology.at(0).object_type(), ObjectType::Machine);
    assert_eq!(topology.at(1).object_type(), ObjectType::PU);
}

/// What is allowed may differ from what is there only if this was asked for, or
/// allowed resources are those of another system than the described one
#[test]
fn allowed_sets() {
    let accepted_if = |builder: TopologyBuilder, allowed, overridden| {
        let configuration = builder.build().finish(success()).unwrap();
        Topology::from_objects(configuration, machine(), allowed, overridden).is_some()
    };
    let accepted = |builder, allowed| accepted_if(builder, allowed, false);
    let nothing = || AllowedSets { cpuset: CpuSet::new(), nodeset: NodeSet::new() };
    let no_nodes = || AllowedSets { nodeset: NodeSet::new(), ..allowed() };
    let from_this_system = flag(BuildFlag::AssumeThisSystem)
        .union(flag(BuildFlag::GetAllowedResourcesFromThisSystem));
    let synthetic = |builder: TopologyBuilder| {
        builder.from_synthetic("PU:1").unwrap().finish(success()).unwrap()
    };
    assert!(accepted(TopologyBuilder::new(), allowed()));
    assert!(!accepted(TopologyBuilder::new(), nothing()));
    assert!(!accepted(TopologyBuilder::new(), no_nodes()));
    assert!(!accepted(synthetic(TopologyBuilder::new()), nothing()));
    assert!(!accepted(builder_with_flags(from_this_system).unwrap(), nothing()));
    assert!(accepted(synthetic(builder_with_flags(from_this_system).unwrap()), nothing()));
    assert!(accepted_if(builder_with_flags(from_this_system).unwrap(), nothing(), true));
    assert!(!accepted_if(TopologyBuilder::new(), nothing(), true));
    let with_disallowed = builder_with_flags(flag(BuildFlag::IncludeDisallowed)).unwrap();
    assert!(accepted(with_disallowed, nothing()));
}

#[test]
fn this_system_from_hwloc() {
    assert_eq!(Topology::query_is_this_system(), HwlocCall::IsThisSystem);
    assert!(Topology::reported_is_this_system(1));
    assert!(!Topology::reported_is_this_system(0));
}

#[test]
fn overridden_source() {
    for (build_flags, expected) in
        [(BuildFlags::empty(), false), (flag(BuildFlag::AssumeThisSystem), true)]
    {
        let builder = builder_with_flags(build_flags).unwrap();
        let configuration = builder.build().finish(success()).unwrap();
        let topology =
            Topology::from_objects(configuration, machine(), allowed(), true).unwrap();
        assert_eq!(topology.is_this_system(), expected);
    }
}

/// Hwloc judges the flags that this library does not know
#[test]
fn unknown_flags() {
    let flags = BuildFlags::from_bits_retain(1 << 20 | 1);
    let request = TopologyBuilder::new().with_flags(flags).unwrap();
    assert_eq!(*request.call(), HwlocCall::SetFlags { flags: 1 << 20 | 1 });
    let builder = request.finish(success()).unwrap();
    assert_eq!(builder.flags(), flag(BuildFlag::IncludeDisallowed));
    let invalid = BuildFlags::from_bits_retain(1 << 20 | 4);
    assert_eq!(
        TopologyBuilder::new().with_flags(invalid).unwrap_err(),
        HybridError::Rust(FlagsError(invalid))
    );
}

#[test]
fn with_flags() {
    for build_flags in all_flags() {
        if let Some(builder) = builder_with_flags(build_flags) {
            check_topology(
                &built(builder),
                DataSource::ThisSystem,
                build_flags,
                default_type_filter,
            );
        }
    }
}

#[test]
fn with_flags_rejected_by_hwloc() {
    let request = TopologyBuilder::new().with_flags(flag(BuildFlag::IncludeDisallowed)).unwrap();
    let error = request.finish(failure(Some(22))).unwrap_err();
    assert_eq!(error, HybridError::Hwloc(raw_error("hwloc_topology_set_flags", Some(22))));
}

#[test]
fn last_flags_win() {
    let builder = builder_with_flags(flag(BuildFlag::IncludeDisallowed)).unwrap();
    let request = builder.with_flags(flag(BuildFlag::AssumeThisSystem)).unwrap();
    let builder = request.finish(success()).unwrap();
    assert_eq!(builder.flags(), flag(BuildFlag::AssumeThisSystem));
}

#[test]
fn flags_from_hwloc() {
    for build_flags in all_flags().into_iter().filter(|flags| flags.is_valid()) {
        assert_eq!(TopologyBuilder::reported_flags(build_flags.bits()), build_flags);
    }
    assert_eq!(TopologyBuilder::reported_flags(1 << 20 | 1), flag(BuildFlag::IncludeDisallowed));
}

#[test]
fn from_pid() {
    for build_flags in some_flags() {
        let Some(builder) = builder_with_flags(build_flags) else { continue };
        let request = builder.from_pid(42);
        assert_eq!(*request.call(), HwlocCall::SetPid { pid: 42 });
        check_topology(
            &built(request.finish(success()).unwrap()),
            DataSource::ThisSystem,
            build_flags,
            default_type_filter,
        );
    }
}

#[test]
fn from_pid_failures() {
    let finish = |errno| {
        TopologyBuilder::with_codes(CODES).from_pid(42).finish(failure(errno)).unwrap_err()
    };
    assert_eq!(finish(None), HybridError::Rust(FromPIDError(42)));
    assert_eq!(finish(Some(38)), HybridError::Rust(FromPIDError(42)));
    assert_eq!(
        finish(Some(22)),
        HybridError::Hwloc(raw_error("hwloc_topology_set_pid", Some(22)))
    );
    assert_eq!(FromPIDError::from(42), FromPIDError(42));
    assert_eq!(FromPIDError::default(), FromPIDError(0));
}

#[test]
fn from_pid_failures_on_host() {
    let finish = |errno| TopologyBuilder::new().from_pid(-1).finish(failure(errno)).unwrap_err();
    assert_eq!(finish(Some(libc::ENOSYS)), HybridError::Rust(FromPIDError(-1)));
    assert_eq!(
        finish(Some(libc::EINVAL)),
        HybridError::Hwloc(raw_error("hwloc_topology_set_pid", Some(libc::EINVAL)))
    );
}

#[test]
fn from_synthetic() {
    for build_flags in some_flags() {
        let Some(builder) = builder_with_flags(build_flags) else { continue };
        assert_eq!(builder.from_synthetic("\0").unwrap_err(), StringInputError::ContainsNul);

        let request = builder_with_flags(build_flags).unwrap().from_synthetic("ZaLgO").unwrap();
        assert!(request.accepts(&failure(Some(22))));
        assert_eq!(request.finish(failure(Some(22))).unwrap_err(), StringInputError::Invalid);
        let request = builder_with_flags(build_flags).unwrap().from_synthetic("ZaLgO").unwrap();
        assert!(request.accepts(&failure(None)));
        assert_eq!(request.finish(failure(None)).unwrap_err(), StringInputError::Invalid);
        let request = builder_with_flags(build_flags).unwrap().from_synthetic("ZaLgO").unwrap();
        assert_eq!(request.finish(failure(Some(2))).unwrap_err(), StringInputError::Invalid);

        let synthetic = "Package:2 NUMANode:3 L2Cache:4 Core:5 PU:6";
        let request = builder_with_flags(build_flags).unwrap().from_synthetic(synthetic).unwrap();
        assert_eq!(
            *request.call(),
            HwlocCall::SetSynthetic { description: c_string(synthetic) }
        );
        assert!(request.accepts(&success()));
        assert!(!request.accepts(&failure(Some(38))));
        assert!(!request.accepts(&HwlocReply { result: -2, errno: None }));
        check_topology(
            &built(request.finish(success()).unwrap()),
            DataSource::Synthetic,
            build_flags,
            default_type_filter,
        );
    }
}

#[test]
fn from_xml() {
    for build_flags in some_flags() {
        let Some(builder) = builder_with_flags(build_flags) else { continue };
        assert_eq!(builder.from_xml("<\0>").unwrap_err(), StringInputError::ContainsNul);

        let request = builder_with_flags(build_flags).unwrap().from_xml("<ZaLgO>").unwrap();
        assert!(request.accepts(&failure(Some(22))));
        assert!(!request.accepts(&failure(None)));
        assert!(!request.accepts(&failure(Some(38))));
        assert_eq!(request.finish(failure(Some(22))).unwrap_err(), StringInputError::Invalid);

        for errno in [None, Some(2)] {
            let request = builder_with_flags(build_flags).unwrap().from_xml("<ZaLgO>").unwrap();
            assert_eq!(request.finish(failure(errno)).unwrap_err(), StringInputError::Invalid);
        }

        let xml = "<topology>é</topology>";
        let request = builder_with_flags(build_flags).unwrap().from_xml(xml).unwrap();
        assert_eq!(
            *request.call(),
            HwlocCall::SetXmlBuffer { xml: c_string(xml), size: 24 }
        );
        check_topology(
            &built(request.finish(success()).unwrap()),
            DataSource::Xml,
            build_flags,
            default_type_filter,
        );
    }
}

#[test]
fn from_xml_file() {
    let builder = || TopologyBuilder::with_codes(CODES);
    assert_eq!(
        builder().from_xml_file(None).unwrap_err(),
        FileInputError::BadRustPath(PathError::NotUnicode)
    );
    assert_eq!(
        builder().from_xml_file(Some("/tmp/\0")).unwrap_err(),
        FileInputError::BadRustPath(PathError::ContainsNul)
    );

    let request = builder().from_xml_file(Some("/nowhere.xml")).unwrap();
    assert!(request.accepts(&failure(Some(22))));
    assert!(!request.accepts(&failure(None)));
    // A missing file, an unreadable file, an invalid file
    for errno in [Some(2), Some(13), Some(22), None] {
        let request = builder().from_xml_file(Some("/nowhere.xml")).unwrap();
        assert_eq!(
            request.finish(failure(errno)).unwrap_err(),
            FileInputError::Invalid(String::from("/nowhere.xml"))
        );
    }

    let request = builder().from_xml_file(Some("/topology.xml")).unwrap();
    assert_eq!(*request.call(), HwlocCall::SetXml { path: c_string("/topology.xml") });
    check_topology(
        &built(request.finish(success()).unwrap()),
        DataSource::Xml,
        BuildFlags::empty(),
        default_type_filter,
    );
}

#[test]
fn input_error_conversions() {
    assert_eq!(StringInputError::from(NulError), StringInputError::ContainsNul);
    assert_eq!(PathError::from(NulError), PathError::ContainsNul);
    assert_eq!(
        FileInputError::from(PathError::NotUnicode),
        FileInputError::BadRustPath(PathError::NotUnicode)
    );
}

#[test]
fn without_components() {
    for build_flags in some_flags() {
        let Some(mut builder) = builder_with_flags(build_flags) else { continue };
        for name in ["synthetic", "xml"] {
            let request = builder.without_component(name).unwrap();
            assert_eq!(
                *request.call(),
                HwlocCall::SetComponents { flags: 1, name: c_string(name) }
            );
            builder = request.finish(success()).unwrap();
        }
        check_topology(
            &built(builder),
            DataSource::ThisSystem,
            build_flags,
            default_type_filter,
        );
    }
}

#[test]
fn without_component_failures() {
    let error = TopologyBuilder::new().without_component("linux\0io").unwrap_err();
    assert_eq!(error, HybridError::Rust(NulError));
    let request = TopologyBuilder::new().without_component("linux:io").unwrap();
    let error = request.finish(failure(Some(22))).unwrap_err();
    assert_eq!(error, HybridError::Hwloc(raw_error("hwloc_topology_set_components", Some(22))));
}

#[test]
fn with_type_filter() {
    for build_flags in some_flags().into_iter().filter(|flags| flags.is_valid()) {
        for object_type in all_types() {
            for filter in FILTERS {
                let builder = builder_with_flags(build_flags).unwrap();
                let result = builder.with_type_filter(object_type, filter);
                if object_type == ObjectType::Group
                    && [TypeFilter::KeepAll, TypeFilter::KeepImportant].contains(&filter)
                {
                    assert!(matches!(
                        result,
                        Err(HybridError::Rust(TypeFilterError::CantKeepGroup))
                    ));
                } else if [ObjectType::Machine, ObjectType::PU, ObjectType::NUMANode]
                    .contains(&object_type)
                    && ![TypeFilter::KeepAll, TypeFilter::KeepImportant].contains(&filter)
                {
                    assert!(matches!(
                        result,
                        Err(HybridError::Rust(e)) if e == TypeFilterError::from(object_type)
                    ));
                } else if filter == TypeFilter::KeepStructure
                    && (object_type.is_io() || object_type == ObjectType::Misc)
                {
                    assert!(matches!(
                        result,
                        Err(HybridError::Rust(TypeFilterError::StructureIrrelevant))
                    ));
                } else {
                    let predicted_filter = |ty: ObjectType| {
                        if ty == object_type {
                            // Important is equivalent to All for Non-IO objects
                            if filter == TypeFilter::KeepImportant && !ty.is_io() {
                                TypeFilter::KeepAll
                            } else {
                                filter
                            }
                        } else {
                            default_type_filter(ty)
                        }
                    };
                    let request = result.unwrap();
                    assert_eq!(
                        *request.call(),
                        HwlocCall::SetTypeFilter {
                            ty: object_type.into_raw(),
                            filter: predicted_filter(object_type).into_raw(),
                        }
                    );
                    check_topology(
                        &built(request.finish(success()).unwrap()),
                        DataSource::ThisSystem,
                        build_flags,
                        predicted_filter,
                    );
                }
            }
        }
    }
}

#[test]
fn type_filter_errors() {
    let check = |ty, filter| TypeFilterError::check(ty, filter);
    assert_eq!(
        check(ObjectType::Group, TypeFilter::KeepAll),
        Some(TypeFilterError::CantKeepGroup)
    );
    assert_eq!(
        check(ObjectType::PU, TypeFilter::KeepNone),
        Some(TypeFilterError::CantIgnore(ObjectType::PU))
    );
    assert_eq!(
        check(ObjectType::Misc, TypeFilter::KeepStructure),
        Some(TypeFilterError::StructureIrrelevant)
    );
    assert_eq!(check(ObjectType::Core, TypeFilter::KeepNone), None);
    let request = TopologyBuilder::new()
        .with_type_filter(ObjectType::Core, TypeFilter::KeepNone)
        .unwrap();
    assert_eq!(
        request.finish(failure(Some(22))).unwrap_err(),
        HybridError::Hwloc(raw_error("hwloc_topology_set_type_filter", Some(22)))
    );
}

#[test]
fn with_common_type_filter() {
    for build_flags in some_flags().into_iter().filter(|flags| flags.is_valid()) {
        for filter in FILTERS {
            let request = builder_with_flags(build_flags).unwrap().with_common_type_filter(filter);
            assert_eq!(
                *request.call(),
                HwlocCall::SetAllTypesFilter { filter: filter.into_raw() }
            );
            let builder = match request.finish(success()).unwrap() {
                CommonTypeFilterStep::Done(builder) => {
                    assert_ne!(filter, TypeFilter::KeepImportant);
                    builder
                }
                CommonTypeFilterStep::GroupFilter(request) => {
                    assert_eq!(filter, TypeFilter::KeepImportant);
                    assert_eq!(
                        *request.call(),
                        HwlocCall::SetTypeFilter {
                            ty: ObjectType::Group.into_raw(),
                            filter: TypeFilter::KeepStructure.into_raw(),
                        }
                    );
                    request.finish(success()).unwrap()
                }
            };
            let topology = built(builder);
            let predicted_filter = |ty: ObjectType| {
                if (ty == ObjectType::Group
                    && [TypeFilter::KeepAll, TypeFilter::KeepImportant].contains(&filter))
                    || [ObjectType::Machine, ObjectType::PU, ObjectType::NUMANode].contains(&ty)
                    || (filter == TypeFilter::KeepStructure
                        && (ty.is_io() || ty == ObjectType::Misc))
                {
                    default_type_filter(ty)
                } else if filter == TypeFilter::KeepImportant && !ty.is_io() {
                    let actual = topology.type_filter(ty);
                    assert!([TypeFilter::KeepAll, TypeFilter::KeepImportant].contains(&actual));
                    actual
                } else {
                    filter
                }
            };
            check_topology(
                &topology,
                DataSource::ThisSystem,
                build_flags,
                predicted_filter,
            );
        }
    }
}

#[test]
fn with_common_type_filter_failure() {
    let request = TopologyBuilder::new().with_common_type_filter(TypeFilter::KeepNone);
    let error = request.finish(failure(None)).unwrap_err();
    assert_eq!(error, raw_error("hwloc_topology_set_all_types_filter", None));
}

#[test]
fn with_cpu_cache_type_filter() {
    for filter in FILTERS {
        let expected =
            if filter == TypeFilter::KeepImportant { TypeFilter::KeepAll } else { filter };
        let request = TopologyBuilder::new().with_cpu_cache_type_filter(filter);
        assert_eq!(
            *request.call(),
            HwlocCall::SetCacheTypesFilter { filter: expected.into_raw() }
        );
        check_topology(
            &built(request.finish(success()).unwrap()),
            DataSource::ThisSystem,
            BuildFlags::empty(),
            |ty| if ty.is_cpu_cache() { expected } else { default_type_filter(ty) },
        );
        let request = TopologyBuilder::new().with_cpu_cache_type_filter(filter);
        assert_eq!(
            request.finish(failure(Some(1))).unwrap_err(),
            raw_error("hwloc_topology_set_cache_types_filter", Some(1))
        );
    }
}

#[test]
fn with_cpu_icache_type_filter() {
    for filter in FILTERS {
        let expected =
            if filter == TypeFilter::KeepImportant { TypeFilter::KeepAll } else { filter };
        let request = TopologyBuilder::new().with_cpu_icache_type_filter(filter);
        assert_eq!(
            *request.call(),
            HwlocCall::SetICacheTypesFilter { filter: expected.into_raw() }
        );
        check_topology(
            &built(request.finish(success()).unwrap()),
            DataSource::ThisSystem,
            BuildFlags::empty(),
            |ty| if ty.is_cpu_instruction_cache() { expected } else { default_type_filter(ty) },
        );
        let request = TopologyBuilder::new().with_cpu_icache_type_filter(filter);
        assert_eq!(
            request.finish(failure(Some(1))).unwrap_err(),
            raw_error("hwloc_topology_set_icache_types_filter", Some(1))
        );
    }
}

#[test]
fn with_io_type_filter() {
    for filter in FILTERS {
        let result = TopologyBuilder::new().with_io_type_filter(filter);
        if filter == TypeFilter::KeepStructure {
            assert!(matches!(
                result,
                Err(HybridError::Rust(TypeFilterError::StructureIrrelevant))
            ));
            continue;
        }
        let request = result.unwrap();
        assert_eq!(*request.call(), HwlocCall::SetIoTypesFilter { filter: filter.into_raw() });
        check_topology(
            &built(request.finish(success()).unwrap()),
            DataSource::ThisSystem,
            BuildFlags::empty(),
            |ty| if ty.is_io() { filter } else { default_type_filter(ty) },
        );
        let request = TopologyBuilder::new().with_io_type_filter(filter).unwrap();
        assert_eq!(
            request.finish(failure(Some(1))).unwrap_err(),
            HybridError::Hwloc(raw_error("hwloc_topology_set_io_types_filter", Some(1)))
        );
    }
}

#[test]
fn type_filter_from_hwloc() {
    assert_eq!(
        TopologyBuilder::query_type_filter(ObjectType::Misc),
        HwlocCall::GetTypeFilter { ty: 17 }
    );
    for filter in FILTERS {
        assert_eq!(
            TopologyBuilder::reported_type_filter(success(), filter.into_raw()),
            Ok(filter)
        );
    }
    assert_eq!(
        TopologyBuilder::reported_type_filter(failure(Some(22)), i32::MAX),
        Err(raw_error("hwloc_topology_get_type_filter", Some(22)))
    );
}

/// Calls leave alone the aspects of the configuration that they are not about
#[test]
fn independent_calls() {
    let builder = builder_with_flags(flag(BuildFlag::AssumeThisSystem)).unwrap();
    let builder = builder.from_synthetic("PU:1").unwrap().finish(success()).unwrap();
    let builder = builder.from_pid(1).finish(success()).unwrap();
    let builder = builder.without_component("cuda").unwrap().finish(success()).unwrap();
    let builder = builder
        .with_io_type_filter(TypeFilter::KeepImportant)
        .unwrap()
        .finish(success())
        .unwrap();
    check_topology(
        &built(builder),
        DataSource::Synthetic,
        flag(BuildFlag::AssumeThisSystem),
        |ty| if ty.is_io() { TypeFilter::KeepImportant } else { default_type_filter(ty) },
    );
}
