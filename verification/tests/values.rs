use hwlocality::bitmap::{Bitmap, CpuSet};
use hwlocality::errors::{Errno, HwlocReply, RawHwlocError};
use hwlocality::object::depth::Depth;
use hwlocality::object::types::{ChildKind, ObjectType};
use hwlocality::strings::{is_nul_free, LibcString, NulError};
use hwlocality::topology::builder::{
    BuildFlag, BuildFlags, TopologyBuilder, TypeFilter, TypeFilterError,
};
use hwlocality::topology::calls::HwlocCall;
use hwlocality::topology::filter::{FilterScope, TypeFilters};
use hwlocality::windows::ProcessorGroups;
use hwlocality::{errors, topology};

fn all_types() -> Vec<ObjectType> {
    (0..20).map(|raw| ObjectType::from_raw(raw).unwrap()).collect()
}

#[test]
fn type_codes() {
    assert_eq!(ObjectType::Machine.into_raw(), 0);
    assert_eq!(ObjectType::PU.into_raw(), 3);
    assert_eq!(ObjectType::L1Cache.into_raw(), 4);
    assert_eq!(ObjectType::L3ICache.into_raw(), 11);
    assert_eq!(ObjectType::Group.into_raw(), 12);
    assert_eq!(ObjectType::NUMANode.into_raw(), 13);
    assert_eq!(ObjectType::Bridge.into_raw(), 14);
    assert_eq!(ObjectType::Misc.into_raw(), 17);
    assert_eq!(ObjectType::MemCache.into_raw(), 18);
    assert_eq!(ObjectType::Die.into_raw(), 19);
    for (raw, ty) in (0..).zip(all_types()) {
        assert_eq!(ty.into_raw(), raw);
    }
    assert_eq!(ObjectType::from_raw(20), None);
    assert_eq!(ObjectType::from_raw(-1), None);
}

#[test]
fn type_classes() {
    let of = |test: fn(ObjectType) -> bool| -> Vec<ObjectType> {
        all_types().into_iter().filter(|&ty| test(ty)).collect()
    };
    assert_eq!(
        of(ObjectType::is_io),
        [ObjectType::Bridge, ObjectType::PCIDevice, ObjectType::OSDevice]
    );
    assert_eq!(of(ObjectType::is_memory), [ObjectType::NUMANode, ObjectType::MemCache]);
    assert_eq!(of(ObjectType::is_cpu_data_cache).len(), 5);
    assert_eq!(
        of(ObjectType::is_cpu_instruction_cache),
        [ObjectType::L1ICache, ObjectType::L2ICache, ObjectType::L3ICache]
    );
    assert_eq!(of(ObjectType::is_cpu_cache).len(), 8);
    for ty in all_types() {
        let classes = [ty.is_normal(), ty.is_memory(), ty.is_io(), ty == ObjectType::Misc];
        assert_eq!(classes.iter().filter(|&&class| class).count(), 1, "{ty:?}");
        let kinds = [ChildKind::Normal, ChildKind::Memory, ChildKind::Io, ChildKind::Misc];
        assert!(classes[kinds.iter().position(|&kind| kind == ty.child_kind()).unwrap()]);
    }
}

#[test]
fn depths() {
    assert_eq!(Depth::from_raw(0), Some(Depth::Normal(0)));
    assert_eq!(Depth::from_raw(i32::MAX), Some(Depth::Normal(i32::MAX as u32)));
    assert_eq!(Depth::from_raw(-1), None);
    assert_eq!(Depth::from_raw(-2), Some(Depth::Multiple));
    assert_eq!(Depth::from_raw(-3), Some(Depth::NUMANode));
    assert_eq!(Depth::from_raw(-8), Some(Depth::MemCache));
    assert_eq!(Depth::from_raw(-9), None);
    assert_eq!(Depth::Normal(4).normal(), Some(4));
    assert_eq!(Depth::Misc.normal(), None);
    assert!(Depth::NUMANode.is_depth_of(ObjectType::NUMANode));
    assert!(!Depth::NUMANode.is_depth_of(ObjectType::Core));
    assert!(Depth::Normal(2).is_depth_of(ObjectType::Core));
    assert!(!Depth::Normal(2).is_depth_of(ObjectType::Misc));
}

#[test]
fn build_flags() {
    let single = BuildFlags::single;
    assert_eq!(BuildFlag::IncludeDisallowed.bit(), 1);
    assert_eq!(BuildFlag::AssumeThisSystem.bit(), 2);
    assert_eq!(single(BuildFlag::IncludeDisallowed).bits(), 1);
    assert_eq!(BuildFlags::empty().bits(), 0);
    assert_eq!(BuildFlags::default(), BuildFlags::empty());
    assert_eq!(BuildFlags::from_bits_truncate(u64::MAX).bits(), 1023);
    assert_eq!(BuildFlags::from_bits_retain(u64::MAX).bits(), u64::MAX);
    let both = single(BuildFlag::IncludeDisallowed).union(single(BuildFlag::AssumeThisSystem));
    assert_eq!(both.bits(), 3);
    assert!(both.contains(single(BuildFlag::AssumeThisSystem)));
    assert!(!single(BuildFlag::AssumeThisSystem).contains(both));
    assert!(single(BuildFlag::AssumeThisSystem).intersects(both));
    assert!(!BuildFlags::empty().intersects(both));
    assert!(both.contains(BuildFlags::empty()));
    assert_eq!(both.symmetric_difference(single(BuildFlag::AssumeThisSystem)).bits(), 1);
    assert_eq!(both.iter(), [BuildFlag::IncludeDisallowed, BuildFlag::AssumeThisSystem]);
    assert_eq!(
        both.shrink().into_iter().map(BuildFlags::bits).collect::<Vec<u64>>(),
        [2, 1]
    );
    assert!(BuildFlags::empty().shrink().is_empty());
}

/// Resources can be taken from this system, and objects be restricted to the
/// bindings of this process, only if the topology is that of this system
#[test]
fn valid_flags() {
    for bits in 0..1024 {
        let expected = bits & 2 != 0 || bits & (4 | 16 | 32) == 0;
        assert_eq!(BuildFlags::from_bits_truncate(bits).is_valid(), expected, "{bits}");
    }
}

#[test]
fn filters() {
    assert_eq!(TypeFilter::KeepAll.into_raw(), 0);
    assert_eq!(TypeFilter::KeepNone.into_raw(), 1);
    assert_eq!(TypeFilter::KeepStructure.into_raw(), 2);
    assert_eq!(TypeFilter::KeepImportant.into_raw(), 3);
    for raw in 0..4 {
        assert_eq!(TypeFilter::from_raw(raw).unwrap().into_raw(), raw);
        assert_eq!(TypeFilter::arbitrary(raw as usize).into_raw(), raw);
        assert_eq!(TypeFilter::arbitrary(raw as usize + 40).into_raw(), raw);
    }
    assert_eq!(TypeFilter::from_raw(4), None);
    assert_eq!(TypeFilter::from_raw(-1), None);
    assert_eq!(TypeFilter::KeepImportant.effective_for(ObjectType::Core), TypeFilter::KeepAll);
    assert_eq!(
        TypeFilter::KeepImportant.effective_for(ObjectType::Bridge),
        TypeFilter::KeepImportant
    );
    assert_eq!(TypeFilter::KeepNone.effective_for(ObjectType::Core), TypeFilter::KeepNone);
    assert_eq!(TypeFilter::default_for(ObjectType::Die), TypeFilter::KeepAll);
    assert_eq!(TypeFilter::default_for(ObjectType::L2ICache), TypeFilter::KeepNone);
}

#[test]
fn filter_scopes() {
    let mut filters = TypeFilters::new();
    filters.set(FilterScope::All, TypeFilter::KeepNone);
    for ty in all_types() {
        assert!(FilterScope::All.includes(ty));
        let expected = match ty {
            ObjectType::Machine | ObjectType::PU | ObjectType::NUMANode => TypeFilter::KeepAll,
            _ => TypeFilter::KeepNone,
        };
        assert_eq!(filters.get(ty), expected);
        assert_eq!(TypeFilterError::check(ty, filters.get(ty)), None);
    }
    filters.set(FilterScope::CpuInstructionCaches, TypeFilter::KeepStructure);
    filters.set(FilterScope::One(ObjectType::Core), TypeFilter::KeepImportant);
    assert_eq!(filters.get(ObjectType::L1ICache), TypeFilter::KeepStructure);
    assert_eq!(filters.get(ObjectType::L1Cache), TypeFilter::KeepNone);
    assert_eq!(filters.get(ObjectType::Core), TypeFilter::KeepAll);
    assert!(FilterScope::CpuCaches.includes(ObjectType::L1ICache));
    assert!(!FilterScope::CpuCaches.includes(ObjectType::MemCache));
    assert!(FilterScope::Io.includes(ObjectType::OSDevice));
    assert!(!FilterScope::One(ObjectType::Core).includes(ObjectType::PU));
}

#[test]
fn c_strings() {
    assert!(is_nul_free(""));
    assert!(is_nul_free("café"));
    assert!(!is_nul_free("a\0"));
    assert_eq!(LibcString::new("\0a"), Err(NulError));
    let text = LibcString::new("café").unwrap();
    assert_eq!(text.as_str(), "café");
    assert_eq!(text.len(), 6);
}

#[test]
fn bitmaps() {
    let mut set = CpuSet::new();
    assert!(set.is_empty());
    assert!(CpuSet::default().is_empty());
    set.set(3);
    set.set(130);
    assert!(!set.is_empty());
    assert!(set.is_set(3) && set.is_set(130));
    assert!(!set.is_set(4) && !set.is_set(131) && !set.is_set(100_000));
    assert!(CpuSet::full().includes(&set));
    assert!(!set.includes(&CpuSet::full()));
    assert!(set.includes(&CpuSet::new()));
    assert!(set.includes(&Bitmap::from_words(vec![8], false)));
    assert!(!Bitmap::from_words(vec![8], false).includes(&set));
    assert!(Bitmap::from_words(vec![8], true).includes(&set));
    assert!(Bitmap::from_words(vec![8], true).is_set(64));
    assert!(!Bitmap::from_words(vec![8], true).is_set(4));
    assert!(Bitmap::from_words(vec![0, 0], false).is_empty());
    assert!(!Bitmap::from_words(vec![0, 0], true).is_empty());

    let mut sum = Bitmap::from_words(vec![1], false);
    sum.add_all(&Bitmap::from_words(vec![2, 4], false));
    assert!(sum.same(&Bitmap::from_words(vec![3, 4], false)));
    assert!(sum.same(&Bitmap::from_words(vec![3, 4, 0], false)));
    assert!(!sum.same(&Bitmap::from_words(vec![3], false)));
    sum.add_all(&Bitmap::from_words(vec![0], true));
    assert!(sum.same(&Bitmap::from_words(vec![3], true)));
}

#[test]
fn replies() {
    let reply = |result, errno: Option<i32>| HwlocReply { result, errno: errno.map(Errno) };
    assert_eq!(errors::call_hwloc_int_normal("f", reply(3, None)), Ok(3));
    assert_eq!(errors::call_hwloc_int_normal("f", reply(0, Some(2))), Ok(0));
    assert_eq!(
        errors::call_hwloc_int_normal("f", reply(-1, Some(2))),
        Err(RawHwlocError { api: "f", errno: Some(Errno(2)) })
    );
}

fn loaded() -> topology::Topology {
    let configuration =
        TopologyBuilder::new().build().finish(HwlocReply { result: 0, errno: None }).unwrap();
    let machine = hwlocality::object::TopologyObject {
        id: 0,
        object_type: 0,
        subtype: None,
        os_index: 0,
        name: None,
        total_memory: 0,
        attr: None,
        depth: 0,
        logical_index: 0,
        next_cousin: None,
        prev_cousin: None,
        parent: None,
        sibling_rank: 0,
        next_sibling: None,
        prev_sibling: None,
        arity: 0,
        children: Vec::new(),
        first_child: None,
        last_child: None,
        symmetric_subtree: 1,
        memory_arity: 0,
        memory_first_child: None,
        io_arity: 0,
        io_first_child: None,
        misc_arity: 0,
        misc_first_child: None,
        cpuset: Some(CpuSet::new()),
        complete_cpuset: Some(CpuSet::full()),
        nodeset: Some(CpuSet::full()),
        complete_nodeset: Some(CpuSet::full()),
        infos: Vec::new(),
    };
    let allowed =
        topology::AllowedSets { cpuset: CpuSet::new(), nodeset: CpuSet::full() };
    topology::Topology::from_objects(configuration, vec![machine], allowed, false).unwrap()
}

#[test]
fn processor_groups() {
    let topology = loaded();
    let request = topology.num_processor_groups();
    assert_eq!(*request.call(), HwlocCall::WindowsGetNrProcessorGroups { flags: 0 });
    assert_eq!(request.finish(HwlocReply { result: 3, errno: None }), Ok(3));
    let failure = HwlocReply { result: -1, errno: Some(Errno(22)) };
    let count_error =
        RawHwlocError { api: "hwloc_windows_get_nr_processor_groups", errno: Some(Errno(22)) };
    assert_eq!(topology.num_processor_groups().finish(failure), Err(count_error));
    assert_eq!(topology.processor_groups().finish(failure).unwrap_err(), count_error);

    let request = topology.processor_groups();
    assert_eq!(*request.call(), HwlocCall::WindowsGetNrProcessorGroups { flags: 0 });
    let groups = request.finish(HwlocReply { result: 3, errno: None }).unwrap();
    assert_eq!(groups.len(), 3);
    assert_eq!(
        groups.call(2),
        HwlocCall::WindowsGetProcessorGroupCpuset { index: 2, flags: 0 }
    );
    let indices: Vec<u32> = groups
        .calls()
        .into_iter()
        .map(|call| match call {
            HwlocCall::WindowsGetProcessorGroupCpuset { index, flags: 0 } => index,
            other => panic!("Unexpected call {other:?}"),
        })
        .collect();
    assert_eq!(indices, [0, 1, 2]);

    let success = HwlocReply { result: 0, errno: None };
    let group = |words| Bitmap::from_words(words, false);
    let results = groups.cpusets(vec![
        (success, group(vec![1])),
        (failure, group(vec![2])),
        (success, group(vec![4])),
    ]);
    assert_eq!(results.len(), 3);
    assert!(results[0].as_ref().unwrap().is_set(0));
    let error =
        RawHwlocError { api: "hwloc_windows_get_processor_group_cpuset", errno: Some(Errno(22)) };
    assert_eq!(*results[1].as_ref().unwrap_err(), error);
    assert!(results[2].as_ref().unwrap().is_set(2));
    assert!(ProcessorGroups::cpuset(success, group(vec![8])).unwrap().is_set(3));
}
