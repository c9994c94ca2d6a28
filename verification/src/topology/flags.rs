//! Topology building configuration flags
use vstd::prelude::*;

verus! {

/// `HWLOC_TOPOLOGY_FLAG_INCLUDE_DISALLOWED`
pub const HWLOC_TOPOLOGY_FLAG_INCLUDE_DISALLOWED: u64 = 1;

/// `HWLOC_TOPOLOGY_FLAG_IS_THISSYSTEM`
pub const HWLOC_TOPOLOGY_FLAG_IS_THISSYSTEM: u64 = 2;

/// `HWLOC_TOPOLOGY_FLAG_THISSYSTEM_ALLOWED_RESOURCES`
pub const HWLOC_TOPOLOGY_FLAG_THISSYSTEM_ALLOWED_RESOURCES: u64 = 4;

/// `HWLOC_TOPOLOGY_FLAG_IMPORT_SUPPORT`
pub const HWLOC_TOPOLOGY_FLAG_IMPORT_SUPPORT: u64 = 8;

/// `HWLOC_TOPOLOGY_FLAG_RESTRICT_TO_CPUBINDING`
pub const HWLOC_TOPOLOGY_FLAG_RESTRICT_TO_CPUBINDING: u64 = 16;

/// `HWLOC_TOPOLOGY_FLAG_RESTRICT_TO_MEMBINDING`
pub const HWLOC_TOPOLOGY_FLAG_RESTRICT_TO_MEMBINDING: u64 = 32;

/// `HWLOC_TOPOLOGY_FLAG_DONT_CHANGE_BINDING`
pub const HWLOC_TOPOLOGY_FLAG_DONT_CHANGE_BINDING: u64 = 64;

/// `HWLOC_TOPOLOGY_FLAG_NO_DISTANCES`
pub const HWLOC_TOPOLOGY_FLAG_NO_DISTANCES: u64 = 128;

/// `HWLOC_TOPOLOGY_FLAG_NO_MEMATTRS`
pub const HWLOC_TOPOLOGY_FLAG_NO_MEMATTRS: u64 = 256;

/// `HWLOC_TOPOLOGY_FLAG_NO_CPUKINDS`
pub const HWLOC_TOPOLOGY_FLAG_NO_CPUKINDS: u64 = 512;

/// Bits of all flags
pub const ALL_BITS: u64 = 1023;

/// Topology building configuration flag
#[derive(Clone, Copy, Debug, Hash, PartialEq, Eq, Structural)]
pub enum BuildFlag {
    /// Detect the whole system, ignore reservations, include disallowed objects
    ///
    /// Gather all online resources, even if some were disabled by the
    /// administrator. For instance, ignore Linux Cgroup/Cpusets and gather all
    /// processors and memory nodes. However offline PUs and NUMA nodes are still
    /// ignored.
    ///
    /// When this flag is not set, PUs and NUMA nodes that are disallowed are not
    /// added to the topology. Parent objects (package, core, cache, etc.) are
    /// added only if some of their children are allowed.
    ///
    /// If the current topology is exported to XML and reimported later, this flag
    /// should be set again in the reimported topology so that disallowed resources
    /// are reimported as well.
    IncludeDisallowed,
    /// Assume that the selected backend provides the topology for the system on
    /// which we are running
    ///
    /// This forces the topology to be considered that of the system on which we
    /// are running, even if the selected backend is not the OS-specific backend
    /// but the XML backend for instance. This means making the binding functions
    /// actually call the OS-specific system calls and really do binding, while the
    /// XML backend would otherwise provide empty hooks just returning success.
    ///
    /// This can be used for efficiency reasons to first detect the topology once,
    /// save it to an XML file, and quickly reload it later through the XML
    /// backend, but still having binding functions actually do bind.
    AssumeThisSystem,
    /// Get the set of allowed resources from the local operating system even if
    /// the topology was loaded from XML or synthetic description
    ///
    /// If the topology was loaded from XML or from a synthetic string, restrict it
    /// by applying the current process restrictions such as Linux Cgroup/Cpuset.
    ///
    /// This is useful when the topology is not loaded directly from the local
    /// machine (e.g. for performance reason) and it comes with all resources,
    /// while the running process is restricted to only parts of the machine.
    ///
    /// If this flag is set, `AssumeThisSystem` must also be set, since the loaded
    /// topology must match the underlying machine where restrictions will be
    /// gathered from.
    GetAllowedResourcesFromThisSystem,
    /// Import support from the imported topology
    ///
    /// When importing a XML topology from a remote machine, binding is disabled by
    /// default (see `AssumeThisSystem`). This disabling is also marked by putting
    /// zeroes in the corresponding supported feature bits.
    ///
    /// This flag allows you to actually import support bits from the remote
    /// machine. It also makes hwloc set the support bit by which it tells that
    /// support bits were imported. If the imported XML did not contain any support
    /// information (exporter hwloc is too old), this support bit is not set.
    ///
    /// Note that these supported features are only relevant for the hwloc
    /// installation that actually exported the XML topology (it may vary with the
    /// operating system, or with how hwloc was compiled).
    ///
    /// Note that setting this flag however does not enable binding for the locally
    /// imported hwloc topology, it only reports what the remote hwloc and machine
    /// support.
    ImportSupport,
    /// Do not consider resources outside of the process CPU binding
    ///
    /// If the binding of the process is limited to a subset of cores, ignore the
    /// other cores during discovery.
    ///
    /// This flag especially tells the x86 backend to never temporarily rebind a
    /// thread on any excluded core. This is useful on Windows because such
    /// temporary rebinding can change the process binding.
    ///
    /// If process CPU binding is not supported, the thread CPU binding is
    /// considered instead if supported, or the flag is ignored.
    ///
    /// This flag requires `AssumeThisSystem` as well since binding support is
    /// required.
    RestrictCpuToThisProcess,
    /// Do not consider resources outside of the process memory binding
    ///
    /// If the binding of the process is limited to a subset of NUMA nodes, ignore
    /// the other NUMA nodes during discovery.
    ///
    /// This flag is meant to be used together with `RestrictCpuToThisProcess` when
    /// both cores and NUMA nodes should be ignored outside of the process binding.
    ///
    /// If process memory binding is not supported, the thread memory binding is
    /// considered instead if supported, or the flag is ignored.
    ///
    /// This flag requires `AssumeThisSystem` as well since binding support is
    /// required.
    RestrictMemoryToThisProcess,
    /// Do not ever modify the process or thread binding during discovery
    ///
    /// This flag disables all hwloc discovery steps that require a change of the
    /// process or thread binding. This currently only affects the x86 backend
    /// which gets entirely disabled.
    ///
    /// This is useful when a topology is loaded while the application also creates
    /// additional threads or modifies the binding.
    DontChangeBinding,
    /// Ignore distance information from the operating system (and from XML)
    ///
    /// Distances will not be used for grouping objects.
    IgnoreDistances,
    /// Ignore memory attribues from the operating system (and from XML)
    IgnoreMemoryAttributes,
    /// Ignore CPU kind information from the operating system (and from XML)
    IgnoreCpuKinds,
}

impl BuildFlag {
    /// Bit by which hwloc designates this flag
    pub open spec fn mask(self) -> u64 {
        match self {
            BuildFlag::IncludeDisallowed => HWLOC_TOPOLOGY_FLAG_INCLUDE_DISALLOWED,
            BuildFlag::AssumeThisSystem => HWLOC_TOPOLOGY_FLAG_IS_THISSYSTEM,
            BuildFlag::GetAllowedResourcesFromThisSystem => HWLOC_TOPOLOGY_FLAG_THISSYSTEM_ALLOWED_RESOURCES,
            BuildFlag::ImportSupport => HWLOC_TOPOLOGY_FLAG_IMPORT_SUPPORT,
            BuildFlag::RestrictCpuToThisProcess => HWLOC_TOPOLOGY_FLAG_RESTRICT_TO_CPUBINDING,
            BuildFlag::RestrictMemoryToThisProcess => HWLOC_TOPOLOGY_FLAG_RESTRICT_TO_MEMBINDING,
            BuildFlag::DontChangeBinding => HWLOC_TOPOLOGY_FLAG_DONT_CHANGE_BINDING,
            BuildFlag::IgnoreDistances => HWLOC_TOPOLOGY_FLAG_NO_DISTANCES,
            BuildFlag::IgnoreMemoryAttributes => HWLOC_TOPOLOGY_FLAG_NO_MEMATTRS,
            BuildFlag::IgnoreCpuKinds => HWLOC_TOPOLOGY_FLAG_NO_CPUKINDS,
        }
    }

    /// Bit by which hwloc designates this flag
    pub fn bit(self) -> (bit: u64)
        ensures
            bit == self.mask(),
    {
        match self {
            BuildFlag::IncludeDisallowed => HWLOC_TOPOLOGY_FLAG_INCLUDE_DISALLOWED,
            BuildFlag::AssumeThisSystem => HWLOC_TOPOLOGY_FLAG_IS_THISSYSTEM,
            BuildFlag::GetAllowedResourcesFromThisSystem => HWLOC_TOPOLOGY_FLAG_THISSYSTEM_ALLOWED_RESOURCES,
            BuildFlag::ImportSupport => HWLOC_TOPOLOGY_FLAG_IMPORT_SUPPORT,
            BuildFlag::RestrictCpuToThisProcess => HWLOC_TOPOLOGY_FLAG_RESTRICT_TO_CPUBINDING,
            BuildFlag::RestrictMemoryToThisProcess => HWLOC_TOPOLOGY_FLAG_RESTRICT_TO_MEMBINDING,
            BuildFlag::DontChangeBinding => HWLOC_TOPOLOGY_FLAG_DONT_CHANGE_BINDING,
            BuildFlag::IgnoreDistances => HWLOC_TOPOLOGY_FLAG_NO_DISTANCES,
            BuildFlag::IgnoreMemoryAttributes => HWLOC_TOPOLOGY_FLAG_NO_MEMATTRS,
            BuildFlag::IgnoreCpuKinds => HWLOC_TOPOLOGY_FLAG_NO_CPUKINDS,
        }
    }
}

/// Truth that `bits` designate, among others, a given flag
pub open spec fn has_bit(bits: u64, flag: BuildFlag) -> bool {
    bits & flag.mask() != 0
}

/// Set of topology building configuration flags
#[derive(Clone, Copy, Debug, Hash, PartialEq, Eq, Structural)]
pub struct BuildFlags {
    bits: u64,
}

impl View for BuildFlags {
    type V = Set<BuildFlag>;

    open spec fn view(&self) -> Set<BuildFlag> {
        Set::new(|flag: BuildFlag| has_bit(self.mask(), flag))
    }
}

impl BuildFlags {
    /// Bits by which hwloc designates these flags
    pub closed spec fn mask(self) -> u64 {
        self.bits
    }

    /// Truth that these flags are all known
    pub open spec fn known(self) -> bool {
        self.mask() & !ALL_BITS == 0
    }

    /// Truth that a set of flags is in a valid state: binding to, and querying
    /// the restrictions of, this system need the topology to be that of this
    /// system
    pub open spec fn valid(flags: Set<BuildFlag>) -> bool {
        flags.contains(BuildFlag::GetAllowedResourcesFromThisSystem) || flags.contains(
            BuildFlag::RestrictCpuToThisProcess,
        ) || flags.contains(BuildFlag::RestrictMemoryToThisProcess) ==> flags.contains(
            BuildFlag::AssumeThisSystem,
        )
    }

    /// No flag
    pub fn empty() -> (flags: BuildFlags)
        ensures
            flags@ == Set::<BuildFlag>::empty(),
            flags.known(),
            flags.mask() == 0,
    {
        let flags = BuildFlags { bits: 0 };
        proof {
            assert forall|flag: BuildFlag| !#[trigger] flags@.contains(flag) by {
                law_truncation_keeps_flags(0, flag);
            }
            assert(0u64 & !1023u64 == 0) by (bit_vector);
            assert(flags@ =~= Set::<BuildFlag>::empty());
        }
        flags
    }

    /// A single flag
    pub fn single(flag: BuildFlag) -> (flags: BuildFlags)
        ensures
            flags@ == Set::<BuildFlag>::empty().insert(flag),
            flags.known(),
            flags.mask() == flag.mask(),
    {
        let flags = BuildFlags { bits: flag.bit() };
        proof {
            lemma_masks(flag, flag);
            assert forall|f: BuildFlag| #[trigger]
                flags@.contains(f) == Set::<BuildFlag>::empty().insert(flag).contains(f) by {
                lemma_masks(flag, f);
            }
            assert(flags@ =~= Set::<BuildFlag>::empty().insert(flag));
        }
        flags
    }

    /// Bits by which hwloc designates these flags
    pub fn bits(self) -> (bits: u64)
        ensures
            bits == self.mask(),
    {
        self.bits
    }

    /// Flags that `bits` designate, where bits that designate no known flag are
    /// left out
    pub fn from_bits_truncate(bits: u64) -> (flags: BuildFlags)
        ensures
            flags.known(),
            flags.mask() == bits & ALL_BITS,
            forall|flag: BuildFlag| #[trigger] flags@.contains(flag) <==> has_bit(bits, flag),
    {
        let flags = BuildFlags { bits: bits & ALL_BITS };
        proof {
            law_truncation_keeps_flags(bits, BuildFlag::AssumeThisSystem);
            assert forall|flag: BuildFlag| #[trigger]
                flags@.contains(flag) <==> has_bit(bits, flag) by {
                law_truncation_keeps_flags(bits, flag);
            }
        }
        flags
    }

    /// Flags that `bits` designate, where bits that designate no known flag are
    /// kept for hwloc to judge
    pub fn from_bits_retain(bits: u64) -> (flags: BuildFlags)
        ensures
            flags.mask() == bits,
    {
        BuildFlags { bits }
    }

    /// Truth that all flags of `other` are set
    pub fn contains(self, other: BuildFlags) -> (truth: bool)
        requires
            other.known(),
        ensures
            truth == other@.subset_of(self@),
    {
        proof {
            lemma_subset(self, other);
        }
        self.bits & other.bits == other.bits
    }

    /// Truth that some flag of `other` is set
    pub fn intersects(self, other: BuildFlags) -> (truth: bool)
        requires
            other.known(),
        ensures
            truth == exists|flag: BuildFlag| #[trigger]
                self@.contains(flag) && other@.contains(flag),
    {
        proof {
            lemma_common_flag(self, other);
        }
        self.bits & other.bits != 0
    }

    /// Flags that are set in `self`, in `other`, or in both
    pub fn union(self, other: BuildFlags) -> (flags: BuildFlags)
        requires
            self.known(),
            other.known(),
        ensures
            flags.known(),
            flags@ == self@.union(other@),
    {
        let flags = BuildFlags { bits: self.bits | other.bits };
        proof {
            let a = self.bits;
            let b = other.bits;
            assert((a | b) & !1023 == 0) by (bit_vector)
                requires
                    a & !1023 == 0,
                    b & !1023 == 0,
            ;
            assert forall|flag: BuildFlag| #[trigger]
                flags@.contains(flag) == (self@.contains(flag) || other@.contains(flag)) by {
                let m = flag.mask();
                assert(((a | b) & m != 0) == (a & m != 0 || b & m != 0)) by (bit_vector);
            }
            assert(flags@ =~= self@.union(other@));
        }
        flags
    }

    /// Flags that are set in either `self` or `other`, but not in both
    pub fn symmetric_difference(self, other: BuildFlags) -> (flags: BuildFlags)
        requires
            self.known(),
            other.known(),
        ensures
            flags.known(),
            forall|flag: BuildFlag| #[trigger]
                flags@.contains(flag) <==> (self@.contains(flag) != other@.contains(flag)),
    {
        let flags = BuildFlags { bits: self.bits ^ other.bits };
        proof {
            let a = self.bits;
            let b = other.bits;
            assert((a ^ b) & !1023 == 0) by (bit_vector)
                requires
                    a & !1023 == 0,
                    b & !1023 == 0,
            ;
            assert forall|flag: BuildFlag| #[trigger]
                flags@.contains(flag) == (self@.contains(flag) != other@.contains(flag)) by {
                let m = flag.mask();
                lemma_masks(flag, flag);
                assert(((a ^ b) & m != 0) == ((a & m != 0) != (b & m != 0))) by (bit_vector)
                    requires
                        single_bit(m),
                ;
            }
        }
        flags
    }

    /// Truth that these flags are in a valid state
    pub fn is_valid(self) -> (valid: bool)
        ensures
            valid == BuildFlags::valid(self@),
    {
        let this_system = BuildFlags::single(BuildFlag::AssumeThisSystem);
        let allowed = BuildFlags::single(BuildFlag::GetAllowedResourcesFromThisSystem);
        let restrict_cpu = BuildFlags::single(BuildFlag::RestrictCpuToThisProcess);
        let restrict_memory = BuildFlags::single(BuildFlag::RestrictMemoryToThisProcess);
        let assumed = self.contains(this_system);
        let restrict = restrict_cpu.union(restrict_memory);
        let valid = assumed || !self.contains(allowed);
        let valid_restrict = assumed || !self.intersects(restrict);
        proof {
            assert(this_system@.contains(BuildFlag::AssumeThisSystem));
            assert(allowed@.contains(BuildFlag::GetAllowedResourcesFromThisSystem));
            assert(restrict@.contains(BuildFlag::RestrictCpuToThisProcess));
            assert(restrict@.contains(BuildFlag::RestrictMemoryToThisProcess));
        }
        valid && valid_restrict
    }
}

/// Flags in the order of their bits
pub open spec fn flag_order() -> Seq<BuildFlag> {
    seq![
        BuildFlag::IncludeDisallowed,
        BuildFlag::AssumeThisSystem,
        BuildFlag::GetAllowedResourcesFromThisSystem,
        BuildFlag::ImportSupport,
        BuildFlag::RestrictCpuToThisProcess,
        BuildFlag::RestrictMemoryToThisProcess,
        BuildFlag::DontChangeBinding,
        BuildFlag::IgnoreDistances,
        BuildFlag::IgnoreMemoryAttributes,
        BuildFlag::IgnoreCpuKinds,
    ]
}

/// Flags of a set, in the order of their bits
pub open spec fn ordered(flags: Set<BuildFlag>) -> Seq<BuildFlag> {
    flag_order().filter(|flag: BuildFlag| flags.contains(flag))
}

impl BuildFlags {
    /// Flags that are set, in the order of their bits
    pub fn iter(self) -> (flags: Vec<BuildFlag>)
        ensures
            flags@ == ordered(self@),
    {
        let order: [BuildFlag; 10] = [
            BuildFlag::IncludeDisallowed,
            BuildFlag::AssumeThisSystem,
            BuildFlag::GetAllowedResourcesFromThisSystem,
            BuildFlag::ImportSupport,
            BuildFlag::RestrictCpuToThisProcess,
            BuildFlag::RestrictMemoryToThisProcess,
            BuildFlag::DontChangeBinding,
            BuildFlag::IgnoreDistances,
            BuildFlag::IgnoreMemoryAttributes,
            BuildFlag::IgnoreCpuKinds,
        ];
        let ghost wanted = |flag: BuildFlag| self@.contains(flag);
        assert(order@ =~= flag_order());
        assert(order@.take(0).filter(wanted) =~= Seq::<BuildFlag>::empty()) by {
            reveal(Seq::filter);
        }
        let mut flags: Vec<BuildFlag> = Vec::new();
        let mut i: usize = 0;
        while i < 10
            invariant
                i <= 10,
                order@ == flag_order(),
                wanted == (|flag: BuildFlag| self@.contains(flag)),
                flags@ == order@.take(i as int).filter(wanted),
            decreases 10 - i,
        {
            let flag = order[i];
            proof {
                reveal(Seq::filter);
                assert(order@.take(i + 1).drop_last() =~= order@.take(i as int));
                assert(order@.take(i + 1).last() == flag);
            }
            if self.bits & flag.bit() != 0 {
                flags.push(flag);
            }
            i += 1;
        }
        assert(order@.take(10) =~= order@);
        flags
    }

    /// Sets of flags that lack one of these flags each, in the order of the
    /// bits of the missing flag
    pub fn shrink(self) -> (smaller: Vec<BuildFlags>)
        requires
            self.known(),
        ensures
            smaller@.len() == ordered(self@).len(),
            forall|k: int|
                #![trigger smaller@[k]]
                0 <= k < smaller@.len() ==> smaller@[k].known() && smaller@[k]@ == self@.remove(
                    ordered(self@)[k],
                ),
    {
        let flags = self.iter();
        let mut smaller: Vec<BuildFlags> = Vec::new();
        let mut k: usize = 0;
        while k < flags.len()
            invariant
                self.known(),
                flags@ == ordered(self@),
                k <= flags@.len(),
                smaller@.len() == k,
                forall|j: int|
                    #![trigger smaller@[j]]
                    0 <= j < k ==> smaller@[j].known() && smaller@[j]@ == self@.remove(flags@[j]),
            decreases flags@.len() - k,
        {
            let flag = flags[k];
            proof {
                broadcast use vstd::seq_lib::group_filter_ensures;

                let wanted = |flag: BuildFlag| self@.contains(flag);
                assert(flag_order().filter(wanted)[k as int] == flag);
                assert(wanted(flag));
            }
            let value = BuildFlags::single(flag);
            let rest = self.symmetric_difference(value);
            assert(rest@ =~= self@.remove(flag)) by {
                assert forall|f: BuildFlag| #[trigger]
                    rest@.contains(f) == self@.remove(flag).contains(f) by {
                    assert(value@.contains(f) <==> f == flag);
                }
            }
            smaller.push(rest);
            k += 1;
        }
        smaller
    }
}

impl Default for BuildFlags {
    /// No flag
    fn default() -> (flags: Self)
        ensures
            flags@ == Set::<BuildFlag>::empty(),
            flags.known(),
    {
        BuildFlags::empty()
    }
}

/// Truth that exactly one bit of a mask is set
spec fn single_bit(mask: u64) -> bool {
    mask != 0 && mask & ((mask - 1) as u64) == 0
}

/// Each flag has a bit of its own
proof fn lemma_masks(a: BuildFlag, b: BuildFlag)
    ensures
        a.mask() & !ALL_BITS == 0,
        single_bit(a.mask()),
        (a.mask() & b.mask() != 0) <==> a == b,
{
    let m = a.mask();
    let n = b.mask();
    assert(m & !1023 == 0 && single_bit(m) && (m & n != 0 <==> m == n)) by (bit_vector)
        requires
            m == 1 || m == 2 || m == 4 || m == 8 || m == 16 || m == 32 || m == 64 || m == 128 || m
                == 256 || m == 512,
            n == 1 || n == 2 || n == 4 || n == 8 || n == 16 || n == 32 || n == 64 || n == 128 || n
                == 256 || n == 512,
    ;
}

/// Bits that designate no other flag than the known ones, and are not all zero,
/// designate some flag
proof fn lemma_some_flag(bits: u64) -> (flag: BuildFlag)
    requires
        bits & !ALL_BITS == 0,
        bits != 0,
    ensures
        has_bit(bits, flag),
{
    assert(bits & 1 != 0 || bits & 2 != 0 || bits & 4 != 0 || bits & 8 != 0 || bits & 16 != 0
        || bits & 32 != 0 || bits & 64 != 0 || bits & 128 != 0 || bits & 256 != 0 || bits & 512
        != 0) by (bit_vector)
        requires
            bits & !1023 == 0,
            bits != 0,
    ;
    if bits & 1 != 0 {
        BuildFlag::IncludeDisallowed
    } else if bits & 2 != 0 {
        BuildFlag::AssumeThisSystem
    } else if bits & 4 != 0 {
        BuildFlag::GetAllowedResourcesFromThisSystem
    } else if bits & 8 != 0 {
        BuildFlag::ImportSupport
    } else if bits & 16 != 0 {
        BuildFlag::RestrictCpuToThisProcess
    } else if bits & 32 != 0 {
        BuildFlag::RestrictMemoryToThisProcess
    } else if bits & 64 != 0 {
        BuildFlag::DontChangeBinding
    } else if bits & 128 != 0 {
        BuildFlag::IgnoreDistances
    } else if bits & 256 != 0 {
        BuildFlag::IgnoreMemoryAttributes
    } else {
        BuildFlag::IgnoreCpuKinds
    }
}

/// Inclusion of sets of flags, in terms of bits
proof fn lemma_subset(outer: BuildFlags, inner: BuildFlags)
    requires
        inner.known(),
    ensures
        inner@.subset_of(outer@) <==> outer.mask() & inner.mask() == inner.mask(),
{
    let a = outer.mask();
    let b = inner.mask();
    if a & b == b {
        assert forall|flag: BuildFlag| inner@.contains(flag) implies outer@.contains(flag) by {
            let m = flag.mask();
            assert(a & m != 0) by (bit_vector)
                requires
                    a & b == b,
                    b & m != 0,
            ;
        }
    } else {
        let c = b & !a;
        assert(c != 0 && c & !1023 == 0) by (bit_vector)
            requires
                c == b & !a,
                a & b != b,
                b & !1023 == 0,
        ;
        let flag = lemma_some_flag(c);
        let m = flag.mask();
        lemma_masks(flag, flag);
        assert(b & m != 0 && a & m == 0) by (bit_vector)
            requires
                c == b & !a,
                c & m != 0,
                single_bit(m),
        ;
        assert(inner@.contains(flag) && !outer@.contains(flag));
    }
}

/// Intersection of sets of flags, in terms of bits
proof fn lemma_common_flag(a: BuildFlags, b: BuildFlags)
    requires
        b.known(),
    ensures
        (exists|flag: BuildFlag| #[trigger] a@.contains(flag) && b@.contains(flag)) <==> a.mask()
            & b.mask() != 0,
{
    let x = a.mask();
    let y = b.mask();
    let both = x & y;
    if both != 0 {
        assert(both & !1023 == 0) by (bit_vector)
            requires
                both == x & y,
                y & !1023 == 0,
        ;
        let flag = lemma_some_flag(both);
        let m = flag.mask();
        assert(x & m != 0 && y & m != 0) by (bit_vector)
            requires
                both == x & y,
                both & m != 0,
        ;
        assert(a@.contains(flag) && b@.contains(flag));
    }
    if exists|flag: BuildFlag| #[trigger] a@.contains(flag) && b@.contains(flag) {
        let flag = choose|flag: BuildFlag| #[trigger] a@.contains(flag) && b@.contains(flag);
        let m = flag.mask();
        lemma_masks(flag, flag);
        assert(x & y != 0) by (bit_vector)
            requires
                x & m != 0,
                y & m != 0,
                single_bit(m),
        ;
    }
}

/// Leaving out the bits that designate no known flag keeps all known flags, and
/// no bits designate no flag
pub proof fn law_truncation_keeps_flags(bits: u64, flag: BuildFlag)
    ensures
        has_bit(bits & ALL_BITS, flag) == has_bit(bits, flag),
        (bits & ALL_BITS) & !ALL_BITS == 0,
        !has_bit(0, flag),
{
    let m = flag.mask();
    lemma_masks(flag, flag);
    assert((bits & 1023) & m == bits & m && (bits & 1023) & !1023 == 0 && 0 & m == 0)
        by (bit_vector)
        requires
            m & !1023 == 0,
    ;
}

/// Leaving out unknown flags changes nothing if all flags are known
pub proof fn law_flags_round_trip(flags: BuildFlags)
    requires
        flags.known(),
    ensures
        flags.mask() & ALL_BITS == flags.mask(),
{
    let bits = flags.mask();
    assert(bits & 1023 == bits) by (bit_vector)
        requires
            bits & !1023 == 0,
    ;
}

/// Known flags are determined by which flags are set
pub proof fn law_flags_extensional(a: BuildFlags, b: BuildFlags)
    requires
        a.known(),
        b.known(),
        a@ == b@,
    ensures
        a == b,
{
    lemma_subset(a, b);
    lemma_subset(b, a);
    let x = a.mask();
    let y = b.mask();
    assert(x == y) by (bit_vector)
        requires
            x & y == y,
            y & x == x,
    ;
}

/// The lack of flags is valid, and so is any set of flags by which the topology
/// is assumed to be that of this system
pub proof fn law_valid_flags(flags: Set<BuildFlag>)
    ensures
        BuildFlags::valid(Set::<BuildFlag>::empty()),
        BuildFlags::valid(flags.insert(BuildFlag::AssumeThisSystem)),
{
}

/// The bits of flags follow each other, from the lowest one up
pub proof fn law_flag_bits(flag: BuildFlag)
    ensures
        BuildFlag::IncludeDisallowed.mask() == 1,
        BuildFlag::AssumeThisSystem.mask() == 2 * BuildFlag::IncludeDisallowed.mask(),
        BuildFlag::GetAllowedResourcesFromThisSystem.mask() == 2
            * BuildFlag::AssumeThisSystem.mask(),
        BuildFlag::ImportSupport.mask() == 2 * BuildFlag::GetAllowedResourcesFromThisSystem.mask(),
        BuildFlag::RestrictCpuToThisProcess.mask() == 2 * BuildFlag::ImportSupport.mask(),
        BuildFlag::RestrictMemoryToThisProcess.mask() == 2
            * BuildFlag::RestrictCpuToThisProcess.mask(),
        BuildFlag::DontChangeBinding.mask() == 2 * BuildFlag::RestrictMemoryToThisProcess.mask(),
        BuildFlag::IgnoreDistances.mask() == 2 * BuildFlag::DontChangeBinding.mask(),
        BuildFlag::IgnoreMemoryAttributes.mask() == 2 * BuildFlag::IgnoreDistances.mask(),
        BuildFlag::IgnoreCpuKinds.mask() == 2 * BuildFlag::IgnoreMemoryAttributes.mask(),
        ALL_BITS == 2 * BuildFlag::IgnoreCpuKinds.mask() - 1,
        0 < flag.mask() <= ALL_BITS,
{
}

/// The bit of a flag designates this flag alone, and bits that are put together designate
/// the flags of both
pub proof fn law_bits_designate_flags(a: u64, b: u64, flag: BuildFlag, other: BuildFlag)
    ensures
        has_bit(flag.mask(), other) <==> flag == other,
        has_bit(a | b, flag) <==> has_bit(a, flag) || has_bit(b, flag),
        !has_bit(0, flag),
{
    let m = flag.mask();
    lemma_masks(flag, other);
    assert(((a | b) & m != 0 <==> a & m != 0 || b & m != 0) && 0 & m == 0) by (bit_vector);
}

/// Flags are those whose bits are set, so that bits which differ in the bit of a known flag
/// are different flags
pub proof fn law_flags_are_bits(flags: BuildFlags, flag: BuildFlag)
    ensures
        flags@.contains(flag) <==> has_bit(flags.mask(), flag),
        flags@.contains(flag) <==> flags.mask() & flag.mask() == flag.mask(),
{
    let m = flag.mask();
    let bits = flags.mask();
    lemma_masks(flag, flag);
    assert(bits & m != 0 <==> bits & m == m) by (bit_vector)
        requires
            single_bit(m),
    ;
}

/// Flags that take something from this system or process need the topology to be that of
/// this system, and no other flag matters
pub proof fn law_validity(flags: Set<BuildFlag>, other: BuildFlag)
    ensures
        flags.contains(BuildFlag::AssumeThisSystem) ==> BuildFlags::valid(flags),
        !flags.contains(BuildFlag::AssumeThisSystem) ==> {
            &&& !BuildFlags::valid(flags.insert(BuildFlag::GetAllowedResourcesFromThisSystem))
            &&& !BuildFlags::valid(flags.insert(BuildFlag::RestrictCpuToThisProcess))
            &&& !BuildFlags::valid(flags.insert(BuildFlag::RestrictMemoryToThisProcess))
        },
        other != BuildFlag::AssumeThisSystem && other
            != BuildFlag::GetAllowedResourcesFromThisSystem && other
            != BuildFlag::RestrictCpuToThisProcess && other
            != BuildFlag::RestrictMemoryToThisProcess ==> {
            &&& BuildFlags::valid(flags.insert(other)) <==> BuildFlags::valid(flags)
            &&& BuildFlags::valid(flags.remove(other)) <==> BuildFlags::valid(flags)
        },
        BuildFlags::valid(
            flags.remove(BuildFlag::GetAllowedResourcesFromThisSystem).remove(
                BuildFlag::RestrictCpuToThisProcess,
            ).remove(BuildFlag::RestrictMemoryToThisProcess),
        ),
{
}

/// Truth that flags come in the order of their bits
spec fn ascending(flags: Seq<BuildFlag>) -> bool {
    forall|i: int, j: int|
        0 <= i < j < flags.len() ==> (#[trigger] flags[i]).mask() < (#[trigger] flags[j]).mask()
}

/// Leaving flags out keeps the order, and the flags that are wanted
proof fn lemma_filter_ascending(flags: Seq<BuildFlag>, wanted: spec_fn(BuildFlag) -> bool)
    requires
        ascending(flags),
    ensures
        ascending(flags.filter(wanted)),
        forall|flag: BuildFlag| #[trigger]
            flags.filter(wanted).contains(flag) <==> flags.contains(flag) && wanted(flag),
    decreases flags.len(),
{
    reveal(Seq::filter);
    let kept = flags.filter(wanted);
    if flags.len() > 0 {
        let fewer = flags.drop_last();
        lemma_filter_ascending(fewer, wanted);
        let before = fewer.filter(wanted);
        let last = flags.last();
        assert forall|flag: BuildFlag| #[trigger] flags.contains(flag) <==> fewer.contains(flag)
            || flag == last by {
            if flags.contains(flag) && flag != last {
                let k = flags.index_of(flag);
                assert(fewer[k] == flag);
            }
            if fewer.contains(flag) {
                let k = fewer.index_of(flag);
                assert(flags[k] == flag);
            }
            assert(flags[flags.len() - 1] == last);
        }
        if wanted(last) {
            assert(kept =~= before.push(last));
            assert forall|flag: BuildFlag| #[trigger] kept.contains(flag) <==> before.contains(flag)
                || flag == last by {
                if kept.contains(flag) && flag != last {
                    let k = kept.index_of(flag);
                    assert(before[k] == flag);
                }
                if before.contains(flag) {
                    let k = before.index_of(flag);
                    assert(kept[k] == flag);
                }
                assert(kept[kept.len() - 1] == last);
            }
            assert forall|i: int, j: int| 0 <= i < j < kept.len() implies (
            #[trigger] kept[i]).mask() < (#[trigger] kept[j]).mask() by {
                if j == kept.len() - 1 {
                    assert(before.contains(before[i]));
                    assert(fewer.contains(before[i]));
                    let k = fewer.index_of(before[i]);
                    assert(flags[k] == before[i] && flags[flags.len() - 1] == last);
                } else {
                    assert(before[i] == kept[i] && before[j] == kept[j]);
                }
            }
        } else {
            assert(kept =~= before);
        }
    } else {
        assert(kept =~= flags);
    }
}

/// The flags of a set are listed in the order of their bits, each of them once and no
/// others
pub proof fn law_ordered(flags: Set<BuildFlag>, i: int, j: int, flag: BuildFlag)
    ensures
        ordered(flags).contains(flag) <==> flags.contains(flag),
        0 <= i < j < ordered(flags).len() ==> ordered(flags)[i].mask() < ordered(flags)[j].mask(),
{
    let order = flag_order();
    assert(ascending(order));
    lemma_filter_ascending(order, |flag: BuildFlag| flags.contains(flag));
    assert(order.contains(flag)) by {
        match flag {
            BuildFlag::IncludeDisallowed => assert(order[0] == flag),
            BuildFlag::AssumeThisSystem => assert(order[1] == flag),
            BuildFlag::GetAllowedResourcesFromThisSystem => assert(order[2] == flag),
            BuildFlag::ImportSupport => assert(order[3] == flag),
            BuildFlag::RestrictCpuToThisProcess => assert(order[4] == flag),
            BuildFlag::RestrictMemoryToThisProcess => assert(order[5] == flag),
            BuildFlag::DontChangeBinding => assert(order[6] == flag),
            BuildFlag::IgnoreDistances => assert(order[7] == flag),
            BuildFlag::IgnoreMemoryAttributes => assert(order[8] == flag),
            BuildFlag::IgnoreCpuKinds => assert(order[9] == flag),
        }
    }
}

} // verus!
