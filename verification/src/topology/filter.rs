//! Filtering of topology objects by type
use vstd::prelude::*;

use crate::object::types::{ObjectType, OBJECT_TYPE_COUNT};

verus! {

/// `HWLOC_TYPE_FILTER_KEEP_ALL`
pub const HWLOC_TYPE_FILTER_KEEP_ALL: i32 = 0;

/// `HWLOC_TYPE_FILTER_KEEP_NONE`
pub const HWLOC_TYPE_FILTER_KEEP_NONE: i32 = 1;

/// `HWLOC_TYPE_FILTER_KEEP_STRUCTURE`
pub const HWLOC_TYPE_FILTER_KEEP_STRUCTURE: i32 = 2;

/// `HWLOC_TYPE_FILTER_KEEP_IMPORTANT`
pub const HWLOC_TYPE_FILTER_KEEP_IMPORTANT: i32 = 3;

/// Type filtering flags
///
/// By default...
///
/// - Most objects are kept (`KeepAll`)
/// - Instruction caches, memory-side caches, I/O and Misc objects are ignored
///   (`KeepNone`).
/// - Group levels are ignored unless they bring structure (`KeepStructure`).
///
/// Note that group objects are also ignored individually (without the entire
/// level) when they do not bring structure.
#[derive(Clone, Copy, Debug, Hash, PartialEq, Eq, Structural)]
pub enum TypeFilter {
    /// Keep all objects of this type
    ///
    /// Cannot be set for [`ObjectType::Group`] (groups are designed only to add
    /// more structure to the topology).
    KeepAll,
    /// Ignore all objects of this type
    ///
    /// The bottom-level type [`ObjectType::PU`], the [`ObjectType::NUMANode`]
    /// type, and the top-level type [`ObjectType::Machine`] may not be ignored.
    KeepNone,
    /// Only ignore objects if their entire level does not bring any structure
    ///
    /// Keep the entire level of objects if at least one of these objects adds
    /// structure to the topology. An object brings structure when it has
    /// multiple children and it is not the only child of its parent.
    ///
    /// If all objects in the level are the only child of their parent, and if
    /// none of them has multiple children, the entire level is removed.
    ///
    /// Cannot be set for I/O and Misc objects since the topology structure does
    /// not matter there.
    KeepStructure,
    /// Only keep likely-important objects of the given type.
    ///
    /// This is only useful for I/O object types.
    ///
    /// For [`ObjectType::PCIDevice`] and [`ObjectType::OSDevice`], it means
    /// that only objects of major/common kinds are kept (storage, network,
    /// OpenFabrics, CUDA, OpenCL, RSMI, NVML, and displays). Also, only OS
    /// devices directly attached on PCI (e.g. no USB) are reported.
    ///
    /// For [`ObjectType::Bridge`], it means that bridges are kept only if they
    /// have children.
    ///
    /// This flag is equivalent to `KeepAll` for Normal, Memory and Misc types
    /// since they are likely important.
    KeepImportant,
}

impl TypeFilter {
    /// Value of this filter in hwloc's `hwloc_type_filter_e` enumeration
    pub open spec fn raw(self) -> i32 {
        match self {
            TypeFilter::KeepAll => HWLOC_TYPE_FILTER_KEEP_ALL,
            TypeFilter::KeepNone => HWLOC_TYPE_FILTER_KEEP_NONE,
            TypeFilter::KeepStructure => HWLOC_TYPE_FILTER_KEEP_STRUCTURE,
            TypeFilter::KeepImportant => HWLOC_TYPE_FILTER_KEEP_IMPORTANT,
        }
    }

    /// Filter that a `hwloc_type_filter_e` value stands for, if any
    pub open spec fn of_raw(raw: i32) -> Option<TypeFilter> {
        if raw == HWLOC_TYPE_FILTER_KEEP_ALL {
            Some(TypeFilter::KeepAll)
        } else if raw == HWLOC_TYPE_FILTER_KEEP_NONE {
            Some(TypeFilter::KeepNone)
        } else if raw == HWLOC_TYPE_FILTER_KEEP_STRUCTURE {
            Some(TypeFilter::KeepStructure)
        } else if raw == HWLOC_TYPE_FILTER_KEEP_IMPORTANT {
            Some(TypeFilter::KeepImportant)
        } else {
            None
        }
    }

    /// Value of this filter in hwloc's `hwloc_type_filter_e` enumeration
    pub fn into_raw(self) -> (raw: i32)
        ensures
            raw == self.raw(),
    {
        match self {
            TypeFilter::KeepAll => HWLOC_TYPE_FILTER_KEEP_ALL,
            TypeFilter::KeepNone => HWLOC_TYPE_FILTER_KEEP_NONE,
            TypeFilter::KeepStructure => HWLOC_TYPE_FILTER_KEEP_STRUCTURE,
            TypeFilter::KeepImportant => HWLOC_TYPE_FILTER_KEEP_IMPORTANT,
        }
    }

    /// Filter that a `hwloc_type_filter_e` value stands for, if any
    pub fn from_raw(raw: i32) -> (filter: Option<TypeFilter>)
        ensures
            filter == TypeFilter::of_raw(raw),
    {
        if raw == HWLOC_TYPE_FILTER_KEEP_ALL {
            Some(TypeFilter::KeepAll)
        } else if raw == HWLOC_TYPE_FILTER_KEEP_NONE {
            Some(TypeFilter::KeepNone)
        } else if raw == HWLOC_TYPE_FILTER_KEEP_STRUCTURE {
            Some(TypeFilter::KeepStructure)
        } else if raw == HWLOC_TYPE_FILTER_KEEP_IMPORTANT {
            Some(TypeFilter::KeepImportant)
        } else {
            None
        }
    }

    /// Filter that is picked by an arbitrary integer
    pub fn arbitrary(seed: usize) -> (filter: TypeFilter)
        ensures
            filter.raw() == seed % 4,
    {
        match seed % 4 {
            0 => TypeFilter::KeepAll,
            1 => TypeFilter::KeepNone,
            2 => TypeFilter::KeepStructure,
            _ => TypeFilter::KeepImportant,
        }
    }

    /// Filter that is used for objects of type `ty` if this one is asked for
    ///
    /// All objects but I/O objects are likely important.
    pub open spec fn effective(self, ty: ObjectType) -> TypeFilter {
        if self is KeepImportant && !ty.io() {
            TypeFilter::KeepAll
        } else {
            self
        }
    }

    /// Filter that is used for objects of type `ty` if none is asked for
    pub open spec fn initial(ty: ObjectType) -> TypeFilter {
        if ty is Group {
            TypeFilter::KeepStructure
        } else if ty is Misc || ty is MemCache || ty.cpu_instruction_cache() || ty.io() {
            TypeFilter::KeepNone
        } else {
            TypeFilter::KeepAll
        }
    }

    /// Filter that is used for objects of type `ty` if this one is asked for
    pub fn effective_for(self, ty: ObjectType) -> (filter: TypeFilter)
        ensures
            filter == self.effective(ty),
    {
        if matches!(self, TypeFilter::KeepImportant) && !ty.is_io() {
            TypeFilter::KeepAll
        } else {
            self
        }
    }

    /// Filter that is used for objects of type `ty` if none is asked for
    pub fn default_for(ty: ObjectType) -> (filter: TypeFilter)
        ensures
            filter == TypeFilter::initial(ty),
    {
        match ty {
            ObjectType::Group => TypeFilter::KeepStructure,
            ObjectType::Misc => TypeFilter::KeepNone,
            ObjectType::MemCache => TypeFilter::KeepNone,
            _ => if ty.is_cpu_instruction_cache() || ty.is_io() {
                TypeFilter::KeepNone
            } else {
                TypeFilter::KeepAll
            },
        }
    }
}

/// A filter is read back from the value that it was turned into
pub proof fn law_filter_round_trip(filter: TypeFilter)
    ensures
        TypeFilter::of_raw(filter.raw()) == Some(filter),
{
}

/// Errors that can occur when filtering types
#[derive(Clone, Copy, Debug, Hash, PartialEq, Eq, Structural)]
pub enum TypeFilterError {
    /// Cannot force keeping Group objects with [`TypeFilter::KeepAll`]
    ///
    /// Groups are designed only to add more structure to the topology.
    CantKeepGroup,
    /// Top-level and bottom-level types cannot be ignored
    CantIgnore(ObjectType),
    /// Topology structure doesn't matter for I/O and Misc objects
    StructureIrrelevant,
}

impl From<ObjectType> for TypeFilterError {
    fn from(value: ObjectType) -> (error: Self) {
        TypeFilterError::CantIgnore(value)
    }
}

impl vstd::std_specs::convert::FromSpecImpl<ObjectType> for TypeFilterError {
    open spec fn obeys_from_spec() -> bool {
        true
    }

    open spec fn from_spec(value: ObjectType) -> Self {
        TypeFilterError::CantIgnore(value)
    }
}

impl TypeFilterError {
    /// Reason why a filter cannot be set for objects of type `ty`, if there is
    /// one
    pub open spec fn reason(ty: ObjectType, filter: TypeFilter) -> Option<TypeFilterError> {
        if ty is Group && filter.effective(ty) is KeepAll {
            Some(TypeFilterError::CantKeepGroup)
        } else if (ty is Machine || ty is PU || ty is NUMANode) && !(filter.effective(
            ty,
        ) is KeepAll) {
            Some(TypeFilterError::CantIgnore(ty))
        } else if (ty.io() || ty is Misc) && filter is KeepStructure {
            Some(TypeFilterError::StructureIrrelevant)
        } else {
            None
        }
    }

    /// Reason why a filter cannot be set for objects of type `ty`, if there is
    /// one
    pub fn check(ty: ObjectType, filter: TypeFilter) -> (error: Option<TypeFilterError>)
        ensures
            error == TypeFilterError::reason(ty, filter),
    {
        let filter = filter.effective_for(ty);
        match (ty, filter) {
            (ObjectType::Group, TypeFilter::KeepAll) => Some(TypeFilterError::CantKeepGroup),
            (ObjectType::Machine | ObjectType::PU | ObjectType::NUMANode, _) => {
                if !matches!(filter, TypeFilter::KeepAll) {
                    Some(TypeFilterError::from(ty))
                } else {
                    None
                }
            },
            (_, TypeFilter::KeepStructure) => {
                if ty.is_io() || matches!(ty, ObjectType::Misc) {
                    Some(TypeFilterError::StructureIrrelevant)
                } else {
                    None
                }
            },
            _ => None,
        }
    }
}

/// Object types that are meant by a request to change filters
#[derive(Clone, Copy, Debug, Hash, PartialEq, Eq, Structural)]
pub enum FilterScope {
    /// A single type
    One(ObjectType),
    /// All types that support the requested filter
    All,
    /// CPU cache types
    CpuCaches,
    /// CPU instruction cache types
    CpuInstructionCaches,
    /// I/O types
    Io,
}

impl FilterScope {
    /// Truth that a type is meant
    pub open spec fn covers(self, ty: ObjectType) -> bool {
        match self {
            FilterScope::One(only) => ty == only,
            FilterScope::All => true,
            FilterScope::CpuCaches => ty.cpu_cache(),
            FilterScope::CpuInstructionCaches => ty.cpu_instruction_cache(),
            FilterScope::Io => ty.io(),
        }
    }

    /// Truth that a type is meant
    pub fn includes(self, ty: ObjectType) -> (truth: bool)
        ensures
            truth == self.covers(ty),
    {
        match self {
            FilterScope::One(only) => ty == only,
            FilterScope::All => true,
            FilterScope::CpuCaches => ty.is_cpu_cache(),
            FilterScope::CpuInstructionCaches => ty.is_cpu_instruction_cache(),
            FilterScope::Io => ty.is_io(),
        }
    }
}

/// Filters of all object types
#[derive(Clone, Debug)]
pub struct TypeFilters {
    /// Filter of each type, at the index that is hwloc's value for the type
    filters: Vec<TypeFilter>,
}

impl View for TypeFilters {
    type V = Map<ObjectType, TypeFilter>;

    closed spec fn view(&self) -> Map<ObjectType, TypeFilter> {
        Map::new(|ty: ObjectType| true, |ty: ObjectType| self.filters@[ty.raw() as int])
    }
}

/// Filters that are used if none is asked for
pub open spec fn initial_filters() -> Map<ObjectType, TypeFilter> {
    Map::new(|ty: ObjectType| true, |ty: ObjectType| TypeFilter::initial(ty))
}

/// Filters after a request to change them: types that do not support the filter
/// keep the one that they have
pub open spec fn refiltered(
    filters: Map<ObjectType, TypeFilter>,
    scope: FilterScope,
    filter: TypeFilter,
) -> Map<ObjectType, TypeFilter> {
    Map::new(
        |ty: ObjectType| true,
        |ty: ObjectType|
            if scope.covers(ty) && TypeFilterError::reason(ty, filter) is None {
                filter.effective(ty)
            } else {
                filters[ty]
            },
    )
}

/// Truth that each type has a filter that could be set for this type
pub open spec fn supported(filters: Map<ObjectType, TypeFilter>) -> bool {
    &&& filters.dom() == Set::<ObjectType>::full()
    &&& forall|ty: ObjectType|
        #![trigger filters[ty]]
        {
            &&& TypeFilterError::reason(ty, filters[ty]) is None
            &&& filters[ty].effective(ty) == filters[ty]
        }
}

impl TypeFilters {
    /// Truth that there is a filter for each type
    pub closed spec fn complete(self) -> bool {
        self.filters@.len() == OBJECT_TYPE_COUNT
    }

    /// Filters that are used if none is asked for
    pub fn new() -> (filters: TypeFilters)
        ensures
            filters.complete(),
            filters@ == initial_filters(),
    {
        let mut filters: Vec<TypeFilter> = Vec::new();
        let mut raw: i32 = 0;
        while raw < 20
            invariant
                0 <= raw <= 20,
                filters@.len() == raw,
                forall|ty: ObjectType|
                    #![trigger ty.raw()]
                    ty.raw() < raw ==> filters@[ty.raw() as int] == TypeFilter::initial(ty),
            decreases 20 - raw,
        {
            let ty = ObjectType::from_raw(raw).unwrap();
            filters.push(TypeFilter::default_for(ty));
            assert forall|other: ObjectType| #![trigger other.raw()] other.raw() < raw + 1 implies filters@[other.raw() as int]
                == TypeFilter::initial(other) by {
                crate::object::types::law_type_codes_distinct(ty, other);
            }
            raw += 1;
        }
        let filters = TypeFilters { filters };
        assert(filters@ =~= initial_filters());
        filters
    }

    /// Filter of a type
    pub fn get(&self, ty: ObjectType) -> (filter: TypeFilter)
        requires
            self.complete(),
        ensures
            filter == self@[ty],
    {
        self.filters[ty.into_raw() as usize]
    }

    /// Change the filters of the types that are meant and support the new filter
    pub fn set(&mut self, scope: FilterScope, filter: TypeFilter)
        requires
            old(self).complete(),
        ensures
            final(self).complete(),
            final(self)@ == refiltered(old(self)@, scope, filter),
    {
        let mut raw: i32 = 0;
        while raw < 20
            invariant
                0 <= raw <= 20,
                old(self).complete(),
                self.complete(),
                forall|ty: ObjectType|
                    #![trigger ty.raw()]
                    self.filters@[ty.raw() as int] == if ty.raw() < raw {
                        refiltered(old(self)@, scope, filter)[ty]
                    } else {
                        old(self)@[ty]
                    },
            decreases 20 - raw,
        {
            let ty = ObjectType::from_raw(raw).unwrap();
            let ghost before = self.filters@;
            if scope.includes(ty) && TypeFilterError::check(ty, filter).is_none() {
                self.filters.set(raw as usize, filter.effective_for(ty));
            }
            assert forall|other: ObjectType|
                #![trigger other.raw()]
                self.filters@[other.raw() as int] == if other.raw() < raw + 1 {
                    refiltered(old(self)@, scope, filter)[other]
                } else {
                    old(self)@[other]
                } by {
                crate::object::types::law_type_codes_distinct(ty, other);
                assert(before[other.raw() as int] == if other.raw() < raw {
                    refiltered(old(self)@, scope, filter)[other]
                } else {
                    old(self)@[other]
                });
            }
            raw += 1;
        }
        assert(self@ =~= refiltered(old(self)@, scope, filter));
    }
}

/// The initial filters are supported, and requests to change filters lead to
/// supported filters only
pub proof fn law_filters_stay_supported(
    filters: Map<ObjectType, TypeFilter>,
    scope: FilterScope,
    filter: TypeFilter,
)
    ensures
        supported(initial_filters()),
        supported(filters) ==> supported(refiltered(filters, scope, filter)),
{
    assert(initial_filters().dom() =~= Set::<ObjectType>::full());
    assert(refiltered(filters, scope, filter).dom() =~= Set::<ObjectType>::full());
    assert forall|ty: ObjectType| supported(filters) implies {
        let after = #[trigger] refiltered(filters, scope, filter)[ty];
        &&& TypeFilterError::reason(ty, after) is None
        &&& after.effective(ty) == after
    } by {
        let before = filters[ty];
    }
}

/// A filter is used as it is, but for important objects, which are all objects of a type
/// unless these are I/O objects
pub proof fn law_effective_filter(filter: TypeFilter, ty: ObjectType)
    ensures
        filter != TypeFilter::KeepImportant ==> filter.effective(ty) == filter,
        TypeFilter::KeepImportant.effective(ty) == if ty == ObjectType::Bridge || ty
            == ObjectType::PCIDevice || ty == ObjectType::OSDevice {
            TypeFilter::KeepImportant
        } else {
            TypeFilter::KeepAll
        },
        filter.effective(ty).effective(ty) == filter.effective(ty),
{
}

/// Groups cannot be kept for their own sake, machines, PUs and NUMA nodes cannot be
/// ignored, structure does not matter for I/O and Misc objects, and all else is possible
pub proof fn law_refused_filters(ty: ObjectType, filter: TypeFilter)
    ensures
        TypeFilterError::reason(ty, filter) == Some(TypeFilterError::CantKeepGroup) <==> ty
            == ObjectType::Group && (filter == TypeFilter::KeepAll || filter
            == TypeFilter::KeepImportant),
        TypeFilterError::reason(ty, filter) == Some(TypeFilterError::CantIgnore(ty)) <==> (ty
            == ObjectType::Machine || ty == ObjectType::PU || ty == ObjectType::NUMANode) && (filter
            == TypeFilter::KeepNone || filter == TypeFilter::KeepStructure),
        TypeFilterError::reason(ty, filter) matches Some(TypeFilterError::CantIgnore(other))
            ==> other == ty,
        TypeFilterError::reason(ty, filter) == Some(TypeFilterError::StructureIrrelevant) <==> (ty
            == ObjectType::Bridge || ty == ObjectType::PCIDevice || ty == ObjectType::OSDevice || ty
            == ObjectType::Misc) && filter == TypeFilter::KeepStructure,
{
}

/// Whether a filter is refused depends on its effect alone
pub proof fn law_important_is_refused_like_all(ty: ObjectType)
    ensures
        !ty.io() ==> TypeFilterError::reason(ty, TypeFilter::KeepImportant)
            == TypeFilterError::reason(ty, TypeFilter::KeepAll),
        ty.io() ==> TypeFilterError::reason(ty, TypeFilter::KeepImportant) is None,
{
}

/// A request means the types that it names: one, all, the CPU caches of all levels, the
/// instruction caches among them, or bridges and devices
pub proof fn law_filter_scopes(ty: ObjectType, other: ObjectType)
    ensures
        FilterScope::One(ty).covers(other) <==> other == ty,
        FilterScope::All.covers(ty),
        FilterScope::CpuCaches.covers(ty) <==> ty == ObjectType::L1Cache || ty
            == ObjectType::L2Cache || ty == ObjectType::L3Cache || ty == ObjectType::L4Cache || ty
            == ObjectType::L5Cache || ty == ObjectType::L1ICache || ty == ObjectType::L2ICache
            || ty == ObjectType::L3ICache,
        FilterScope::CpuInstructionCaches.covers(ty) <==> ty == ObjectType::L1ICache || ty
            == ObjectType::L2ICache || ty == ObjectType::L3ICache,
        FilterScope::Io.covers(ty) <==> ty == ObjectType::Bridge || ty == ObjectType::PCIDevice
            || ty == ObjectType::OSDevice,
{
}

/// A type that is meant by a request and supports the filter gets it, whatever filter it
/// had, and the others keep theirs
pub proof fn law_refiltered(
    filters: Map<ObjectType, TypeFilter>,
    scope: FilterScope,
    filter: TypeFilter,
    ty: ObjectType,
)
    ensures
        refiltered(filters, scope, filter).contains_key(ty),
        scope.covers(ty) && TypeFilterError::reason(ty, filter) is None ==> refiltered(
            filters,
            scope,
            filter,
        )[ty] == filter.effective(ty),
        !scope.covers(ty) || TypeFilterError::reason(ty, filter) is Some ==> refiltered(
            filters,
            scope,
            filter,
        )[ty] == filters[ty],
{
}

/// The filters that two requests lead to differ only in types which do not support the
/// filter or are not meant: what is set does not depend on what was there
pub proof fn law_refiltering_forgets(
    a: Map<ObjectType, TypeFilter>,
    b: Map<ObjectType, TypeFilter>,
    scope: FilterScope,
    filter: TypeFilter,
    ty: ObjectType,
)
    requires
        scope.covers(ty),
        TypeFilterError::reason(ty, filter) is None,
    ensures
        refiltered(a, scope, filter)[ty] == refiltered(b, scope, filter)[ty],
{
}

/// The last of two requests that mean the same types wins, where its filter is supported,
/// and repeating a request changes nothing
pub proof fn law_last_filter_wins(
    filters: Map<ObjectType, TypeFilter>,
    scope: FilterScope,
    first: TypeFilter,
    last: TypeFilter,
    ty: ObjectType,
)
    ensures
        scope.covers(ty) && TypeFilterError::reason(ty, last) is None ==> refiltered(
            refiltered(filters, scope, first),
            scope,
            last,
        )[ty] == last.effective(ty),
        TypeFilterError::reason(ty, last) is Some ==> refiltered(
            refiltered(filters, scope, first),
            scope,
            last,
        )[ty] == refiltered(filters, scope, first)[ty],
        refiltered(refiltered(filters, scope, first), scope, first)[ty] == refiltered(
            filters,
            scope,
            first,
        )[ty],
{
}

/// A request for all types does what a request for each single type would do
pub proof fn law_all_is_each(
    filters: Map<ObjectType, TypeFilter>,
    scope: FilterScope,
    filter: TypeFilter,
    ty: ObjectType,
)
    ensures
        refiltered(filters, FilterScope::All, filter)[ty] == refiltered(
            filters,
            FilterScope::One(ty),
            filter,
        )[ty],
        scope.covers(ty) ==> refiltered(filters, scope, filter)[ty] == refiltered(
            filters,
            FilterScope::One(ty),
            filter,
        )[ty],
{
}

/// Filters are supported if and only if each type has one that a request could give it
pub proof fn law_supported_filters(filters: Map<ObjectType, TypeFilter>, ty: ObjectType)
    requires
        supported(filters),
    ensures
        filters.contains_key(ty),
        refiltered(filters, FilterScope::One(ty), filters[ty])[ty] == filters[ty],
        TypeFilterError::reason(ty, filters[ty]) is None,
        ty == ObjectType::Machine || ty == ObjectType::PU || ty == ObjectType::NUMANode
            ==> filters[ty] == TypeFilter::KeepAll,
        ty == ObjectType::Group ==> filters[ty] == TypeFilter::KeepNone || filters[ty]
            == TypeFilter::KeepStructure,
        filters[ty] == TypeFilter::KeepImportant ==> ty.io(),
        filters[ty] == TypeFilter::KeepStructure ==> !ty.io() && ty != ObjectType::Misc,
{
}

/// At first, Groups are kept for structure, Misc and I/O objects, instruction caches and
/// memory-side caches are ignored, and all else is kept
pub proof fn law_initial_filters(ty: ObjectType)
    ensures
        initial_filters().contains_key(ty),
        initial_filters()[ty] == TypeFilter::KeepStructure <==> ty == ObjectType::Group,
        initial_filters()[ty] == TypeFilter::KeepNone <==> ty == ObjectType::Misc || ty
            == ObjectType::MemCache || ty == ObjectType::L1ICache || ty == ObjectType::L2ICache
            || ty == ObjectType::L3ICache || ty == ObjectType::Bridge || ty
            == ObjectType::PCIDevice || ty == ObjectType::OSDevice,
        initial_filters()[ty] != TypeFilter::KeepImportant,
{
}

/// Codes of filters are their ranks, and no other number is one
pub proof fn law_filter_codes(code: i32)
    ensures
        TypeFilter::of_raw(code) is Some <==> 0 <= code < 4,
        TypeFilter::of_raw(code) matches Some(filter) ==> filter.raw() == code,
        TypeFilter::KeepAll.raw() == 0,
        TypeFilter::KeepNone.raw() == TypeFilter::KeepAll.raw() + 1,
        TypeFilter::KeepStructure.raw() == TypeFilter::KeepNone.raw() + 1,
        TypeFilter::KeepImportant.raw() == TypeFilter::KeepStructure.raw() + 1,
{
}

} // verus!
