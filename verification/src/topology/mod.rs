//! Topologies
use vstd::prelude::*;

pub mod builder;
pub mod calls;
pub mod check;
pub mod configuration;
pub mod filter;
pub mod flags;
pub mod tree;

use crate::bitmap::{CpuSet, NodeSet};
use crate::object::types::ObjectType;
use crate::object::TopologyObject;
use crate::topology::builder::TopologyBuilder;
use crate::topology::calls::HwlocCall;
use crate::topology::check::is_tree;
use crate::topology::configuration::{Configuration, ConfigurationView, TopologySource};
use crate::topology::filter::TypeFilter;
use crate::topology::flags::{BuildFlag, BuildFlags};

verus! {

/// CPUs and NUMA nodes that the administrator allows to use, as hwloc tells them
#[derive(Clone, Debug)]
pub struct AllowedSets {
    pub cpuset: CpuSet,
    pub nodeset: NodeSet,
}

/// Truth that allowed CPUs and NUMA nodes agree with the configuration and the
/// objects of a topology
///
/// Disallowed objects are not part of the topology unless they are asked for, so
/// that the root object covers what is allowed and nothing else. This is not said
/// of a topology that comes from elsewhere, and is restricted by what this system
/// allows.
pub open spec fn allowed_wf(
    configuration: ConfigurationView,
    objects: Seq<TopologyObject>,
    allowed: AllowedSets,
    overridden: bool,
) -> bool {
    !configuration.flags.contains(BuildFlag::IncludeDisallowed) && (
    !configuration.flags.contains(BuildFlag::GetAllowedResourcesFromThisSystem)
        || configuration.from_this_system(overridden)) ==> {
        &&& objects[0].cpuset matches Some(cpuset)
        &&& allowed.cpuset@ == cpuset@
        &&& objects[0].nodeset matches Some(nodeset)
        &&& allowed.nodeset@ == nodeset@
    }
}

/// Main entry point to the hwloc API: a tree of hardware objects
#[derive(Debug)]
pub struct Topology {
    objects: Vec<TopologyObject>,
    configuration: Configuration,
    allowed: AllowedSets,
    overridden: bool,
}

impl View for Topology {
    type V = Seq<TopologyObject>;

    closed spec fn view(&self) -> Seq<TopologyObject> {
        self.objects@
    }
}

impl Topology {
    /// Truth that the objects of this topology make up a tree, that it was built
    /// with a valid configuration, and that what is allowed agrees with both
    pub open spec fn wf(self) -> bool {
        &&& tree::tree_wf(self@)
        &&& self.configured()
        &&& allowed_wf(
            self.built_from(),
            self@,
            self.allowed_sets(),
            self.source_overridden(),
        )
    }

    /// CPUs and NUMA nodes that the administrator allows to use
    pub closed spec fn allowed_sets(self) -> AllowedSets {
        self.allowed
    }

    /// Truth that environment variables had the topology information come from
    /// elsewhere than this system
    pub closed spec fn source_overridden(self) -> bool {
        self.overridden
    }

    /// Truth that this topology was built with a valid configuration
    pub closed spec fn configured(self) -> bool {
        self.configuration.wf()
    }

    /// Configuration that this topology was built with
    pub closed spec fn built_from(self) -> ConfigurationView {
        self.configuration@
    }

    /// Truth that an object is part of this topology
    pub open spec fn has(self, object: TopologyObject) -> bool {
        &&& object.id < self@.len()
        &&& self@[object.id as int] == object
    }

    /// Prepare to build a topology with custom configuration
    pub fn builder() -> (builder: TopologyBuilder)
        ensures
            builder.wf(),
            builder@ == ConfigurationView::initial(),
            builder.errno_codes().genuine(),
    {
        TopologyBuilder::new()
    }

    /// Topology that was loaded with a certain configuration, if its objects
    /// make up a tree and what is allowed agrees with them
    ///
    /// `overridden` tells if environment variables had the topology information come
    /// from elsewhere than this system.
    pub fn from_objects(
        configuration: Configuration,
        objects: Vec<TopologyObject>,
        allowed: AllowedSets,
        overridden: bool,
    ) -> (topology: Option<Topology>)
        requires
            configuration.wf(),
        ensures
            topology is Some <==> tree::tree_wf(objects@) && allowed_wf(
                configuration@,
                objects@,
                allowed,
                overridden,
            ),
            topology matches Some(topology) ==> {
                &&& topology.wf()
                &&& topology@ == objects@
                &&& topology.built_from() == configuration@
                &&& topology.allowed_sets() == allowed
                &&& topology.source_overridden() == overridden
            },
    {
        if !is_tree(&objects) {
            return None;
        }
        let disallowed = BuildFlags::single(BuildFlag::IncludeDisallowed);
        let restrict = BuildFlags::single(BuildFlag::GetAllowedResourcesFromThisSystem);
        let this_system = matches!(configuration.source, TopologySource::ThisSystem)
            && !overridden;
        proof {
            assert(disallowed@.contains(BuildFlag::IncludeDisallowed));
            assert(restrict@.contains(BuildFlag::GetAllowedResourcesFromThisSystem));
        }
        if !configuration.flags.contains(disallowed) && (!configuration.flags.contains(restrict)
            || this_system) {
            let agrees = match (&objects[0].cpuset, &objects[0].nodeset) {
                (Some(cpuset), Some(nodeset)) => allowed.cpuset.same(cpuset)
                    && allowed.nodeset.same(nodeset),
                _ => false,
            };
            if !agrees {
                return None;
            }
        }
        Some(Topology { objects, configuration, allowed, overridden })
    }

    /// CPUs that are known to be part of this topology
    pub fn cpuset(&self) -> (set: &CpuSet)
        requires
            self.wf(),
        ensures
            self@[0].cpuset == Some(*set),
    {
        proof {
            lemma_root_sets(self@);
        }
        self.objects[0].cpuset.as_ref().unwrap()
    }

    /// CPUs that are part of this topology, even if little is known of them
    pub fn complete_cpuset(&self) -> (set: &CpuSet)
        requires
            self.wf(),
        ensures
            self@[0].complete_cpuset == Some(*set),
    {
        proof {
            lemma_root_sets(self@);
        }
        self.objects[0].complete_cpuset.as_ref().unwrap()
    }

    /// NUMA nodes that are known to be part of this topology
    pub fn nodeset(&self) -> (set: &NodeSet)
        requires
            self.wf(),
        ensures
            self@[0].nodeset == Some(*set),
    {
        proof {
            lemma_root_sets(self@);
        }
        self.objects[0].nodeset.as_ref().unwrap()
    }

    /// NUMA nodes that are part of this topology, even if little is known of them
    pub fn complete_nodeset(&self) -> (set: &NodeSet)
        requires
            self.wf(),
        ensures
            self@[0].complete_nodeset == Some(*set),
    {
        proof {
            lemma_root_sets(self@);
        }
        self.objects[0].complete_nodeset.as_ref().unwrap()
    }

    /// CPUs that the administrator allows to use
    pub fn allowed_cpuset(&self) -> (set: &CpuSet)
        ensures
            *set == self.allowed_sets().cpuset,
    {
        &self.allowed.cpuset
    }

    /// NUMA nodes that the administrator allows to use
    pub fn allowed_nodeset(&self) -> (set: &NodeSet)
        ensures
            *set == self.allowed_sets().nodeset,
    {
        &self.allowed.nodeset
    }

    /// Flags that this topology was built with
    pub fn build_flags(&self) -> (flags: BuildFlags)
        requires
            self.wf(),
        ensures
            flags.known(),
            flags@ == self.built_from().flags,
    {
        self.configuration.flags
    }

    /// Filtering that was in effect for the given object type when this topology
    /// was built
    pub fn type_filter(&self, ty: ObjectType) -> (filter: TypeFilter)
        requires
            self.wf(),
        ensures
            filter == self.built_from().filters[ty],
    {
        self.configuration.filters.get(ty)
    }

    /// Truth that this topology is considered to be that of the system on which
    /// we are running
    ///
    /// This does not account for the environment variable by which users can enforce
    /// the answer, unlike [`Topology::reported_is_this_system()`].
    pub fn is_this_system(&self) -> (truth: bool)
        requires
            self.wf(),
        ensures
            truth == self.built_from().this_system(self.source_overridden()),
    {
        let assumed = BuildFlags::single(BuildFlag::AssumeThisSystem);
        assert(assumed@.contains(BuildFlag::AssumeThisSystem));
        (matches!(self.configuration.source, TopologySource::ThisSystem) && !self.overridden)
            || self.configuration.flags.contains(assumed)
    }

    /// Call by which hwloc is asked if a topology is that of the system on which we
    /// are running
    pub fn query_is_this_system() -> (call: HwlocCall)
        ensures
            call == HwlocCall::IsThisSystem,
    {
        HwlocCall::IsThisSystem
    }

    /// Truth that hwloc reports a topology to be that of the system on which we are
    /// running
    ///
    /// Unlike [`Topology::is_this_system()`], this accounts for the environment
    /// variable by which users can enforce the answer.
    pub fn reported_is_this_system(answer: i32) -> (truth: bool)
        requires
            answer == 0 || answer == 1,
        ensures
            truth == (answer == 1),
    {
        answer != 0
    }

    /// Number of objects
    pub fn len(&self) -> (count: usize)
        ensures
            count == self@.len(),
    {
        self.objects.len()
    }

    /// Object with a given identifier
    pub fn at(&self, id: usize) -> (object: &TopologyObject)
        requires
            id < self@.len(),
        ensures
            *object == self@[id as int],
    {
        &self.objects[id]
    }
}

/// The objects of a topology make up a tree, and its flags and filters are in a
/// state that hwloc supports
pub proof fn law_topology_consistent(topology: Topology)
    requires
        topology.wf(),
    ensures
        tree::tree_wf(topology@),
        topology.built_from().consistent(),
{
}

/// The root object has CPUs and NUMA nodes
proof fn lemma_root_sets(objects: Seq<TopologyObject>)
    requires
        tree::tree_wf(objects),
    ensures
        objects[0].cpuset is Some,
        objects[0].complete_cpuset is Some,
        objects[0].nodeset is Some,
        objects[0].complete_nodeset is Some,
{
    assert(tree::object_wf(objects, 0));
    assert(objects[0].identified());
}

/// Complete sets include the matching set, and all that is part of a topology is
/// allowed, and the reverse, unless disallowed objects were asked for
pub proof fn law_allowed_sets(topology: Topology)
    requires
        topology.wf(),
    ensures
        (topology@[0].cpuset->0)@.subset_of((topology@[0].complete_cpuset->0)@),
        (topology@[0].nodeset->0)@.subset_of((topology@[0].complete_nodeset->0)@),
        !topology.built_from().flags.contains(BuildFlag::IncludeDisallowed) && (
        !topology.built_from().flags.contains(BuildFlag::GetAllowedResourcesFromThisSystem)
            || topology.built_from().from_this_system(topology.source_overridden())) ==> {
            &&& topology.allowed_sets().cpuset@ == (topology@[0].cpuset->0)@
            &&& topology.allowed_sets().nodeset@ == (topology@[0].nodeset->0)@
        },
{
    lemma_root_sets(topology@);
    assert(tree::object_wf(topology@, 0));
    assert(topology@[0].identified());
}

/// What is allowed agrees with a topology that covers just that, and may be anything if
/// disallowed objects were asked for, or if a topology that comes from elsewhere is
/// restricted by what this system allows
pub proof fn law_accepted_allowed_sets(
    configuration: ConfigurationView,
    objects: Seq<TopologyObject>,
    allowed: AllowedSets,
    overridden: bool,
)
    requires
        objects[0].cpuset is Some,
        objects[0].nodeset is Some,
    ensures
        allowed.cpuset@ == (objects[0].cpuset->0)@ && allowed.nodeset@ == (objects[0].nodeset->0)@
            ==> allowed_wf(configuration, objects, allowed, overridden),
        configuration.flags.contains(BuildFlag::IncludeDisallowed) ==> allowed_wf(
            configuration,
            objects,
            allowed,
            overridden,
        ),
        configuration.flags.contains(BuildFlag::GetAllowedResourcesFromThisSystem) && (overridden
            || configuration.source != configuration::SourceView::ThisSystem) ==> allowed_wf(
            configuration,
            objects,
            allowed,
            overridden,
        ),
{
}

/// An object is part of a topology if and only if the topology has this very object at the
/// position that it tells
pub proof fn law_membership(topology: Topology, object: TopologyObject)
    ensures
        topology.has(object) <==> object.id < topology@.len() && topology@[object.id as int]
            == object,
        topology.wf() && topology.has(object) ==> topology@.contains(object),
{
}

} // verus!
