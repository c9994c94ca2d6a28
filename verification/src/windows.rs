//! Windows-specific helpers
//!
//! These functions query Windows processor groups. These groups partition the
//! operating system into virtual sets of up to 64 neighbor PUs. Threads and
//! processes may only be bound inside a single group. Although Windows
//! processor groups may be exposed in the hwloc hierarchy as hwloc Groups, they
//! are also often merged into existing hwloc objects such as NUMA nodes or
//! Packages. This API provides explicit information about Windows processor
//! groups so that applications know whether binding to a large set of PUs may
//! fail because it spans over multiple Windows processor groups.
use vstd::prelude::*;

use crate::bitmap::CpuSet;
use crate::errors;
use crate::errors::{call_hwloc_int_normal, HwlocReply, RawHwlocError};
use crate::topology::calls::HwlocCall;
use crate::topology::Topology;

verus! {

/// # Windows-specific helpers
impl Topology {
    /// Number of Windows processor groups
    pub fn num_processor_groups(&self) -> (request: PendingGroupCount)
        ensures
            request.wf(),
    {
        PendingGroupCount { call: HwlocCall::WindowsGetNrProcessorGroups { flags: 0 } }
    }

    /// Enumerate the cpusets of Windows processor groups
    pub fn processor_groups(&self) -> (request: PendingGroups)
        ensures
            request.count.wf(),
    {
        PendingGroups { count: self.num_processor_groups() }
    }
}

/// Request for the number of processor groups
#[derive(Debug)]
pub struct PendingGroupCount {
    /// Call that hwloc should make
    pub call: HwlocCall,
}

impl PendingGroupCount {
    /// Truth that this request is valid
    pub open spec fn wf(self) -> bool {
        self.call == (HwlocCall::WindowsGetNrProcessorGroups { flags: 0 })
    }

    /// Call that hwloc should make
    pub fn call(&self) -> (call: &HwlocCall)
        ensures
            *call == self.call,
    {
        &self.call
    }

    /// Number of processor groups
    ///
    /// One reason why this function can fail is if the topology does not match
    /// the current system (e.g. loaded from another machine through XML). There
    /// is at least one processor group otherwise.
    pub fn finish(self, reply: HwlocReply) -> (result: Result<usize, RawHwlocError>)
        requires
            reply.conventional(),
            reply.result != 0,
        ensures
            match errors::int_normal("hwloc_windows_get_nr_processor_groups", reply) {
                Ok(count) => result == Ok::<usize, RawHwlocError>(count as usize) && count > 0,
                Err(error) => result == Err::<usize, RawHwlocError>(error),
            },
            reply.result > 0 ==> result == Ok::<usize, RawHwlocError>(reply.result as usize),
            reply.result == -1 ==> (result matches Err(error) && error.errno == reply.errno),
    {
        match call_hwloc_int_normal("hwloc_windows_get_nr_processor_groups", reply) {
            Ok(count) => Ok(count as usize),
            Err(error) => Err(error),
        }
    }
}

/// Request for the processor groups
#[derive(Debug)]
pub struct PendingGroups {
    /// Request for the number of processor groups
    pub count: PendingGroupCount,
}

impl PendingGroups {
    /// Call that hwloc should make
    pub fn call(&self) -> (call: &HwlocCall)
        ensures
            *call == self.count.call,
    {
        self.count.call()
    }

    /// Processor groups
    ///
    /// One reason why this function can fail is if the topology does not match
    /// the current system (e.g. loaded from another machine through XML).
    pub fn finish(self, reply: HwlocReply) -> (result: Result<ProcessorGroups, RawHwlocError>)
        requires
            reply.conventional(),
            reply.result != 0,
        ensures
            match errors::int_normal("hwloc_windows_get_nr_processor_groups", reply) {
                Ok(count) => result matches Ok(groups) && groups.wf() && groups@ == count,
                Err(error) => result == Err::<ProcessorGroups, RawHwlocError>(error),
            },
            reply.result > 0 ==> (result matches Ok(groups) && groups@ == reply.result),
            reply.result == -1 ==> (result matches Err(error) && error.errno == reply.errno),
    {
        match self.count.finish(reply) {
            Ok(count) => Ok(ProcessorGroups { count }),
            Err(error) => Err(error),
        }
    }
}

/// Windows processor groups, whose cpusets hwloc can tell
#[derive(Clone, Copy, Debug)]
pub struct ProcessorGroups {
    count: usize,
}

impl View for ProcessorGroups {
    type V = nat;

    /// Number of groups
    closed spec fn view(&self) -> nat {
        self.count as nat
    }
}

/// Meaning of hwloc's reply to a request for the cpuset of a processor group
pub open spec fn group_cpuset(reply: HwlocReply, set: CpuSet) -> Result<CpuSet, RawHwlocError> {
    match errors::int_normal("hwloc_windows_get_processor_group_cpuset", reply) {
        Ok(_) => Ok(set),
        Err(error) => Err(error),
    }
}

impl ProcessorGroups {
    /// Truth that there is a group, and that hwloc can count the groups
    pub open spec fn wf(self) -> bool {
        0 < self@ <= i32::MAX
    }

    /// Number of groups
    pub fn len(&self) -> (count: usize)
        ensures
            count == self@,
    {
        self.count
    }

    /// Call by which hwloc is asked for the cpuset of a group
    pub fn call(&self, index: usize) -> (call: HwlocCall)
        requires
            self.wf(),
            index < self@,
        ensures
            call == (HwlocCall::WindowsGetProcessorGroupCpuset { index: index as u32, flags: 0 }),
    {
        HwlocCall::WindowsGetProcessorGroupCpuset { index: index as u32, flags: 0 }
    }

    /// Calls by which hwloc is asked for the cpusets of all groups
    pub fn calls(&self) -> (calls: Vec<HwlocCall>)
        requires
            self.wf(),
        ensures
            calls@ == Seq::new(
                self@,
                |i: int| HwlocCall::WindowsGetProcessorGroupCpuset { index: i as u32, flags: 0 },
            ),
            calls@.len() == self@,
            forall|i: int|
                0 <= i < self@ ==> (#[trigger] calls@[i] matches HwlocCall::WindowsGetProcessorGroupCpuset {
                    index,
                    flags,
                } && index == i && flags == 0),
    {
        let mut calls: Vec<HwlocCall> = Vec::new();
        let mut index: usize = 0;
        while index < self.count
            invariant
                self.wf(),
                index <= self.count,
                calls@ == Seq::new(
                    index as nat,
                    |i: int|
                        HwlocCall::WindowsGetProcessorGroupCpuset { index: i as u32, flags: 0 },
                ),
            decreases self.count - index,
        {
            calls.push(self.call(index));
            index += 1;
        }
        calls
    }

    /// Cpuset of a group, given hwloc's reply and the set that it wrote to
    pub fn cpuset(reply: HwlocReply, set: CpuSet) -> (result: Result<CpuSet, RawHwlocError>)
        requires
            reply.conventional(),
        ensures
            result == group_cpuset(reply, set),
            reply.result >= 0 ==> result == Ok::<CpuSet, RawHwlocError>(set),
            reply.result == -1 ==> (result matches Err(error) && error.errno == reply.errno),
    {
        match call_hwloc_int_normal("hwloc_windows_get_processor_group_cpuset", reply) {
            Ok(_) => Ok(set),
            Err(error) => Err(error),
        }
    }

    /// Cpusets of all groups, given hwloc's replies and the sets that it wrote to
    ///
    /// A failure to get the cpuset of a group leaves the other groups alone.
    pub fn cpusets(self, replies: Vec<(HwlocReply, CpuSet)>) -> (results: Vec<
        Result<CpuSet, RawHwlocError>,
    >)
        requires
            replies@.len() == self@,
            forall|i: int| 0 <= i < replies@.len() ==> (#[trigger] replies@[i]).0.conventional(),
        ensures
            results@ == Seq::new(self@, |i: int| group_cpuset(replies@[i].0, replies@[i].1)),
            results@.len() == self@,
            forall|i: int|
                0 <= i < self@ && replies@[i].0.result >= 0 ==> #[trigger] results@[i] == Ok::<
                    CpuSet,
                    RawHwlocError,
                >(replies@[i].1),
            forall|i: int|
                0 <= i < self@ && replies@[i].0.result == -1 ==> (#[trigger] results@[i] matches Err(
                    error,
                ) && error.errno == replies@[i].0.errno),
    {
        let ghost all = replies@;
        let mut results: Vec<Result<CpuSet, RawHwlocError>> = Vec::new();
        for answer in iter: replies
            invariant
                iter.seq() == all,
                forall|i: int| 0 <= i < all.len() ==> (#[trigger] all[i]).0.conventional(),
                results@ == Seq::new(
                    iter.index() as nat,
                    |i: int| group_cpuset(all[i].0, all[i].1),
                ),
        {
            assert(answer == all[iter.index() as int]);
            results.push(ProcessorGroups::cpuset(answer.0, answer.1));
        }
        results
    }
}

/// A processor group has the set that hwloc wrote, if hwloc reports success, and otherwise
/// the error that it reports
pub proof fn law_group_cpuset(reply: HwlocReply, set: CpuSet)
    ensures
        reply.result >= 0 ==> group_cpuset(reply, set) == Ok::<CpuSet, RawHwlocError>(set),
        reply.result == -1 ==> (group_cpuset(reply, set) matches Err(error) && error.errno
            == reply.errno),
{
}

} // verus!
