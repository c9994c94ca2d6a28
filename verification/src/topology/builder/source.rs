//! Discovery source
//!
//! If none of the functions below is called, the default is to detect all the
//! objects of the machine that the caller is allowed to access.
use vstd::prelude::*;

use crate::errors;
use crate::errors::{has_errno, HwlocReply, HybridError};
use crate::strings;
use crate::strings::{LibcString, NulError};
use crate::topology::builder::input;
use crate::topology::builder::input::{
    make_hwloc_path, FileInputError, FromPIDError, StringInputError,
};
use crate::topology::builder::{Pending, TopologyBuilder};
use crate::topology::calls::{HwlocCall, ProcessId, HWLOC_TOPOLOGY_COMPONENTS_FLAG_BLACKLIST};
use crate::topology::configuration::{ConfigurationView, SourceView};

verus! {

/// # Discovery source
impl TopologyBuilder {
    /// Change which process the topology is viewed from
    ///
    /// On some systems, processes may have different views of the machine, for
    /// instance the set of allowed CPUs. By default, hwloc exposes the view
    /// from the current process. Calling this method permits to make it expose
    /// the topology of the machine from the point of view of another process.
    pub fn from_pid(self, pid: ProcessId) -> (request: PendingPid)
        requires
            self.wf(),
        ensures
            request.wf(),
            request.pending.builder == self,
            request.pending.call == (HwlocCall::SetPid { pid }),
            request.pending.outcome() == (ConfigurationView { pid: Some(pid), ..self@ }),
    {
        PendingPid { pending: Pending { builder: self, call: HwlocCall::SetPid { pid } } }
    }

    /// Read the topology from a synthetic textual description
    ///
    /// Fails with [`StringInputError::ContainsNul`] if `description` contains
    /// NUL chars. Which objects the description stands for is up to hwloc.
    pub fn from_synthetic(self, description: &str) -> (request: Result<
        PendingSynthetic,
        StringInputError,
    >)
        requires
            self.wf(),
        ensures
            !strings::nul_free(description@) ==> request == Err::<
                PendingSynthetic,
                StringInputError,
            >(StringInputError::ContainsNul),
            strings::nul_free(description@) ==> {
                &&& request matches Ok(request)
                &&& request.wf()
                &&& request.pending.builder == self
                &&& request.pending.call matches HwlocCall::SetSynthetic { description: text }
                &&& text@ == description@
                &&& request.pending.outcome() == ConfigurationView {
                    source: SourceView::Synthetic(description@),
                    ..self@
                }
            },
    {
        match LibcString::new(description) {
            Ok(description) => Ok(
                PendingSynthetic {
                    pending: Pending {
                        builder: self,
                        call: HwlocCall::SetSynthetic { description },
                    },
                },
            ),
            Err(error) => Err(StringInputError::from(error)),
        }
    }

    /// Read the topology from an XML description
    ///
    /// Fails with [`StringInputError::ContainsNul`] if `xml` contains NUL chars.
    /// Which objects the description stands for is up to hwloc.
    ///
    /// Hwloc takes the size of the C string as a C `int`, hence the limit on the
    /// size of `xml`.
    pub fn from_xml(self, xml: &str) -> (request: Result<PendingXml, StringInputError>)
        requires
            self.wf(),
            strings::nul_free(xml@) ==> vstd::utf8::encode_utf8(xml@).len() + 1 <= i32::MAX,
        ensures
            !strings::nul_free(xml@) ==> request == Err::<PendingXml, StringInputError>(
                StringInputError::ContainsNul,
            ),
            strings::nul_free(xml@) ==> {
                &&& request matches Ok(request)
                &&& request.wf()
                &&& request.pending.builder == self
                &&& request.pending.call matches HwlocCall::SetXmlBuffer { xml: text, size }
                &&& text@ == xml@
                &&& size == vstd::utf8::encode_utf8(xml@).len() + 1
                &&& request.pending.outcome() == ConfigurationView {
                    source: SourceView::Xml(xml@),
                    ..self@
                }
            },
    {
        match LibcString::new(xml) {
            Ok(xml) => {
                let size: i32 = xml.len() as i32;
                Ok(
                    PendingXml {
                        pending: Pending {
                            builder: self,
                            call: HwlocCall::SetXmlBuffer { xml, size },
                        },
                    },
                )
            },
            Err(error) => Err(StringInputError::from(error)),
        }
    }

    /// Read the topology from an XML file
    ///
    /// This works a lot like [`TopologyBuilder::from_xml()`], but takes a file
    /// name as a parameter instead of an XML string. `path` should be `None` if
    /// the path is not valid Unicode.
    ///
    /// Fails with [`FileInputError::BadRustPath`] if the path contains NUL chars
    /// or is not valid Unicode.
    pub fn from_xml_file(self, path: Option<&str>) -> (request: Result<
        PendingXmlFile,
        FileInputError,
    >)
        requires
            self.wf(),
        ensures
            match input::path_error(path) {
                Some(error) => request == Err::<PendingXmlFile, FileInputError>(
                    FileInputError::BadRustPath(error),
                ),
                None => {
                    &&& request matches Ok(request)
                    &&& request.wf()
                    &&& request.pending.builder == self
                    &&& request.pending.call matches HwlocCall::SetXml { path: text }
                    &&& text@ == path->0@
                    &&& request.pending.outcome() == ConfigurationView {
                        source: SourceView::XmlFile(path->0@),
                        ..self@
                    }
                },
            },
    {
        match make_hwloc_path(path) {
            Ok(path) => Ok(
                PendingXmlFile {
                    pending: Pending { builder: self, call: HwlocCall::SetXml { path } },
                },
            ),
            Err(error) => Err(FileInputError::from(error)),
        }
    }

    /// Prevent a discovery component from being used for a topology
    ///
    /// `name` is the name of the discovery component that should not be used
    /// when loading the topology. The name is a string such as "cuda". For
    /// components with multiple phases, it may also be suffixed with the name of
    /// a phase, for instance "linux:io".
    ///
    /// Fails with [`NulError`] if `name` contains NUL chars.
    pub fn without_component(self, name: &str) -> (request: Result<
        PendingComponent,
        HybridError<NulError>,
    >)
        requires
            self.wf(),
        ensures
            !strings::nul_free(name@) ==> request == Err::<PendingComponent, HybridError<NulError>>(
                HybridError::Rust(NulError),
            ),
            strings::nul_free(name@) ==> {
                &&& request matches Ok(request)
                &&& request.wf()
                &&& request.pending.builder == self
                &&& request.pending.call matches HwlocCall::SetComponents { flags, name: text }
                &&& flags == HWLOC_TOPOLOGY_COMPONENTS_FLAG_BLACKLIST
                &&& text@ == name@
                &&& request.pending.outcome() == ConfigurationView {
                    excluded: self@.excluded.push(name@),
                    ..self@
                }
            },
    {
        match LibcString::new(name) {
            Ok(name) => Ok(
                PendingComponent {
                    pending: Pending {
                        builder: self,
                        call: HwlocCall::SetComponents {
                            flags: HWLOC_TOPOLOGY_COMPONENTS_FLAG_BLACKLIST,
                            name,
                        },
                    },
                },
            ),
            Err(error) => Err(HybridError::Rust(error)),
        }
    }
}

/// Request to view the topology from a process
#[derive(Debug)]
pub struct PendingPid {
    pub pending: Pending,
}

impl PendingPid {
    /// Truth that this request is valid
    pub open spec fn wf(self) -> bool {
        &&& self.pending.wf()
        &&& self.pending.call is SetPid
    }

    /// Call that hwloc should make
    pub fn call(&self) -> (call: &HwlocCall)
        ensures
            *call == self.pending.call,
    {
        &self.pending.call
    }

    /// Builder of a topology that is viewed from the process
    ///
    /// Fails with [`FromPIDError`] if the topology cannot be configured from
    /// this process.
    pub fn finish(self, reply: HwlocReply) -> (result: Result<
        TopologyBuilder,
        HybridError<FromPIDError>,
    >)
        requires
            self.wf(),
            reply.conventional(),
        ensures
            match errors::int_normal("hwloc_topology_set_pid", reply) {
                Ok(_) => result matches Ok(builder) && self.pending.completed(builder),
                Err(error) => result == Err::<TopologyBuilder, HybridError<FromPIDError>>(
                    if error.errno is None || errors::is_errno(
                        error.errno,
                        self.pending.builder.errno_codes().enosys,
                    ) {
                        HybridError::Rust(FromPIDError(self.pending.call->pid))
                    } else {
                        HybridError::Hwloc(error)
                    },
                ),
            },
    {
        let enosys: i32 = self.pending.builder.codes().enosys;
        let pid: ProcessId = match self.pending.call {
            HwlocCall::SetPid { pid } => pid,
            _ => 0,
        };
        match self.pending.settle("hwloc_topology_set_pid", reply) {
            Ok(builder) => Ok(builder),
            Err(error) => if error.errno.is_none() || has_errno(error.errno, enosys) {
                Err(HybridError::Rust(FromPIDError::from(pid)))
            } else {
                Err(HybridError::Hwloc(error))
            },
        }
    }
}

/// Request to read the topology from a synthetic description
#[derive(Debug)]
pub struct PendingSynthetic {
    pub pending: Pending,
}

impl PendingSynthetic {
    /// Truth that this request is valid
    pub open spec fn wf(self) -> bool {
        &&& self.pending.wf()
        &&& self.pending.call is SetSynthetic
    }

    /// Truth that a reply is a success, or a failure that hwloc gives no reason for
    /// or puts down to an invalid argument
    pub open spec fn admits(self, reply: HwlocReply) -> bool {
        &&& reply.conventional()
        &&& reply.success() || reply.errno is None || errors::is_errno(
            reply.errno,
            self.pending.builder.errno_codes().einval,
        )
    }

    /// Truth that a reply is a success, or a failure that hwloc gives no reason for
    /// or puts down to an invalid argument
    ///
    /// Hwloc rejects descriptions in this way. Should it fail for another reason, the
    /// request fails all the same.
    pub fn accepts(&self, reply: &HwlocReply) -> (truth: bool)
        ensures
            truth == self.admits(*reply),
    {
        let einval: i32 = self.pending.builder.codes().einval;
        reply.is_conventional() && (reply.result >= 0 || reply.errno.is_none() || has_errno(
            reply.errno,
            einval,
        ))
    }

    /// Call that hwloc should make
    pub fn call(&self) -> (call: &HwlocCall)
        ensures
            *call == self.pending.call,
    {
        &self.pending.call
    }

    /// Builder of the described topology
    ///
    /// Fails with [`StringInputError::Invalid`] if the description failed
    /// hwloc-side validation (most likely it is not a valid Synthetic topology
    /// description).
    pub fn finish(self, reply: HwlocReply) -> (result: Result<TopologyBuilder, StringInputError>)
        requires
            self.wf(),
            reply.conventional(),
        ensures
            match errors::int_normal("hwloc_topology_set_synthetic", reply) {
                Ok(_) => result matches Ok(builder) && self.pending.completed(builder),
                Err(_) => result == Err::<TopologyBuilder, StringInputError>(
                    StringInputError::Invalid,
                ),
            },
    {
        match self.pending.settle("hwloc_topology_set_synthetic", reply) {
            Ok(builder) => Ok(builder),
            Err(_) => Err(StringInputError::Invalid),
        }
    }
}

/// Request to read the topology from an XML description
#[derive(Debug)]
pub struct PendingXml {
    pub pending: Pending,
}

impl PendingXml {
    /// Truth that this request is valid
    pub open spec fn wf(self) -> bool {
        &&& self.pending.wf()
        &&& self.pending.call is SetXmlBuffer
    }

    /// Truth that a reply is a success, or a failure that hwloc puts down to an
    /// invalid argument
    pub open spec fn admits(self, reply: HwlocReply) -> bool {
        &&& reply.conventional()
        &&& reply.success() || errors::is_errno(
            reply.errno,
            self.pending.builder.errno_codes().einval,
        )
    }

    /// Truth that a reply is a success, or a failure that hwloc puts down to an
    /// invalid argument
    ///
    /// Hwloc rejects descriptions in this way. Should it fail for another reason, the
    /// request fails all the same.
    pub fn accepts(&self, reply: &HwlocReply) -> (truth: bool)
        ensures
            truth == self.admits(*reply),
    {
        let einval: i32 = self.pending.builder.codes().einval;
        reply.is_conventional() && (reply.result >= 0 || has_errno(reply.errno, einval))
    }

    /// Call that hwloc should make
    pub fn call(&self) -> (call: &HwlocCall)
        ensures
            *call == self.pending.call,
    {
        &self.pending.call
    }

    /// Builder of the described topology
    ///
    /// Fails with [`StringInputError::Invalid`] if the description failed
    /// hwloc-side validation (most likely it is not a valid XML topology
    /// description).
    pub fn finish(self, reply: HwlocReply) -> (result: Result<TopologyBuilder, StringInputError>)
        requires
            self.wf(),
            reply.conventional(),
        ensures
            match errors::int_normal("hwloc_topology_set_xmlbuffer", reply) {
                Ok(_) => result matches Ok(builder) && self.pending.completed(builder),
                Err(_) => result == Err::<TopologyBuilder, StringInputError>(
                    StringInputError::Invalid,
                ),
            },
    {
        match self.pending.settle("hwloc_topology_set_xmlbuffer", reply) {
            Ok(builder) => Ok(builder),
            Err(_) => Err(StringInputError::Invalid),
        }
    }
}

/// Request to read the topology from an XML file
#[derive(Debug)]
pub struct PendingXmlFile {
    pub pending: Pending,
}

impl PendingXmlFile {
    /// Truth that this request is valid
    pub open spec fn wf(self) -> bool {
        &&& self.pending.wf()
        &&& self.pending.call is SetXml
    }

    /// Truth that a reply is a success, or a failure that hwloc puts down to an
    /// invalid argument
    pub open spec fn admits(self, reply: HwlocReply) -> bool {
        &&& reply.conventional()
        &&& reply.success() || errors::is_errno(
            reply.errno,
            self.pending.builder.errno_codes().einval,
        )
    }

    /// Truth that a reply is a success, or a failure that hwloc puts down to an
    /// invalid argument
    ///
    /// A file that is missing or cannot be read may come with another reason. The
    /// request fails all the same.
    pub fn accepts(&self, reply: &HwlocReply) -> (truth: bool)
        ensures
            truth == self.admits(*reply),
    {
        let einval: i32 = self.pending.builder.codes().einval;
        reply.is_conventional() && (reply.result >= 0 || has_errno(reply.errno, einval))
    }

    /// Call that hwloc should make
    pub fn call(&self) -> (call: &HwlocCall)
        ensures
            *call == self.pending.call,
    {
        &self.pending.call
    }

    /// Builder of the topology in the file
    ///
    /// Fails with [`FileInputError::Invalid`] if the path fails hwloc-side
    /// validation (most likely the path does not exist, is not accessible for
    /// reading, or the file does not contain valid XML).
    pub fn finish(self, reply: HwlocReply) -> (result: Result<TopologyBuilder, FileInputError>)
        requires
            self.wf(),
            reply.conventional(),
        ensures
            match errors::int_normal("hwloc_topology_set_xml", reply) {
                Ok(_) => result matches Ok(builder) && self.pending.completed(builder),
                Err(_) => {
                    &&& result matches Err(FileInputError::Invalid(path))
                    &&& path@ == self.pending.call->path@
                },
            },
    {
        let path: String = match &self.pending.call {
            HwlocCall::SetXml { path } => path.as_str().to_owned(),
            _ => String::new(),
        };
        match self.pending.settle("hwloc_topology_set_xml", reply) {
            Ok(builder) => Ok(builder),
            Err(_) => Err(FileInputError::Invalid(path)),
        }
    }
}

/// Request not to use a discovery component
#[derive(Debug)]
pub struct PendingComponent {
    pub pending: Pending,
}

impl PendingComponent {
    /// Truth that this request is valid
    pub open spec fn wf(self) -> bool {
        &&& self.pending.wf()
        &&& self.pending.call is SetComponents
    }

    /// Call that hwloc should make
    pub fn call(&self) -> (call: &HwlocCall)
        ensures
            *call == self.pending.call,
    {
        &self.pending.call
    }

    /// Builder of a topology that does not use the component
    pub fn finish(self, reply: HwlocReply) -> (result: Result<
        TopologyBuilder,
        HybridError<NulError>,
    >)
        requires
            self.wf(),
            reply.conventional(),
        ensures
            match errors::int_normal("hwloc_topology_set_components", reply) {
                Ok(_) => result matches Ok(builder) && self.pending.completed(builder),
                Err(error) => result == Err::<TopologyBuilder, HybridError<NulError>>(
                    HybridError::Hwloc(error),
                ),
            },
    {
        match self.pending.settle("hwloc_topology_set_components", reply) {
            Ok(builder) => Ok(builder),
            Err(error) => Err(HybridError::Hwloc(error)),
        }
    }
}

/// Replies are told apart by their result, and failures by `errno`
pub proof fn law_admitted_replies(
    synthetic: PendingSynthetic,
    xml: PendingXml,
    file: PendingXmlFile,
    reply: HwlocReply,
)
    ensures
        synthetic.admits(reply) <==> reply.result >= 0 || (reply.result == -1 && (reply.errno is None
            || reply.errno == Some(
            errors::Errno(synthetic.pending.builder.errno_codes().einval),
        ))),
        xml.admits(reply) <==> reply.result >= 0 || (reply.result == -1 && reply.errno == Some(
            errors::Errno(xml.pending.builder.errno_codes().einval),
        )),
        file.admits(reply) <==> reply.result >= 0 || (reply.result == -1 && reply.errno == Some(
            errors::Errno(file.pending.builder.errno_codes().einval),
        )),
{
}

} // verus!
