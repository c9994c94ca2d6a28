//! Replies of hwloc entry points and the errors that they are turned into
//!
//! Every hwloc entry point of this library that can fail follows the same
//! convention: it returns a non-negative integer on success and -1 on failure,
//! in which case `errno` may tell more.
use vstd::prelude::*;

verus! {

/// A value of the C `errno` variable
#[derive(Clone, Copy, Debug, Hash, PartialEq, Eq, Structural)]
pub struct Errno(pub i32);

/// What an hwloc entry point handed back
#[derive(Clone, Copy, Debug, Hash, PartialEq, Eq)]
pub struct HwlocReply {
    /// Integer return value
    pub result: i32,
    /// Value of `errno` after the call, if the call set it
    pub errno: Option<Errno>,
}

impl HwlocReply {
    /// Truth that the entry point kept to its calling convention
    pub open spec fn conventional(self) -> bool {
        self.result >= -1
    }

    /// Truth that the entry point reported success
    pub open spec fn success(self) -> bool {
        self.result >= 0
    }

    /// Truth that the entry point kept to its calling convention
    pub fn is_conventional(&self) -> (conventional: bool)
        ensures
            conventional == self.conventional(),
            conventional <==> self.result >= 0 || self.result == -1,
    {
        self.result >= -1
    }
}

/// Error raised by an hwloc entry point
#[derive(Clone, Copy, Debug, Hash, PartialEq, Eq)]
pub struct RawHwlocError {
    /// Hwloc entry point that failed
    pub api: &'static str,
    /// Observed `errno` value, if the entry point set it
    pub errno: Option<Errno>,
}

/// Error that is raised either by a check made before hwloc is called, or by
/// hwloc itself
#[derive(Clone, Copy, Debug, Hash, PartialEq, Eq)]
pub enum HybridError<RustError> {
    /// The request was found to be invalid before hwloc was called
    Rust(RustError),
    /// Hwloc reported a failure
    Hwloc(RawHwlocError),
}

/// The given set of flags is not valid
#[derive(Clone, Copy, Debug, Hash, PartialEq, Eq)]
pub struct FlagsError<Flags>(pub Flags);

/// Meaning of the reply of an hwloc entry point that returns -1 on failure
pub open spec fn int_normal(api: &'static str, reply: HwlocReply) -> Result<i32, RawHwlocError> {
    if reply.success() {
        Ok(reply.result)
    } else {
        Err(RawHwlocError { api, errno: reply.errno })
    }
}

/// Interpret the reply of an hwloc entry point that returns -1 on failure
pub fn call_hwloc_int_normal(api: &'static str, reply: HwlocReply) -> (result: Result<
    i32,
    RawHwlocError,
>)
    requires
        reply.conventional(),
    ensures
        result == int_normal(api, reply),
        reply.result >= 0 ==> result == Ok::<i32, RawHwlocError>(reply.result),
        reply.result == -1 ==> result == Err::<i32, RawHwlocError>(
            RawHwlocError { api, errno: reply.errno },
        ),
{
    if reply.result >= 0 {
        Ok(reply.result)
    } else {
        Err(RawHwlocError { api, errno: reply.errno })
    }
}

/// Truth that `errno` was set to a certain value
pub open spec fn is_errno(errno: Option<Errno>, code: i32) -> bool {
    errno == Some(Errno(code))
}

/// Truth that `errno` was set to a certain value
pub(crate) fn has_errno(errno: Option<Errno>, code: i32) -> (truth: bool)
    ensures
        truth == is_errno(errno, code),
        truth <==> errno == Some(Errno(code)),
{
    match errno {
        Some(errno) => errno.0 == code,
        None => false,
    }
}

/// Numeric values of the `errno` codes that change the meaning of a failure
#[derive(Clone, Copy, Debug, Hash, PartialEq, Eq, Structural)]
pub struct ErrnoCodes {
    /// Code of "invalid argument"
    pub einval: i32,
    /// Code of "function not implemented"
    pub enosys: i32,
}

/// Truth that a number is that of "invalid argument" on some platform
pub open spec fn is_einval(code: i32) -> bool {
    code == 14 || code == 22 || code == 28 || code == 1073741846 || code == -2147483643
}

/// Truth that a number is that of "function not implemented" on some platform
pub open spec fn is_enosys(code: i32) -> bool {
    code == 38 || code == 40 || code == 52 || code == 71 || code == 78 || code == 88 || code == 89
        || code == 90 || code == 109 || code == 1073741902 || code == -2147454967
}

impl ErrnoCodes {
    /// Truth that each code is, on some platform, the number of what it stands
    /// for, so that neither can be mistaken for the other
    pub open spec fn genuine(self) -> bool {
        &&& is_einval(self.einval)
        &&& is_enosys(self.enosys)
        &&& self.einval != self.enosys
    }

    /// Codes of the platform that this library was compiled for
    pub fn host() -> (codes: ErrnoCodes)
        ensures
            codes.genuine(),
    {
        ErrnoCodes { einval: libc_einval(), enosys: libc_enosys() }
    }
}

/// `libc::EINVAL`
///
/// The number varies with the platform. It is one of those that the `libc` crate
/// defines for this constant; which one belongs to which platform is not said.
#[verifier::external_body]
fn libc_einval() -> (code: i32)
    ensures
        is_einval(code),
{
    libc::EINVAL
}

/// `libc::ENOSYS`
///
/// The number varies with the platform. It is one of those that the `libc` crate
/// defines for this constant; which one belongs to which platform is not said.
#[verifier::external_body]
fn libc_enosys() -> (code: i32)
    ensures
        is_enosys(code),
{
    libc::ENOSYS
}

/// A reply follows the calling convention if it is a success, with a non-negative result,
/// or a failure, with the result -1
pub proof fn law_reply_kinds(reply: HwlocReply)
    ensures
        reply.success() <==> reply.result >= 0,
        reply.conventional() <==> reply.result >= 0 || reply.result == -1,
{
}

/// A successful reply means its result, whatever `errno` says, and a failure means what
/// `errno` says, in the name of the entry point that failed
pub proof fn law_reply_meaning(api: &'static str, reply: HwlocReply)
    ensures
        reply.result >= 0 ==> int_normal(api, reply) == Ok::<i32, RawHwlocError>(reply.result),
        reply.result == -1 ==> {
            &&& int_normal(api, reply) matches Err(error)
            &&& error.api == api
            &&& error.errno == reply.errno
        },
{
}

/// Replies with different results do not mean the same success, and failures are told
/// apart by `errno`
pub proof fn law_replies_told_apart(api: &'static str, a: HwlocReply, b: HwlocReply)
    requires
        a.conventional(),
        b.conventional(),
        int_normal(api, a) == int_normal(api, b),
    ensures
        a.result == b.result,
        a.result == -1 ==> a.errno == b.errno,
{
}

/// `errno` has a code only if it was set, and has no other code then
pub proof fn law_errno_is_one_code(errno: Option<Errno>, a: i32, b: i32)
    ensures
        errno is None ==> !is_errno(errno, a),
        is_errno(Some(Errno(a)), a),
        is_errno(errno, a) && is_errno(errno, b) ==> a == b,
{
}

/// No number is a code of "invalid argument" and of "function not implemented", and zero,
/// by which `errno` says that nothing went wrong, is neither
pub proof fn law_codes_are_disjoint(code: i32)
    ensures
        !(is_einval(code) && is_enosys(code)),
        !is_einval(0),
        !is_enosys(0),
{
}

} // verus!
