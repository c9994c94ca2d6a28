//! Errors of topology inputs
use vstd::prelude::*;

use crate::strings;
use crate::strings::{LibcString, NulError};
use crate::topology::calls::ProcessId;

verus! {

/// Attempted to configure the topology from an invalid process ID
#[derive(Clone, Copy, Debug, Hash, PartialEq, Eq, Structural)]
pub struct FromPIDError(pub ProcessId);

impl Default for FromPIDError {
    fn default() -> (error: Self)
        ensures
            error.0 == 0,
    {
        FromPIDError(0)
    }
}

impl From<ProcessId> for FromPIDError {
    fn from(value: ProcessId) -> (error: Self) {
        FromPIDError(value)
    }
}

impl vstd::std_specs::convert::FromSpecImpl<ProcessId> for FromPIDError {
    open spec fn obeys_from_spec() -> bool {
        true
    }

    open spec fn from_spec(value: ProcessId) -> Self {
        FromPIDError(value)
    }
}

/// Invalid text was specified as the topology source
#[derive(Clone, Copy, Debug, Hash, PartialEq, Eq, Structural)]
pub enum StringInputError {
    /// Input string contains NUL chars and hwloc cannot handle that
    ContainsNul,
    /// Hwloc rejected the input string as invalid for the specified input type
    Invalid,
}

impl From<NulError> for StringInputError {
    fn from(value: NulError) -> (error: Self) {
        StringInputError::ContainsNul
    }
}

impl vstd::std_specs::convert::FromSpecImpl<NulError> for StringInputError {
    open spec fn obeys_from_spec() -> bool {
        true
    }

    open spec fn from_spec(value: NulError) -> Self {
        StringInputError::ContainsNul
    }
}

/// A file path is not suitable for hwloc consumption
#[derive(Clone, Copy, Debug, Hash, PartialEq, Eq, Structural)]
pub enum PathError {
    /// Path contains the NUL char
    ContainsNul,
    /// Path is not valid Unicode
    NotUnicode,
}

impl From<NulError> for PathError {
    fn from(value: NulError) -> (error: Self) {
        PathError::ContainsNul
    }
}

impl vstd::std_specs::convert::FromSpecImpl<NulError> for PathError {
    open spec fn obeys_from_spec() -> bool {
        true
    }

    open spec fn from_spec(value: NulError) -> Self {
        PathError::ContainsNul
    }
}

/// Reason why a path is not suitable for hwloc consumption, if there is one
pub open spec fn path_error(path: Option<&str>) -> Option<PathError> {
    match path {
        None => Some(PathError::NotUnicode),
        Some(text) => if strings::nul_free(text@) {
            None
        } else {
            Some(PathError::ContainsNul)
        },
    }
}

/// Make a path suitable for hwloc consumption
///
/// `path` should be `None` if the path is not valid Unicode.
pub fn make_hwloc_path(path: Option<&str>) -> (result: Result<LibcString, PathError>)
    ensures
        match path_error(path) {
            Some(error) => result == Err::<LibcString, PathError>(error),
            None => result matches Ok(text) && text@ == path->0@,
        },
{
    match path {
        None => Err(PathError::NotUnicode),
        Some(text) => match LibcString::new(text) {
            Ok(text) => Ok(text),
            Err(error) => Err(PathError::from(error)),
        },
    }
}

/// An invalid input file path was specified as the topology source
#[derive(Clone, Debug, Hash, PartialEq, Eq)]
pub enum FileInputError {
    /// File path is not suitable for hwloc consumption
    BadRustPath(PathError),
    /// Hwloc rejected the file path or the file contents as invalid
    Invalid(String),
}

impl From<PathError> for FileInputError {
    fn from(value: PathError) -> (error: Self) {
        FileInputError::BadRustPath(value)
    }
}

impl vstd::std_specs::convert::FromSpecImpl<PathError> for FileInputError {
    open spec fn obeys_from_spec() -> bool {
        true
    }

    open spec fn from_spec(value: PathError) -> Self {
        FileInputError::BadRustPath(value)
    }
}

/// A path is refused if it is not Unicode or some of its chars is NUL, and for no other
/// reason
pub proof fn law_paths(path: &str)
    ensures
        path_error(None) == Some(PathError::NotUnicode),
        path_error(Some(path)) == Some(PathError::ContainsNul) <==> path@.contains('\0'),
        path_error(Some(path)) is None <==> !path@.contains('\0'),
{
    strings::law_nul_free(path@);
}

} // verus!
