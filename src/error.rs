use vstd::prelude::*;

verus! {

/// Exit status: success.
pub const E_SUCCESS: i32 = 0;

/// Exit status: permission denied.
pub const E_NOPERM: i32 = 1;

/// Exit status: invalid combination of options.
pub const E_USAGE: i32 = 2;

/// Exit status: unexpected failure, nothing done.
pub const E_FAILURE: i32 = 3;

/// Exit status: invalid argument to an option.
pub const E_BAD_ARG: i32 = 6;

/// The failures that abort an invocation.
#[derive(Debug, Clone, PartialEq, Eq)]
pub enum PasswdError {
    /// The requested new root is not an absolute path; it carries the path.
    NotAbsolute(String),
    /// The requested new root cannot be examined; it carries the cause.
    Inaccessible(String),
    /// A file or directory operation failed; it carries the cause.
    Io(String),
    /// A credential line does not have exactly nine fields; it carries the line.
    CorruptEntry(String),
    /// The invoking user has no account entry.
    IdentityNotFound,
    /// A privileged operation was requested without elevated rights.
    PermissionDenied,
}

/// The exit status that the command reports for an error.
pub open spec fn exit_code_of(e: PasswdError) -> i32 {
    match e {
        PasswdError::PermissionDenied => E_NOPERM,
        _ => E_FAILURE,
    }
}

impl PasswdError {
    /// The process exit status under which this failure is reported.
    pub fn exit_code(&self) -> (r: i32)
        ensures
            r == exit_code_of(*self),
    {
        match self {
            PasswdError::PermissionDenied => E_NOPERM,
            _ => E_FAILURE,
        }
    }
}

} // verus!
