//! Error kinds, their stable names and their exit codes.

use vstd::prelude::*;

use crate::output::GroupResponse;

verus! {

/// What went wrong. The one table from which the `kind` name on stderr and the
/// process exit code are both read.
#[derive(Debug, Clone, Copy, PartialEq, Eq, Structural)]
pub enum ErrorKind {
    /// The config file does not exist.
    ConfigMissing,
    /// Reading, parsing or validating the config failed.
    ConfigParse,
    /// The given name is not in the config file.
    NameNotFound,
    /// The child CLI binary was not found or could not be executed.
    ChildNotFound,
    /// The child CLI exited non-zero; its code is passed on unchanged.
    ChildFailed(i32),
    /// The child CLI's stdout is not JSON.
    ChildInvalidOutput,
    /// The operation is not supported for the device's protocol.
    ProtocolUnsupported,
    /// Some (or all) members of a group execution failed.
    GroupPartialFailure,
    /// A protocol-specific argument has the wrong form.
    InvalidArgument,
}

/// The stable `kind` name of an error kind.
pub open spec fn spec_kind_name(k: ErrorKind) -> Seq<char> {
    match k {
        ErrorKind::ConfigMissing => "config_missing"@,
        ErrorKind::ConfigParse => "config_parse"@,
        ErrorKind::NameNotFound => "name_not_found"@,
        ErrorKind::ChildNotFound => "child_not_found"@,
        ErrorKind::ChildFailed(_) => "child_failed"@,
        ErrorKind::ChildInvalidOutput => "child_invalid_output"@,
        ErrorKind::ProtocolUnsupported => "protocol_unsupported"@,
        ErrorKind::GroupPartialFailure => "group_partial_failure"@,
        ErrorKind::InvalidArgument => "invalid_argument"@,
    }
}

/// The exit code of an error kind: 10 for config problems, 11 for unknown names,
/// 12 for a missing child, 13 for child output that is not JSON, 14 for an
/// unsupported operation, 15 for a partial group failure, 2 for a malformed
/// argument, and the child's own code when the child failed.
pub open spec fn spec_exit_code(k: ErrorKind) -> i32 {
    match k {
        ErrorKind::ConfigMissing => 10,
        ErrorKind::ConfigParse => 10,
        ErrorKind::NameNotFound => 11,
        ErrorKind::ChildNotFound => 12,
        ErrorKind::ChildFailed(code) => code,
        ErrorKind::ChildInvalidOutput => 13,
        ErrorKind::ProtocolUnsupported => 14,
        ErrorKind::GroupPartialFailure => 15,
        ErrorKind::InvalidArgument => 2,
    }
}

impl ErrorKind {
    /// The stable name shown as `kind` on stderr.
    pub fn as_str(&self) -> (r: &'static str)
        ensures
            r@ == spec_kind_name(*self),
    {
        match self {
            ErrorKind::ConfigMissing => "config_missing",
            ErrorKind::ConfigParse => "config_parse",
            ErrorKind::NameNotFound => "name_not_found",
            ErrorKind::ChildNotFound => "child_not_found",
            ErrorKind::ChildFailed(_) => "child_failed",
            ErrorKind::ChildInvalidOutput => "child_invalid_output",
            ErrorKind::ProtocolUnsupported => "protocol_unsupported",
            ErrorKind::GroupPartialFailure => "group_partial_failure",
            ErrorKind::InvalidArgument => "invalid_argument",
        }
    }

    /// The process exit code for this kind.
    pub fn exit_code(&self) -> (r: i32)
        ensures
            r == spec_exit_code(*self),
    {
        match self {
            ErrorKind::ConfigMissing | ErrorKind::ConfigParse => 10,
            ErrorKind::NameNotFound => 11,
            ErrorKind::ChildNotFound => 12,
            ErrorKind::ChildFailed(code) => *code,
            ErrorKind::ChildInvalidOutput => 13,
            ErrorKind::ProtocolUnsupported => 14,
            ErrorKind::GroupPartialFailure => 15,
            ErrorKind::InvalidArgument => 2,
        }
    }
}

/// An error with its kind, a human-readable detail, and, for a partial group
/// failure, the per-member results that are still printed on stdout.
#[derive(Debug)]
pub struct CasaError {
    pub kind: ErrorKind,
    pub detail: String,
    pub response: Option<GroupResponse>,
}

impl CasaError {
    /// An error of the given kind and detail, with no per-member results.
    pub fn new(kind: ErrorKind, detail: String) -> (r: CasaError)
        ensures
            r.kind == kind,
            r.detail@ == detail@,
            r.response is None,
    {
        CasaError { kind, detail, response: None }
    }

    /// The same error carrying per-member results.
    pub fn with_response(self, response: GroupResponse) -> (r: CasaError)
        ensures
            r.kind == self.kind,
            r.detail@ == self.detail@,
            r.response == Some(response),
    {
        CasaError { kind: self.kind, detail: self.detail, response: Some(response) }
    }

    /// The process exit code for this error.
    pub fn exit_code(&self) -> (r: i32)
        ensures
            r == spec_exit_code(self.kind),
    {
        self.kind.exit_code()
    }
}

} // verus!
