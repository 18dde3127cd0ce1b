use vstd::prelude::*;
use vstd::string::StringExecFns;

verus! {

/// The kind of a capability-level failure, as reported to the guest.
#[derive(Clone, Copy, Debug, PartialEq, Eq, Structural)]
pub enum CapabilityErrorCode {
    NotFound,
    Denied,
    InvalidArgument,
    Conflict,
    Limit,
    Unavailable,
    Internal,
}

/// A structured failure returned by every capability operation.
#[derive(Clone, Debug)]
pub struct CapabilityError {
    pub code: CapabilityErrorCode,
    pub message: String,
    pub detail: Option<String>,
}

/// Builds a capability error with the given kind and message and no detail.
pub fn capability_error(code: CapabilityErrorCode, message: &str) -> (r: CapabilityError)
    ensures
        r.code == code,
        r.message@ == message@,
        r.detail is None,
{
    CapabilityError { code, message: String::from_str(message), detail: None }
}

/// The name of an error kind, as failure messages render it.
pub open spec fn spec_code_text(code: CapabilityErrorCode) -> Seq<char> {
    match code {
        CapabilityErrorCode::NotFound => "NotFound"@,
        CapabilityErrorCode::Denied => "Denied"@,
        CapabilityErrorCode::InvalidArgument => "InvalidArgument"@,
        CapabilityErrorCode::Conflict => "Conflict"@,
        CapabilityErrorCode::Limit => "Limit"@,
        CapabilityErrorCode::Unavailable => "Unavailable"@,
        CapabilityErrorCode::Internal => "Internal"@,
    }
}

/// Renders an error kind's name.
pub fn code_text(code: CapabilityErrorCode) -> (r: &'static str)
    ensures
        r@ == spec_code_text(code),
{
    match code {
        CapabilityErrorCode::NotFound => "NotFound",
        CapabilityErrorCode::Denied => "Denied",
        CapabilityErrorCode::InvalidArgument => "InvalidArgument",
        CapabilityErrorCode::Conflict => "Conflict",
        CapabilityErrorCode::Limit => "Limit",
        CapabilityErrorCode::Unavailable => "Unavailable",
        CapabilityErrorCode::Internal => "Internal",
    }
}

/// What an OS-level I/O failure looks like once the outside world has
/// described it: a coarse kind plus the OS's own message text.
#[derive(Clone, Copy, Debug, PartialEq, Eq, Structural)]
pub enum IoErrorKind {
    NotFound,
    PermissionDenied,
    Other,
}

/// An I/O failure as handed in from the unverified backend.
#[derive(Clone, Debug)]
pub struct IoError {
    pub kind: IoErrorKind,
    pub text: String,
}

pub open spec fn io_code_of(kind: IoErrorKind) -> CapabilityErrorCode {
    match kind {
        IoErrorKind::NotFound => CapabilityErrorCode::NotFound,
        IoErrorKind::PermissionDenied => CapabilityErrorCode::Denied,
        IoErrorKind::Other => CapabilityErrorCode::Internal,
    }
}

/// Translates an I/O failure during operation `op` into a capability error.
pub fn io_error(op: &str, err: IoError) -> (r: CapabilityError)
    ensures
        r.code == io_code_of(err.kind),
        r.message@ == op@ + " failed: "@ + err.text@,
        r.detail is None,
{
    let code = match err.kind {
        IoErrorKind::NotFound => CapabilityErrorCode::NotFound,
        IoErrorKind::PermissionDenied => CapabilityErrorCode::Denied,
        IoErrorKind::Other => CapabilityErrorCode::Internal,
    };
    let message = String::from_str(op).concat(" failed: ").concat(err.text.as_str());
    CapabilityError { code, message, detail: None }
}

} // verus!
