//! The error translator: native failure categories map to host exception
//! categories through a fixed table; the failure message crosses the
//! boundary unchanged.

use vstd::prelude::*;

use crate::bind::BindErrV;
use crate::bind::BindError;
use vstd::string::StringExecFns;

verus! {

/// The category of a failure produced by native code.
#[derive(Debug, Clone, Copy, PartialEq, Eq)]
pub enum NativeErrorKind {
    /// An argument was structurally wrong for the native body.
    InvalidArgument,
    /// A value fell outside the range the native body supports.
    OutOfRange,
    /// An input/output operation failed.
    IoFailure,
    /// Any other native failure.
    GenericFailure,
}

/// A failure produced by a native function body.
#[derive(Debug)]
pub struct NativeError {
    pub kind: NativeErrorKind,
    pub message: String,
}

/// The mathematical model of a `NativeError`.
pub struct NativeErrV {
    pub kind: NativeErrorKind,
    pub message: Seq<char>,
}

impl View for NativeError {
    type V = NativeErrV;

    open spec fn view(&self) -> NativeErrV {
        NativeErrV { kind: self.kind, message: self.message@ }
    }
}

/// The category of an exception surfaced to the host.
#[derive(Debug, Clone, Copy, PartialEq, Eq)]
pub enum HostExceptionCategory {
    /// The host's value-error equivalent.
    ValueError,
    /// The host's operating-system-error equivalent.
    OsError,
    /// The host's runtime-error equivalent.
    RuntimeError,
}

/// An exception object surfaced to the host: a category and a message.
#[derive(Debug)]
pub struct HostException {
    pub category: HostExceptionCategory,
    pub message: String,
}

/// The mathematical model of a `HostException`.
pub struct HostExcV {
    pub category: HostExceptionCategory,
    pub message: Seq<char>,
}

impl View for HostException {
    type V = HostExcV;

    open spec fn view(&self) -> HostExcV {
        HostExcV { category: self.category, message: self.message@ }
    }
}

/// The fixed translation table from native failure categories to host
/// exception categories.
pub open spec fn spec_category_of(k: NativeErrorKind) -> HostExceptionCategory {
    match k {
        NativeErrorKind::InvalidArgument => HostExceptionCategory::ValueError,
        NativeErrorKind::OutOfRange => HostExceptionCategory::ValueError,
        NativeErrorKind::IoFailure => HostExceptionCategory::OsError,
        NativeErrorKind::GenericFailure => HostExceptionCategory::RuntimeError,
    }
}

/// What translating a native failure yields: the table's category and the
/// original message, unchanged.
pub open spec fn spec_translate(e: NativeErrV) -> HostExcV {
    HostExcV { category: spec_category_of(e.kind), message: e.message }
}

/// Translates a native failure into a host exception through the fixed
/// table, carrying the message verbatim.
pub fn translate(e: NativeError) -> (h: HostException)
    ensures
        h@ == spec_translate(e@),
{
    let category = match e.kind {
        NativeErrorKind::InvalidArgument => HostExceptionCategory::ValueError,
        NativeErrorKind::OutOfRange => HostExceptionCategory::ValueError,
        NativeErrorKind::IoFailure => HostExceptionCategory::OsError,
        NativeErrorKind::GenericFailure => HostExceptionCategory::RuntimeError,
    };
    HostException { category, message: e.message }
}

/// The message a binding failure surfaces to the host.
pub open spec fn spec_bind_error_message(e: BindErrV) -> Seq<char> {
    match e {
        BindErrV::TooManyPositional => "too many positional arguments"@,
        BindErrV::MissingRequired(n) => "missing required argument: "@ + n,
        BindErrV::UnexpectedKeyword(n) => "unexpected keyword argument: "@ + n,
        BindErrV::DuplicateArgument(n) => "duplicate argument: "@ + n,
        BindErrV::ConversionFailure(n, _) => "argument conversion failed: "@ + n,
    }
}

/// Surfaces a binding failure to the host: always the value-error
/// category, with a message naming the offending argument.
pub fn bind_error_to_host(e: &BindError) -> (h: HostException)
    ensures
        h@.category == HostExceptionCategory::ValueError,
        h@.message == spec_bind_error_message(e@),
{
    let message = match e {
        BindError::TooManyPositional => String::from_str("too many positional arguments"),
        BindError::MissingRequired(n) => String::from_str("missing required argument: ").concat(
            n.as_str(),
        ),
        BindError::UnexpectedKeyword(n) => String::from_str("unexpected keyword argument: ").concat(
            n.as_str(),
        ),
        BindError::DuplicateArgument(n) => String::from_str("duplicate argument: ").concat(
            n.as_str(),
        ),
        BindError::ConversionFailure(n, _) => String::from_str(
            "argument conversion failed: ",
        ).concat(n.as_str()),
    };
    HostException { category: HostExceptionCategory::ValueError, message }
}

/// The message surfaced when an export name resolves to nothing.
pub fn name_not_found(name: &String) -> (h: HostException)
    ensures
        h@.category == HostExceptionCategory::RuntimeError,
        h@.message == "name not found: "@ + name@,
{
    HostException {
        category: HostExceptionCategory::RuntimeError,
        message: String::from_str("name not found: ").concat(name.as_str()),
    }
}

/// The message surfaced when an export is not callable.
pub fn not_callable(name: &String) -> (h: HostException)
    ensures
        h@.category == HostExceptionCategory::RuntimeError,
        h@.message == "export is not callable: "@ + name@,
{
    HostException {
        category: HostExceptionCategory::RuntimeError,
        message: String::from_str("export is not callable: ").concat(name.as_str()),
    }
}

} // verus!
