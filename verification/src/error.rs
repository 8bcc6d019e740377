//! The error taxonomy of the JSON text layer.

use vstd::prelude::*;

verus! {

/// The closed set of text-layer failures.  Each variant carries a
/// human-readable cause.
#[derive(Clone, Debug, PartialEq, Eq, Hash, PartialOrd, Ord)]
pub enum JsonError {
    /// a failure with no more specific class
    ErrorGeneric(String),
    /// a failure whose origin was an I/O condition
    IoError(String),
    /// a failure while producing or restoring canonical text
    SerializationError(String),
}

pub type JsonResult<T> = Result<T, JsonError>;

impl JsonError {
    /// A generic error with the given message.
    pub fn new(msg: &str) -> (r: JsonError)
        ensures
            r matches JsonError::ErrorGeneric(m) && m@ == msg@,
    {
        JsonError::ErrorGeneric(msg.to_owned())
    }

    /// The diagnostic text the error carries; its textual rendering.
    pub fn to_string(&self) -> (r: String)
        ensures
            self matches JsonError::ErrorGeneric(m) ==> r@ == m@,
            self matches JsonError::IoError(m) ==> r@ == m@,
            self matches JsonError::SerializationError(m) ==> r@ == m@,
    {
        match self {
            JsonError::ErrorGeneric(m) => m.clone(),
            JsonError::IoError(m) => m.clone(),
            JsonError::SerializationError(m) => m.clone(),
        }
    }
}

/// The message a `JsonError` renders to.
pub open spec fn spec_error_text(e: JsonError) -> Seq<char> {
    match e {
        JsonError::ErrorGeneric(m) => m@,
        JsonError::IoError(m) => m@,
        JsonError::SerializationError(m) => m@,
    }
}

impl From<JsonError> for String {
    fn from(e: JsonError) -> (r: String)
        ensures
            r@ == spec_error_text(e),
    {
        e.to_string()
    }
}

impl vstd::std_specs::convert::FromSpecImpl<JsonError> for String {
    open spec fn obeys_from_spec() -> bool {
        false
    }

    closed spec fn from_spec(e: JsonError) -> String {
        choose|s: String| s@ == spec_error_text(e)
    }
}

impl From<String> for JsonError {
    fn from(m: String) -> (r: JsonError)
        ensures
            r == JsonError::ErrorGeneric(m),
    {
        JsonError::ErrorGeneric(m)
    }
}

impl vstd::std_specs::convert::FromSpecImpl<String> for JsonError {
    open spec fn obeys_from_spec() -> bool {
        true
    }

    open spec fn from_spec(m: String) -> JsonError {
        JsonError::ErrorGeneric(m)
    }
}

impl<'a> From<&'a str> for JsonError {
    fn from(m: &'a str) -> (r: JsonError)
        ensures
            r matches JsonError::ErrorGeneric(s) && s@ == m@,
    {
        JsonError::new(m)
    }
}

impl<'a> vstd::std_specs::convert::FromSpecImpl<&'a str> for JsonError {
    open spec fn obeys_from_spec() -> bool {
        false
    }

    closed spec fn from_spec(m: &'a str) -> JsonError {
        JsonError::ErrorGeneric(choose|s: String| s@ == m@)
    }
}

/// The classes of I/O failure that error reporting distinguishes, so that an
/// operator can tell data corruption from environment problems.
#[derive(Clone, Copy, Debug, PartialEq, Eq, Structural)]
pub enum IoFailureKind {
    InvalidData,
    PermissionDenied,
    Other,
}

/// The standard wording for an I/O failure of the given class.
pub open spec fn spec_io_reason(kind: IoFailureKind, descr: Seq<char>) -> Seq<char> {
    match kind {
        IoFailureKind::InvalidData => "contains invalid data: "@ + descr,
        IoFailureKind::PermissionDenied => "missing permissions to read: "@ + descr,
        IoFailureKind::Other => "unexpected error: "@ + descr,
    }
}

/// standard strings for I/O errors
pub fn reason_for_io_error(kind: IoFailureKind, descr: &str) -> (r: String)
    ensures
        r@ == spec_io_reason(kind, descr@),
{
    let mut s = match kind {
        IoFailureKind::InvalidData => String::from_str("contains invalid data: "),
        IoFailureKind::PermissionDenied => String::from_str("missing permissions to read: "),
        IoFailureKind::Other => String::from_str("unexpected error: "),
    };
    s.append(descr);
    s
}

/// An I/O failure, classified and described.
pub fn io_error(kind: IoFailureKind, descr: &str) -> (r: JsonError)
    ensures
        r matches JsonError::IoError(m) && m@ == spec_io_reason(kind, descr@),
{
    JsonError::IoError(reason_for_io_error(kind, descr))
}

} // verus!
