//! What every signaling operation offers, and how operations fail.

use vstd::prelude::*;

verus! {

/// The class of a failed request.
#[derive(PartialEq, Eq, Structural, Clone, Copy, Debug)]
pub enum ErrorKind {
    /// A malformed operation, or a missing or invalid SDP offer.
    BadRequest,
    /// A join on a room that has no publisher.
    NotFound,
    /// A failure inside the service, such as a recorder that did not start.
    InternalError,
}

/// The status code that goes with each kind of error.
pub open spec fn status_of(kind: ErrorKind) -> u16 {
    match kind {
        ErrorKind::BadRequest => 400,
        ErrorKind::NotFound => 404,
        ErrorKind::InternalError => 500,
    }
}

impl ErrorKind {
    pub fn status(&self) -> (r: u16)
        ensures
            r == status_of(*self),
    {
        match self {
            ErrorKind::BadRequest => 400,
            ErrorKind::NotFound => 404,
            ErrorKind::InternalError => 500,
        }
    }
}

/// The operations that a signaling message can name.
#[derive(PartialEq, Eq, Structural, Clone, Copy, Debug)]
pub enum MethodName {
    StreamCreate,
    StreamRead,
    StreamUpload,
    SignalCreate,
}

/// A failed request: its kind, what went wrong, and the operation it
/// concerned when that was known.
#[derive(Debug)]
pub struct ApiError {
    pub kind: ErrorKind,
    pub detail: String,
    pub method: Option<MethodName>,
}

/// A failure of kind `kind` about `method`, with the text `detail`.
pub open spec fn is_error(
    r: Result<(), ApiError>,
    kind: ErrorKind,
    method: Option<MethodName>,
    detail: Seq<char>,
) -> bool {
    &&& r is Err
    &&& r->Err_0.kind == kind
    &&& r->Err_0.method == method
    &&& r->Err_0.detail@ == detail
}

/// The result of running one operation.
pub type OperationResult = Result<(), ApiError>;

/// A signaling operation.
pub trait Operation {
    /// Whether the operation needs an SDP offer to negotiate media.
    spec fn handles_jsep(&self) -> bool;

    fn is_handle_jsep(&self) -> (r: bool)
        ensures
            r == self.handles_jsep(),
    ;
}

} // verus!
