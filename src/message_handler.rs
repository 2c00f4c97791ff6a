//! The signaling command pipeline: the operations that clients request, and
//! the decisions taken for one dequeued message.

pub mod operation;
pub mod router;
pub mod signal_create;
pub mod stream_create;
pub mod stream_read;
pub mod stream_upload;

use vstd::prelude::*;

use crate::message_handler::operation::{ApiError, ErrorKind, MethodName, OperationResult};
use crate::message_handler::router::Method;
use crate::switchboard::{Recorder, SessionId, Switchboard};

verus! {

/// What came with a message in place of an SDP offer.
pub enum JsepStatus {
    /// No offer was sent.
    Missing,
    /// An offer was sent and could not be read; why.
    Invalid(String),
    /// A readable offer was sent.
    Valid,
}

/// The result of one operation, as seen through the result of the message.
pub open spec fn as_operation_result(r: Result<Option<MethodName>, ApiError>) -> OperationResult {
    match r {
        Ok(_) => Ok(()),
        Err(e) => Err(e),
    }
}

/// The decisions for one dequeued message from `session`.
///
/// `message` is the message body: `None` when there was none, else the
/// operation it names or why it could not be read. `jsep` tells whether a
/// usable SDP offer came with it, and `recording` how starting a recorder
/// went (see `Method::operation`). On success the result names the
/// operation that ran, or is `None` for a message without a body; the
/// caller then answers the offer of an operation that needs one. A failed
/// message leaves the switchboard as it was, except as the operation itself
/// states.
pub fn handle_message(
    switchboard: &mut Switchboard,
    session: SessionId,
    message: Option<Result<Method, String>>,
    jsep: JsepStatus,
    recording: Option<Result<Recorder, String>>,
) -> (r: Result<Option<MethodName>, ApiError>)
    requires
        old(switchboard).wf(),
    ensures
        final(switchboard).wf(),
        match message {
            None => r == Ok::<Option<MethodName>, ApiError>(None) && final(switchboard)@ == old(
                switchboard,
            )@,
            Some(Err(detail)) => {
                &&& r is Err
                &&& r->Err_0.kind == ErrorKind::BadRequest
                &&& r->Err_0.method == None::<MethodName>
                &&& r->Err_0.detail@ == detail@
                &&& final(switchboard)@ == old(switchboard)@
            },
            Some(Ok(method)) => if method.handles_jsep_spec() && !(jsep is Valid) {
                &&& r is Err
                &&& r->Err_0.kind == ErrorKind::BadRequest
                &&& r->Err_0.method == Some(method.name_spec())
                &&& (jsep matches JsepStatus::Invalid(d) ==> r->Err_0.detail@ == d@)
                &&& final(switchboard)@ == old(switchboard)@
            } else {
                &&& method.outcome(
                    old(switchboard)@,
                    session,
                    recording,
                    final(switchboard)@,
                    as_operation_result(r),
                )
                &&& r is Ok ==> r == Ok::<Option<MethodName>, ApiError>(Some(method.name_spec()))
            },
        },
{
    match message {
        None => Ok(None),
        Some(Err(detail)) => Err(ApiError { kind: ErrorKind::BadRequest, detail, method: None }),
        Some(Ok(method)) => {
            if method.is_handle_jsep() {
                match jsep {
                    JsepStatus::Missing => {
                        return Err(
                            ApiError {
                                kind: ErrorKind::BadRequest,
                                detail: "JSEP is empty".to_owned(),
                                method: Some(method.name()),
                            },
                        );
                    },
                    JsepStatus::Invalid(detail) => {
                        return Err(
                            ApiError {
                                kind: ErrorKind::BadRequest,
                                detail,
                                method: Some(method.name()),
                            },
                        );
                    },
                    JsepStatus::Valid => {},
                }
            }
            match method.operation(switchboard, session, recording) {
                Ok(()) => Ok(Some(method.name())),
                Err(e) => Err(e),
            }
        },
    }
}

} // verus!
