//! `stream.create`: register the caller as the publisher of a stream, with
//! a recorder when recording is enabled.

use vstd::prelude::*;

use crate::message_handler::operation::{ApiError, ErrorKind, MethodName, Operation, OperationResult, is_error};
use crate::switchboard::{Recorder, SessionId, Switchboard, SwitchboardView, after_create_room};

verus! {

pub struct Request {
    pub id: String,
}

/// What `stream.create` on room `room` by `session` does, given how
/// starting the recorder went: `None` when recording is disabled, else the
/// started recorder or why it did not start. A recorder that did not start
/// leaves the switchboard as it was and fails the request.
pub open spec fn create_outcome(
    before: SwitchboardView,
    room: Seq<char>,
    session: SessionId,
    recording: Option<Result<Recorder, String>>,
    after: SwitchboardView,
    r: OperationResult,
) -> bool {
    match recording {
        None => r is Ok && after == after_create_room(before, room, session),
        Some(Ok(recorder)) => r is Ok && after == (SwitchboardView {
            recorders: before.recorders.insert(session, recorder),
            ..after_create_room(before, room, session)
        }),
        Some(Err(detail)) => is_error(
            r,
            ErrorKind::InternalError,
            Some(MethodName::StreamCreate),
            detail@,
        ) && after == before,
    }
}

impl Operation for Request {
    open spec fn handles_jsep(&self) -> bool {
        true
    }

    fn is_handle_jsep(&self) -> (r: bool) {
        true
    }
}

impl Request {
    pub fn call(
        &self,
        switchboard: &mut Switchboard,
        session: SessionId,
        recording: Option<Result<Recorder, String>>,
    ) -> (r: OperationResult)
        requires
            old(switchboard).wf(),
        ensures
            final(switchboard).wf(),
            create_outcome(old(switchboard)@, self.id@, session, recording, final(switchboard)@, r),
    {
        match recording {
            None => {
                switchboard.create_room(self.id.clone(), session);
                Ok(())
            },
            Some(Ok(recorder)) => {
                switchboard.create_room(self.id.clone(), session);
                switchboard.attach_recorder(session, recorder);
                Ok(())
            },
            Some(Err(detail)) => Err(
                ApiError { kind: ErrorKind::InternalError, detail, method: Some(MethodName::StreamCreate) },
            ),
        }
    }
}

} // verus!
