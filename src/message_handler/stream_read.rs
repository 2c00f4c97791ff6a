//! `stream.read`: join the caller to a stream as a subscriber.

use vstd::prelude::*;

use crate::message_handler::operation::{ApiError, ErrorKind, MethodName, Operation, OperationResult, is_error};
use crate::switchboard::{SessionId, Switchboard, SwitchboardView, after_join_room};

verus! {

pub struct Request {
    pub id: String,
}

/// What `stream.read` on room `room` by `session` does: the session joins
/// the room's publisher, or the request fails as not found when the room has
/// none.
pub open spec fn read_outcome(
    before: SwitchboardView,
    room: Seq<char>,
    session: SessionId,
    after: SwitchboardView,
    r: OperationResult,
) -> bool {
    if before.publishers.contains_key(room) {
        r is Ok && after == after_join_room(before, room, session)
    } else {
        is_error(r, ErrorKind::NotFound, Some(MethodName::StreamRead), room) && after == before
    }
}

impl Operation for Request {
    open spec fn handles_jsep(&self) -> bool {
        true
    }

    fn is_handle_jsep(&self) -> (r: bool) {
        true
    }
}

impl Request {
    pub fn call(&self, switchboard: &mut Switchboard, session: SessionId) -> (r: OperationResult)
        requires
            old(switchboard).wf(),
        ensures
            final(switchboard).wf(),
            read_outcome(old(switchboard)@, self.id@, session, final(switchboard)@, r),
    {
        match switchboard.join_room(&self.id, session) {
            Ok(()) => Ok(()),
            Err(_) => Err(
                ApiError {
                    kind: ErrorKind::NotFound,
                    detail: self.id.clone(),
                    method: Some(MethodName::StreamRead),
                },
            ),
        }
    }
}

} // verus!
