//! The closed set of operations, and the one function that runs them.

use vstd::prelude::*;

use crate::message_handler::operation::{MethodName, Operation, OperationResult};
use crate::message_handler::{signal_create, stream_create, stream_read, stream_upload};
use crate::message_handler::stream_create::create_outcome;
use crate::message_handler::stream_read::read_outcome;
use crate::switchboard::{Recorder, SessionId, Switchboard, SwitchboardView};

verus! {

/// An operation with its payload, as a signaling message names it by its
/// `method` field.
pub enum Method {
    StreamCreate(stream_create::Request),
    StreamRead(stream_read::Request),
    StreamUpload(stream_upload::Request),
    SignalCreate(signal_create::Request),
}

impl Method {
    pub open spec fn name_spec(&self) -> MethodName {
        match self {
            Method::StreamCreate(_) => MethodName::StreamCreate,
            Method::StreamRead(_) => MethodName::StreamRead,
            Method::StreamUpload(_) => MethodName::StreamUpload,
            Method::SignalCreate(_) => MethodName::SignalCreate,
        }
    }

    pub open spec fn handles_jsep_spec(&self) -> bool {
        match self {
            Method::StreamCreate(op) => op.handles_jsep(),
            Method::StreamRead(op) => op.handles_jsep(),
            Method::StreamUpload(op) => op.handles_jsep(),
            Method::SignalCreate(op) => op.handles_jsep(),
        }
    }

    /// What running the operation does to the switchboard and returns.
    pub open spec fn outcome(
        &self,
        before: SwitchboardView,
        session: SessionId,
        recording: Option<Result<Recorder, String>>,
        after: SwitchboardView,
        r: OperationResult,
    ) -> bool {
        match self {
            Method::StreamCreate(op) => create_outcome(before, op.id@, session, recording, after, r),
            Method::StreamRead(op) => read_outcome(before, op.id@, session, after, r),
            Method::StreamUpload(_) => r is Ok && after == before,
            Method::SignalCreate(op) => r is Ok && after == (SwitchboardView {
                agents: before.agents.insert(session, op.agent_id@),
                ..before
            }),
        }
    }

    pub fn name(&self) -> (r: MethodName)
        ensures
            r == self.name_spec(),
    {
        match self {
            Method::StreamCreate(_) => MethodName::StreamCreate,
            Method::StreamRead(_) => MethodName::StreamRead,
            Method::StreamUpload(_) => MethodName::StreamUpload,
            Method::SignalCreate(_) => MethodName::SignalCreate,
        }
    }

    /// Whether the operation needs an SDP offer to negotiate media.
    pub fn is_handle_jsep(&self) -> (r: bool)
        ensures
            r == self.handles_jsep_spec(),
    {
        match self {
            Method::StreamCreate(op) => op.is_handle_jsep(),
            Method::StreamRead(op) => op.is_handle_jsep(),
            Method::StreamUpload(op) => op.is_handle_jsep(),
            Method::SignalCreate(op) => op.is_handle_jsep(),
        }
    }

    /// Runs the operation on the switchboard for `session`. `recording` is
    /// how starting a recorder went, for `stream.create`: `None` when
    /// recording is disabled. The other operations ignore it.
    pub fn operation(
        &self,
        switchboard: &mut Switchboard,
        session: SessionId,
        recording: Option<Result<Recorder, String>>,
    ) -> (r: OperationResult)
        requires
            old(switchboard).wf(),
        ensures
            final(switchboard).wf(),
            self.outcome(old(switchboard)@, session, recording, final(switchboard)@, r),
    {
        match self {
            Method::StreamCreate(op) => op.call(switchboard, session, recording),
            Method::StreamRead(op) => op.call(switchboard, session),
            Method::StreamUpload(_) => Ok(()),
            Method::SignalCreate(op) => op.call(switchboard, session),
        }
    }
}

} // verus!
