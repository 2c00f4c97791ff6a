//! `signal.create`: record the participant identity of the caller.

use vstd::prelude::*;

use crate::message_handler::operation::{Operation, OperationResult};
use crate::switchboard::{SessionId, Switchboard, SwitchboardView};

verus! {

pub struct Request {
    pub agent_id: String,
}

impl Operation for Request {
    open spec fn handles_jsep(&self) -> bool {
        true
    }

    fn is_handle_jsep(&self) -> (r: bool) {
        true
    }
}

impl Request {
    pub fn call(&self, switchboard: &mut Switchboard, session: SessionId) -> (r: OperationResult)
        requires
            old(switchboard).wf(),
        ensures
            final(switchboard).wf(),
            r is Ok,
            final(switchboard)@ == (SwitchboardView {
                agents: old(switchboard)@.agents.insert(session, self.agent_id@),
                ..old(switchboard)@
            }),
    {
        switchboard.associate_agent(session, self.agent_id.clone());
        Ok(())
    }
}

} // verus!
