//! `stream.upload`: ask for the recordings of a stream to be archived. The
//! archiving itself happens outside the topology; the request changes no
//! switchboard state.

use vstd::prelude::*;

use crate::message_handler::operation::Operation;

verus! {

pub struct Request {
    pub id: String,
}

impl Operation for Request {
    open spec fn handles_jsep(&self) -> bool {
        false
    }

    fn is_handle_jsep(&self) -> (r: bool) {
        false
    }
}

} // verus!
