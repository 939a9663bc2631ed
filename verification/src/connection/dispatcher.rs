//! Request dispatch of an established session.
use crate::replies::{bad_request, spec_reply};
use crate::request::{OpCode, XscpRequest};
use crate::response::XscpResponse;
use vstd::prelude::*;

verus! {

/// Answers a request for which no handler exists: a `LOGN` gets
/// `400 BAD REQUEST`. `SEND` and `EXIT` have no handler here.
pub fn dispatch(req: XscpRequest<'_>) -> (r: XscpResponse<'static>)
    requires
        req@.opcode == OpCode::Login,
    ensures
        r@ == spec_reply(400, "BAD REQUEST"),
{
    bad_request()
}

} // verus!
