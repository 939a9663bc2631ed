//! The fixed responses that the server sends.
use crate::response::{SpecResponse, XscpResponse};
use crate::wire::no_field_breaks;
use vstd::prelude::*;
use vstd::string::*;
use vstd::utf8::*;

verus! {

/// The response with status `status_code` and reason phrase `text`.
pub open spec fn spec_reply(status_code: u16, text: &str) -> SpecResponse {
    SpecResponse { status_code, reason_phrase: text.spec_bytes() }
}

/// `200|Login Successful`.
pub(crate) fn login_successful() -> (r: XscpResponse<'static>)
    ensures
        r@ == spec_reply(200, "Login Successful"),
{
    let t = "Login Successful";
    proof {
        reveal_strlit("Login Successful");
        is_ascii_chars_encode_utf8(t@);
        assert(no_field_breaks(t.spec_bytes()));
    }
    XscpResponse::new_valid(200, t)
}

/// `401|Invalid Credentials`.
pub(crate) fn invalid_credentials() -> (r: XscpResponse<'static>)
    ensures
        r@ == spec_reply(401, "Invalid Credentials"),
{
    let t = "Invalid Credentials";
    proof {
        reveal_strlit("Invalid Credentials");
        is_ascii_chars_encode_utf8(t@);
        assert(no_field_breaks(t.spec_bytes()));
    }
    XscpResponse::new_valid(401, t)
}

/// `402|Too Many Attempts`.
pub(crate) fn too_many_attempts() -> (r: XscpResponse<'static>)
    ensures
        r@ == spec_reply(402, "Too Many Attempts"),
{
    let t = "Too Many Attempts";
    proof {
        reveal_strlit("Too Many Attempts");
        is_ascii_chars_encode_utf8(t@);
        assert(no_field_breaks(t.spec_bytes()));
    }
    XscpResponse::new_valid(402, t)
}

/// `400|Invalid Request`.
pub(crate) fn invalid_request() -> (r: XscpResponse<'static>)
    ensures
        r@ == spec_reply(400, "Invalid Request"),
{
    let t = "Invalid Request";
    proof {
        reveal_strlit("Invalid Request");
        is_ascii_chars_encode_utf8(t@);
        assert(no_field_breaks(t.spec_bytes()));
    }
    XscpResponse::new_valid(400, t)
}

/// `400|BAD REQUEST`.
pub(crate) fn bad_request() -> (r: XscpResponse<'static>)
    ensures
        r@ == spec_reply(400, "BAD REQUEST"),
{
    let t = "BAD REQUEST";
    proof {
        reveal_strlit("BAD REQUEST");
        is_ascii_chars_encode_utf8(t@);
        assert(no_field_breaks(t.spec_bytes()));
    }
    XscpResponse::new_valid(400, t)
}

} // verus!
