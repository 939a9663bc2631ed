//! Login decisions.
use super::storage::{store_session, StringHashSet};
use crate::replies::{invalid_credentials, login_successful, spec_reply, too_many_attempts};
use crate::response::{SpecResponse, XscpResponse};
use vstd::prelude::*;

verus! {

/// Number of failed attempts after which a login is refused outright.
pub const MAX_AUTH_ATTEMPTS: u8 = 2;

/// The reply to a login as `name` after `attempts` failed attempts.
pub open spec fn spec_auth_reply(name: Seq<char>, attempts: u8, sessions: Set<Seq<char>>) -> SpecResponse {
    if attempts >= MAX_AUTH_ATTEMPTS {
        spec_reply(402, "Too Many Attempts")
    } else if !sessions.contains(name) {
        spec_reply(200, "Login Successful")
    } else {
        spec_reply(401, "Invalid Credentials")
    }
}

/// The session set after a login as `name` after `attempts` failed attempts.
pub open spec fn spec_auth_sessions(name: Seq<char>, attempts: u8, sessions: Set<Seq<char>>) -> Set<Seq<char>> {
    if attempts >= MAX_AUTH_ATTEMPTS {
        sessions
    } else {
        sessions.insert(name)
    }
}

/// Handles a login as `source` by a peer that already failed `auth_attempts`
/// times: `402 Too Many Attempts` from the second failure on, else `200` when
/// the name was free (and is now registered), else `401 Invalid Credentials`.
pub fn auth(source: String, auth_attempts: u8, sessions: &mut StringHashSet) -> (r: XscpResponse<'static>)
    ensures
        r@ == spec_auth_reply(source@, auth_attempts, old(sessions)@),
        final(sessions)@ == spec_auth_sessions(source@, auth_attempts, old(sessions)@),
{
    if auth_attempts >= MAX_AUTH_ATTEMPTS {
        return too_many_attempts();
    }
    match store_session(source, sessions) {
        Ok(_) => login_successful(),
        Err(_) => invalid_credentials(),
    }
}

} // verus!
