//! Session registration keyed by a login request.
use crate::request::XscpRequest;
use vstd::prelude::*;
use vstd::hash_set::StringHashSet;
use vstd::utf8::decode_utf8;

verus! {

/// Registers a host session by storing the source name of `request`.
///
/// # Errors
/// Returns `Err` if the source name is already registered; the set is then
/// left as it was.
pub fn store_session(request: &XscpRequest, sessions: &mut StringHashSet) -> (r: Result<(), &'static str>)
    ensures
        final(sessions)@ == old(sessions)@.insert(decode_utf8(request@.source)),
        r is Ok <==> !old(sessions)@.contains(decode_utf8(request@.source)),
        r is Err ==> final(sessions)@ == old(sessions)@,
        r matches Err(m) ==> m@ == "Source name is already in use."@,
{
    let name = request.source().to_owned();
    proof {
        vstd::utf8::encode_utf8_decode_utf8(name@);
    }
    let ghost before = sessions@;
    if !sessions.insert(name) {
        assert(before.insert(name@) =~= before);
        return Err("Source name is already in use.");
    }
    Ok(())
}

} // verus!
