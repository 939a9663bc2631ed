//! The set of logged-in source names.
use vstd::prelude::*;
pub use vstd::hash_set::StringHashSet;

verus! {

/// Registers a host session by storing its source name.
///
/// # Errors
/// Returns `Err` if the source name is already registered; the set is then
/// left as it was.
pub fn store_session(source: String, sessions: &mut StringHashSet) -> (r: Result<(), &'static str>)
    ensures
        final(sessions)@ == old(sessions)@.insert(source@),
        r is Ok <==> !old(sessions)@.contains(source@),
        r is Err ==> final(sessions)@ == old(sessions)@,
        r matches Err(m) ==> m@ == "Source name is already in use"@,
{
    let ghost before = sessions@;
    if !sessions.insert(source) {
        assert(before.insert(source@) =~= before);
        return Err("Source name is already in use");
    }
    Ok(())
}

} // verus!
