use vstd::prelude::*;
use crate::registry::{RegistryViolation, ResolverHandle, ResolverRegistry};

verus! {

/// Relies on `uuid::Uuid::new_v4` and its `Display` form: a freshly drawn
/// random version-4 identifier, rendered in the hyphenated form, which is
/// always 36 characters long. The value is random, so nothing more — in
/// particular no uniqueness — can be promised of it; collisions are caught
/// by the registry insert instead.
#[verifier::external_body]
fn fresh_identifier() -> (r: String)
    ensures
        r@.len() == 36,
{
    uuid::Uuid::new_v4().to_string()
}

/// Host side of one invocation of the native bridge function: mint a fresh
/// identifier and track the invocation's resolver under it. On success the
/// registry has grown by exactly the one new entry and the minted identifier
/// is returned. Failure is owed only to a collision of the random mint with
/// an identifier that is already tracked — so it can happen at all only when
/// the registry already tracks some 36-character identifier, and never, for
/// example, on an empty registry — and it is reported loudly, leaving the
/// registry untouched: a tracked resolver is never overwritten.
pub fn register_pending_operation(
    reg: &mut ResolverRegistry,
    resolver: ResolverHandle,
) -> (r: Result<String, RegistryViolation>)
    requires
        old(reg).wf(),
    ensures
        final(reg).wf(),
        match r {
            Ok(id) => {
                &&& id@.len() == 36
                &&& !old(reg)@.contains_key(id@)
                &&& final(reg)@ == old(reg)@.insert(id@, resolver)
                &&& final(reg).order() == old(reg).order().push(id@)
                &&& final(reg)@.len() == old(reg)@.len() + 1
            },
            Err(_) => {
                &&& final(reg)@ == old(reg)@
                &&& final(reg).order() == old(reg).order()
                &&& exists|s: Seq<char>| s.len() == 36 && #[trigger] old(reg)@.contains_key(s)
            },
        },
{
    let id = fresh_identifier();
    match reg.insert(id.clone(), resolver) {
        Ok(()) => Ok(id),
        Err(violation) => {
            proof {
                assert(old(reg)@.contains_key(id@));
            }
            Err(violation)
        },
    }
}

} // verus!
