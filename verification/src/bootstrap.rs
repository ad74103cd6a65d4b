//! The bootstrap decisions: how the gateway's identity is resolved before
//! any adapter starts listening.  Reading the alias file, generating a fresh
//! human-readable alias and starting the managed node are external
//! collaborators; their results come in as plain values.

use vstd::prelude::*;

use crate::dispatch::CommandProcessor;

verus! {

/// Resolves the alias: a stored alias is kept as it is, otherwise the
/// freshly generated one is adopted and must be persisted (the returned
/// flag).  Exactly one of the two sources is used, never a mixture.
pub fn resolve_alias(stored: Option<String>, generated: String) -> (r: (String, bool))
    ensures
        (match stored {
            Some(a) => r.0@ == a@ && r.1 == false,
            None => r.0@ == generated@ && r.1 == true,
        }),
{
    match stored {
        Some(a) => (a, false),
        None => (generated, true),
    }
}

/// Builds the one shared processor every adapter operates on, from the
/// resolved identity.  No adapter may observe a partially initialized state:
/// both identity fields are set here, before any listener exists, and the
/// dispatcher never changes them.
pub fn init_gateway(alias: String, node_id: String) -> (r: CommandProcessor)
    ensures
        r@.alias == alias@,
        r@.node_id == node_id@,
        r@.status == Seq::<char>::empty(),
{
    CommandProcessor::with_identity(alias, node_id)
}

} // verus!
