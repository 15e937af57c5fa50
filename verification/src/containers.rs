//! Which workspace holds a directory.

use vstd::prelude::*;

verus! {

/// What looking up a directory came to.
#[derive(Debug, Clone, Copy, PartialEq, Eq, Structural)]
pub enum ContainerLookup {
    /// The workspace that holds it.
    Found { workspace_id: u128 },
    /// No workspace holds it.
    Outside,
    /// The database could not be asked.
    Failed,
}

/// What the look-up of a directory came to.
pub fn container_lookup(found: Result<Option<u128>, ()>) -> (l: ContainerLookup)
    ensures
        l == match found {
            Ok(Some(id)) => ContainerLookup::Found { workspace_id: id },
            Ok(None) => ContainerLookup::Outside,
            Err(_) => ContainerLookup::Failed,
        },
{
    match found {
        Ok(Some(id)) => ContainerLookup::Found { workspace_id: id },
        Ok(None) => ContainerLookup::Outside,
        Err(_) => ContainerLookup::Failed,
    }
}

/// The HTTP status of the answer. A directory that no workspace holds is a
/// miss, not a fault of the server.
pub fn lookup_status(lookup: ContainerLookup) -> (status: u16)
    ensures
        status == match lookup {
            ContainerLookup::Found { .. } => 200u16,
            ContainerLookup::Outside => 404u16,
            ContainerLookup::Failed => 500u16,
        },
{
    match lookup {
        ContainerLookup::Found { .. } => 200,
        ContainerLookup::Outside => 404,
        ContainerLookup::Failed => 500,
    }
}

} // verus!
