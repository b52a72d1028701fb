use vstd::prelude::*;

verus! {

/// The single error kind surfaced by every fallible persistence operation.
///
/// Connection failures, store-side failures and (for `get`) a missing key
/// are all collapsed into this one kind: the persistence contract exposed
/// to the owning client has no richer error channel.
#[derive(Clone, Copy, Debug, PartialEq, Eq, Structural)]
pub struct PersistenceError;

impl PersistenceError {
    /// A short human-readable description of the error.
    pub fn message(&self) -> (r: &'static str)
        ensures
            r@ == "persistence error"@,
    {
        "persistence error"
    }
}

} // verus!
