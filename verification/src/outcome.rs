//! What each store reply means to the caller.
//!
//! The store's replies arrive through the trusted wrappers of
//! [`crate::redis_io`]; the functions here pin down, for every possible
//! reply, the result the adapter hands on.  They carry the whole
//! error-mapping discipline: transport errors collapse into the single
//! persistence error, an absent key on `get` is indistinguishable from a
//! transport error, deletes are idempotent, and `contains` degrades every
//! failure to `false`.

use vstd::prelude::*;

use crate::errors::PersistenceError;

verus! {

/// The result of a write or delete: any acknowledged command counts as
/// success, whatever count the server reports — removing an absent key or
/// clearing an absent partition is still success.  Only a failed command
/// becomes a persistence error.
pub fn status_outcome(reply: Result<usize, redis::RedisError>) -> (r: Result<
    (),
    PersistenceError,
>)
    ensures
        r is Ok <==> reply is Ok,
{
    match reply {
        Ok(_) => Ok(()),
        Err(_) => Err(PersistenceError),
    }
}

/// The result of a read: only a reply that carries a value succeeds, and
/// the value is handed on unmodified.  An absent key and a failed command
/// both become the persistence error — the caller cannot tell them apart.
pub fn get_outcome(reply: Result<Option<Vec<u8>>, redis::RedisError>) -> (r: Result<
    Vec<u8>,
    PersistenceError,
>)
    ensures
        r is Ok <==> (reply matches Ok(Some(_))),
        reply matches Ok(Some(v)) ==> r == Ok::<Vec<u8>, PersistenceError>(v),
{
    match reply {
        Ok(Some(v)) => Ok(v),
        Ok(None) => Err(PersistenceError),
        Err(_) => Err(PersistenceError),
    }
}

/// The result of a key listing: an acknowledged reply is handed on
/// unmodified — an empty listing is success, not an error.
pub fn keys_outcome(reply: Result<Vec<String>, redis::RedisError>) -> (r: Result<
    Vec<String>,
    PersistenceError,
>)
    ensures
        r is Ok <==> reply is Ok,
        reply matches Ok(ks) ==> r == Ok::<Vec<String>, PersistenceError>(ks),
{
    match reply {
        Ok(ks) => Ok(ks),
        Err(_) => Err(PersistenceError),
    }
}

/// The result of an existence check: only an acknowledged `true` counts.
/// A failed command degrades to `false` — this operation has no error
/// channel.
pub fn exists_outcome(reply: Result<bool, redis::RedisError>) -> (r: bool)
    ensures
        r == (reply matches Ok(true)),
{
    match reply {
        Ok(b) => b,
        Err(_) => false,
    }
}

} // verus!
