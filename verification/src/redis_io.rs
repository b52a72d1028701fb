//! The trusted boundary to the `redis` crate.
//!
//! Everything the adapter needs from Redis passes through the declarations
//! and wrappers in this module.  Each wrapper issues one command on a live
//! connection; what the server replies depends on the server and the
//! network, so the contracts promise nothing about the replies beyond
//! their types.  The verified code around the wrappers decides what each
//! reply means (see [`crate::outcome`]).

use vstd::prelude::*;

verus! {

/// Declares `redis::Client`, the connection factory handle.
#[verifier::external_type_specification]
#[verifier::external_body]
pub struct ExClient(redis::Client);

/// Declares `redis::Connection`, a live connection to the server.
#[verifier::external_type_specification]
#[verifier::external_body]
pub struct ExConnection(redis::Connection);

/// Declares `redis::RedisError`, the error type of every command.
#[verifier::external_type_specification]
#[verifier::external_body]
pub struct ExRedisError(redis::RedisError);

/// Relies on `redis::Client::open`, which only checks the connection URL
/// and performs no I/O; a URL it cannot parse yields `None`.
#[verifier::external_body]
pub(crate) fn parse_local_client() -> (r: Option<redis::Client>) {
    redis::Client::open("redis://localhost/").ok()
}

/// Relies on `redis::Client::get_connection`, which connects to the server
/// the client was opened for; whether that succeeds depends on the server
/// being reachable.
#[verifier::external_body]
pub(crate) fn connect(client: &redis::Client) -> (r: Result<
    redis::Connection,
    redis::RedisError,
>) {
    client.get_connection()
}

/// Relies on `redis::Commands::hset`: issues HSET for one field of the
/// named hash and returns the server's reply (the count of fields added).
#[verifier::external_body]
pub(crate) fn hset(conn: &mut Option<redis::Connection>, name: &str, key: &str, value: &[u8]) -> (r:
    Result<usize, redis::RedisError>)
    requires
        (*old(conn)) is Some,
    ensures
        (*final(conn)) is Some,
{
    let c = conn.as_mut().unwrap();
    let r: Result<usize, redis::RedisError> = redis::Commands::hset(c, name, key, value);
    r
}

/// Relies on `redis::Commands::hget`: issues HGET for one field of the
/// named hash; an absent field comes back as `Ok(None)`.
#[verifier::external_body]
pub(crate) fn hget(conn: &mut Option<redis::Connection>, name: &str, key: &str) -> (r: Result<
    Option<Vec<u8>>,
    redis::RedisError,
>)
    requires
        (*old(conn)) is Some,
    ensures
        (*final(conn)) is Some,
{
    let c = conn.as_mut().unwrap();
    let r: Result<Option<Vec<u8>>, redis::RedisError> = redis::Commands::hget(c, name, key);
    r
}

/// Relies on `redis::Commands::hdel`: issues HDEL for one field of the
/// named hash and returns the server's reply (the count of fields removed,
/// zero when the field was absent).
#[verifier::external_body]
pub(crate) fn hdel(conn: &mut Option<redis::Connection>, name: &str, key: &str) -> (r: Result<
    usize,
    redis::RedisError,
>)
    requires
        (*old(conn)) is Some,
    ensures
        (*final(conn)) is Some,
{
    let c = conn.as_mut().unwrap();
    let r: Result<usize, redis::RedisError> = redis::Commands::hdel(c, name, key);
    r
}

/// Relies on `redis::Commands::hkeys`: issues HKEYS for the named hash and
/// returns the server's reply (the field names, in the server's order).
#[verifier::external_body]
pub(crate) fn hkeys(conn: &mut Option<redis::Connection>, name: &str) -> (r: Result<
    Vec<String>,
    redis::RedisError,
>)
    requires
        (*old(conn)) is Some,
    ensures
        (*final(conn)) is Some,
{
    let c = conn.as_mut().unwrap();
    let r: Result<Vec<String>, redis::RedisError> = redis::Commands::hkeys(c, name);
    r
}

/// Relies on `redis::Commands::hexists`: issues HEXISTS for one field of
/// the named hash.
#[verifier::external_body]
pub(crate) fn hexists(conn: &mut Option<redis::Connection>, name: &str, key: &str) -> (r: Result<
    bool,
    redis::RedisError,
>)
    requires
        (*old(conn)) is Some,
    ensures
        (*final(conn)) is Some,
{
    let c = conn.as_mut().unwrap();
    let r: Result<bool, redis::RedisError> = redis::Commands::hexists(c, name, key);
    r
}

/// Relies on `redis::Commands::del`: issues DEL for the named hash as a
/// whole and returns the server's reply (the count of keys removed, zero
/// when the hash was absent).
#[verifier::external_body]
pub(crate) fn del(conn: &mut Option<redis::Connection>, name: &str) -> (r: Result<
    usize,
    redis::RedisError,
>)
    requires
        (*old(conn)) is Some,
    ensures
        (*final(conn)) is Some,
{
    let c = conn.as_mut().unwrap();
    let r: Result<usize, redis::RedisError> = redis::Commands::del(c, name);
    r
}

} // verus!
