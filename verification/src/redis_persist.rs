use vstd::prelude::*;

use crate::buffer::concat_buffers;
use crate::errors::PersistenceError;
use crate::outcome::{exists_outcome, get_outcome, keys_outcome, status_outcome};
use crate::partition::{partition_id, partition_name};
use crate::redis_io;

verus! {

/// A persistence adapter session backed by a hash on a local Redis server.
///
/// One instance maps to a single hash: the partition name derived at
/// `open` time is the hash name, record keys are its fields, and record
/// values are the field values.  The connection is held only between
/// `open` and `close`; with no live connection every fallible operation
/// returns a persistence error and `contains_key` answers `false`, and no
/// command is sent.
///
/// What the server replies to a command depends on the server, so the
/// contracts here pin down the session state and the gating; what each
/// possible reply turns into is pinned down by [`crate::outcome`].
pub struct RedisPersistence {
    /// The name of the hash holding this session's records, derived from
    /// the client identifier and the server address at `open` time.
    name: String,
    /// The connection factory, bound to the server on localhost.
    client: Option<redis::Client>,
    /// The live connection, present only between `open` and `close`.
    conn: Option<redis::Connection>,
}

impl RedisPersistence {
    /// Whether a live connection is held.
    pub closed spec fn is_open(&self) -> bool {
        self.conn is Some
    }

    /// The partition name records of this session are filed under.
    pub closed spec fn partition(&self) -> Seq<char> {
        self.name@
    }

    /// Creates an adapter bound to the Redis server on localhost: closed,
    /// with no partition name yet.
    pub fn new() -> (r: RedisPersistence)
        ensures
            !r.is_open(),
            r.partition() == Seq::<char>::empty(),
    {
        RedisPersistence { name: String::new(), client: redis_io::parse_local_client(), conn: None }
    }

    /// Opens a session for `client_id` against `server_uri`: derives the
    /// partition name from the two, then attempts a connection.  Succeeds
    /// exactly when a live connection results; on failure the adapter is
    /// left without one.
    pub fn open(&mut self, client_id: &str, server_uri: &str) -> (r: Result<
        (),
        PersistenceError,
    >)
        ensures
            final(self).partition() == partition_id(client_id@, server_uri@),
            r is Ok <==> final(self).is_open(),
    {
        self.name = partition_name(client_id, server_uri);
        self.conn = None;
        match &self.client {
            Some(c) => match redis_io::connect(c) {
                Ok(conn) => {
                    self.conn = Some(conn);
                    Ok(())
                },
                Err(_) => Err(PersistenceError),
            },
            None => Err(PersistenceError),
        }
    }

    /// Closes the session, dropping the held connection, if any.  Safe to
    /// call when no session is open; always succeeds.  The adapter may be
    /// re-opened afterwards.
    pub fn close(&mut self) -> (r: Result<(), PersistenceError>)
        ensures
            r is Ok,
            !final(self).is_open(),
            final(self).partition() == old(self).partition(),
    {
        self.conn = None;
        Ok(())
    }

    /// Concatenates `buffers` in order into one byte value and files it in
    /// the session's hash under `key`, overwriting any previous value.
    /// Fails when no session is open or the command fails.
    pub fn put(&mut self, key: &str, buffers: Vec<&[u8]>) -> (r: Result<(), PersistenceError>)
        ensures
            final(self).partition() == old(self).partition(),
            final(self).is_open() == old(self).is_open(),
            !old(self).is_open() ==> r is Err && *final(self) == *old(self),
    {
        if self.conn.is_some() {
            let value = concat_buffers(&buffers);
            let name = self.name.clone();
            let reply = redis_io::hset(&mut self.conn, name.as_str(), key, value.as_slice());
            status_outcome(reply)
        } else {
            Err(PersistenceError)
        }
    }

    /// The byte value filed under `key` in the session's hash, unmodified.
    /// Fails when no session is open, the key is absent, or the command
    /// fails; the last two are indistinguishable to the caller by design.
    pub fn get(&mut self, key: &str) -> (r: Result<Vec<u8>, PersistenceError>)
        ensures
            final(self).partition() == old(self).partition(),
            final(self).is_open() == old(self).is_open(),
            !old(self).is_open() ==> r is Err && *final(self) == *old(self),
    {
        if self.conn.is_some() {
            let name = self.name.clone();
            let reply = redis_io::hget(&mut self.conn, name.as_str(), key);
            get_outcome(reply)
        } else {
            Err(PersistenceError)
        }
    }

    /// Removes the record under `key` from the session's hash.  Removing
    /// an absent key succeeds: the operation is an idempotent delete.
    /// Fails when no session is open or the command fails.
    pub fn remove(&mut self, key: &str) -> (r: Result<(), PersistenceError>)
        ensures
            final(self).partition() == old(self).partition(),
            final(self).is_open() == old(self).is_open(),
            !old(self).is_open() ==> r is Err && *final(self) == *old(self),
    {
        if self.conn.is_some() {
            let name = self.name.clone();
            let reply = redis_io::hdel(&mut self.conn, name.as_str(), key);
            status_outcome(reply)
        } else {
            Err(PersistenceError)
        }
    }

    /// The keys currently filed in the session's hash, in whatever order
    /// the server yields them.  An empty partition yields an empty list,
    /// not an error.  Fails when no session is open or the command fails.
    pub fn keys(&mut self) -> (r: Result<Vec<String>, PersistenceError>)
        ensures
            final(self).partition() == old(self).partition(),
            final(self).is_open() == old(self).is_open(),
            !old(self).is_open() ==> r is Err && *final(self) == *old(self),
    {
        if self.conn.is_some() {
            let name = self.name.clone();
            let reply = redis_io::hkeys(&mut self.conn, name.as_str());
            keys_outcome(reply)
        } else {
            Err(PersistenceError)
        }
    }

    /// Drops the session's hash whole, in one command.  Succeeds whether
    /// or not the hash existed.  Fails when no session is open or the
    /// command fails.
    pub fn clear(&mut self) -> (r: Result<(), PersistenceError>)
        ensures
            final(self).partition() == old(self).partition(),
            final(self).is_open() == old(self).is_open(),
            !old(self).is_open() ==> r is Err && *final(self) == *old(self),
    {
        if self.conn.is_some() {
            let name = self.name.clone();
            let reply = redis_io::del(&mut self.conn, name.as_str());
            status_outcome(reply)
        } else {
            Err(PersistenceError)
        }
    }

    /// Whether the session's hash holds a record under `key`.  This
    /// operation has no error channel: with no open session, or when the
    /// command fails, the answer is `false`.
    pub fn contains_key(&mut self, key: &str) -> (r: bool)
        ensures
            final(self).partition() == old(self).partition(),
            final(self).is_open() == old(self).is_open(),
            !old(self).is_open() ==> r == false && *final(self) == *old(self),
    {
        if self.conn.is_some() {
            let name = self.name.clone();
            let reply = redis_io::hexists(&mut self.conn, name.as_str(), key);
            exists_outcome(reply)
        } else {
            false
        }
    }
}

impl Default for RedisPersistence {
    /// Same as [`RedisPersistence::new`]: bound to the Redis server on
    /// localhost, with no session open.
    fn default() -> (r: Self)
        ensures
            !r.is_open(),
            r.partition() == Seq::<char>::empty(),
    {
        RedisPersistence::new()
    }
}

} // verus!
