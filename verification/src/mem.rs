use vstd::prelude::*;

use crate::buffer::{concat_buffers, concat_of, seqs_of};
use crate::errors::PersistenceError;
use crate::partition::{partition_id, partition_name};
use crate::store::MemStore;

verus! {

/// A persistence adapter session backed by an in-memory [`MemStore`].
///
/// The adapter itself holds only the session state: the partition name
/// derived at `open` time and whether the session is open.  The store is
/// handed to each record operation, so several sessions can share one
/// store value, each confined to its own partition.
///
/// Record operations are defined only between `open` and `close`: outside
/// that window every fallible operation returns a persistence error and
/// `contains_key` answers `false`, and the store is left untouched.
pub struct MemPersistence {
    name: String,
    connected: bool,
}

impl MemPersistence {
    /// Whether a session is currently open.
    pub closed spec fn is_open(&self) -> bool {
        self.connected
    }

    /// The partition name records of this session are filed under.
    pub closed spec fn partition(&self) -> Seq<char> {
        self.name@
    }

    /// A fresh adapter: closed, with no partition name yet.
    pub fn new() -> (r: MemPersistence)
        ensures
            !r.is_open(),
            r.partition() == Seq::<char>::empty(),
    {
        MemPersistence { name: String::new(), connected: false }
    }

    /// Opens a session for `client_id` against `server_uri`: derives the
    /// partition name from the two.  Acquiring the in-memory store never
    /// fails, so `open` always succeeds.
    pub fn open(&mut self, client_id: &str, server_uri: &str) -> (r: Result<
        (),
        PersistenceError,
    >)
        ensures
            r is Ok,
            final(self).is_open(),
            final(self).partition() == partition_id(client_id@, server_uri@),
    {
        self.name = partition_name(client_id, server_uri);
        self.connected = true;
        Ok(())
    }

    /// Closes the session.  Safe to call when no session is open; always
    /// succeeds.  The adapter may be re-opened afterwards.
    pub fn close(&mut self) -> (r: Result<(), PersistenceError>)
        ensures
            r is Ok,
            !final(self).is_open(),
            final(self).partition() == old(self).partition(),
    {
        self.connected = false;
        Ok(())
    }

    /// Concatenates `buffers` in order into one byte value and files it in
    /// the session's partition under `key`, overwriting any previous value.
    pub fn put(&self, store: &mut MemStore, key: &str, buffers: Vec<&[u8]>) -> (r: Result<
        (),
        PersistenceError,
    >)
        requires
            old(store).wf(),
        ensures
            final(store).wf(),
            !self.is_open() ==> r is Err && *final(store) == *old(store),
            self.is_open() ==> r is Ok && final(store).fields_of(self.partition()) == old(
                store,
            ).fields_of(self.partition()).insert(key@, concat_of(seqs_of(buffers@))),
            forall|n: Seq<char>|
                n != self.partition() ==> #[trigger] final(store).fields_of(n) == old(
                    store,
                ).fields_of(n),
    {
        if !self.connected {
            return Err(PersistenceError);
        }
        let value = concat_buffers(&buffers);
        let _ = store.hset(self.name.as_str(), key, value);
        Ok(())
    }

    /// The byte value filed under `key` in the session's partition.
    /// Fails when no session is open or the key is absent: the two cases
    /// are indistinguishable to the caller by design.
    pub fn get(&self, store: &MemStore, key: &str) -> (r: Result<Vec<u8>, PersistenceError>)
        requires
            store.wf(),
        ensures
            r is Ok <==> self.is_open() && store.fields_of(self.partition()).contains_key(key@),
            r matches Ok(v) ==> v@ == store.fields_of(self.partition())[key@],
    {
        if !self.connected {
            return Err(PersistenceError);
        }
        match store.hget(self.name.as_str(), key) {
            Some(v) => Ok(v),
            None => Err(PersistenceError),
        }
    }

    /// Removes the record under `key` from the session's partition.
    /// Removing an absent key succeeds: the operation is an idempotent
    /// delete.  Fails only when no session is open.
    pub fn remove(&self, store: &mut MemStore, key: &str) -> (r: Result<(), PersistenceError>)
        requires
            old(store).wf(),
        ensures
            final(store).wf(),
            !self.is_open() ==> r is Err && *final(store) == *old(store),
            self.is_open() ==> r is Ok && final(store).fields_of(self.partition()) == old(
                store,
            ).fields_of(self.partition()).remove(key@),
            forall|n: Seq<char>|
                n != self.partition() ==> #[trigger] final(store).fields_of(n) == old(
                    store,
                ).fields_of(n),
    {
        if !self.connected {
            return Err(PersistenceError);
        }
        let _ = store.hdel(self.name.as_str(), key);
        Ok(())
    }

    /// The keys currently filed in the session's partition, in no promised
    /// order: every listed key is present, every present key is listed
    /// once.  An empty partition yields an empty list, not an error.
    pub fn keys(&self, store: &MemStore) -> (r: Result<Vec<String>, PersistenceError>)
        requires
            store.wf(),
        ensures
            r is Ok <==> self.is_open(),
            r is Ok ==> forall|t: int|
                0 <= t < r.unwrap()@.len() ==> store.fields_of(self.partition()).contains_key(
                    #[trigger] r.unwrap()@[t]@,
                ),
            r is Ok ==> forall|k: Seq<char>|
                #[trigger] store.fields_of(self.partition()).contains_key(k) ==> exists|t: int|
                    0 <= t < r.unwrap()@.len() && r.unwrap()@[t]@ == k,
            r is Ok ==> forall|t1: int, t2: int|
                #![trigger r.unwrap()@[t1], r.unwrap()@[t2]]
                0 <= t1 < t2 < r.unwrap()@.len() ==> r.unwrap()@[t1]@ != r.unwrap()@[t2]@,
    {
        if !self.connected {
            return Err(PersistenceError);
        }
        let ks = store.hkeys(self.name.as_str());
        let ghost kss = ks@;
        let r: Result<Vec<String>, PersistenceError> = Ok(ks);
        proof {
            assert(r.unwrap()@ == kss);
            assert forall|k: Seq<char>| #[trigger] store.fields_of(self.partition()).contains_key(
                k,
            ) implies exists|t: int| 0 <= t < r.unwrap()@.len() && r.unwrap()@[t]@ == k by {
                let t = choose|t: int| 0 <= t < kss.len() && kss[t]@ == k;
                assert(0 <= t < r.unwrap()@.len() && r.unwrap()@[t]@ == k);
            }
        }
        r
    }

    /// Drops every record of the session's partition in one step.  Succeeds
    /// whether or not the partition held anything.  Fails only when no
    /// session is open.
    pub fn clear(&self, store: &mut MemStore) -> (r: Result<(), PersistenceError>)
        requires
            old(store).wf(),
        ensures
            final(store).wf(),
            !self.is_open() ==> r is Err && *final(store) == *old(store),
            self.is_open() ==> r is Ok && final(store).fields_of(self.partition()) == Map::<
                Seq<char>,
                Seq<u8>,
            >::empty(),
            forall|n: Seq<char>|
                n != self.partition() ==> #[trigger] final(store).fields_of(n) == old(
                    store,
                ).fields_of(n),
    {
        if !self.connected {
            return Err(PersistenceError);
        }
        let _ = store.del(self.name.as_str());
        Ok(())
    }

    /// Whether the session's partition holds a record under `key`.  This
    /// operation has no error channel: with no open session the answer is
    /// `false`.
    pub fn contains_key(&self, store: &MemStore, key: &str) -> (r: bool)
        requires
            store.wf(),
        ensures
            r == (self.is_open() && store.fields_of(self.partition()).contains_key(key@)),
    {
        if !self.connected {
            return false;
        }
        store.hexists(self.name.as_str(), key)
    }
}

} // verus!
