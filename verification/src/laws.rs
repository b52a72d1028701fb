//! The general guarantees of the persistence contract, stated once and
//! proved, over the same spec-level values the operation contracts use: a
//! partition is a `Map<Seq<char>, Seq<u8>>` (see
//! [`MemStore::fields_of`](crate::store::MemStore::fields_of)), `put`
//! inserts the concatenation of its buffers, `remove` removes, `clear`
//! leaves the empty map.

use vstd::prelude::*;

use crate::buffer::concat_of;
use crate::partition::{lemma_distinct_clients_distinct_partitions, partition_id};
use crate::store::MemStore;

verus! {

/// Law: after `put(key, buffers)`, the partition holds under `key` exactly
/// the in-order concatenation of the buffers — which is what `get(key)`
/// then returns, byte for byte.
pub proof fn lemma_put_then_get(
    part: Map<Seq<char>, Seq<u8>>,
    key: Seq<char>,
    buffers: Seq<Seq<u8>>,
)
    ensures
        part.insert(key, concat_of(buffers)).contains_key(key),
        part.insert(key, concat_of(buffers))[key] == concat_of(buffers),
{
}

/// Law: a second `put` under the same key overwrites the first — `get`
/// afterwards returns the second value.
pub proof fn lemma_put_overwrites(
    part: Map<Seq<char>, Seq<u8>>,
    key: Seq<char>,
    v1: Seq<u8>,
    v2: Seq<u8>,
)
    ensures
        part.insert(key, v1).insert(key, v2).contains_key(key),
        part.insert(key, v1).insert(key, v2)[key] == v2,
{
    assert(part.insert(key, v1).insert(key, v2) =~= part.insert(key, v2));
}

/// Law: `remove(key)` leaves the partition without `key` — `contains(key)`
/// afterwards answers `false` — and removing an absent key changes
/// nothing, which is why it is reported as success.
pub proof fn lemma_remove_is_idempotent_delete(part: Map<Seq<char>, Seq<u8>>, key: Seq<char>)
    ensures
        !part.remove(key).contains_key(key),
        !part.contains_key(key) ==> part.remove(key) == part,
{
    if !part.contains_key(key) {
        assert(part.remove(key) =~= part);
    }
}

/// Law: after `clear()` the partition is the empty map — so `keys()`
/// afterwards yields the empty sequence — whatever the partition held
/// before: `clear`'s contract leaves `Map::empty()` for every prior
/// state, and the empty map holds no key.
pub proof fn lemma_clear_leaves_no_keys(key: Seq<char>)
    ensures
        !Map::<Seq<char>, Seq<u8>>::empty().contains_key(key),
{
}

/// Law: sessions of two clients with different identifiers, sharing one
/// store against the same server address, cannot observe each other.  Any
/// record operation of the first session changes at most its own
/// partition (the frame clause every mutating operation ensures); the
/// second client's partition — records and keys alike — is left exactly
/// as it was.
pub proof fn lemma_session_isolation(
    pre: MemStore,
    post: MemStore,
    c1: Seq<char>,
    c2: Seq<char>,
    uri: Seq<char>,
)
    requires
        c1 != c2,
        forall|n: Seq<char>|
            n != partition_id(c1, uri) ==> #[trigger] post.fields_of(n) == pre.fields_of(n),
    ensures
        post.fields_of(partition_id(c2, uri)) == pre.fields_of(partition_id(c2, uri)),
{
    lemma_distinct_clients_distinct_partitions(c1, c2, uri);
}

} // verus!
