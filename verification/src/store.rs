use vstd::prelude::*;

verus! {

/// One record inside a partition: a caller-assigned key and its byte value.
struct FieldEntry {
    key: String,
    value: Vec<u8>,
}

/// One partition: a named group of records.
struct HashEntry {
    name: String,
    fields: Vec<FieldEntry>,
}

/// The record keys of a partition, in storage order.
spec fn field_keys(s: Seq<FieldEntry>) -> Seq<Seq<char>> {
    s.map_values(|f: FieldEntry| f.key@)
}

/// No two records of one partition carry the same key.
spec fn fields_wf(s: Seq<FieldEntry>) -> bool {
    forall|i: int, j: int|
        #![trigger s[i], s[j]]
        0 <= i < j < s.len() ==> s[i].key@ != s[j].key@
}

/// The key/value map held by a partition's record list.
spec fn fields_map(s: Seq<FieldEntry>) -> Map<Seq<char>, Seq<u8>>
    decreases s.len(),
{
    if s.len() == 0 {
        Map::empty()
    } else {
        fields_map(s.drop_last()).insert(s.last().key@, s.last().value@)
    }
}

/// A key is in the map exactly when some record carries it.
proof fn lemma_fields_map_dom(s: Seq<FieldEntry>)
    ensures
        forall|k: Seq<char>|
            #[trigger] fields_map(s).contains_key(k) <==> (exists|i: int|
                0 <= i < s.len() && s[i].key@ == k),
    decreases s.len(),
{
    if s.len() > 0 {
        lemma_fields_map_dom(s.drop_last());
        assert forall|k: Seq<char>| #[trigger]
            fields_map(s).contains_key(k) implies (exists|i: int|
            0 <= i < s.len() && s[i].key@ == k) by {
            if k == s.last().key@ {
                assert(s[s.len() - 1].key@ == k);
            } else {
                assert(fields_map(s.drop_last()).contains_key(k));
                let i = choose|i: int| 0 <= i < s.drop_last().len() && s.drop_last()[i].key@ == k;
                assert(s.drop_last()[i] == s[i]);
                assert(s[i].key@ == k);
            }
        }
        assert forall|k: Seq<char>| (exists|i: int|
            0 <= i < s.len() && s[i].key@ == k) implies #[trigger] fields_map(s).contains_key(
            k,
        ) by {
            let i = choose|i: int| 0 <= i < s.len() && s[i].key@ == k;
            if i < s.len() - 1 {
                assert(s.drop_last()[i].key@ == k);
                assert(fields_map(s.drop_last()).contains_key(k));
            } else {
                assert(k == s.last().key@);
            }
        }
    }
}

/// A record's key looks up that record's value.
proof fn lemma_fields_map_get(s: Seq<FieldEntry>, i: int)
    requires
        fields_wf(s),
        0 <= i < s.len(),
    ensures
        fields_map(s).contains_key(s[i].key@),
        fields_map(s)[s[i].key@] == s[i].value@,
    decreases s.len(),
{
    if i < s.len() - 1 {
        lemma_fields_map_get(s.drop_last(), i);
        assert(s.drop_last()[i] == s[i]);
    }
}

/// Replacing the value of the record at `j` updates just that key.
proof fn lemma_fields_map_update(s: Seq<FieldEntry>, j: int, e: FieldEntry)
    requires
        fields_wf(s),
        0 <= j < s.len(),
        e.key@ == s[j].key@,
    ensures
        fields_map(s.update(j, e)) == fields_map(s).insert(e.key@, e.value@),
        fields_wf(s.update(j, e)),
    decreases s.len(),
{
    let s2 = s.update(j, e);
    if j == s.len() - 1 {
        assert(s2.drop_last() =~= s.drop_last());
        assert(s2.last() == e);
        assert(fields_map(s2) =~= fields_map(s).insert(e.key@, e.value@));
    } else {
        assert(s2.drop_last() =~= s.drop_last().update(j, e));
        assert(s.drop_last()[j] == s[j]);
        lemma_fields_map_update(s.drop_last(), j, e);
        assert(s2.last() == s.last());
        assert(e.key@ != s.last().key@);
        assert(fields_map(s2) =~= fields_map(s).insert(e.key@, e.value@));
    }
}

/// Appending a record with a fresh key inserts just that key.
proof fn lemma_fields_map_push(s: Seq<FieldEntry>, e: FieldEntry)
    requires
        fields_wf(s),
        forall|i: int| 0 <= i < s.len() ==> s[i].key@ != e.key@,
    ensures
        fields_map(s.push(e)) == fields_map(s).insert(e.key@, e.value@),
        fields_wf(s.push(e)),
{
    assert(s.push(e).drop_last() =~= s);
    assert(s.push(e).last() == e);
    assert forall|i: int, j: int| #![trigger s.push(e)[i], s.push(e)[j]]
        0 <= i < j < s.push(e).len() implies s.push(e)[i].key@ != s.push(e)[j].key@ by {
        if j < s.len() {
            assert(s.push(e)[i] == s[i]);
            assert(s.push(e)[j] == s[j]);
        } else {
            assert(s.push(e)[i] == s[i]);
            assert(s.push(e)[j] == e);
        }
    }
}

/// Removing the record at `j` removes just that key.
proof fn lemma_fields_map_remove(s: Seq<FieldEntry>, j: int)
    requires
        fields_wf(s),
        0 <= j < s.len(),
    ensures
        fields_map(s.remove(j)) == fields_map(s).remove(s[j].key@),
        fields_wf(s.remove(j)),
    decreases s.len(),
{
    let s2 = s.remove(j);
    assert forall|i: int, t: int| #![trigger s2[i], s2[t]]
        0 <= i < t < s2.len() implies s2[i].key@ != s2[t].key@ by {
        let i0 = if i < j { i } else { i + 1 };
        let t0 = if t < j { t } else { t + 1 };
        assert(s2[i] == s[i0]);
        assert(s2[t] == s[t0]);
    }
    if j == s.len() - 1 {
        assert(s2 =~= s.drop_last());
        lemma_fields_map_dom(s.drop_last());
        assert(!fields_map(s.drop_last()).contains_key(s[j].key@));
        assert(fields_map(s2) =~= fields_map(s).remove(s[j].key@));
    } else {
        assert(s2.drop_last() =~= s.drop_last().remove(j));
        assert(s.drop_last()[j] == s[j]);
        lemma_fields_map_remove(s.drop_last(), j);
        assert(s2.last() == s.last());
        assert(s[j].key@ != s.last().key@);
        assert(fields_map(s2) =~= fields_map(s).remove(s[j].key@));
    }
}

/// Mutable access to one element of a vector.
fn elem_mut<T>(v: &mut Vec<T>, i: usize) -> (r: &mut T)
    requires
        i < old(v).len(),
    ensures
        *r == old(v)@[i as int],
        final(v)@ == old(v)@.update(i as int, *final(r)),
{
    &mut v[i]
}

/// A copy of a byte value.
fn clone_bytes(v: &Vec<u8>) -> (r: Vec<u8>)
    ensures
        r@ == v@,
{
    let r = v.clone();
    proof {
        assert forall|i: int| 0 <= i < v@.len() implies r@[i] == v@[i] by {
            assert(cloned::<u8>(v@[i], r@[i]));
        }
        assert(r@ =~= v@);
    }
    r
}

/// The position of the record carrying `key`, if any.
fn find_field(fields: &Vec<FieldEntry>, key: &str) -> (r: Option<usize>)
    ensures
        match r {
            Some(j) => j < fields@.len() && fields@[j as int].key@ == key@,
            None => forall|t: int| 0 <= t < fields@.len() ==> fields@[t].key@ != key@,
        },
{
    let key_o: String = key.to_owned();
    let mut j: usize = 0;
    while j < fields.len()
        invariant
            j <= fields.len(),
            key_o@ == key@,
            forall|t: int| 0 <= t < j ==> fields@[t].key@ != key@,
        decreases fields.len() - j,
    {
        if fields[j].key == key_o {
            return Some(j);
        }
        j = j + 1;
    }
    None
}

impl HashEntry {
    /// Files `value` under `key`, overwriting any previous value.
    fn set_field(&mut self, key: &str, value: Vec<u8>) -> (added: bool)
        requires
            fields_wf(old(self).fields@),
        ensures
            final(self).name == old(self).name,
            fields_wf(final(self).fields@),
            fields_map(final(self).fields@) == fields_map(old(self).fields@).insert(key@, value@),
            added == !fields_map(old(self).fields@).contains_key(key@),
    {
        proof {
            lemma_fields_map_dom(self.fields@);
        }
        match find_field(&self.fields, key) {
            Some(j) => {
                let ghost pre = self.fields@;
                let e = elem_mut(&mut self.fields, j);
                e.value = value;
                proof {
                    lemma_fields_map_update(pre, j as int, final(self).fields@[j as int]);
                }
                false
            },
            None => {
                let ghost pre = self.fields@;
                self.fields.push(FieldEntry { key: key.to_owned(), value });
                proof {
                    lemma_fields_map_push(pre, final(self).fields@.last());
                    assert(final(self).fields@.drop_last() =~= pre);
                }
                true
            },
        }
    }

    /// Removes the record carrying `key`, if present.
    fn del_field(&mut self, key: &str) -> (removed: bool)
        requires
            fields_wf(old(self).fields@),
        ensures
            final(self).name == old(self).name,
            fields_wf(final(self).fields@),
            fields_map(final(self).fields@) == fields_map(old(self).fields@).remove(key@),
            removed == fields_map(old(self).fields@).contains_key(key@),
    {
        proof {
            lemma_fields_map_dom(self.fields@);
        }
        match find_field(&self.fields, key) {
            Some(j) => {
                let ghost pre = self.fields@;
                proof {
                    lemma_fields_map_remove(pre, j as int);
                }
                let _ = self.fields.remove(j);
                true
            },
            None => {
                proof {
                    assert(fields_map(self.fields@) =~= fields_map(self.fields@).remove(key@));
                }
                false
            },
        }
    }

    /// The value filed under `key`, if present.
    fn get_field(&self, key: &str) -> (r: Option<Vec<u8>>)
        requires
            fields_wf(self.fields@),
        ensures
            match r {
                Some(v) => fields_map(self.fields@).contains_key(key@) && v@ == fields_map(
                    self.fields@,
                )[key@],
                None => !fields_map(self.fields@).contains_key(key@),
            },
    {
        proof {
            lemma_fields_map_dom(self.fields@);
        }
        match find_field(&self.fields, key) {
            Some(j) => {
                proof {
                    lemma_fields_map_get(self.fields@, j as int);
                }
                Some(clone_bytes(&self.fields[j].value))
            },
            None => None,
        }
    }

    /// The keys of all records, in storage order.
    fn key_list(&self) -> (r: Vec<String>)
        requires
            fields_wf(self.fields@),
        ensures
            r@.len() == self.fields@.len(),
            forall|t: int| 0 <= t < r@.len() ==> r@[t]@ == self.fields@[t].key@,
    {
        let mut r: Vec<String> = Vec::new();
        let mut t: usize = 0;
        while t < self.fields.len()
            invariant
                t <= self.fields.len(),
                r@.len() == t,
                forall|u: int| 0 <= u < t ==> r@[u]@ == self.fields@[u].key@,
            decreases self.fields.len() - t,
        {
            r.push(self.fields[t].key.clone());
            t = t + 1;
        }
        r
    }
}

/// An in-memory hash-oriented store: named partitions of key/value
/// records, with the same command surface the adapter needs from any
/// backing store (set, get, delete and list fields; drop a partition).
///
/// One store value plays the role of the shared server: several adapter
/// sessions may read and write it, each under its own partition name.
pub struct MemStore {
    hashes: Vec<HashEntry>,
}

impl MemStore {
    /// Partition names are unique and every partition is well-formed.
    pub closed spec fn wf(&self) -> bool {
        &&& forall|i: int, j: int|
            #![trigger self.hashes@[i], self.hashes@[j]]
            0 <= i < j < self.hashes@.len() ==> self.hashes@[i].name@ != self.hashes@[j].name@
        &&& forall|i: int|
            0 <= i < self.hashes@.len() ==> fields_wf(#[trigger] self.hashes@[i].fields@)
    }

    /// Whether a partition named `name` is present.
    closed spec fn has_hash(&self, name: Seq<char>) -> bool {
        exists|i: int| 0 <= i < self.hashes@.len() && self.hashes@[i].name@ == name
    }

    /// The position of the partition named `name`.
    closed spec fn hash_at(&self, name: Seq<char>) -> int {
        choose|i: int| 0 <= i < self.hashes@.len() && self.hashes@[i].name@ == name
    }

    /// The key/value records held under partition `name`; an absent
    /// partition holds no records.
    pub closed spec fn fields_of(&self, name: Seq<char>) -> Map<Seq<char>, Seq<u8>> {
        if self.has_hash(name) {
            fields_map(self.hashes@[self.hash_at(name)].fields@)
        } else {
            Map::empty()
        }
    }

    /// With unique names, the partition at `i` is the one its name finds.
    proof fn lemma_at(self, i: int)
        requires
            self.wf(),
            0 <= i < self.hashes@.len(),
        ensures
            self.has_hash(self.hashes@[i].name@),
            self.hash_at(self.hashes@[i].name@) == i,
            self.fields_of(self.hashes@[i].name@) == fields_map(self.hashes@[i].fields@),
    {
        let n = self.hashes@[i].name@;
        assert(self.has_hash(n));
        let j = self.hash_at(n);
        assert(0 <= j < self.hashes@.len() && self.hashes@[j].name@ == n);
        if i < j {
            assert(self.hashes@[i].name@ != self.hashes@[j].name@);
        } else if j < i {
            assert(self.hashes@[j].name@ != self.hashes@[i].name@);
        }
    }

    /// A change confined to the partition at `i` leaves every other
    /// partition's records as they were.
    proof fn lemma_frame(pre: MemStore, post: MemStore, i: int)
        requires
            pre.wf(),
            post.wf(),
            0 <= i < pre.hashes@.len(),
            post.hashes@.len() == pre.hashes@.len(),
            forall|t: int|
                0 <= t < pre.hashes@.len() ==> #[trigger] post.hashes@[t].name@
                    == pre.hashes@[t].name@,
            forall|t: int|
                0 <= t < pre.hashes@.len() && t != i ==> #[trigger] post.hashes@[t]
                    == pre.hashes@[t],
        ensures
            forall|n: Seq<char>|
                n != pre.hashes@[i].name@ ==> #[trigger] post.fields_of(n) == pre.fields_of(n),
    {
        assert forall|n: Seq<char>| n != pre.hashes@[i].name@ implies #[trigger] post.fields_of(n)
            == pre.fields_of(n) by {
            if pre.has_hash(n) {
                let t = pre.hash_at(n);
                pre.lemma_at(t);
                post.lemma_at(t);
                assert(post.hashes@[t].name@ == n);
                assert(t != i);
            } else {
                if post.has_hash(n) {
                    let t = post.hash_at(n);
                    assert(pre.hashes@[t].name@ == n);
                }
            }
        }
    }

    /// Appending a partition with a fresh name leaves every other
    /// partition's records as they were.
    proof fn lemma_frame_push(pre: MemStore, post: MemStore)
        requires
            pre.wf(),
            post.wf(),
            post.hashes@.len() == pre.hashes@.len() + 1,
            forall|t: int|
                0 <= t < pre.hashes@.len() ==> #[trigger] post.hashes@[t] == pre.hashes@[t],
        ensures
            forall|n: Seq<char>|
                n != post.hashes@.last().name@ ==> #[trigger] post.fields_of(n) == pre.fields_of(
                    n,
                ),
    {
        assert forall|n: Seq<char>| n != post.hashes@.last().name@ implies #[trigger] post.fields_of(
            n,
        ) == pre.fields_of(n) by {
            if pre.has_hash(n) {
                let t = pre.hash_at(n);
                pre.lemma_at(t);
                post.lemma_at(t);
                assert(post.hashes@[t].name@ == n);
            } else {
                if post.has_hash(n) {
                    let t = post.hash_at(n);
                    assert(0 <= t < post.hashes@.len());
                    assert(t < pre.hashes@.len() ==> pre.hashes@[t].name@ == n);
                    assert(t == pre.hashes@.len() ==> n == post.hashes@.last().name@);
                }
            }
        }
    }

    /// An empty store: no partitions, no records.
    pub fn new() -> (r: MemStore)
        ensures
            r.wf(),
            forall|n: Seq<char>| #[trigger] r.fields_of(n) == Map::<Seq<char>, Seq<u8>>::empty(),
    {
        MemStore { hashes: Vec::new() }
    }

    /// The position of the partition named `name`, if present.
    fn find_hash(&self, name: &str) -> (r: Option<usize>)
        ensures
            match r {
                Some(i) => i < self.hashes@.len() && self.hashes@[i as int].name@ == name@,
                None => !self.has_hash(name@),
            },
    {
        let name_o: String = name.to_owned();
        let mut i: usize = 0;
        while i < self.hashes.len()
            invariant
                i <= self.hashes.len(),
                name_o@ == name@,
                forall|j: int| 0 <= j < i ==> self.hashes@[j].name@ != name@,
            decreases self.hashes.len() - i,
        {
            if self.hashes[i].name == name_o {
                return Some(i);
            }
            i = i + 1;
        }
        None
    }

    /// Files `value` under `key` in partition `name`, overwriting any
    /// previous value (the store-side half of `put`).  Returns whether the
    /// key is new to the partition.
    pub fn hset(&mut self, name: &str, key: &str, value: Vec<u8>) -> (added: bool)
        requires
            old(self).wf(),
        ensures
            final(self).wf(),
            final(self).fields_of(name@) == old(self).fields_of(name@).insert(key@, value@),
            forall|n: Seq<char>|
                n != name@ ==> #[trigger] final(self).fields_of(n) == old(self).fields_of(n),
            added == !old(self).fields_of(name@).contains_key(key@),
    {
        let ghost pre = *self;
        match self.find_hash(name) {
            Some(i) => {
                proof {
                    pre.lemma_at(i as int);
                }
                let h = elem_mut(&mut self.hashes, i);
                let added = h.set_field(key, value);
                proof {
                    assert(final(self).hashes@ == pre.hashes@.update(
                        i as int,
                        final(self).hashes@[i as int],
                    ));
                    final(self).lemma_at(i as int);
                    MemStore::lemma_frame(pre, *final(self), i as int);
                }
                added
            },
            None => {
                let mut fields: Vec<FieldEntry> = Vec::new();
                fields.push(FieldEntry { key: key.to_owned(), value });
                self.hashes.push(HashEntry { name: name.to_owned(), fields });
                proof {
                    let post = *final(self);
                    let last = post.hashes@.len() - 1;
                    assert forall|i: int, j: int|
                        #![trigger post.hashes@[i], post.hashes@[j]]
                        0 <= i < j < post.hashes@.len() implies post.hashes@[i].name@
                        != post.hashes@[j].name@ by {
                        if j < last {
                            assert(post.hashes@[i] == pre.hashes@[i]);
                            assert(post.hashes@[j] == pre.hashes@[j]);
                        } else {
                            assert(post.hashes@[i] == pre.hashes@[i]);
                            assert(!pre.has_hash(name@));
                        }
                    }
                    assert(fields_wf(post.hashes@[last].fields@));
                    post.lemma_at(last);
                    assert(fields_map(post.hashes@[last].fields@.drop_last()) =~= Map::<
                        Seq<char>,
                        Seq<u8>,
                    >::empty());
                    assert(post.fields_of(name@) =~= pre.fields_of(name@).insert(key@, value@));
                    MemStore::lemma_frame_push(pre, post);
                }
                true
            },
        }
    }

    /// The value filed under `key` in partition `name`, if present (the
    /// store-side half of `get`).
    pub fn hget(&self, name: &str, key: &str) -> (r: Option<Vec<u8>>)
        requires
            self.wf(),
        ensures
            match r {
                Some(v) => self.fields_of(name@).contains_key(key@) && v@ == self.fields_of(
                    name@,
                )[key@],
                None => !self.fields_of(name@).contains_key(key@),
            },
    {
        match self.find_hash(name) {
            Some(i) => {
                proof {
                    self.lemma_at(i as int);
                }
                self.hashes[i].get_field(key)
            },
            None => None,
        }
    }

    /// Removes the record under `key` in partition `name`, if present (the
    /// store-side half of `remove`).  Returns whether a record was removed.
    pub fn hdel(&mut self, name: &str, key: &str) -> (removed: bool)
        requires
            old(self).wf(),
        ensures
            final(self).wf(),
            final(self).fields_of(name@) == old(self).fields_of(name@).remove(key@),
            forall|n: Seq<char>|
                n != name@ ==> #[trigger] final(self).fields_of(n) == old(self).fields_of(n),
            removed == old(self).fields_of(name@).contains_key(key@),
    {
        let ghost pre = *self;
        match self.find_hash(name) {
            Some(i) => {
                proof {
                    pre.lemma_at(i as int);
                }
                let h = elem_mut(&mut self.hashes, i);
                let removed = h.del_field(key);
                proof {
                    assert(final(self).hashes@ == pre.hashes@.update(
                        i as int,
                        final(self).hashes@[i as int],
                    ));
                    final(self).lemma_at(i as int);
                    MemStore::lemma_frame(pre, *final(self), i as int);
                }
                removed
            },
            None => {
                proof {
                    assert(pre.fields_of(name@) =~= pre.fields_of(name@).remove(key@));
                }
                false
            },
        }
    }

    /// The keys of all records in partition `name`: each listed key is in
    /// the partition, every key of the partition is listed, and no key is
    /// listed twice.
    pub fn hkeys(&self, name: &str) -> (r: Vec<String>)
        requires
            self.wf(),
        ensures
            forall|t: int| 0 <= t < r@.len() ==> self.fields_of(name@).contains_key(#[trigger] r@[t]@),
            forall|k: Seq<char>|
                #[trigger] self.fields_of(name@).contains_key(k) ==> exists|t: int|
                    0 <= t < r@.len() && r@[t]@ == k,
            forall|t1: int, t2: int|
                #![trigger r@[t1], r@[t2]]
                0 <= t1 < t2 < r@.len() ==> r@[t1]@ != r@[t2]@,
    {
        match self.find_hash(name) {
            Some(i) => {
                proof {
                    self.lemma_at(i as int);
                    lemma_fields_map_dom(self.hashes@[i as int].fields@);
                }
                let r = self.hashes[i].key_list();
                proof {
                    assert forall|k: Seq<char>| #[trigger]
                        self.fields_of(name@).contains_key(k) implies exists|t: int|
                        0 <= t < r@.len() && r@[t]@ == k by {
                        let t = choose|t: int|
                            0 <= t < self.hashes@[i as int].fields@.len()
                                && self.hashes@[i as int].fields@[t].key@ == k;
                        assert(r@[t]@ == k);
                    }
                }
                r
            },
            None => Vec::new(),
        }
    }

    /// Whether partition `name` holds a record under `key` (the store-side
    /// half of `contains`).
    pub fn hexists(&self, name: &str, key: &str) -> (r: bool)
        requires
            self.wf(),
        ensures
            r == self.fields_of(name@).contains_key(key@),
    {
        match self.find_hash(name) {
            Some(i) => {
                proof {
                    self.lemma_at(i as int);
                    lemma_fields_map_dom(self.hashes@[i as int].fields@);
                }
                match find_field(&self.hashes[i].fields, key) {
                    Some(_) => true,
                    None => false,
                }
            },
            None => false,
        }
    }

    /// Drops partition `name` whole (the store-side half of `clear`).
    /// Returns whether the partition held any record.
    pub fn del(&mut self, name: &str) -> (existed: bool)
        requires
            old(self).wf(),
        ensures
            final(self).wf(),
            final(self).fields_of(name@) == Map::<Seq<char>, Seq<u8>>::empty(),
            forall|n: Seq<char>|
                n != name@ ==> #[trigger] final(self).fields_of(n) == old(self).fields_of(n),
            existed == (old(self).fields_of(name@) != Map::<Seq<char>, Seq<u8>>::empty()),
    {
        let ghost pre = *self;
        match self.find_hash(name) {
            Some(i) => {
                proof {
                    pre.lemma_at(i as int);
                    lemma_fields_map_dom(pre.hashes@[i as int].fields@);
                    if pre.hashes@[i as int].fields@.len() > 0 {
                        let k = pre.hashes@[i as int].fields@.last().key@;
                        assert(pre.fields_of(name@).contains_key(k));
                    } else {
                        assert(pre.fields_of(name@) =~= Map::<Seq<char>, Seq<u8>>::empty());
                    }
                }
                let existed = self.hashes[i].fields.len() > 0;
                let h = elem_mut(&mut self.hashes, i);
                h.fields.clear();
                proof {
                    assert(final(self).hashes@ == pre.hashes@.update(
                        i as int,
                        final(self).hashes@[i as int],
                    ));
                    final(self).lemma_at(i as int);
                    assert(final(self).fields_of(name@) =~= Map::<Seq<char>, Seq<u8>>::empty());
                    MemStore::lemma_frame(pre, *final(self), i as int);
                }
                existed
            },
            None => {
                proof {
                    assert(pre.fields_of(name@) =~= Map::<Seq<char>, Seq<u8>>::empty());
                }
                false
            },
        }
    }
}

} // verus!
