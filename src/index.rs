use crate::errors::Error;
use crate::record::Record;
use std::collections::HashMap;
use std::hash::Hash;
use vstd::prelude::*;
use vstd::std_specs::hash::obeys_key_model;

verus! {

broadcast use vstd::std_specs::hash::group_hash_axioms;

/// A set of records with set semantics by id: each record is held once,
/// under its own id.
pub struct Bucket<V> {
    records: HashMap<usize, Record<V>>,
}

impl<V> View for Bucket<V> {
    type V = Map<usize, Record<V>>;

    closed spec fn view(&self) -> Map<usize, Record<V>> {
        self.records@
    }
}

/// Every record of `m` is held under its own id.
pub open spec fn keyed_by_id<V>(m: Map<usize, Record<V>>) -> bool {
    forall|id: usize| #[trigger] m.contains_key(id) ==> m[id].id == id
}

impl<V> Bucket<V> {
    #[verifier::type_invariant]
    spec fn inv(self) -> bool {
        keyed_by_id(self.records@)
    }

    /// An empty set of records.
    pub fn new() -> (b: Self)
        ensures
            b@ == Map::<usize, Record<V>>::empty(),
    {
        Bucket { records: HashMap::new() }
    }

    /// The number of records held.
    pub fn len(&self) -> (n: usize)
        ensures
            n == self@.len(),
            keyed_by_id(self@),
    {
        proof {
            use_type_invariant(self);
        }
        self.records.len()
    }

    /// Whether the set is empty.
    pub fn is_empty(&self) -> (r: bool)
        ensures
            r == (self@.len() == 0),
    {
        self.records.len() == 0
    }

    /// Whether a record with the same id as `record` is held.
    pub fn contains(&self, record: &Record<V>) -> (r: bool)
        ensures
            r == self@.contains_key(record.id),
            keyed_by_id(self@),
    {
        proof {
            use_type_invariant(self);
        }
        self.records.contains_key(&record.id)
    }

    /// The records held, each once, in no particular order.
    pub fn records(&self) -> (r: Vec<Record<V>>)
        ensures
            r@.len() == self@.len(),
            r@.to_set() == self@.values(),
    {
        let mut out: Vec<Record<V>> = Vec::new();
        for rec in it: self.records.values()
            invariant
                out@ == it.seq().take(it.index() as int).map_values(|x: &Record<V>| *x),
                it.seq().unref().to_set() == self@.values(),
                it.seq().len() == self@.len(),
                it.index() == it.seq().len() ==> out@.len() == self@.len() && out@.to_set()
                    == self@.values(),
        {
            out.push(rec.clone());
            proof {
                assert(out@ =~= it.seq().take(it.index() + 1).map_values(|x: &Record<V>| *x));
                assert(it.index() + 1 == it.seq().len() ==> out@ =~= it.seq().unref());
            }
        }
        out
    }

    /// Adds `record` unless a record with its id is held already; says
    /// whether it was added.
    pub fn insert(&mut self, record: Record<V>) -> (r: bool)
        ensures
            r == !old(self)@.contains_key(record.id),
            final(self)@ == (if r {
                old(self)@.insert(record.id, record)
            } else {
                old(self)@
            }),
            keyed_by_id(final(self)@),
    {
        proof {
            use_type_invariant(&*self);
        }
        if self.records.contains_key(&record.id) {
            return false;
        }
        let mut taken = Bucket::new();
        std::mem::swap(self, &mut taken);
        proof {
            use_type_invariant(&taken);
        }
        let Bucket { mut records } = taken;
        let id: usize = record.id;
        records.insert(id, record);
        *self = Bucket { records };
        true
    }
}

/// A secondary index: from a key derived from a record's data to the set
/// of records that produced it. A key that was never given has no bucket
/// and reads as the empty set.
pub struct Index<K, V> {
    data: HashMap<K, Bucket<V>>,
}

impl<K, V> Index<K, V> {
    /// The buckets held, by key.
    pub closed spec fn buckets(self) -> Map<K, Bucket<V>> {
        self.data@
    }

    /// The records filed under `k`: empty where `k` has no bucket.
    pub open spec fn bucket(self, k: K) -> Map<usize, Record<V>> {
        if self.buckets().contains_key(k) {
            self.buckets()[k]@
        } else {
            Map::empty()
        }
    }
}

/// `after` is `before` with `record` filed under `k`: added to that bucket
/// unless a record with its id is there already; other keys untouched.
pub open spec fn filed<K, V>(before: Index<K, V>, k: K, record: Record<V>, after: Index<K, V>) -> bool {
    &&& after.bucket(k) == (if before.bucket(k).contains_key(record.id) {
        before.bucket(k)
    } else {
        before.bucket(k).insert(record.id, record)
    })
    &&& forall|k2: K| k2 != k ==> #[trigger] after.bucket(k2) == before.bucket(k2)
}

/// Each `states[i + 1]` follows from `states[i]` by filing `recs[i]` under
/// `keys[i]`: a sequence of inserts into one index.
pub open spec fn is_index_run<K, V>(
    states: Seq<Index<K, V>>,
    keys: Seq<K>,
    recs: Seq<Record<V>>,
) -> bool {
    &&& states.len() == keys.len() + 1
    &&& recs.len() == keys.len()
    &&& forall|i: int| 0 <= i < keys.len() ==> #[trigger] filed(states[i], keys[i], recs[i], states[i + 1])
}

/// After the first `n` inserts of a run, each record filed so far is in
/// the bucket of its key.
proof fn lemma_index_prefix<K, V>(
    states: Seq<Index<K, V>>,
    keys: Seq<K>,
    recs: Seq<Record<V>>,
    n: int,
)
    requires
        is_index_run(states, keys, recs),
        0 <= n <= keys.len(),
    ensures
        forall|i: int| 0 <= i < n ==> #[trigger] states[n].bucket(keys[i]).contains_key(recs[i].id),
    decreases n,
{
    if n > 0 {
        lemma_index_prefix(states, keys, recs, n - 1);
        let j = n - 1;
        assert(filed(states[j], keys[j], recs[j], states[j + 1]));
        assert forall|i: int| 0 <= i < n implies #[trigger] states[n].bucket(keys[i]).contains_key(
            recs[i].id,
        ) by {
            if i < n - 1 {
                assert(states[n - 1].bucket(keys[i]).contains_key(recs[i].id));
                if keys[i] != keys[n - 1] {
                    assert(states[n].bucket(keys[i]) == states[n - 1].bucket(keys[i]));
                }
            }
        }
    }
}

/// Once a run of inserts into an index is over, every record filed under
/// a key is in that key's bucket, once, under its id; a later insert never
/// takes it out.
pub proof fn lemma_index_complete<K, V>(states: Seq<Index<K, V>>, keys: Seq<K>, recs: Seq<Record<V>>)
    requires
        is_index_run(states, keys, recs),
    ensures
        forall|i: int|
            0 <= i < keys.len() ==> #[trigger] states.last().bucket(keys[i]).contains_key(recs[i].id),
{
    lemma_index_prefix(states, keys, recs, keys.len() as int);
}

/// Every key reads as an empty set of records.
pub open spec fn is_empty_index<K, V>(ix: Index<K, V>) -> bool {
    forall|k: K| #[trigger] ix.bucket(k) == Map::<usize, Record<V>>::empty()
}

/// After a run of inserts into an empty index, a key that no insert used
/// still reads as the empty set.
pub proof fn lemma_unseen_key_empty<K, V>(
    states: Seq<Index<K, V>>,
    keys: Seq<K>,
    recs: Seq<Record<V>>,
    k: K,
)
    requires
        is_index_run(states, keys, recs),
        is_empty_index(states[0]),
        forall|i: int| 0 <= i < keys.len() ==> #[trigger] keys[i] != k,
    ensures
        states.last().bucket(k) == Map::<usize, Record<V>>::empty(),
    decreases keys.len(),
{
    if keys.len() > 0 {
        let n = keys.len() - 1;
        lemma_unseen_key_empty(states.drop_last(), keys.drop_last(), recs.drop_last(), k);
        assert(filed(states[n], keys[n], recs[n], states[n + 1]));
        assert(keys[n] != k);
    }
}

/// `read`, applied to a set of records that holds `records`, may give `a`.
pub open spec fn read_gave<V, A, F: FnOnce(&Bucket<V>) -> A>(
    read: F,
    records: Map<usize, Record<V>>,
    a: A,
) -> bool {
    exists|b: &Bucket<V>| b@ == records && #[trigger] read.ensures((b,), a)
}

impl<K: Eq + Hash, V> Index<K, V> {
    /// An index with no keys.
    pub fn new() -> (ix: Self)
        ensures
            ix.buckets() == Map::<K, Bucket<V>>::empty(),
            is_empty_index(ix),
    {
        Index { data: HashMap::new() }
    }

    /// Files `record` under `k`, creating the bucket where there is none.
    /// Says whether the record was added: a record whose id is filed under
    /// `k` already leaves the bucket as it was. Other keys are untouched.
    /// What is stated of the buckets holds for keys whose `==` and `Hash`
    /// agree, as with integers.
    pub fn insert(&mut self, k: K, record: Record<V>) -> (r: Result<bool, Error>)
        ensures
            obeys_key_model::<K>() ==> {
                &&& r == Ok::<bool, Error>(!old(self).bucket(k).contains_key(record.id))
                &&& filed(*old(self), k, record, *final(self))
            },
            r is Ok,
    {
        let ghost k0 = k;
        let bucket = self.data.entry(k).or_insert(Bucket::new());
        let added = bucket.insert(record);
        proof {
            if obeys_key_model::<K>() {
                assert(self.buckets() == old(self).buckets().insert(k0, *bucket));
                assert forall|k2: K| k2 != k0 implies #[trigger] self.bucket(k2) == old(self).bucket(k2) by {
                    assert(self.buckets().contains_key(k2) == old(self).buckets().contains_key(k2));
                }
            }
        }
        Ok(added)
    }

    /// Applies `read` to the records filed under `k`, or to an empty set
    /// where `k` has no bucket, and returns what it gives. A key never seen
    /// is no error.
    pub fn get<F, A>(&self, k: &K, read: F) -> (r: Result<A, Error>)
        where
            F: FnOnce(&Bucket<V>) -> A,
        requires
            forall|b: &Bucket<V>| #[trigger] read.requires((b,)),
        ensures
            match r {
                Ok(a) => obeys_key_model::<K>() ==> read_gave(read, self.bucket(*k), a),
                Err(_) => false,
            },
    {
        match self.data.get(k) {
            Some(b) => {
                let a = read(b);
                proof {
                    if obeys_key_model::<K>() {
                        assert(self.buckets().contains_key(*k) && self.buckets()[*k] == *b);
                        assert(b@ == self.bucket(*k) && read.ensures((b,), a));
                        assert(read_gave(read, self.bucket(*k), a));
                    }
                }
                Ok(a)
            },
            None => {
                let empty = Bucket::new();
                let a = read(&empty);
                proof {
                    if obeys_key_model::<K>() {
                        assert(!self.buckets().contains_key(*k));
                        assert(empty@ == self.bucket(*k));
                        assert(read.ensures((&empty,), a));
                        assert(read_gave(read, self.bucket(*k), a));
                    }
                }
                Ok(a)
            },
        }
    }
}

impl<K: Eq + Hash, V> Default for Index<K, V> {
    /// An index with no keys.
    fn default() -> (ix: Self)
        ensures
            is_empty_index(ix),
    {
        Index::new()
    }
}

/// The policy that a table runs on each new record: it files the record in
/// the table's indexes under the keys it derives from the record's data.
/// The provided method files nothing, for tables with no index.
pub trait Indexer: Default {
    type Item;

    fn index(&mut self, _item: &Record<Self::Item>) -> Result<bool, Error> {
        Ok(true)
    }
}

} // verus!
