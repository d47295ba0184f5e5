use crate::errors::Error;
use crate::record::Record;
use std::collections::HashMap;
use std::sync::Arc;
use vstd::prelude::*;

verus! {

broadcast use vstd::std_specs::hash::group_hash_axioms;

/// What a table holds: its records by id, and the last id it issued.
/// The records are exactly those with ids `1..=last_id`, each stored under
/// its own id.
pub open spec fn well_formed<T>(records: Map<usize, Record<T>>, last_id: nat) -> bool {
    &&& forall|k: usize| #[trigger] records.contains_key(k) <==> 1 <= k <= last_id
    &&& forall|k: usize| #[trigger] records.contains_key(k) ==> records[k].id == k
}

/// `after` is `before` with `value` stored as `rec` under the next id.
pub open spec fn issued<T>(before: Store<T>, value: T, after: Store<T>, rec: Record<T>) -> bool {
    &&& rec.id == before.last_id() + 1
    &&& rec.data == value
    &&& after.last_id() == rec.id
    &&& after.records() == before.records().insert(rec.id, rec)
}

/// Each `states[i + 1]` follows from `states[i]` by storing `values[i]` as
/// `recs[i]`: a sequence of successful inserts into one store.
pub open spec fn is_run<T>(states: Seq<Store<T>>, values: Seq<T>, recs: Seq<Record<T>>) -> bool {
    &&& states.len() == values.len() + 1
    &&& recs.len() == values.len()
    &&& forall|i: int|
        0 <= i < values.len() ==> #[trigger] issued(states[i], values[i], states[i + 1], recs[i])
}

/// A store that no insert has touched.
pub open spec fn is_fresh<T>(s: Store<T>) -> bool {
    s.records() == Map::<usize, Record<T>>::empty() && s.last_id() == 0
}

/// After the first `n` inserts of a run from a fresh store, the `i`-th
/// record has id `i + 1` and the store holds exactly ids `1..=n`, each
/// with the record issued under it.
proof fn lemma_run_prefix<T>(states: Seq<Store<T>>, values: Seq<T>, recs: Seq<Record<T>>, n: int)
    requires
        is_run(states, values, recs),
        is_fresh(states[0]),
        0 <= n <= values.len(),
    ensures
        states[n].last_id() == n,
        forall|k: usize| #[trigger] states[n].records().contains_key(k) <==> 1 <= k <= n,
        forall|i: int| 0 <= i < n ==> #[trigger] recs[i].id == i + 1,
        forall|i: int|
            0 <= i < n ==> #[trigger] states[n].records()[recs[i].id] == recs[i] && recs[i].data
                == values[i],
    decreases n,
{
    if n > 0 {
        lemma_run_prefix(states, values, recs, n - 1);
        assert(issued(states[n - 1], values[n - 1], states[n], recs[n - 1]));
        assert forall|i: int| 0 <= i < n implies #[trigger] states[n].records()[recs[i].id]
            == recs[i] && recs[i].data == values[i] by {
            if i < n - 1 {
                assert(recs[i].id == i + 1);
                assert(states[n - 1].records()[recs[i].id] == recs[i]);
            }
        }
    }
}

/// Ids come out of a fresh store as 1, 2, 3, ... in insertion order, so
/// they are pairwise distinct and strictly increasing.
pub proof fn lemma_ids_in_order<T>(states: Seq<Store<T>>, values: Seq<T>, recs: Seq<Record<T>>)
    requires
        is_run(states, values, recs),
        is_fresh(states[0]),
    ensures
        forall|i: int| 0 <= i < recs.len() ==> #[trigger] recs[i].id == i + 1,
        forall|i: int, j: int| 0 <= i < j < recs.len() ==> recs[i].id < recs[j].id,
{
    lemma_run_prefix(states, values, recs, values.len() as int);
}

/// Every record that an insert returned is found later under its id, with
/// the value that was inserted, however many inserts came after it.
pub proof fn lemma_round_trip<T>(states: Seq<Store<T>>, values: Seq<T>, recs: Seq<Record<T>>)
    requires
        is_run(states, values, recs),
        is_fresh(states[0]),
    ensures
        forall|i: int|
            0 <= i < recs.len() ==> {
                &&& #[trigger] states.last().records().contains_key(recs[i].id)
                &&& states.last().records()[recs[i].id] == recs[i]
                &&& recs[i].data == values[i]
            },
{
    lemma_run_prefix(states, values, recs, values.len() as int);
    assert forall|i: int| 0 <= i < recs.len() implies #[trigger] states.last().records().contains_key(
        recs[i].id,
    ) by {
        assert(recs[i].id == i + 1);
    }
}

/// An id that no insert of the run returned is held by no record, so
/// `find` reports it as not found.
pub proof fn lemma_never_issued_not_found<T>(
    states: Seq<Store<T>>,
    values: Seq<T>,
    recs: Seq<Record<T>>,
    id: usize,
)
    requires
        is_run(states, values, recs),
        is_fresh(states[0]),
        forall|i: int| 0 <= i < recs.len() ==> #[trigger] recs[i].id != id,
    ensures
        !states.last().records().contains_key(id),
{
    lemma_run_prefix(states, values, recs, values.len() as int);
    if 1 <= id <= recs.len() {
        assert(recs[id - 1].id == id);
    }
}

/// The state behind a table's lock: the primary mapping from id to record
/// and the id counter. Ids are issued in order and never reused; records
/// are never removed.
pub struct Store<T> {
    records: HashMap<usize, Record<T>>,
    last_id: usize,
}

impl<T> Store<T> {
    /// The records held, by id.
    pub closed spec fn records(self) -> Map<usize, Record<T>> {
        self.records@
    }

    /// The last id issued; 0 before the first insert.
    pub closed spec fn last_id(self) -> nat {
        self.last_id as nat
    }

    #[verifier::type_invariant]
    spec fn inv(self) -> bool {
        well_formed(self.records@, self.last_id as nat)
    }

    /// An empty store, whose first insert gets id 1.
    pub fn new() -> (s: Self)
        ensures
            s.records() == Map::<usize, Record<T>>::empty(),
            s.last_id() == 0,
            well_formed(s.records(), s.last_id()),
    {
        Store { records: HashMap::new(), last_id: 0 }
    }

    /// Issues the next id to `value` and stores the new record under it.
    /// Fails, changing nothing, once every id has been issued.
    pub fn insert(&mut self, value: T) -> (r: Result<Record<T>, Error>)
        ensures
            r is Ok <==> old(self).last_id() < usize::MAX,
            well_formed(old(self).records(), old(self).last_id()),
            well_formed(final(self).records(), final(self).last_id()),
            match r {
                Ok(rec) => issued(*old(self), value, *final(self), rec),
                Err(e) => {
                    &&& e == Error::IdsExhausted
                    &&& *final(self) == *old(self)
                },
            },
    {
        proof {
            use_type_invariant(&*self);
        }
        if self.last_id == usize::MAX {
            return Err(Error::IdsExhausted);
        }
        let id: usize = self.last_id + 1;
        let record = Record { id, data: Arc::new(value) };
        let mut taken = Store::new();
        std::mem::swap(self, &mut taken);
        proof {
            use_type_invariant(&taken);
        }
        let Store { mut records, last_id: _ } = taken;
        let ghost before = records@;
        assert(!before.contains_key(id));
        records.insert(id, record.clone());
        proof {
            assert forall|k: usize| #[trigger] records@.contains_key(k) <==> 1 <= k <= id by {
                if k != id {
                    assert(records@.contains_key(k) == before.contains_key(k));
                }
            }
        }
        *self = Store { records, last_id: id };
        Ok(record)
    }

    /// The record stored under `id`, or `RecordNotFound(id)` where there is
    /// none.
    pub fn find(&self, id: usize) -> (r: Result<Record<T>, Error>)
        ensures
            r is Ok <==> self.records().contains_key(id),
            well_formed(self.records(), self.last_id()),
            match r {
                Ok(rec) => rec == self.records()[id],
                Err(e) => e == Error::RecordNotFound(id),
            },
    {
        proof {
            use_type_invariant(self);
        }
        match self.records.get(&id) {
            Some(rec) => Ok(rec.clone()),
            None => Err(Error::RecordNotFound(id)),
        }
    }
}

} // verus!
