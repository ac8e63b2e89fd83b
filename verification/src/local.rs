//! An in-process store of history intervals, keyed by the integer part of
//! each interval's start time.
use vstd::prelude::*;
use std::collections::HashMap;
use crate::error::DatabaseError;
use crate::float_bits::{saturating_trunc, truncate_to_u64};
use crate::models::RpmuHistoryInterval;
use crate::timer::{Elapsed, Timer};

verus! {

broadcast use vstd::std_specs::hash::group_hash_axioms;

/// The key a record is stored under: its start time converted to `u64` as
/// `as` does (integer part, saturating; NaN gives 0).
pub open spec fn record_key(r: RpmuHistoryInterval) -> u64 {
    saturating_trunc(r.start_time)
}

/// The contents after storing `items` one after the other into `m`: each
/// item replaces whatever was stored under its key.
pub open spec fn store_all(
    m: Map<u64, RpmuHistoryInterval>,
    items: Seq<RpmuHistoryInterval>,
) -> Map<u64, RpmuHistoryInterval>
    decreases items.len(),
{
    if items.len() == 0 {
        m
    } else {
        store_all(m, items.drop_last()).insert(record_key(items.last()), items.last())
    }
}

/// The record written when the store is initialised: start time and count
/// 1669918678.0, end time 1234.0, units 4.0.
pub open spec fn spec_seed_record() -> RpmuHistoryInterval {
    RpmuHistoryInterval {
        count: 0x41d8_e23b_f580_0000,
        end_time: 0x4093_4800_0000_0000,
        start_time: 0x41d8_e23b_f580_0000,
        units: 0x4010_0000_0000_0000,
    }
}

/// The record written when the store is initialised.
pub fn seed_record() -> (r: RpmuHistoryInterval)
    ensures
        r == spec_seed_record(),
{
    RpmuHistoryInterval {
        count: 0x41d8_e23b_f580_0000,
        end_time: 0x4093_4800_0000_0000,
        start_time: 0x41d8_e23b_f580_0000,
        units: 0x4010_0000_0000_0000,
    }
}

/// A map from keys to the last record stored under each key.
pub struct InMemoryDatabase {
    data: HashMap<u64, RpmuHistoryInterval>,
    timer: Timer,
}

impl View for InMemoryDatabase {
    type V = Map<u64, RpmuHistoryInterval>;

    closed spec fn view(&self) -> Map<u64, RpmuHistoryInterval> {
        self.data@
    }
}

impl InMemoryDatabase {
    /// The outcome of the stopwatch that timed the last insert: whether it
    /// was running when stopped, and its reading.
    pub closed spec fn last_timing(&self) -> Option<(bool, Elapsed)> {
        self.timer.last_stop()
    }

    /// An empty store.
    pub fn new() -> (db: InMemoryDatabase)
        ensures
            db@ == Map::<u64, RpmuHistoryInterval>::empty(),
    {
        InMemoryDatabase { data: HashMap::new(), timer: Timer::init() }
    }

    /// A store that holds the seed record only.
    pub fn init() -> (r: Result<InMemoryDatabase, DatabaseError>)
        ensures
            r matches Ok(db) && db@ == Map::<u64, RpmuHistoryInterval>::empty().insert(
                record_key(spec_seed_record()),
                spec_seed_record(),
            ),
    {
        let mut db = InMemoryDatabase::new();
        let seed = seed_record();
        let _ = db.insert_one(&seed);
        Ok(db)
    }

    /// Stores `data` under its key, replacing any record stored there, and
    /// returns the whole seconds the operation took: the seconds of the
    /// reading of a stopwatch started for the insert and stopped after it.
    pub fn insert_one(&mut self, data: &RpmuHistoryInterval) -> (r: Result<u64, DatabaseError>)
        ensures
            final(self)@ == old(self)@.insert(record_key(*data), *data),
            final(self).last_timing() matches Some((true, e)) && r == Ok::<u64, DatabaseError>(
                e.secs,
            ),
    {
        self.timer.start();
        let id = truncate_to_u64(data.start_time);
        self.data.insert(id, *data);
        let elapsed = self.timer.stop();
        Ok(elapsed.whole_seconds())
    }

    /// Stores the records of `data` in order, each under its key (so of
    /// several records with one key the last one stays), and returns the
    /// whole seconds the operation took: the seconds of the reading of a
    /// stopwatch started before the first record and stopped after the last.
    pub fn insert_many(&mut self, data: Vec<RpmuHistoryInterval>) -> (r: Result<u64, DatabaseError>)
        ensures
            final(self)@ == store_all(old(self)@, data@),
            final(self).last_timing() matches Some((true, e)) && r == Ok::<u64, DatabaseError>(
                e.secs,
            ),
    {
        self.timer.start();
        let n = data.len();
        let mut i: usize = 0;
        while i < n
            invariant
                n == data@.len(),
                i <= n,
                self@ == store_all(old(self)@, data@.take(i as int)),
                self.timer.is_running(),
            decreases n - i,
        {
            let item = data[i];
            let id = truncate_to_u64(item.start_time);
            self.data.insert(id, item);
            proof {
                assert(data@.take(i + 1).drop_last() =~= data@.take(i as int));
                assert(data@.take(i + 1).last() == item);
            }
            i = i + 1;
        }
        assert(data@.take(n as int) =~= data@);
        let elapsed = self.timer.stop();
        Ok(elapsed.whole_seconds())
    }
}

impl InMemoryDatabase {
    /// The record stored under `key`, if any.
    pub fn get(&self, key: u64) -> (r: Option<RpmuHistoryInterval>)
        ensures
            r == (if self@.contains_key(key) { Some(self@[key]) } else { None }),
    {
        match self.data.get(&key) {
            Some(v) => Some(*v),
            None => None,
        }
    }

    /// The number of keys held.
    pub fn len(&self) -> (n: usize)
        ensures
            n == self@.len(),
    {
        self.data.len()
    }
}

/// Storing one record makes it the value under its key and leaves every
/// other key as it was.
pub proof fn law_insert_replaces_only_its_key(
    m: Map<u64, RpmuHistoryInterval>,
    r: RpmuHistoryInterval,
    k: u64,
)
    ensures
        store_all(m, seq![r]).contains_key(record_key(r)),
        store_all(m, seq![r])[record_key(r)] == r,
        k != record_key(r) ==> (store_all(m, seq![r]).contains_key(k) == m.contains_key(k)),
        k != record_key(r) && m.contains_key(k) ==> store_all(m, seq![r])[k] == m[k],
{
    assert(seq![r].drop_last() =~= Seq::<RpmuHistoryInterval>::empty());
    assert(store_all(m, seq![r].drop_last()) == m);
    assert(store_all(m, seq![r]) == m.insert(record_key(r), r));
}

/// Storing a batch `xs + ys` is storing `xs`, then storing `ys`.
pub proof fn law_batches_compose(
    m: Map<u64, RpmuHistoryInterval>,
    xs: Seq<RpmuHistoryInterval>,
    ys: Seq<RpmuHistoryInterval>,
)
    ensures
        store_all(m, xs + ys) == store_all(store_all(m, xs), ys),
    decreases ys.len(),
{
    if ys.len() == 0 {
        assert(xs + ys =~= xs);
    } else {
        law_batches_compose(m, xs, ys.drop_last());
        assert((xs + ys).drop_last() =~= xs + ys.drop_last());
        assert((xs + ys).last() == ys.last());
    }
}

/// After a batch, the keys held are the earlier keys and the keys of the
/// batch's records.
pub proof fn law_batch_keys(m: Map<u64, RpmuHistoryInterval>, xs: Seq<RpmuHistoryInterval>, k: u64)
    ensures
        store_all(m, xs).contains_key(k) <==> (m.contains_key(k) || exists|i: int|
            0 <= i < xs.len() && record_key(#[trigger] xs[i]) == k),
    decreases xs.len(),
{
    if xs.len() > 0 {
        law_batch_keys(m, xs.drop_last(), k);
        if exists|i: int| 0 <= i < xs.len() && record_key(#[trigger] xs[i]) == k {
            let i = choose|i: int| 0 <= i < xs.len() && record_key(#[trigger] xs[i]) == k;
            if i < xs.len() - 1 {
                assert(xs.drop_last()[i] == xs[i]);
            }
        }
        if exists|i: int| 0 <= i < xs.drop_last().len() && record_key(#[trigger] xs.drop_last()[i]) == k {
            let i = choose|i: int| 0 <= i < xs.drop_last().len() && record_key(#[trigger] xs.drop_last()[i]) == k;
            assert(xs[i] == xs.drop_last()[i]);
        }
    }
}

/// Of the records in a batch, the last one with a given key is the one
/// stored under that key.
pub proof fn law_last_write_wins(m: Map<u64, RpmuHistoryInterval>, xs: Seq<RpmuHistoryInterval>, i: int)
    requires
        0 <= i < xs.len(),
        forall|j: int| i < j < xs.len() ==> record_key(#[trigger] xs[j]) != record_key(xs[i]),
    ensures
        store_all(m, xs).contains_key(record_key(xs[i])),
        store_all(m, xs)[record_key(xs[i])] == xs[i],
    decreases xs.len(),
{
    if i < xs.len() - 1 {
        let ys = xs.drop_last();
        assert(ys[i] == xs[i]);
        assert forall|j: int| i < j < ys.len() implies record_key(#[trigger] ys[j]) != record_key(ys[i]) by {
            assert(ys[j] == xs[j]);
        }
        law_last_write_wins(m, ys, i);
        assert(record_key(xs[xs.len() - 1]) != record_key(xs[i]));
    }
}

/// A batch equals its records stored one by one: if `states` starts at `m`
/// and each next state is the previous one with the next record stored
/// under its key (what `insert_one` does), the last state is what
/// `insert_many` leaves.
pub proof fn law_batch_is_single_inserts_in_order(
    m: Map<u64, RpmuHistoryInterval>,
    xs: Seq<RpmuHistoryInterval>,
    states: Seq<Map<u64, RpmuHistoryInterval>>,
)
    requires
        states.len() == xs.len() + 1,
        states[0] == m,
        forall|i: int|
            0 <= i < xs.len() ==> #[trigger] states[i + 1] == states[i].insert(
                record_key(xs[i]),
                xs[i],
            ),
    ensures
        states.last() == store_all(m, xs),
    decreases xs.len(),
{
    if xs.len() > 0 {
        let n = xs.len() as int;
        let xs0 = xs.drop_last();
        let states0 = states.drop_last();
        assert forall|i: int| 0 <= i < xs0.len() implies #[trigger] states0[i + 1]
            == states0[i].insert(record_key(xs0[i]), xs0[i]) by {
            assert(states[i + 1] == states[i].insert(record_key(xs[i]), xs[i]));
        }
        law_batch_is_single_inserts_in_order(m, xs0, states0);
        assert(states[n] == states[n - 1].insert(record_key(xs[n - 1]), xs[n - 1]));
    }
}

} // verus!
