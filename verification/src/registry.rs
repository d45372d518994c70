//! A fixed family of cells, one per series, polled and counted as one unit.

use vstd::prelude::*;
use poll_promise::Promise;
use crate::cell::{option_cloned, CellState, PollableValue};
use crate::series::{KeyView, SeriesKey};
use crate::snapshot::{
    key_views, lemma_lookup_at, lemma_remove_keeps_others, lookup, Snapshot,
};

verus! {

/// The part of a registry that the refresh rules read.
pub struct RegistryState<T> {
    /// The tracked keys, in the order given at construction.
    pub keys: Seq<KeyView>,
    /// The cell of each key, at the key's place.
    pub cells: Seq<CellState<T>>,
    /// The fully ready ticks counted since the registry was built.
    pub cycle_ticks: nat,
}

impl<T> RegistryState<T> {
    /// Each key has one cell, and no key stands twice.
    pub open spec fn wf(self) -> bool {
        &&& self.keys.len() == self.cells.len()
        &&& self.keys.no_duplicates()
    }

    /// The last known value of each series.
    pub open spec fn values(self) -> Seq<Option<T>> {
        self.cells.map_values(|c: CellState<T>| c.value)
    }

    /// The registry built anew from the same keys with the values held as
    /// seeds: every fetch is yet to be taken in, and no tick is counted.
    pub open spec fn restarted(self) -> RegistryState<T> {
        RegistryState {
            keys: self.keys,
            cells: self.cells.map_values(|c: CellState<T>| CellState { value: c.value, settled: false }),
            cycle_ticks: 0,
        }
    }

    /// Whether polling every cell once can lead from `self` to `next`.
    pub open spec fn polls_to(self, next: RegistryState<T>) -> bool {
        &&& next.keys == self.keys
        &&& next.cycle_ticks == self.cycle_ticks
        &&& next.cells.len() == self.cells.len()
        &&& forall|i: int|
            0 <= i < self.cells.len() ==> (#[trigger] self.cells[i]).steps_to(next.cells[i])
    }
}

/// Why a registry could not be built.
#[derive(Clone, Copy, Debug, PartialEq, Eq)]
pub enum RegistryError {
    /// The key at this place stands at an earlier place too.
    DuplicateKey(usize),
    /// The key at this place has no entry among the seeds.
    MissingSeed(usize),
}

/// What is wrong with the key at `place`, if anything: it repeats an earlier
/// key, or it has no seed.
pub open spec fn key_fault(keys: Seq<KeyView>, seed_keys: Seq<KeyView>, place: int) -> Option<
    RegistryError,
> {
    if keys.take(place).contains(keys[place]) {
        Some(RegistryError::DuplicateKey(place as usize))
    } else if !seed_keys.contains(keys[place]) {
        Some(RegistryError::MissingSeed(place as usize))
    } else {
        None
    }
}

/// The first fault among the keys, or `None` where a registry can be built.
pub open spec fn first_fault(keys: Seq<KeyView>, seed_keys: Seq<KeyView>) -> Option<RegistryError>
    decreases keys.len(),
{
    if keys.len() == 0 {
        None
    } else {
        match first_fault(keys.drop_last(), seed_keys) {
            Some(e) => Some(e),
            None => key_fault(keys, seed_keys, keys.len() - 1),
        }
    }
}

/// The first fault is the fault of the least place that has one.
pub proof fn lemma_first_fault_is_least(keys: Seq<KeyView>, seed_keys: Seq<KeyView>)
    ensures
        match first_fault(keys, seed_keys) {
            None => forall|j: int|
                0 <= j < keys.len() ==> (#[trigger] key_fault(keys, seed_keys, j)) is None,
            Some(e) => exists|p: int|
                {
                    &&& 0 <= p < keys.len()
                    &&& #[trigger] key_fault(keys, seed_keys, p) == Some(e)
                    &&& forall|j: int|
                        0 <= j < p ==> (#[trigger] key_fault(keys, seed_keys, j)) is None
                },
        },
    decreases keys.len(),
{
    if keys.len() > 0 {
        let front = keys.drop_last();
        lemma_first_fault_is_least(front, seed_keys);
        assert forall|j: int| 0 <= j < front.len() implies #[trigger] key_fault(
            front,
            seed_keys,
            j,
        ) == key_fault(keys, seed_keys, j) by {
            assert(front.take(j) =~= keys.take(j));
        }
        match first_fault(front, seed_keys) {
            Some(e) => {
                let p = choose|p: int|
                    {
                        &&& 0 <= p < front.len()
                        &&& #[trigger] key_fault(front, seed_keys, p) == Some(e)
                        &&& forall|j: int|
                            0 <= j < p ==> (#[trigger] key_fault(front, seed_keys, j)) is None
                    };
                assert(key_fault(keys, seed_keys, p) == Some(e));
                assert forall|j: int| 0 <= j < p implies (#[trigger] key_fault(
                    keys,
                    seed_keys,
                    j,
                )) is None by {
                    assert(key_fault(front, seed_keys, j) is None);
                }
            },
            None => {
                let last = keys.len() - 1;
                assert forall|j: int| 0 <= j < last implies (#[trigger] key_fault(
                    keys,
                    seed_keys,
                    j,
                )) is None by {
                    assert(key_fault(front, seed_keys, j) is None);
                }
                if key_fault(keys, seed_keys, last) is Some {
                    assert(key_fault(keys, seed_keys, last) == first_fault(keys, seed_keys));
                }
            },
        }
    }
}

/// The fault found at `place` is the first one where no earlier place has a fault.
pub proof fn lemma_fault_found(keys: Seq<KeyView>, seed_keys: Seq<KeyView>, place: int)
    requires
        0 <= place < keys.len(),
        key_fault(keys, seed_keys, place) is Some,
        forall|j: int| 0 <= j < place ==> (#[trigger] key_fault(keys, seed_keys, j)) is None,
    ensures
        first_fault(keys, seed_keys) == key_fault(keys, seed_keys, place),
{
    lemma_first_fault_is_least(keys, seed_keys);
    match first_fault(keys, seed_keys) {
        None => {
            assert(key_fault(keys, seed_keys, place) is None);
        },
        Some(e) => {
            let p = choose|p: int|
                {
                    &&& 0 <= p < keys.len()
                    &&& #[trigger] key_fault(keys, seed_keys, p) == Some(e)
                    &&& forall|j: int|
                        0 <= j < p ==> (#[trigger] key_fault(keys, seed_keys, j)) is None
                };
            if p < place {
                assert(key_fault(keys, seed_keys, p) is None);
            }
            if place < p {
                assert(key_fault(keys, seed_keys, place) is None);
            }
        },
    }
}

/// Keys without a fault are distinct, and each has a seed.
pub proof fn lemma_no_fault(keys: Seq<KeyView>, seed_keys: Seq<KeyView>)
    requires
        forall|j: int| 0 <= j < keys.len() ==> (#[trigger] key_fault(keys, seed_keys, j)) is None,
    ensures
        first_fault(keys, seed_keys) is None,
        keys.no_duplicates(),
        forall|j: int| 0 <= j < keys.len() ==> seed_keys.contains(#[trigger] keys[j]),
{
    lemma_first_fault_is_least(keys, seed_keys);
    if first_fault(keys, seed_keys) is Some {
        let e = first_fault(keys, seed_keys)->0;
        let p = choose|p: int|
            {
                &&& 0 <= p < keys.len()
                &&& #[trigger] key_fault(keys, seed_keys, p) == Some(e)
                &&& forall|j: int| 0 <= j < p ==> (#[trigger] key_fault(keys, seed_keys, j)) is None
            };
        assert(key_fault(keys, seed_keys, p) is None);
    }
    assert forall|i: int, j: int| 0 <= i < keys.len() && 0 <= j < keys.len() && i != j implies keys[i]
        != keys[j] by {
        let (a, b) = if i < j { (i, j) } else { (j, i) };
        assert(key_fault(keys, seed_keys, b) is None);
        if keys[a] == keys[b] {
            assert(keys.take(b)[a] == keys[b]);
            assert(keys.take(b).contains(keys[b]));
        }
    }
    assert forall|j: int| 0 <= j < keys.len() implies seed_keys.contains(#[trigger] keys[j]) by {
        assert(key_fault(keys, seed_keys, j) is None);
    }
}

/// A restarted registry is the one that is built from the same keys with the
/// values held as seeds: the keys have no fault against themselves, each cell
/// holds the value recorded for its key, no fetch is taken in and no tick counted.
pub proof fn lemma_restart_builds_from_values<T>(state: RegistryState<T>)
    requires
        state.wf(),
    ensures
        first_fault(state.keys, state.keys) is None,
        state.restarted().wf(),
        state.restarted().keys == state.keys,
        state.restarted().values() == state.values(),
        state.restarted().cycle_ticks == 0,
        forall|i: int|
            0 <= i < state.keys.len() ==> {
                &&& lookup(state.keys, state.values(), state.keys[i]) == Some(
                    (#[trigger] state.restarted().cells[i]).value,
                )
                &&& !state.restarted().cells[i].settled
            },
{
    assert forall|j: int| 0 <= j < state.keys.len() implies (#[trigger] key_fault(
        state.keys,
        state.keys,
        j,
    )) is None by {
        if state.keys.take(j).contains(state.keys[j]) {
            let k = state.keys.take(j).index_of(state.keys[j]);
            assert(state.keys.take(j)[k] == state.keys[j]);
            assert(state.keys[k] == state.keys[j]);
        }
        assert(state.keys.contains(state.keys[j]));
    }
    lemma_no_fault(state.keys, state.keys);
    assert(state.restarted().values() =~= state.values());
    assert forall|i: int| 0 <= i < state.keys.len() implies lookup(
        state.keys,
        state.values(),
        state.keys[i],
    ) == Some((#[trigger] state.restarted().cells[i]).value) by {
        lemma_lookup_at(state.keys, state.values(), i);
    }
}

/// Whether the key at `place` stands at an earlier place too.
fn occurs_before(keys: &Vec<SeriesKey>, place: usize) -> (found: bool)
    requires
        place < keys@.len(),
    ensures
        found == key_views(keys@).take(place as int).contains(keys@[place as int]@),
{
    let ghost earlier = key_views(keys@).take(place as int);
    let mut j: usize = 0;
    while j < place
        invariant
            j <= place < keys@.len(),
            earlier == key_views(keys@).take(place as int),
            forall|k: int| 0 <= k < j ==> (#[trigger] earlier[k]) != keys@[place as int]@,
        decreases place - j,
    {
        if keys[j].same(&keys[place]) {
            assert(earlier[j as int] == keys@[place as int]@);
            return true;
        }
        j += 1;
    }
    false
}

/// A fixed family of cells, one per tracked series, with the tick counter they share.
#[verifier::reject_recursive_types(T)]
pub struct SeriesRegistry<T: 'static + Send + Clone> {
    keys: Vec<SeriesKey>,
    cells: Vec<PollableValue<T>>,
    cycle_ticks: u16,
}

impl<T: 'static + Send + Clone> View for SeriesRegistry<T> {
    type V = RegistryState<T>;

    closed spec fn view(&self) -> RegistryState<T> {
        RegistryState {
            keys: key_views(self.keys@),
            cells: self.cells@.map_values(|c: PollableValue<T>| c@),
            cycle_ticks: self.cycle_ticks as nat,
        }
    }
}

impl<T: 'static + Send + Clone> SeriesRegistry<T> {
    /// The fetch in flight for each series, at the place of its key.
    pub closed spec fn fetches(&self) -> Seq<Promise<Option<T>>> {
        self.cells@.map_values(|c: PollableValue<T>| c.fetch())
    }

    /// The tracked keys, in the order given at construction.
    pub closed spec fn series_keys(&self) -> Seq<SeriesKey> {
        self.keys@
    }

    /// Each key has one cell with one fetch, and no key stands twice.
    pub open spec fn wf(&self) -> bool {
        &&& self@.wf()
        &&& self@.keys == key_views(self.series_keys())
        &&& self.fetches().len() == self@.cells.len()
    }

    /// Builds one cell per key, seeded with the value that `seeds` records for
    /// the key and holding the fetch that `fetch_factory` starts for it.
    ///
    /// Fails, before any fetch is started, where a key stands twice or has no
    /// entry among the seeds; an entry whose value is `None` is a seed.
    pub fn new<F: Fn(&SeriesKey) -> Promise<Option<T>>>(
        keys: Vec<SeriesKey>,
        seeds: Snapshot<T>,
        fetch_factory: &F,
    ) -> (built: Result<Self, RegistryError>)
        requires
            seeds.wf(),
            forall|key: SeriesKey| call_requires(*fetch_factory, (&key,)),
        ensures
            match built {
                Ok(registry) => {
                    &&& first_fault(key_views(keys@), seeds.keys()) is None
                    &&& registry.wf()
                    &&& registry.series_keys() == keys@
                    &&& registry@.cycle_ticks == 0
                    &&& forall|i: int|
                        0 <= i < keys@.len() ==> {
                            &&& seeds.value_of(keys@[i]@) == Some(
                                (#[trigger] registry@.cells[i]).value,
                            )
                            &&& !registry@.cells[i].settled
                        }
                    &&& forall|i: int|
                        0 <= i < keys@.len() ==> call_ensures(
                            *fetch_factory,
                            (&keys@[i],),
                            #[trigger] registry.fetches()[i],
                        )
                },
                Err(e) => first_fault(key_views(keys@), seeds.keys()) == Some(e),
            },
    {
        let ghost kv = key_views(keys@);
        let ghost seed_keys = seeds.keys();
        let ghost seed_values = seeds.values();
        let mut i: usize = 0;
        while i < keys.len()
            invariant
                i <= keys.len(),
                kv == key_views(keys@),
                seeds.wf(),
                seed_keys == seeds.keys(),
                forall|j: int| 0 <= j < i ==> (#[trigger] key_fault(kv, seed_keys, j)) is None,
            decreases keys.len() - i,
        {
            if occurs_before(&keys, i) {
                proof {
                    lemma_fault_found(kv, seed_keys, i as int);
                }
                return Err(RegistryError::DuplicateKey(i));
            }
            if seeds.position(&keys[i]).is_none() {
                proof {
                    lemma_fault_found(kv, seed_keys, i as int);
                }
                return Err(RegistryError::MissingSeed(i));
            }
            i += 1;
        }
        proof {
            lemma_no_fault(kv, seed_keys);
        }
        let mut seeds = seeds;
        let mut cells: Vec<PollableValue<T>> = Vec::new();
        let mut i: usize = 0;
        while i < keys.len()
            invariant
                i <= keys.len(),
                kv == key_views(keys@),
                kv.no_duplicates(),
                seeds.wf(),
                cells.len() == i,
                forall|key: SeriesKey| call_requires(*fetch_factory, (&key,)),
                forall|j: int|
                    0 <= j < i ==> {
                        &&& lookup(seed_keys, seed_values, kv[j]) == Some((#[trigger] cells@[j])@.value)
                        &&& !cells@[j]@.settled
                        &&& call_ensures(*fetch_factory, (&keys@[j],), cells@[j].fetch())
                    },
                forall|j: int|
                    i <= j < keys.len() ==> {
                        &&& seeds.keys().contains(#[trigger] kv[j])
                        &&& seeds.value_of(kv[j]) == lookup(seed_keys, seed_values, kv[j])
                    },
            decreases keys.len() - i,
        {
            let ghost before_keys = seeds.keys();
            let ghost before_values = seeds.values();
            assert(seeds.keys().contains(kv[i as int]));
            let seed = match seeds.remove(&keys[i]) {
                Some(value) => value,
                None => unreached(),
            };
            let fetch = fetch_factory(&keys[i]);
            cells.push(PollableValue::new(seed, fetch));
            proof {
                let place = before_keys.index_of(kv[i as int]);
                assert(before_keys[place] == kv[i as int]);
                assert forall|j: int| i < j < keys.len() implies {
                    &&& seeds.keys().contains(#[trigger] kv[j])
                    &&& seeds.value_of(kv[j]) == lookup(seed_keys, seed_values, kv[j])
                } by {
                    assert(kv[j] != kv[i as int]);
                    lemma_remove_keeps_others(before_keys, before_values, place, kv[j]);
                    assert(before_keys.contains(kv[j]));
                }
            }
            i += 1;
        }
        let registry = SeriesRegistry { keys, cells, cycle_ticks: 0 };
        proof {
            assert(registry@.cells.len() == kv.len());
            assert(registry.fetches().len() == kv.len());
        }
        Ok(registry)
    }

    /// The number of tracked series.
    pub fn len(&self) -> (n: usize)
        requires
            self.wf(),
        ensures
            n == self@.keys.len(),
    {
        self.keys.len()
    }

    /// The fully ready ticks counted since the registry was built.
    pub fn cycle_ticks(&self) -> (ticks: u16)
        ensures
            ticks == self@.cycle_ticks,
    {
        self.cycle_ticks
    }

    /// Counts one fully ready tick.
    pub(crate) fn count_tick(&mut self)
        requires
            old(self).wf(),
            old(self)@.cycle_ticks < u16::MAX,
        ensures
            final(self).wf(),
            final(self)@ == (RegistryState {
                cycle_ticks: old(self)@.cycle_ticks + 1,
                ..old(self)@
            }),
            final(self).series_keys() == old(self).series_keys(),
            final(self).fetches() == old(self).fetches(),
    {
        self.cycle_ticks = self.cycle_ticks + 1;
    }

    /// Replaces every cell by one that holds the same value and a fetch newly
    /// started by `fetch_factory`, and sets the tick counter to zero: what
    /// `new` builds from the same keys with the values held as seeds.
    pub(crate) fn restart<F: Fn(&SeriesKey) -> Promise<Option<T>>>(&mut self, fetch_factory: &F)
        requires
            old(self).wf(),
            forall|key: SeriesKey| call_requires(*fetch_factory, (&key,)),
        ensures
            final(self).wf(),
            final(self)@ == old(self)@.restarted(),
            final(self).series_keys() == old(self).series_keys(),
            forall|i: int|
                0 <= i < final(self).fetches().len() ==> call_ensures(
                    *fetch_factory,
                    (&final(self).series_keys()[i],),
                    #[trigger] final(self).fetches()[i],
                ),
    {
        let mut i: usize = 0;
        while i < self.cells.len()
            invariant
                i <= self.cells.len(),
                old(self).wf(),
                self.keys == old(self).keys,
                self.cells.len() == old(self).cells.len(),
                forall|key: SeriesKey| call_requires(*fetch_factory, (&key,)),
                forall|j: int|
                    0 <= j < i ==> {
                        &&& (#[trigger] self.cells@[j])@ == (CellState {
                            value: old(self).cells@[j]@.value,
                            settled: false,
                        })
                        &&& call_ensures(*fetch_factory, (&self.keys@[j],), self.cells@[j].fetch())
                    },
                forall|j: int| i <= j < self.cells.len() ==> self.cells@[j] == old(self).cells@[j],
            decreases self.cells.len() - i,
        {
            let value = self.cells[i].take_value();
            let fetch = fetch_factory(&self.keys[i]);
            self.cells[i] = PollableValue::new(value, fetch);
            i += 1;
        }
        self.cycle_ticks = 0;
        proof {
            assert(self@.cells =~= old(self)@.restarted().cells);
        }
    }

    /// Polls every cell and returns the value that each now holds.
    pub fn poll_all(&mut self) -> (snapshot: Snapshot<T>)
        requires
            old(self).wf(),
        ensures
            final(self).wf(),
            old(self)@.polls_to(final(self)@),
            final(self).series_keys() == old(self).series_keys(),
            snapshot.wf(),
            snapshot.keys() == final(self)@.keys,
            snapshot.values().len() == final(self)@.cells.len(),
            forall|i: int|
                0 <= i < final(self)@.cells.len() ==> option_cloned(
                    (#[trigger] final(self)@.cells[i]).value,
                    snapshot.values()[i],
                ),
    {
        let mut snapshot = Snapshot::new();
        let mut i: usize = 0;
        while i < self.cells.len()
            invariant
                i <= self.cells.len(),
                self.keys == old(self).keys,
                self.cycle_ticks == old(self).cycle_ticks,
                self.cells.len() == old(self).cells.len(),
                old(self).wf(),
                forall|j: int|
                    0 <= j < i ==> (#[trigger] old(self)@.cells[j]).steps_to(self@.cells[j]),
                forall|j: int| i <= j < self.cells.len() ==> self.cells@[j] == old(self).cells@[j],
                snapshot.wf(),
                snapshot.keys() == self@.keys.take(i as int),
                snapshot.values().len() == i,
                forall|j: int|
                    0 <= j < i ==> option_cloned(
                        (#[trigger] self@.cells[j]).value,
                        snapshot.values()[j],
                    ),
            decreases self.cells.len() - i,
        {
            let ghost before = self@.cells;
            let ghost held = snapshot.values();
            let latest = self.cells[i].poll();
            proof {
                assert(self@.keys.take(i + 1) =~= self@.keys.take(i as int).push(
                    self.keys@[i as int]@,
                ));
                assert forall|j: int| 0 <= j < i implies self@.cells[j] == before[j] by {}
                assert(self@.keys[i as int] == self.keys@[i as int]@);
                assert(!self@.keys.take(i as int).contains(self.keys@[i as int]@));
            }
            snapshot.push_new(self.keys[i].clone(), latest);
            proof {
                assert forall|j: int| 0 <= j < i + 1 implies option_cloned(
                    (#[trigger] self@.cells[j]).value,
                    snapshot.values()[j],
                ) by {
                    if j < i {
                        assert(self@.cells[j] == before[j]);
                        assert(snapshot.values()[j] == held[j]);
                    }
                }
            }
            i += 1;
        }
        proof {
            assert(self@.keys.take(i as int) =~= self@.keys);
        }
        snapshot
    }
}

} // verus!
