//! The mapping from series key to last known value, in insertion order.

use vstd::prelude::*;
use crate::series::{KeyView, SeriesKey};

verus! {

/// The keys of a sequence of series keys, as contracts see them.
pub open spec fn key_views(keys: Seq<SeriesKey>) -> Seq<KeyView> {
    keys.map_values(|k: SeriesKey| k@)
}

/// The number of values that are present.
pub open spec fn count_ready<T>(values: Seq<Option<T>>) -> nat
    decreases values.len(),
{
    if values.len() == 0 {
        0
    } else {
        count_ready(values.drop_last()) + if values.last() is Some { 1nat } else { 0nat }
    }
}

/// Whether every value is present.
pub open spec fn all_ready<T>(values: Seq<Option<T>>) -> bool {
    forall|i: int| 0 <= i < values.len() ==> (#[trigger] values[i]) is Some
}

/// The value that stands beside `key`, or `None` where `key` is not among `keys`.
pub open spec fn lookup<T>(keys: Seq<KeyView>, values: Seq<Option<T>>, key: KeyView) -> Option<
    Option<T>,
> {
    if keys.contains(key) {
        Some(values[keys.index_of(key)])
    } else {
        None
    }
}

/// No more values are present than there are values.
pub proof fn lemma_count_ready_bound<T>(values: Seq<Option<T>>)
    ensures
        count_ready(values) <= values.len(),
    decreases values.len(),
{
    if values.len() > 0 {
        lemma_count_ready_bound(values.drop_last());
    }
}

/// Every value is present exactly when as many are present as there are values.
pub proof fn lemma_all_ready_iff_count<T>(values: Seq<Option<T>>)
    ensures
        all_ready(values) <==> count_ready(values) == values.len(),
    decreases values.len(),
{
    if values.len() > 0 {
        let front = values.drop_last();
        lemma_all_ready_iff_count(front);
        lemma_count_ready_bound(front);
        if all_ready(values) {
            assert forall|i: int| 0 <= i < front.len() implies (#[trigger] front[i]) is Some by {
                assert(front[i] == values[i]);
            }
            assert(values[values.len() - 1] is Some);
        }
        if count_ready(values) == values.len() {
            assert forall|i: int| 0 <= i < values.len() implies (#[trigger] values[i]) is Some by {
                if i < front.len() {
                    assert(front[i] == values[i]);
                }
            }
        }
    }
}

/// Among distinct keys, the value recorded for the key at a place is the value at that place.
pub proof fn lemma_lookup_at<T>(keys: Seq<KeyView>, values: Seq<Option<T>>, place: int)
    requires
        keys.no_duplicates(),
        0 <= place < keys.len(),
    ensures
        keys.contains(keys[place]),
        keys.index_of(keys[place]) == place,
        lookup(keys, values, keys[place]) == Some(values[place]),
{
    assert(keys.contains(keys[place]));
    assert(keys[keys.index_of(keys[place])] == keys[place]);
}

/// Recording a value for one key changes what is recorded for no other key.
pub proof fn lemma_insert_keeps_others<T>(
    keys: Seq<KeyView>,
    values: Seq<Option<T>>,
    key: KeyView,
    value: Option<T>,
    other: KeyView,
)
    requires
        keys.len() == values.len(),
        keys.no_duplicates(),
        other != key,
    ensures
        keys.contains(key) ==> lookup(keys, values.update(keys.index_of(key), value), other)
            == lookup(keys, values, other),
        !keys.contains(key) ==> lookup(keys.push(key), values.push(value), other) == lookup(
            keys,
            values,
            other,
        ),
{
    if keys.contains(key) {
        if keys.contains(other) {
            assert(keys[keys.index_of(other)] == other);
            assert(keys[keys.index_of(key)] == key);
        }
    } else {
        let more = keys.push(key);
        assert forall|i: int, j: int| 0 <= i < more.len() && 0 <= j < more.len() && i != j implies more[i]
            != more[j] by {
            if i < keys.len() {
                assert(keys.contains(more[i]));
            }
            if j < keys.len() {
                assert(keys.contains(more[j]));
            }
        }
        if keys.contains(other) {
            let q = keys.index_of(other);
            assert(keys[q] == other);
            assert(more[q] == other);
            lemma_lookup_at(more, values.push(value), q);
        } else {
            if more.contains(other) {
                let r = more.index_of(other);
                assert(more[r] == other);
                assert(keys[r] == other);
            }
        }
    }
}

/// Taking one entry out changes what is recorded for no other key.
pub proof fn lemma_remove_keeps_others<T>(
    keys: Seq<KeyView>,
    values: Seq<Option<T>>,
    place: int,
    key: KeyView,
)
    requires
        keys.len() == values.len(),
        keys.no_duplicates(),
        0 <= place < keys.len(),
        key != keys[place],
    ensures
        keys.remove(place).no_duplicates(),
        lookup(keys.remove(place), values.remove(place), key) == lookup(keys, values, key),
{
    let rest = keys.remove(place);
    assert forall|i: int, j: int| 0 <= i < rest.len() && 0 <= j < rest.len() && i != j implies rest[i]
        != rest[j] by {
        let a = if i < place { i } else { i + 1 };
        let b = if j < place { j } else { j + 1 };
        assert(rest[i] == keys[a] && rest[j] == keys[b]);
    }
    if keys.contains(key) {
        let q = keys.index_of(key);
        assert(keys[q] == key);
        let r = if q < place { q } else { q - 1 };
        assert(rest[r] == key);
        assert(rest.contains(key));
        assert(rest[rest.index_of(key)] == key);
        assert(rest.index_of(key) == r);
    } else {
        if rest.contains(key) {
            let r = rest.index_of(key);
            assert(rest[r] == key);
            let q = if r < place { r } else { r + 1 };
            assert(keys[q] == key);
        }
    }
}

/// A mapping from series key to last known value. Keys stand in the order in
/// which they were inserted, and none stands twice.
pub struct Snapshot<T> {
    entries: Vec<(SeriesKey, Option<T>)>,
}

impl<T> Snapshot<T> {
    /// The keys, in insertion order.
    pub closed spec fn keys(&self) -> Seq<KeyView> {
        self.entries@.map_values(|e: (SeriesKey, Option<T>)| e.0@)
    }

    /// The values, each at the place of its key.
    pub closed spec fn values(&self) -> Seq<Option<T>> {
        self.entries@.map_values(|e: (SeriesKey, Option<T>)| e.1)
    }

    /// Each key has one value, and no key stands twice.
    pub open spec fn wf(&self) -> bool {
        &&& self.keys().len() == self.values().len()
        &&& self.keys().no_duplicates()
    }

    /// The value recorded for `key`, if the key is present.
    pub open spec fn value_of(&self, key: KeyView) -> Option<Option<T>> {
        lookup(self.keys(), self.values(), key)
    }

    /// A mapping without entries.
    pub fn new() -> (snapshot: Self)
        ensures
            snapshot.wf(),
            snapshot.keys() == Seq::<KeyView>::empty(),
            snapshot.values() == Seq::<Option<T>>::empty(),
    {
        let snapshot = Snapshot { entries: Vec::new() };
        assert(snapshot.keys() =~= Seq::<KeyView>::empty());
        assert(snapshot.values() =~= Seq::<Option<T>>::empty());
        snapshot
    }

    /// The number of entries.
    pub fn len(&self) -> (n: usize)
        ensures
            n == self.keys().len(),
            n == self.values().len(),
    {
        self.entries.len()
    }

    /// The place of `key`, if it is present.
    pub fn position(&self, key: &SeriesKey) -> (place: Option<usize>)
        requires
            self.wf(),
        ensures
            match place {
                Some(i) => i < self.keys().len() && self.keys()[i as int] == key@
                    && self.keys().index_of(key@) == i,
                None => !self.keys().contains(key@),
            },
    {
        let mut i: usize = 0;
        while i < self.entries.len()
            invariant
                self.wf(),
                i <= self.entries.len(),
                forall|j: int| 0 <= j < i ==> (#[trigger] self.keys()[j]) != key@,
            decreases self.entries.len() - i,
        {
            if self.entries[i].0.same(key) {
                assert(self.keys()[i as int] == key@);
                assert(self.keys().contains(key@));
                assert(self.keys()[self.keys().index_of(key@)] == key@);
                return Some(i);
            }
            i += 1;
        }
        None
    }

    /// The value recorded for `key`: `None` where the key is absent,
    /// `Some(None)` where it is present and nothing has been received for it.
    pub fn get(&self, key: &SeriesKey) -> (found: Option<&Option<T>>)
        requires
            self.wf(),
        ensures
            match found {
                Some(v) => self.value_of(key@) == Some(*v),
                None => self.value_of(key@) is None,
            },
    {
        match self.position(key) {
            Some(i) => Some(&self.entries[i].1),
            None => None,
        }
    }

    /// The key at place `i`, counted in insertion order.
    pub fn key_at(&self, i: usize) -> (key: Option<&SeriesKey>)
        ensures
            match key {
                Some(k) => i < self.keys().len() && k@ == self.keys()[i as int],
                None => i >= self.keys().len(),
            },
    {
        if i < self.entries.len() {
            Some(&self.entries[i].0)
        } else {
            None
        }
    }

    /// Records `value` for `key` and returns what was recorded before. A new
    /// key goes to the end; a known key keeps its place.
    pub fn insert(&mut self, key: SeriesKey, value: Option<T>) -> (previous: Option<Option<T>>)
        requires
            old(self).wf(),
        ensures
            final(self).wf(),
            previous == old(self).value_of(key@),
            final(self).value_of(key@) == Some(value),
            forall|other: KeyView|
                other != key@ ==> #[trigger] final(self).value_of(other) == old(self).value_of(other),
            match previous {
                Some(_) => {
                    &&& final(self).keys() == old(self).keys()
                    &&& final(self).values() == old(self).values().update(
                        old(self).keys().index_of(key@),
                        value,
                    )
                },
                None => {
                    &&& final(self).keys() == old(self).keys().push(key@)
                    &&& final(self).values() == old(self).values().push(value)
                },
            },
    {
        match self.position(&key) {
            Some(i) => {
                let mut value = value;
                let ghost before = self.entries@;
                core::mem::swap(&mut self.entries[i].1, &mut value);
                proof {
                    assert(self.keys() =~= old(self).keys());
                    assert(self.values() =~= old(self).values().update(i as int, before[i as int].1)
                        .update(i as int, self.entries@[i as int].1));
                    assert forall|other: KeyView| other != key@ implies #[trigger] self.value_of(other)
                        == old(self).value_of(other) by {
                        lemma_insert_keeps_others(
                            old(self).keys(),
                            old(self).values(),
                            key@,
                            self.entries@[i as int].1,
                            other,
                        );
                    }
                }
                Some(value)
            },
            None => {
                self.entries.push((key, value));
                proof {
                    assert(self.keys() =~= old(self).keys().push(key@));
                    assert(self.values() =~= old(self).values().push(value));
                    assert(self.keys()[self.keys().len() - 1] == key@);
                    assert(self.keys().contains(key@));
                    assert(self.keys()[self.keys().index_of(key@)] == key@);
                    assert forall|other: KeyView| other != key@ implies #[trigger] self.value_of(other)
                        == old(self).value_of(other) by {
                        lemma_insert_keeps_others(
                            old(self).keys(),
                            old(self).values(),
                            key@,
                            value,
                            other,
                        );
                    }
                }
                None
            },
        }
    }

    /// Appends an entry whose key is not yet present.
    pub(crate) fn push_new(&mut self, key: SeriesKey, value: Option<T>)
        requires
            old(self).wf(),
            !old(self).keys().contains(key@),
        ensures
            final(self).wf(),
            final(self).keys() == old(self).keys().push(key@),
            final(self).values() == old(self).values().push(value),
    {
        self.entries.push((key, value));
        proof {
            assert(self.keys() =~= old(self).keys().push(key@));
            assert(self.values() =~= old(self).values().push(value));
        }
    }

    /// Takes the entry of `key` out and returns its value, if the key is present.
    pub fn remove(&mut self, key: &SeriesKey) -> (taken: Option<Option<T>>)
        requires
            old(self).wf(),
        ensures
            final(self).wf(),
            taken == old(self).value_of(key@),
            final(self).value_of(key@) is None,
            forall|other: KeyView|
                other != key@ ==> #[trigger] final(self).value_of(other) == old(self).value_of(other),
            match taken {
                Some(_) => {
                    &&& final(self).keys() == old(self).keys().remove(
                        old(self).keys().index_of(key@),
                    )
                    &&& final(self).values() == old(self).values().remove(
                        old(self).keys().index_of(key@),
                    )
                },
                None => {
                    &&& final(self).keys() == old(self).keys()
                    &&& final(self).values() == old(self).values()
                },
            },
    {
        match self.position(key) {
            Some(i) => {
                let entry = self.entries.remove(i);
                proof {
                    assert(self.keys() =~= old(self).keys().remove(i as int));
                    assert(self.values() =~= old(self).values().remove(i as int));
                    assert forall|other: KeyView| other != key@ implies #[trigger] self.value_of(other)
                        == old(self).value_of(other) by {
                        lemma_remove_keeps_others(
                            old(self).keys(),
                            old(self).values(),
                            i as int,
                            other,
                        );
                    }
                    if self.keys().contains(key@) {
                        let r = self.keys().index_of(key@);
                        assert(self.keys()[r] == key@);
                        let q = if r < i { r } else { r + 1 };
                        assert(old(self).keys()[q] == key@);
                    }
                }
                Some(entry.1)
            },
            None => None,
        }
    }

    /// The number of entries whose value is present.
    pub fn ready_count(&self) -> (count: usize)
        ensures
            count == count_ready(self.values()),
            count == self.values().len() <==> all_ready(self.values()),
    {
        let mut count: usize = 0;
        let mut i: usize = 0;
        while i < self.entries.len()
            invariant
                i <= self.entries.len(),
                self.values().len() == self.entries.len(),
                count == count_ready(self.values().take(i as int)),
                count <= i,
            decreases self.entries.len() - i,
        {
            proof {
                let next = self.values().take(i + 1);
                assert(next.drop_last() =~= self.values().take(i as int));
                assert(next.last() == self.values()[i as int]);
            }
            if self.entries[i].1.is_some() {
                count += 1;
            }
            i += 1;
        }
        proof {
            assert(self.values().take(i as int) =~= self.values());
            lemma_all_ready_iff_count(self.values());
        }
        count
    }
}

} // verus!
