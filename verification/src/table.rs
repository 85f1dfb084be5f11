//! A keyed store of records.
//!
//! A table maps a text key to one record. It is read with `has` and `get` and
//! written with `set`; `take` hands a record out so that it can be changed and
//! set again. A key that was never set has no record.

use vstd::prelude::*;

verus! {

struct Entry<T> {
    key: String,
    value: T,
}

/// A map from text keys to records of type `T`.
pub struct Table<T> {
    entries: Vec<Entry<T>>,
}

spec fn sum_over<T>(entries: Seq<Entry<T>>, weight: spec_fn(T) -> nat) -> nat
    decreases entries.len(),
{
    if entries.len() == 0 {
        0
    } else {
        sum_over(entries.drop_last(), weight) + weight(entries.last().value)
    }
}

proof fn lemma_sum_push<T>(entries: Seq<Entry<T>>, entry: Entry<T>, weight: spec_fn(T) -> nat)
    ensures
        sum_over(entries.push(entry), weight) == sum_over(entries, weight) + weight(entry.value),
{
    assert(entries.push(entry).drop_last() =~= entries);
}

proof fn lemma_sum_update<T>(
    entries: Seq<Entry<T>>,
    i: int,
    entry: Entry<T>,
    weight: spec_fn(T) -> nat,
)
    requires
        0 <= i < entries.len(),
    ensures
        sum_over(entries.update(i, entry), weight) + weight(entries[i].value) == sum_over(
            entries,
            weight,
        ) + weight(entry.value),
    decreases entries.len(),
{
    if i == entries.len() - 1 {
        assert(entries.update(i, entry).drop_last() =~= entries.drop_last());
    } else {
        lemma_sum_update(entries.drop_last(), i, entry, weight);
        assert(entries.update(i, entry).drop_last() =~= entries.drop_last().update(i, entry));
    }
}

proof fn lemma_sum_remove<T>(entries: Seq<Entry<T>>, i: int, weight: spec_fn(T) -> nat)
    requires
        0 <= i < entries.len(),
    ensures
        sum_over(entries.remove(i), weight) + weight(entries[i].value) == sum_over(
            entries,
            weight,
        ),
    decreases entries.len(),
{
    if i == entries.len() - 1 {
        assert(entries.remove(i) =~= entries.drop_last());
    } else {
        lemma_sum_remove(entries.drop_last(), i, weight);
        assert(entries.remove(i).drop_last() =~= entries.drop_last().remove(i));
    }
}

impl<T> View for Table<T> {
    type V = Map<Seq<char>, T>;

    closed spec fn view(&self) -> Map<Seq<char>, T> {
        Map::new(|key: Seq<char>| self.holds(key), |key: Seq<char>| self.record_at(self.slot(key)))
    }
}

impl<T> Table<T> {
    spec fn key_at(&self, i: int) -> Seq<char> {
        self.entries@[i].key@
    }

    spec fn record_at(&self, i: int) -> T {
        self.entries@[i].value
    }

    spec fn holds(&self, key: Seq<char>) -> bool {
        exists|i: int| 0 <= i < self.entries@.len() && #[trigger] self.key_at(i) == key
    }

    spec fn slot(&self, key: Seq<char>) -> int {
        choose|i: int| 0 <= i < self.entries@.len() && #[trigger] self.key_at(i) == key
    }

    /// No key is held twice.
    pub closed spec fn wf(&self) -> bool {
        forall|i: int, j: int|
            0 <= i < j < self.entries@.len() ==> #[trigger] self.key_at(i) != #[trigger] self.key_at(
                j,
            )
    }

    /// The sum of `weight` over the records held.
    pub closed spec fn total(&self, weight: spec_fn(T) -> nat) -> nat {
        sum_over(self.entries@, weight)
    }

    proof fn lemma_slot(&self, i: int)
        requires
            self.wf(),
            0 <= i < self.entries@.len(),
        ensures
            self@.contains_key(self.key_at(i)),
            self@[self.key_at(i)] == self.record_at(i),
            self.slot(self.key_at(i)) == i,
    {
        let j = self.slot(self.key_at(i));
        assert(self.key_at(j) == self.key_at(i));
    }

    /// A table without records.
    pub fn new() -> (table: Self)
        ensures
            table.wf(),
            table@ == Map::<Seq<char>, T>::empty(),
            forall|weight: spec_fn(T) -> nat| #[trigger] table.total(weight) == 0,
    {
        let table = Table { entries: Vec::new() };
        assert(table@ =~= Map::<Seq<char>, T>::empty());
        table
    }

    fn find(&self, key: &String) -> (found: Option<usize>)
        requires
            self.wf(),
        ensures
            match found {
                Some(i) => i < self.entries@.len() && self.key_at(i as int) == key@
                    && self@.contains_key(key@) && self@[key@] == self.record_at(i as int),
                None => !self@.contains_key(key@) && forall|j: int|
                    0 <= j < self.entries@.len() ==> #[trigger] self.key_at(j) != key@,
            },
    {
        let mut i: usize = 0;
        while i < self.entries.len()
            invariant
                self.wf(),
                i <= self.entries@.len(),
                forall|j: int| 0 <= j < i ==> #[trigger] self.key_at(j) != key@,
            decreases self.entries@.len() - i,
        {
            if self.entries[i].key == *key {
                proof {
                    self.lemma_slot(i as int);
                }
                return Some(i);
            }
            i += 1;
        }
        None
    }

    /// Whether `key` has a record.
    pub fn has(&self, key: &String) -> (held: bool)
        requires
            self.wf(),
        ensures
            held == self@.contains_key(key@),
    {
        self.find(key).is_some()
    }

    /// The record of `key`, if it has one.
    pub fn get(&self, key: &String) -> (record: Option<&T>)
        requires
            self.wf(),
        ensures
            match record {
                Some(value) => self@.contains_key(key@) && *value == self@[key@],
                None => !self@.contains_key(key@),
            },
    {
        match self.find(key) {
            Some(i) => Some(&self.entries[i].value),
            None => None,
        }
    }

    /// Sets the record of `key`, in place of the one it had.
    pub fn set(&mut self, key: String, value: T)
        requires
            old(self).wf(),
        ensures
            final(self).wf(),
            final(self)@ == old(self)@.insert(key@, value),
            forall|weight: spec_fn(T) -> nat| #[trigger]
                final(self).total(weight) + (if old(self)@.contains_key(key@) {
                    weight(old(self)@[key@])
                } else {
                    0
                }) == old(self).total(weight) + weight(value),
    {
        let ghost before = *self;
        let ghost text = key@;
        match self.find(&key) {
            Some(i) => {
                self.entries.set(i, Entry { key, value });
                proof {
                    let after = *self;
                    assert forall|j: int| 0 <= j < after.entries@.len() implies #[trigger]
                        after.key_at(j) == before.key_at(j) by {}
                    assert(after.wf());
                    assert forall|k: Seq<char>| #[trigger]
                        after@.contains_key(k) == before@.insert(text, value).contains_key(
                            k,
                        ) by {
                        if before.holds(k) {
                            assert(after.key_at(before.slot(k)) == k);
                        }
                        if after.holds(k) {
                            assert(before.key_at(after.slot(k)) == k);
                        }
                    }
                    assert forall|k: Seq<char>| after@.contains_key(k) implies #[trigger] after@[k]
                        == before@.insert(text, value)[k] by {
                        let j = after.slot(k);
                        after.lemma_slot(j);
                        before.lemma_slot(j);
                    }
                    assert(after@ =~= before@.insert(text, value));
                    assert forall|weight: spec_fn(T) -> nat| #[trigger]
                        after.total(weight) + weight(before@[text]) == before.total(weight)
                            + weight(value) by {
                        lemma_sum_update(
                            before.entries@,
                            i as int,
                            after.entries@[i as int],
                            weight,
                        );
                        assert(after.entries@ =~= before.entries@.update(
                            i as int,
                            after.entries@[i as int],
                        ));
                    }
                }
            },
            None => {
                self.entries.push(Entry { key, value });
                proof {
                    let after = *self;
                    let n = before.entries@.len() as int;
                    assert forall|j: int| 0 <= j < n implies #[trigger] after.key_at(j)
                        == before.key_at(j) by {}
                    assert(after.key_at(n) == text);
                    assert(after.wf());
                    assert forall|k: Seq<char>| #[trigger]
                        after@.contains_key(k) == before@.insert(text, value).contains_key(
                            k,
                        ) by {
                        if before.holds(k) {
                            assert(after.key_at(before.slot(k)) == k);
                        }
                        if after.holds(k) && k != text {
                            assert(before.key_at(after.slot(k)) == k);
                        }
                    }
                    assert forall|k: Seq<char>| after@.contains_key(k) implies #[trigger] after@[k]
                        == before@.insert(text, value)[k] by {
                        let j = after.slot(k);
                        after.lemma_slot(j);
                        if j < n {
                            before.lemma_slot(j);
                        }
                    }
                    assert(after@ =~= before@.insert(text, value));
                    assert forall|weight: spec_fn(T) -> nat| #[trigger]
                        after.total(weight) == before.total(weight) + weight(value) by {
                        lemma_sum_push(before.entries@, after.entries@[n], weight);
                        assert(after.entries@ =~= before.entries@.push(after.entries@[n]));
                    }
                }
            },
        }
    }

    /// Hands out the record of `key`, which then has none.
    pub fn take(&mut self, key: &String) -> (record: Option<T>)
        requires
            old(self).wf(),
        ensures
            final(self).wf(),
            final(self)@ == old(self)@.remove(key@),
            record == (if old(self)@.contains_key(key@) {
                Some(old(self)@[key@])
            } else {
                None
            }),
            forall|weight: spec_fn(T) -> nat| #[trigger]
                final(self).total(weight) + (if old(self)@.contains_key(key@) {
                    weight(old(self)@[key@])
                } else {
                    0
                }) == old(self).total(weight),
    {
        let ghost before = *self;
        match self.find(key) {
            Some(i) => {
                let entry = self.entries.remove(i);
                proof {
                    let after = *self;
                    let n = after.entries@.len() as int;
                    assert forall|j: int| 0 <= j < n implies #[trigger] after.key_at(j) == (if j
                        < i {
                        before.key_at(j)
                    } else {
                        before.key_at(j + 1)
                    }) by {}
                    assert forall|a: int, b: int| 0 <= a < b < n implies #[trigger] after.key_at(a)
                        != #[trigger] after.key_at(b) by {
                        let a0 = if a < i { a } else { a + 1 };
                        let b0 = if b < i { b } else { b + 1 };
                        assert(before.key_at(a0) != before.key_at(b0));
                    }
                    assert(after.wf());
                    assert forall|k: Seq<char>| #[trigger]
                        after@.contains_key(k) == before@.remove(key@).contains_key(k) by {
                        if before.holds(k) && k != key@ {
                            let j = before.slot(k);
                            let j1 = if j < i { j } else { j - 1 };
                            assert(after.key_at(j1) == k);
                        }
                        if after.holds(k) {
                            let j = after.slot(k);
                            let j0 = if j < i { j } else { j + 1 };
                            assert(before.key_at(j0) == k);
                            assert(before.key_at(i as int) == key@);
                        }
                    }
                    assert forall|k: Seq<char>| after@.contains_key(k) implies #[trigger] after@[k]
                        == before@.remove(key@)[k] by {
                        let j = after.slot(k);
                        let j0 = if j < i { j } else { j + 1 };
                        after.lemma_slot(j);
                        before.lemma_slot(j0);
                    }
                    assert(after@ =~= before@.remove(key@));
                    assert forall|weight: spec_fn(T) -> nat| #[trigger]
                        after.total(weight) + weight(before@[key@]) == before.total(weight) by {
                        lemma_sum_remove(before.entries@, i as int, weight);
                    }
                }
                Some(entry.value)
            },
            None => {
                assert(self@ =~= self@.remove(key@));
                None
            },
        }
    }
}

} // verus!
