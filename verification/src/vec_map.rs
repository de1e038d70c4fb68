//! A small map kept in a vector: distinct keys, in the order in which they
//! were put in.
use vstd::prelude::*;

verus! {

/// A key that can be compared while the program runs. `Model` is what the key
/// means in contracts: two keys are the same when their models are equal.
pub trait MapKey: Sized {
    type Model;

    spec fn model(&self) -> Self::Model;

    fn same(&self, other: &Self) -> (result: bool)
        ensures
            result == (self.model() == other.model()),
    ;
}

impl MapKey for String {
    type Model = Seq<char>;

    open spec fn model(&self) -> Seq<char> {
        self@
    }

    fn same(&self, other: &Self) -> (result: bool) {
        *self == *other
    }
}

pub struct VecMap<K: MapKey, T> {
    entries: Vec<(K, T)>,
}

impl<K: MapKey, T> View for VecMap<K, T> {
    type V = Map<K::Model, T>;

    closed spec fn view(&self) -> Map<K::Model, T> {
        Map::new(
            |k: K::Model| self.has(k),
            |k: K::Model| self.entries@[self.place(k)].1,
        )
    }
}

impl<K: MapKey, T> VecMap<K, T> {
    /// The keys, in the order in which they stand.
    pub closed spec fn keys(&self) -> Seq<K::Model> {
        Seq::new(self.entries@.len(), |i: int| self.entries@[i].0.model())
    }

    spec fn has(&self, k: K::Model) -> bool {
        exists|i: int| 0 <= i < self.entries@.len() && #[trigger] self.entries@[i].0.model() == k
    }

    spec fn place(&self, k: K::Model) -> int {
        choose|i: int| 0 <= i < self.entries@.len() && #[trigger] self.entries@[i].0.model() == k
    }

    /// No key stands twice.
    pub closed spec fn wf(&self) -> bool {
        forall|i: int, j: int|
            0 <= i < j < self.entries@.len() ==> #[trigger] self.entries@[i].0.model()
                != #[trigger] self.entries@[j].0.model()
    }

    /// What the view is at each place, and that nothing else is in it.
    pub proof fn lemma_view(&self)
        requires
            self.wf(),
        ensures
            self@.dom().finite(),
            self@.len() == self.keys().len(),
            self.keys().no_duplicates(),
            forall|k: K::Model| #[trigger] self@.contains_key(k) <==> self.keys().contains(k),
    {
        self.lemma_entries();
        let keys = self.keys();
        assert(keys.no_duplicates());
        keys.unique_seq_to_set();
        assert forall|k: K::Model| #[trigger] self@.contains_key(k) <==> keys.contains(k) by {
            if self.has(k) {
                let i = self.place(k);
                assert(keys[i] == k);
            }
            if keys.contains(k) {
                let i = choose|i: int| 0 <= i < keys.len() && keys[i] == k;
                assert(self.entries@[i].0.model() == k);
            }
        }
        assert(self@.dom() =~= keys.to_set());
    }

    proof fn lemma_entries(&self)
        requires
            self.wf(),
        ensures
            forall|i: int|
                0 <= i < self.entries@.len() ==> self@.contains_key(
                    #[trigger] self.entries@[i].0.model(),
                ) && self@[self.entries@[i].0.model()] == self.entries@[i].1,
    {
        assert forall|i: int| 0 <= i < self.entries@.len() implies self@.contains_key(
            #[trigger] self.entries@[i].0.model(),
        ) && self@[self.entries@[i].0.model()] == self.entries@[i].1 by {
            let k = self.entries@[i].0.model();
            let p = self.place(k);
            assert(self.has(k));
            assert(self.entries@[p].0.model() == k);
            assert(p == i);
        }
    }

    pub fn new() -> (result: Self)
        ensures
            result.wf(),
            result@ == Map::<K::Model, T>::empty(),
            result.keys() == Seq::<K::Model>::empty(),
    {
        let result = VecMap { entries: Vec::new() };
        assert(result@ =~= Map::<K::Model, T>::empty());
        result
    }

    pub fn len(&self) -> (result: usize)
        requires
            self.wf(),
        ensures
            result == self.keys().len(),
            result == self@.len(),
            self@.dom().finite(),
    {
        proof {
            self.lemma_view();
        }
        self.entries.len()
    }

    /// The key at a place.
    pub fn key_at(&self, i: usize) -> (result: &K)
        requires
            self.wf(),
            i < self.keys().len(),
        ensures
            result.model() == self.keys()[i as int],
            self@.contains_key(result.model()),
    {
        proof {
            self.lemma_entries();
        }
        &self.entries[i].0
    }

    /// The value at a place.
    pub fn value_at(&self, i: usize) -> (result: &T)
        requires
            self.wf(),
            i < self.keys().len(),
        ensures
            self@.contains_key(self.keys()[i as int]),
            *result == self@[self.keys()[i as int]],
    {
        proof {
            self.lemma_entries();
        }
        &self.entries[i].1
    }

    /// The value at a place, to be changed.
    pub fn value_at_mut(&mut self, i: usize) -> (result: &mut T)
        requires
            old(self).wf(),
            i < old(self).keys().len(),
        ensures
            old(self)@.contains_key(old(self).keys()[i as int]),
            *result == old(self)@[old(self).keys()[i as int]],
            final(self).wf(),
            final(self).keys() == old(self).keys(),
            final(self)@ == old(self)@.insert(old(self).keys()[i as int], *final(result)),
    {
        proof {
            self.lemma_entries();
        }
        proof {
            let before = *self;
            assert forall|after: Self, value: T|
                #![trigger after.view(), before@.insert(before.keys()[i as int], value)]
                after.entries@ == before.entries@.update(
                    i as int,
                    (before.entries@[i as int].0, value),
                ) implies after.wf() && after.keys() == before.keys() && after@ == before@.insert(
                before.keys()[i as int],
                value,
            ) by {
                Self::lemma_update(before, after, i as int, value);
            }
        }
        &mut self.entries[i].1
    }

    proof fn lemma_update(before: Self, after: Self, i: int, value: T)
        requires
            before.wf(),
            0 <= i < before.entries@.len(),
            after.entries@ == before.entries@.update(i, (before.entries@[i].0, value)),
        ensures
            after.wf(),
            after.keys() == before.keys(),
            after@ == before@.insert(before.keys()[i], value),
    {
        assert(after.keys() =~= before.keys());
        assert forall|a: int, b: int| 0 <= a < b < after.entries@.len() implies #[trigger] after.entries@[a].0.model()
            != #[trigger] after.entries@[b].0.model() by {
            assert(before.entries@[a].0.model() != before.entries@[b].0.model());
        }
        before.lemma_view();
        after.lemma_view();
        before.lemma_entries();
        after.lemma_entries();
        let k = before.keys()[i];
        assert(before.keys().contains(k));
        assert(after@.dom() =~= before@.insert(k, value).dom());
        assert forall|q: K::Model| after@.contains_key(q) implies #[trigger] after@[q]
            == before@.insert(k, value)[q] by {
            let p = choose|p: int| 0 <= p < after.keys().len() && after.keys()[p] == q;
            assert(after.entries@[p].0.model() == q);
            assert(before.entries@[p].0.model() == q);
        }
        assert(after@ =~= before@.insert(k, value));
    }

    /// The place of a key.
    pub fn find(&self, key: &K) -> (result: Option<usize>)
        requires
            self.wf(),
        ensures
            match result {
                Some(i) => i < self.keys().len() && self.keys()[i as int] == key.model()
                    && self@.contains_key(key.model()),
                None => !self@.contains_key(key.model()),
            },
    {
        proof {
            self.lemma_entries();
        }
        let mut i: usize = 0;
        while i < self.entries.len()
            invariant
                i <= self.entries@.len(),
                forall|j: int|
                    0 <= j < i ==> #[trigger] self.entries@[j].0.model() != key.model(),
                forall|j: int|
                    0 <= j < self.entries@.len() ==> self@.contains_key(
                        #[trigger] self.entries@[j].0.model(),
                    ),
            decreases self.entries@.len() - i,
        {
            if self.entries[i].0.same(key) {
                return Some(i);
            }
            i += 1;
        }
        None
    }

    pub fn contains(&self, key: &K) -> (result: bool)
        requires
            self.wf(),
        ensures
            result == self@.contains_key(key.model()),
    {
        self.find(key).is_some()
    }

    pub fn get(&self, key: &K) -> (result: Option<&T>)
        requires
            self.wf(),
        ensures
            match result {
                Some(value) => self@.contains_key(key.model()) && *value == self@[key.model()],
                None => !self@.contains_key(key.model()),
            },
    {
        match self.find(key) {
            Some(i) => Some(self.value_at(i)),
            None => None,
        }
    }

    /// Puts `value` under `key`, in place of what was there.
    pub fn insert(&mut self, key: K, value: T)
        requires
            old(self).wf(),
        ensures
            final(self).wf(),
            final(self)@ == old(self)@.insert(key.model(), value),
    {
        match self.find(&key) {
            Some(i) => {
                *self.value_at_mut(i) = value;
            },
            None => {
                let ghost before = *self;
                let ghost k = key.model();
                self.entries.push((key, value));
                proof {
                    assert(self.entries@.drop_last() =~= before.entries@);
                    Self::lemma_push(before, *self, k, value);
                }
            },
        }
    }

    proof fn lemma_push(before: Self, after: Self, k: K::Model, value: T)
        requires
            before.wf(),
            !before@.contains_key(k),
            after.entries@.len() == before.entries@.len() + 1,
            after.entries@.drop_last() == before.entries@,
            after.entries@.last().0.model() == k,
            after.entries@.last().1 == value,
        ensures
            after.wf(),
            after@ == before@.insert(k, value),
    {
        let n = before.entries@.len() as int;
        before.lemma_entries();
        before.lemma_view();
        assert forall|i: int| 0 <= i < n implies after.entries@[i] == before.entries@[i] by {
            assert(after.entries@.drop_last()[i] == before.entries@[i]);
        }
        assert forall|a: int, b: int| 0 <= a < b < after.entries@.len() implies #[trigger] after.entries@[a].0.model()
            != #[trigger] after.entries@[b].0.model() by {
            assert(after.entries@[a] == before.entries@[a]);
            assert(before@.contains_key(before.entries@[a].0.model()));
            if b < n {
                assert(after.entries@[b] == before.entries@[b]);
            }
        }
        after.lemma_entries();
        after.lemma_view();
        assert(after.keys() =~= before.keys().push(k));
        assert forall|q: K::Model| #[trigger] after@.contains_key(q) <==> before@.insert(
            k,
            value,
        ).contains_key(q) by {
            if after.keys().contains(q) {
                let p = choose|p: int| 0 <= p < after.keys().len() && after.keys()[p] == q;
                if p < n {
                    assert(before.keys()[p] == q);
                }
            }
            if before.keys().contains(q) {
                let p = choose|p: int| 0 <= p < before.keys().len() && before.keys()[p] == q;
                assert(after.keys()[p] == q);
            }
            assert(after.keys()[n] == k);
        }
        assert forall|q: K::Model| after@.contains_key(q) implies #[trigger] after@[q]
            == before@.insert(k, value)[q] by {
            let p = choose|p: int| 0 <= p < after.keys().len() && after.keys()[p] == q;
            assert(after.entries@[p].0.model() == q);
            if p < n {
                assert(after.entries@[p] == before.entries@[p]);
                assert(before@.contains_key(before.entries@[p].0.model()));
            } else {
                assert(after.entries@[p] == after.entries@.last());
            }
        }
        assert(after@ =~= before@.insert(k, value));
    }

    /// Takes `key` out, and says whether it was there.
    pub fn remove(&mut self, key: &K) -> (result: bool)
        requires
            old(self).wf(),
        ensures
            final(self).wf(),
            final(self)@ == old(self)@.remove(key.model()),
            result == old(self)@.contains_key(key.model()),
    {
        match self.find(key) {
            Some(i) => {
                let ghost before = *self;
                let _ = self.entries.remove(i);
                proof {
                    Self::lemma_remove(before, *self, i as int);
                }
                true
            },
            None => {
                assert(self@.remove(key.model()) =~= self@);
                false
            },
        }
    }

    proof fn lemma_remove(before: Self, after: Self, i: int)
        requires
            before.wf(),
            0 <= i < before.entries@.len(),
            after.entries@ == before.entries@.remove(i),
        ensures
            after.wf(),
            after@ == before@.remove(before.keys()[i]),
    {
        let k = before.keys()[i];
        assert(before.entries@[i].0.model() == k);
        assert forall|a: int, b: int| 0 <= a < b < after.entries@.len() implies #[trigger] after.entries@[a].0.model()
            != #[trigger] after.entries@[b].0.model() by {
            let x = if a < i { a } else { a + 1 };
            let y = if b < i { b } else { b + 1 };
            assert(after.entries@[a] == before.entries@[x]);
            assert(after.entries@[b] == before.entries@[y]);
            assert(before.entries@[x].0.model() != before.entries@[y].0.model());
        }
        before.lemma_entries();
        before.lemma_view();
        after.lemma_entries();
        after.lemma_view();
        assert forall|q: K::Model| #[trigger] after@.contains_key(q) <==> before@.remove(
            k,
        ).contains_key(q) by {
            if after.keys().contains(q) {
                let p = choose|p: int| 0 <= p < after.keys().len() && after.keys()[p] == q;
                let x = if p < i { p } else { p + 1 };
                assert(after.entries@[p] == before.entries@[x]);
                assert(before.keys()[x] == q);
                assert(before.entries@[x].0.model() != before.entries@[i].0.model());
            }
            if before.keys().contains(q) && q != k {
                let p = choose|p: int| 0 <= p < before.keys().len() && before.keys()[p] == q;
                let x = if p < i { p } else { p - 1 };
                assert(after.entries@[x] == before.entries@[p]);
                assert(after.keys()[x] == q);
            }
        }
        assert forall|q: K::Model| after@.contains_key(q) implies #[trigger] after@[q] == before@.remove(
            k,
        )[q] by {
            let p = choose|p: int| 0 <= p < after.keys().len() && after.keys()[p] == q;
            let x = if p < i { p } else { p + 1 };
            assert(after.entries@[p] == before.entries@[x]);
            assert(after.entries@[p].0.model() == q);
            assert(before.entries@[x].0.model() == q);
        }
        assert(after@ =~= before@.remove(k));
    }

    /// Keeps the entries whose flag is set, in their order.
    pub fn keep(&mut self, flags: &Vec<bool>)
        requires
            old(self).wf(),
            flags@.len() == old(self).keys().len(),
        ensures
            final(self).wf(),
            forall|k: K::Model| #[trigger]
                final(self)@.contains_key(k) <==> kept(old(self).keys(), flags@, k),
            forall|k: K::Model| #[trigger]
                final(self)@.contains_key(k) ==> old(self)@.contains_key(k) && final(self)@[k]
                    == old(self)@[k],
    {
        let ghost before = *self;
        let ghost names = self.keys();
        proof {
            before.lemma_entries();
            before.lemma_view();
        }
        let mut i: usize = flags.len();
        while i > 0
            invariant
                i <= flags@.len() == names.len(),
                names == before.keys(),
                before.wf(),
                self.wf(),
                self.entries@.len() >= i,
                forall|j: int| 0 <= j < i ==> self.entries@[j] == before.entries@[j],
                forall|k: K::Model| #[trigger]
                    self@.contains_key(k) <==> kept_from(names, flags@, i as int, k),
                forall|k: K::Model| #[trigger]
                    self@.contains_key(k) ==> before@.contains_key(k) && self@[k] == before@[k],
            decreases i,
        {
            i -= 1;
            let ghost mid = *self;
            proof {
                before.lemma_entries();
                before.lemma_view();
                assert(mid.entries@[i as int] == before.entries@[i as int]);
            }
            if !flags[i] {
                let _ = self.entries.remove(i);
                proof {
                    Self::lemma_remove(mid, *self, i as int);
                    assert(mid.keys()[i as int] == names[i as int]);
                }
            }
            proof {
                assert forall|k: K::Model| #[trigger] self@.contains_key(k) <==> kept_from(
                    names,
                    flags@,
                    i as int,
                    k,
                ) by {
                    assert(mid@.contains_key(k) <==> kept_from(names, flags@, i + 1, k));
                    if kept_from(names, flags@, i + 1, k) {
                        let p = choose|p: int|
                            0 <= p < names.len() && #[trigger] names[p] == k && (p < i + 1
                                || flags@[p]);
                        assert(names[p] == k);
                        if p == i && !flags@[i as int] {
                            assert(names[i as int] == k);
                        } else {
                            assert(kept_from(names, flags@, i as int, k));
                            assert(p == i || names[p] != names[i as int]);
                        }
                    }
                    if kept_from(names, flags@, i as int, k) {
                        let p = choose|p: int|
                            0 <= p < names.len() && #[trigger] names[p] == k && (p < i || flags@[p]);
                        assert(names[p] == k);
                        assert(kept_from(names, flags@, i + 1, k));
                        if !flags@[i as int] {
                            assert(p != i);
                            assert(names[p] != names[i as int]);
                        }
                    }
                }
            }
        }
    }

    pub fn clear(&mut self)
        requires
            old(self).wf(),
        ensures
            final(self).wf(),
            final(self)@ == Map::<K::Model, T>::empty(),
    {
        self.entries.clear();
        assert(self@ =~= Map::<K::Model, T>::empty());
    }
}

/// `k` stands in `names` at a place whose flag is set.
pub open spec fn kept<Q>(names: Seq<Q>, flags: Seq<bool>, k: Q) -> bool {
    exists|p: int| 0 <= p < names.len() && #[trigger] names[p] == k && flags[p]
}

/// `k` stands in `names` at a place before `from`, or at one whose flag is set.
spec fn kept_from<Q>(names: Seq<Q>, flags: Seq<bool>, from: int, k: Q) -> bool {
    exists|p: int| 0 <= p < names.len() && #[trigger] names[p] == k && (p < from || flags[p])
}

} // verus!
