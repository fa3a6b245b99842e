//! Label sets: string keys with string values, no key twice.

use vstd::prelude::*;

verus! {

/// The keys and values of a label set, as text.
pub type LabelMap = Map<Seq<char>, Seq<char>>;

/// What a label store holds after an update: a key that `update` gives an
/// empty value is removed, a key that it gives another value has that
/// value, and every other key is as it was.
pub open spec fn merge(current: LabelMap, update: LabelMap) -> LabelMap {
    Map::new(
        |k: Seq<char>|
            if update.contains_key(k) {
                update[k].len() > 0
            } else {
                current.contains_key(k)
            },
        |k: Seq<char>|
            if update.contains_key(k) {
                update[k]
            } else {
                current[k]
            },
    )
}

/// Whether no key occurs twice in `pairs`.
pub open spec fn distinct_keys<K, V>(pairs: Seq<(K, V)>) -> bool {
    forall|i: int, j: int|
        0 <= i < j < pairs.len() ==> (#[trigger] pairs[i]).0 != (#[trigger] pairs[j]).0
}

/// Whether `key` is the key of one of `pairs`.
pub open spec fn has_key<K, V>(pairs: Seq<(K, V)>, key: K) -> bool {
    exists|i: int| 0 <= i < pairs.len() && (#[trigger] pairs[i]).0 == key
}

/// The place of `key` among `pairs`, where it is there.
pub open spec fn index_of<K, V>(pairs: Seq<(K, V)>, key: K) -> int {
    choose|i: int| 0 <= i < pairs.len() && (#[trigger] pairs[i]).0 == key
}

/// The map that sends each key of `pairs` to its value.
pub open spec fn map_of<K, V>(pairs: Seq<(K, V)>) -> Map<K, V> {
    Map::new(|k: K| has_key(pairs, k), |k: K| pairs[index_of(pairs, k)].1)
}

/// Where the keys are distinct, each pair is found again under its key.
pub proof fn lemma_map_of_index<K, V>(pairs: Seq<(K, V)>, i: int)
    requires
        distinct_keys(pairs),
        0 <= i < pairs.len(),
    ensures
        map_of(pairs).contains_key(pairs[i].0),
        map_of(pairs)[pairs[i].0] == pairs[i].1,
        index_of(pairs, pairs[i].0) == i,
{
}

/// Adding a pair with a new key adds that key to the map.
pub proof fn lemma_map_of_push<K, V>(pairs: Seq<(K, V)>, key: K, value: V)
    requires
        distinct_keys(pairs),
        !has_key(pairs, key),
    ensures
        distinct_keys(pairs.push((key, value))),
        map_of(pairs.push((key, value))) == map_of(pairs).insert(key, value),
{
    let after = pairs.push((key, value));
    assert(distinct_keys(after));
    assert forall|k: K| has_key(after, k) == (k == key || has_key(pairs, k)) by {
        if k == key {
            assert(after[pairs.len() as int].0 == k);
        }
        if has_key(pairs, k) {
            assert(after[index_of(pairs, k)].0 == k);
        }
    }
    assert forall|k: K| has_key(after, k) implies #[trigger] map_of(after)[k] == map_of(
        pairs,
    ).insert(key, value)[k] by {
        if k == key {
            lemma_map_of_index(after, pairs.len() as int);
        } else {
            lemma_map_of_index(after, index_of(pairs, k));
        }
    }
}

/// Replacing the value of the pair at `i` replaces the value of its key.
pub proof fn lemma_map_of_update<K, V>(pairs: Seq<(K, V)>, i: int, value: V)
    requires
        distinct_keys(pairs),
        0 <= i < pairs.len(),
    ensures
        distinct_keys(pairs.update(i, (pairs[i].0, value))),
        map_of(pairs.update(i, (pairs[i].0, value))) == map_of(pairs).insert(pairs[i].0, value),
{
    let key = pairs[i].0;
    let after = pairs.update(i, (key, value));
    assert(distinct_keys(after));
    assert forall|k: K| has_key(after, k) == has_key(pairs, k) by {
        if has_key(pairs, k) {
            assert(after[index_of(pairs, k)].0 == k);
        }
    }
    assert forall|k: K| has_key(after, k) implies #[trigger] map_of(after)[k] == map_of(
        pairs,
    ).insert(key, value)[k] by {
        lemma_map_of_index(pairs, index_of(pairs, k));
        lemma_map_of_index(after, index_of(pairs, k));
    }
}

/// Taking out the pair at `i` takes its key out of the map.
pub proof fn lemma_map_of_remove<K, V>(pairs: Seq<(K, V)>, i: int)
    requires
        distinct_keys(pairs),
        0 <= i < pairs.len(),
    ensures
        distinct_keys(pairs.remove(i)),
        map_of(pairs.remove(i)) == map_of(pairs).remove(pairs[i].0),
{
    let key = pairs[i].0;
    let after = pairs.remove(i);
    let came_from = |a: int| if a < i { a } else { a + 1 };
    assert forall|a: int| 0 <= a < after.len() implies #[trigger] after[a] == pairs[came_from(
        a,
    )] by {}
    assert(distinct_keys(after));
    assert forall|k: K| has_key(after, k) == (k != key && has_key(pairs, k)) by {
        if k != key && has_key(pairs, k) {
            let j = index_of(pairs, k);
            assert(after[if j < i { j } else { j - 1 }].0 == k);
        }
    }
    assert forall|k: K| has_key(after, k) implies #[trigger] map_of(after)[k] == map_of(
        pairs,
    ).remove(key)[k] by {
        let a = index_of(after, k);
        lemma_map_of_index(after, a);
        lemma_map_of_index(pairs, came_from(a));
    }
}

/// The text of each pair of `entries`.
pub open spec fn pairs_of(entries: Seq<(String, String)>) -> Seq<(Seq<char>, Seq<char>)> {
    Seq::new(entries.len(), |i: int| (entries[i].0@, entries[i].1@))
}

/// A set of labels: each key once, with its value, in the order in which the
/// keys were first given.
#[derive(Debug)]
pub struct Labels {
    entries: Vec<(String, String)>,
}

impl Labels {
    /// The keys with their values, in order.
    pub closed spec fn pairs(&self) -> Seq<(Seq<char>, Seq<char>)> {
        pairs_of(self.entries@)
    }

    #[verifier::type_invariant]
    spec fn inv(self) -> bool {
        distinct_keys(self.pairs())
    }

    /// The label set as a map from keys to values.
    pub open spec fn view(&self) -> LabelMap {
        map_of(self.pairs())
    }

    /// The empty label set.
    pub fn new() -> (l: Labels)
        ensures
            l.pairs() == Seq::<(Seq<char>, Seq<char>)>::empty(),
            l@ == LabelMap::empty(),
    {
        Labels { entries: Vec::new() }
    }

    /// The number of labels.
    pub fn len(&self) -> (n: usize)
        ensures
            n == self.pairs().len(),
            distinct_keys(self.pairs()),
    {
        proof {
            use_type_invariant(self);
        }
        self.entries.len()
    }

    /// Whether there is no label.
    pub fn is_empty(&self) -> (r: bool)
        ensures
            r == (self.pairs().len() == 0),
            r == (self@ == LabelMap::empty()),
    {
        let r = self.entries.len() == 0;
        proof {
            if r {
                assert(self@ =~= LabelMap::empty());
            } else {
                assert(self@.contains_key(self.pairs()[0].0));
            }
        }
        r
    }

    /// The label at `i`, key and value, if there are that many.
    pub fn entry(&self, i: usize) -> (r: Option<(&String, &String)>)
        ensures
            r is Some <==> i < self.pairs().len(),
            r matches Some((k, v)) ==> k@ == self.pairs()[i as int].0 && v@ == self.pairs()[i as int].1
                && self@.contains_key(k@) && self@[k@] == v@,
    {
        if i < self.len() {
            Some((self.key(i), self.value(i)))
        } else {
            None
        }
    }

    /// The key of the label at `i`.
    fn key(&self, i: usize) -> (k: &String)
        requires
            i < self.pairs().len(),
        ensures
            k@ == self.pairs()[i as int].0,
            self@.contains_key(k@),
    {
        proof {
            use_type_invariant(self);
            lemma_map_of_index(self.pairs(), i as int);
        }
        &self.entries[i].0
    }

    /// The value of the label at `i`.
    fn value(&self, i: usize) -> (v: &String)
        requires
            i < self.pairs().len(),
        ensures
            v@ == self.pairs()[i as int].1,
            self@[self.pairs()[i as int].0] == v@,
    {
        proof {
            use_type_invariant(self);
            lemma_map_of_index(self.pairs(), i as int);
        }
        &self.entries[i].1
    }

    /// The place of `key`, if it is there.
    fn position(&self, key: &str) -> (r: Option<usize>)
        ensures
            distinct_keys(self.pairs()),
            match r {
                Some(i) => i < self.pairs().len() && self.pairs()[i as int].0 == key@,
                None => !has_key(self.pairs(), key@),
            },
    {
        proof {
            use_type_invariant(self);
        }
        let mut i: usize = 0;
        while i < self.entries.len()
            invariant
                i <= self.entries@.len(),
                distinct_keys(self.pairs()),
                forall|j: int| 0 <= j < i ==> (#[trigger] self.pairs()[j]).0 != key@,
            decreases self.entries@.len() - i,
        {
            if *self.entries[i].0.as_str() == *key {
                return Some(i);
            }
            i += 1;
        }
        None
    }

    /// Whether `key` has a value.
    pub fn contains_key(&self, key: &str) -> (r: bool)
        ensures
            r == self@.contains_key(key@),
    {
        self.position(key).is_some()
    }

    /// The value of `key`, if it has one.
    pub fn get(&self, key: &str) -> (r: Option<&String>)
        ensures
            match r {
                Some(v) => self@.contains_key(key@) && self@[key@] == v@,
                None => !self@.contains_key(key@),
            },
    {
        match self.position(key) {
            Some(i) => {
                proof {
                    lemma_map_of_index(self.pairs(), i as int);
                }
                Some(&self.entries[i].1)
            },
            None => None,
        }
    }

    /// Moves the entries out and leaves the label set empty.
    fn take_entries(&mut self) -> (entries: Vec<(String, String)>)
        ensures
            final(self).pairs().len() == 0,
            pairs_of(entries@) == old(self).pairs(),
            distinct_keys(old(self).pairs()),
    {
        proof {
            use_type_invariant(&*self);
        }
        let mut taken = Labels::new();
        core::mem::swap(self, &mut taken);
        taken.entries
    }

    /// Gives `key` the value `value`, in place of the value it had, if any.
    pub fn insert(&mut self, key: String, value: String)
        ensures
            final(self)@ == old(self)@.insert(key@, value@),
    {
        let ghost before = self.pairs();
        let found = self.position(key.as_str());
        let mut entries = self.take_entries();
        match found {
            Some(i) => {
                proof {
                    lemma_map_of_update(before, i as int, value@);
                }
                entries.set(i, (key, value));
                assert(pairs_of(entries@) =~= before.update(
                    i as int,
                    (before[i as int].0, value@),
                ));
            },
            None => {
                proof {
                    lemma_map_of_push(before, key@, value@);
                }
                entries.push((key, value));
                assert(pairs_of(entries@) =~= before.push((key@, value@)));
            },
        }
        *self = Labels { entries };
    }

    /// Takes `key` and its value out, if it is there.
    pub fn remove(&mut self, key: &str)
        ensures
            final(self)@ == old(self)@.remove(key@),
    {
        let ghost before = self.pairs();
        if let Some(i) = self.position(key) {
            proof {
                lemma_map_of_remove(before, i as int);
            }
            let mut entries = self.take_entries();
            entries.remove(i);
            assert(pairs_of(entries@) =~= before.remove(i as int));
            *self = Labels { entries };
        }
    }

    /// Applies `update` as a label store does: a key that `update` gives an
    /// empty value is removed, every other key of `update` gets its value
    /// from there, and the keys that `update` does not mention stay.
    pub fn merge(&mut self, update: &Labels)
        ensures
            final(self)@ == merge(old(self)@, update@),
    {
        let n = update.len();
        let ghost start = self@;
        let mut i: usize = 0;
        while i < n
            invariant
                i <= n,
                n == update.pairs().len(),
                distinct_keys(update.pairs()),
                self@ == merge(start, map_of(update.pairs().take(i as int))),
            decreases n - i,
        {
            let key = update.key(i);
            let value = update.value(i);
            proof {
                let head = update.pairs().take(i as int);
                assert(update.pairs().take(i as int + 1) =~= head.push((key@, value@)));
                assert(distinct_keys(head));
                assert(!has_key(head, key@));
                lemma_map_of_push(head, key@, value@);
            }
            if value.as_str().is_empty() {
                self.remove(key.as_str());
            } else {
                self.insert(key.clone(), value.clone());
            }
            i += 1;
        }
        assert(update.pairs().take(n as int) =~= update.pairs());
    }

    /// A copy of the label set.
    pub fn duplicate(&self) -> (l: Labels)
        ensures
            l.pairs() == self.pairs(),
            l@ == self@,
    {
        proof {
            use_type_invariant(self);
        }
        let mut entries: Vec<(String, String)> = Vec::new();
        let mut i: usize = 0;
        while i < self.entries.len()
            invariant
                i <= self.entries@.len(),
                distinct_keys(self.pairs()),
                entries@.len() == i,
                forall|j: int|
                    0 <= j < i ==> (#[trigger] entries@[j]).0@ == self.entries@[j].0@
                        && entries@[j].1@ == self.entries@[j].1@,
            decreases self.entries@.len() - i,
        {
            entries.push((self.entries[i].0.clone(), self.entries[i].1.clone()));
            i += 1;
        }
        assert(pairs_of(entries@) =~= self.pairs());
        Labels { entries }
    }
}

impl Clone for Labels {
    fn clone(&self) -> (l: Labels)
        ensures
            l@ == self@,
    {
        self.duplicate()
    }
}

} // verus!
