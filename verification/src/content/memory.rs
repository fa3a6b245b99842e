//! A label store that keeps its labels in memory.

use crate::content::labels::{
    distinct_keys, has_key, lemma_map_of_index, lemma_map_of_push, lemma_map_of_update, map_of,
    LabelMap, Labels,
};
use crate::content::store::LabelStore;
use crate::digest::{DigestView, ImageDigest};
use crate::error::Error;
use vstd::prelude::*;

verus! {

/// What each entry of `entries` is: a digest and its labels.
pub open spec fn labelled(entries: Seq<(ImageDigest, Labels)>) -> Seq<(DigestView, LabelMap)> {
    Seq::new(entries.len(), |i: int| (entries[i].0@, entries[i].1@))
}

/// The labels that `held` gives `digest`: none where it does not know the
/// digest.
pub open spec fn labels_in(held: Map<DigestView, LabelMap>, digest: DigestView) -> LabelMap {
    if held.contains_key(digest) {
        held[digest]
    } else {
        LabelMap::empty()
    }
}

/// A label store in memory: the label sets of the digests that were given
/// one, each digest once. Its calls never fail.
pub struct MemoryLabelStore {
    entries: Vec<(ImageDigest, Labels)>,
}

impl MemoryLabelStore {
    /// The digests with their labels, in the order in which they came.
    pub closed spec fn held(&self) -> Seq<(DigestView, LabelMap)> {
        labelled(self.entries@)
    }

    #[verifier::type_invariant]
    spec fn inv(self) -> bool {
        distinct_keys(self.held())
    }

    /// A label store that holds nothing: it has no entry, and so no label
    /// for any digest.
    pub fn new() -> (s: MemoryLabelStore)
        ensures
            s.held() == Seq::<(DigestView, LabelMap)>::empty(),
            forall|d: DigestView| #[trigger] s.labels(d) == LabelMap::empty(),
    {
        let s = MemoryLabelStore { entries: Vec::new() };
        assert(s.held() =~= Seq::<(DigestView, LabelMap)>::empty());
        assert forall|d: DigestView| #[trigger] s.labels(d) == LabelMap::empty() by {
            assert(!has_key(s.held(), d));
        }
        s
    }

    /// The place of `digest`, if it is there.
    fn position(&self, digest: &ImageDigest) -> (r: Option<usize>)
        ensures
            distinct_keys(self.held()),
            match r {
                Some(i) => i < self.held().len() && self.held()[i as int].0 == digest@,
                None => !has_key(self.held(), digest@),
            },
    {
        proof {
            use_type_invariant(self);
        }
        let mut i: usize = 0;
        while i < self.entries.len()
            invariant
                i <= self.entries@.len(),
                distinct_keys(self.held()),
                forall|j: int| 0 <= j < i ==> (#[trigger] self.held()[j]).0 != digest@,
            decreases self.entries@.len() - i,
        {
            if self.entries[i].0 == *digest {
                return Some(i);
            }
            i += 1;
        }
        None
    }

    /// Moves the entries out and leaves the store empty.
    fn take_entries(&mut self) -> (entries: Vec<(ImageDigest, Labels)>)
        ensures
            final(self).held().len() == 0,
            labelled(entries@) == old(self).held(),
            distinct_keys(old(self).held()),
    {
        proof {
            use_type_invariant(&*self);
        }
        let mut taken = MemoryLabelStore { entries: Vec::new() };
        core::mem::swap(self, &mut taken);
        taken.entries
    }

    /// Gives `digest` the label set `labels`, in place of the one it had.
    fn put(&mut self, digest: &ImageDigest, labels: Labels)
        ensures
            final(self).labels(digest@) == labels@,
            forall|d: DigestView| d != digest@ ==> final(self).labels(d) == old(self).labels(d),
    {
        let ghost before = self.held();
        let ghost given = labels@;
        let found = self.position(digest);
        let mut entries = self.take_entries();
        match found {
            Some(i) => {
                proof {
                    lemma_map_of_update(before, i as int, given);
                }
                entries.set(i, (digest.clone(), labels));
                assert(labelled(entries@) =~= before.update(i as int, (before[i as int].0, given)));
            },
            None => {
                proof {
                    lemma_map_of_push(before, digest@, given);
                }
                entries.push((digest.clone(), labels));
                assert(labelled(entries@) =~= before.push((digest@, given)));
            },
        }
        *self = MemoryLabelStore { entries };
        assert(map_of(self.held()) == map_of(before).insert(digest@, given));
    }

    /// The label set of `digest`.
    fn labels_of(&self, digest: &ImageDigest) -> (l: Labels)
        ensures
            l@ == self.labels(digest@),
    {
        match self.position(digest) {
            Some(i) => {
                proof {
                    lemma_map_of_index(self.held(), i as int);
                }
                self.entries[i].1.clone()
            },
            None => Labels::new(),
        }
    }
}

impl LabelStore for MemoryLabelStore {
    closed spec fn labels(&self, digest: DigestView) -> LabelMap {
        labels_in(map_of(self.held()), digest)
    }

    fn get(&self, digest: &ImageDigest) -> (r: Result<Labels, Error>)
        ensures
            r is Ok,
    {
        Ok(self.labels_of(digest))
    }

    fn set(&mut self, digest: &ImageDigest, labels: &Labels) -> (r: Result<(), Error>)
        ensures
            r is Ok,
    {
        self.put(digest, labels.clone());
        Ok(())
    }

    fn update(&mut self, digest: &ImageDigest, labels: &Labels) -> (r: Result<(), Error>)
        ensures
            r is Ok,
    {
        let mut merged = self.labels_of(digest);
        merged.merge(labels);
        self.put(digest, merged);
        Ok(())
    }
}

} // verus!
