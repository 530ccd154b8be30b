use std::hash::Hash;
use vstd::prelude::*;
use vstd::std_specs::hash::obeys_key_model;

use super::bimap::BiMap;
use super::Index;

verus! {

/// Gives each distinct value the next free index and finds either from the other.
pub struct Interner<T: Copy + Eq + Hash> {
    map: BiMap<T, Index>,
    next: Index,
}

impl<T: Copy + Eq + Hash> Interner<T> {
    /// The index of each interned value.
    pub closed spec fn indices(&self) -> Map<T, Index> {
        self.map.forward()
    }

    /// The value behind each index that was given out.
    pub closed spec fn values(&self) -> Map<Index, T> {
        self.map.reverse()
    }

    /// The number of values interned so far, which is the next free index.
    pub closed spec fn spec_len(&self) -> Index {
        self.next
    }

    /// The two tables are inverse to each other and hold the indices below `len`.
    pub open spec fn wf(&self) -> bool {
        &&& forall|v: T| #[trigger]
            self.indices().contains_key(v) ==> self.indices()[v] < self.spec_len()
                && self.values().contains_key(self.indices()[v]) && self.values()[self.indices()[v]]
                == v
        &&& forall|i: Index| #[trigger]
            self.values().contains_key(i) ==> i < self.spec_len() && self.indices().contains_key(
                self.values()[i],
            ) && self.indices()[self.values()[i]] == i
    }

    /// Create an empty interner.
    pub fn new() -> (interner: Self)
        ensures
            interner.wf(),
            interner.spec_len() == 0,
            interner.indices() == Map::<T, Index>::empty(),
            interner.values() == Map::<Index, T>::empty(),
    {
        Interner { map: BiMap::new(), next: 0 }
    }

    /// The number of values interned so far.
    #[verifier::when_used_as_spec(spec_len)]
    pub fn len(&self) -> (n: Index)
        ensures
            n == self.spec_len(),
    {
        self.next
    }

    /// Intern `from`: a value seen before keeps its index, a new one gets the
    /// next free index.
    pub fn insert(&mut self, from: T) -> (index: Index)
        requires
            old(self).wf(),
            old(self).spec_len() < usize::MAX,
            obeys_key_model::<T>(),
            obeys_key_model::<Index>(),
        ensures
            final(self).wf(),
            old(self).indices().contains_key(from) ==> index == old(self).indices()[from]
                && final(self).indices() == old(self).indices() && final(self).values() == old(
                self,
            ).values() && final(self).spec_len() == old(self).spec_len(),
            !old(self).indices().contains_key(from) ==> index == old(self).spec_len()
                && final(self).indices() == old(self).indices().insert(from, index)
                && final(self).values() == old(self).values().insert(index, from)
                && final(self).spec_len() == old(self).spec_len() + 1,
    {
        if let Some(index) = self.map.from(&from) {
            return *index;
        }
        let index = self.next;
        self.map.insert(from, index);
        self.next = self.next + 1;
        assert forall|v: T| #[trigger] self.indices().contains_key(v) implies self.indices()[v]
            < self.spec_len() && self.values().contains_key(self.indices()[v])
            && self.values()[self.indices()[v]] == v by {
            if v != from {
                assert(old(self).indices().contains_key(v));
            }
        }
        assert forall|i: Index| #[trigger] self.values().contains_key(i) implies i
            < self.spec_len() && self.indices().contains_key(self.values()[i])
            && self.indices()[self.values()[i]] == i by {
            if i != index {
                assert(old(self).values().contains_key(i));
            }
        }
        index
    }

    /// Given a value, return its index.
    pub fn index_of(&self, value: T) -> (index: Option<&Index>)
        requires
            obeys_key_model::<T>(),
        ensures
            match index {
                Some(i) => self.indices().contains_key(value) && *i == self.indices()[value],
                None => !self.indices().contains_key(value),
            },
    {
        self.map.from(&value)
    }

    /// Given an index, return the value that was interned under it.
    pub fn value_of(&self, index: Index) -> (value: Option<&T>)
        requires
            obeys_key_model::<Index>(),
        ensures
            match value {
                Some(v) => self.values().contains_key(index) && *v == self.values()[index],
                None => !self.values().contains_key(index),
            },
    {
        self.map.to(&index)
    }
}

} // verus!
