use std::collections::HashMap;
use std::hash::Hash;
use vstd::prelude::*;
use vstd::std_specs::hash::obeys_key_model;

verus! {

broadcast use vstd::std_specs::hash::group_hash_axioms;

/// Generic bidirectional map used throughout the compiler: a forward table
/// and a reverse table that are written together.
pub struct BiMap<F: Copy + Eq + Hash, T: Copy + Eq + Hash> {
    forward: HashMap<F, T>,
    reverse: HashMap<T, F>,
}

impl<F: Copy + Eq + Hash, T: Copy + Eq + Hash> BiMap<F, T> {
    /// The forward table.
    pub closed spec fn forward(&self) -> Map<F, T> {
        self.forward@
    }

    /// The reverse table.
    pub closed spec fn reverse(&self) -> Map<T, F> {
        self.reverse@
    }

    /// Create an empty map.
    pub fn new() -> (map: Self)
        ensures
            map.forward() == Map::<F, T>::empty(),
            map.reverse() == Map::<T, F>::empty(),
    {
        BiMap { forward: HashMap::new(), reverse: HashMap::new() }
    }

    /// Bind `from` to `to` in the forward table and `to` to `from` in the
    /// reverse table, replacing what either key was bound to.
    pub fn insert(&mut self, from: F, to: T)
        requires
            obeys_key_model::<F>(),
            obeys_key_model::<T>(),
        ensures
            final(self).forward() == old(self).forward().insert(from, to),
            final(self).reverse() == old(self).reverse().insert(to, from),
    {
        self.forward.insert(from, to);
        self.reverse.insert(to, from);
    }

    /// Look `from` up in the forward table.
    pub fn from(&self, from: &F) -> (to: Option<&T>)
        requires
            obeys_key_model::<F>(),
        ensures
            match to {
                Some(t) => self.forward().contains_key(*from) && *t == self.forward()[*from],
                None => !self.forward().contains_key(*from),
            },
    {
        self.forward.get(from)
    }

    /// Look `to` up in the reverse table.
    pub fn to(&self, to: &T) -> (from: Option<&F>)
        requires
            obeys_key_model::<T>(),
        ensures
            match from {
                Some(f) => self.reverse().contains_key(*to) && *f == self.reverse()[*to],
                None => !self.reverse().contains_key(*to),
            },
    {
        self.reverse.get(to)
    }

    /// Rebind `from`, which must be bound, to `to`: the reverse entry of its
    /// old target goes, and both tables take the new pair.
    pub fn change(&mut self, from: &F, to: T)
        requires
            obeys_key_model::<F>(),
            obeys_key_model::<T>(),
            old(self).forward().contains_key(*from),
        ensures
            final(self).forward() == old(self).forward().insert(*from, to),
            final(self).reverse() == old(self).reverse().remove(old(self).forward()[*from]).insert(
                to,
                *from,
            ),
    {
        // Remove the old "to"
        let previous = match self.forward.get(from) {
            Some(t) => Some(*t),
            None => None,
        };
        if let Some(t) = previous {
            self.reverse.remove(&t);
        }
        // Set the new forward mapping
        self.forward.insert(*from, to);
        // Set the new reverse mapping
        self.reverse.insert(to, *from);
    }
}

} // verus!
