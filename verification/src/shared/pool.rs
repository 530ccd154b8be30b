use std::collections::HashMap;
use std::hash::Hash;
use vstd::prelude::*;
use vstd::std_specs::hash::obeys_key_model;

use super::Index;

verus! {

broadcast use vstd::std_specs::hash::group_hash_axioms;

/// What interning `value` into a pool that holds `values` gives: the pool's
/// contents afterwards and the index of `value` in them. A value that is
/// already there keeps its index; a new one goes to the end.
pub open spec fn intern<T>(values: Seq<T>, value: T) -> (Seq<T>, int) {
    if values.contains(value) {
        (values, values.index_of(value))
    } else {
        (values.push(value), values.len() as int)
    }
}

/// Interning is idempotent: two values interned one after the other get the
/// same index exactly when they are equal.
pub proof fn lemma_intern_same_index_iff_equal<T>(values: Seq<T>, v1: T, v2: T)
    requires
        values.no_duplicates(),
    ensures
        (intern(intern(values, v1).0, v2).1 == intern(values, v1).1) <==> v1 == v2,
        intern(values, v1).0.no_duplicates(),
        intern(values, v1).0[intern(values, v1).1] == v1,
        0 <= intern(values, v1).1 < intern(values, v1).0.len(),
{
    lemma_intern_index(values, v1);
    lemma_intern_index(intern(values, v1).0, v2);
}

/// The index that interning reports is the one place where the value sits.
pub proof fn lemma_intern_index<T>(values: Seq<T>, value: T)
    requires
        values.no_duplicates(),
    ensures
        intern(values, value).0.no_duplicates(),
        0 <= intern(values, value).1 < intern(values, value).0.len(),
        intern(values, value).0[intern(values, value).1] == value,
        forall|i: int|
            0 <= i < intern(values, value).0.len() && intern(values, value).0[i] == value ==> i
                == intern(values, value).1,
        forall|i: int| 0 <= i < values.len() ==> intern(values, value).0[i] == values[i],
{
    if values.contains(value) {
        values.index_of_first_ensures(value);
        let k = values.index_of(value);
        assert(0 <= k < values.len() && values[k] == value) by {
            let j = choose|j: int| 0 <= j < values.len() && values[j] == value;
            assert(values[j] == value);
        }
    } else {
        let after = values.push(value);
        assert forall|i: int, j: int| 0 <= i < after.len() && 0 <= j < after.len() && i != j implies after[i] != after[j] by {
            if i < values.len() {
                assert(values.contains(after[i]));
            }
            if j < values.len() {
                assert(values.contains(after[j]));
            }
        }
    }
}

/// Serves as a generic pool throughout the compiler: each distinct value is
/// stored once and is known by its index.
pub struct Pool<T: Copy + Eq + Hash> {
    /// List of values.
    values: Vec<T>,
    /// Map from values to their indices.
    lookup: HashMap<T, Index>,
}

impl<T: Copy + Eq + Hash> View for Pool<T> {
    type V = Seq<T>;

    /// The pooled values, each at its index.
    closed spec fn view(&self) -> Seq<T> {
        self.values@
    }
}

impl<T: Copy + Eq + Hash> Pool<T> {
    /// The lookup table is the inverse of the list of values.
    pub closed spec fn wf(&self) -> bool {
        &&& forall|v: T| #[trigger]
            self.lookup@.contains_key(v) ==> self.lookup@[v] < self.values@.len()
                && self.values@[self.lookup@[v] as int] == v
        &&& forall|i: int|
            0 <= i < self.values@.len() ==> self.lookup@.contains_key(#[trigger] self.values@[i])
                && self.lookup@[self.values@[i]] == i
    }

    /// A well-formed pool holds no value twice.
    pub proof fn lemma_no_duplicates(&self)
        requires
            self.wf(),
        ensures
            self@.no_duplicates(),
    {
        assert forall|i: int, j: int|
            0 <= i < self.values@.len() && 0 <= j < self.values@.len() && i != j implies self.values@[i]
            != self.values@[j] by {
            assert(self.lookup@[self.values@[i]] == i);
            assert(self.lookup@[self.values@[j]] == j);
        }
    }

    /// Create an empty pool.
    pub fn new() -> (pool: Self)
        ensures
            pool.wf(),
            pool@ == Seq::<T>::empty(),
    {
        Pool { values: Vec::new(), lookup: HashMap::new() }
    }

    /// Insert a value into the pool (if it doesn't exist yet) and return its index.
    pub fn insert(&mut self, value: T) -> (index: Index)
        requires
            old(self).wf(),
            obeys_key_model::<T>(),
        ensures
            final(self).wf(),
            (final(self)@, index as int) == intern(old(self)@, value),
            index < final(self)@.len(),
            final(self)@[index as int] == value,
            final(self)@.no_duplicates(),
            old(self)@.is_prefix_of(final(self)@),
            old(self)@.contains(value) ==> final(self)@ == old(self)@,
            !old(self)@.contains(value) ==> final(self)@ == old(self)@.push(value) && index
                == old(self)@.len(),
    {
        proof {
            self.lemma_no_duplicates();
            lemma_intern_index(self@, value);
        }
        match self.lookup.get(&value) {
            Some(index) => {
                let index = *index;
                assert(self.values@[index as int] == value);
                index
            },
            None => {
                let index = self.values.len();
                assert(!old(self)@.contains(value)) by {
                    if old(self)@.contains(value) {
                        let j = choose|j: int| 0 <= j < old(self)@.len() && old(self)@[j] == value;
                        assert(self.lookup@.contains_key(self.values@[j]));
                    }
                }
                self.values.push(value);
                self.lookup.insert(value, index);
                proof {
                    lemma_intern_index(old(self)@, value);
                }
                assert forall|i: int| 0 <= i < self.values@.len() implies self.lookup@.contains_key(
                    #[trigger] self.values@[i],
                ) && self.lookup@[self.values@[i]] == i by {
                    if i < index {
                        assert(old(self).lookup@.contains_key(old(self).values@[i]));
                    }
                }
                index
            },
        }
    }

    /// Given a value, return its corresponding index.
    pub fn index_of(&self, value: &T) -> (index: Option<&Index>)
        requires
            self.wf(),
            obeys_key_model::<T>(),
        ensures
            match index {
                Some(i) => *i < self@.len() && self@[*i as int] == *value,
                None => !self@.contains(*value),
            },
    {
        let found = self.lookup.get(value);
        proof {
            if found is None && self@.contains(*value) {
                let j = choose|j: int| 0 <= j < self@.len() && self@[j] == *value;
                assert(self.lookup@.contains_key(self.values@[j]));
            }
        }
        found
    }

    /// Given an index, return its corresponding value.
    pub fn value_of(&self, index: Index) -> (value: Option<&T>)
        ensures
            match value {
                Some(v) => index < self@.len() && *v == self@[index as int],
                None => index >= self@.len(),
            },
    {
        if index < self.values.len() {
            Some(&self.values[index])
        } else {
            None
        }
    }
}

} // verus!
