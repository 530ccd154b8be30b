use vstd::prelude::*;

use super::table::{bind, enter, leave, lookup, ScopeError, Scopes, SymbolTable};
use crate::shared::Index;

verus! {

/// Whether every index bound in `scopes` lies below `next`.
pub open spec fn indices_below(scopes: Scopes<Index>, next: int) -> bool {
    forall|i: int, name: Seq<char>|
        0 <= i < scopes.len() && #[trigger] scopes[i].contains_key(name) ==> scopes[i][name] < next
}

/// What a name resolves to lies below `next` when every bound index does.
pub proof fn lemma_lookup_below(scopes: Scopes<Index>, next: int, name: Seq<char>)
    requires
        indices_below(scopes, next),
    ensures
        lookup(scopes, name) is Some ==> lookup(scopes, name)->0 < next,
    decreases scopes.len(),
{
    if scopes.len() > 0 && !scopes.last().contains_key(name) {
        lemma_lookup_below(scopes.drop_last(), next, name);
    }
}

/// Maps identifiers for variables and functions to unique indices. Every
/// binding gets the next index, so no index is ever given out twice, also not
/// after the scope that held it was left.
pub struct Mapper {
    /// Internal map from names to indices.
    table: SymbolTable<Index>,
    /// Next available index.
    next: Index,
}

impl Mapper {
    /// The open scopes with the index that each name is bound to.
    pub closed spec fn scopes(&self) -> Scopes<Index> {
        self.table@
    }

    /// The next available index: the number of indices given out so far.
    pub closed spec fn spec_next(&self) -> Index {
        self.next
    }

    /// Every index that is bound was given out before.
    pub open spec fn wf(&self) -> bool {
        &&& self.scopes().len() >= 1
        &&& indices_below(self.scopes(), self.spec_next() as int)
    }

    /// Create a new empty map.
    pub fn new() -> (mapper: Self)
        ensures
            mapper.wf(),
            mapper.scopes() == seq![Map::<Seq<char>, Index>::empty()],
            mapper.spec_next() == 0,
    {
        Mapper { table: SymbolTable::new(), next: 0 }
    }

    /// The next available index.
    #[verifier::when_used_as_spec(spec_next)]
    pub fn next(&self) -> (next: Index)
        ensures
            next == self.spec_next(),
    {
        self.next
    }

    /// Bind `value` in the current scope to a fresh index and return it. A
    /// name that an enclosing scope binds gets a new index all the same.
    pub fn insert(&mut self, value: &str) -> (index: Index)
        requires
            old(self).wf(),
            old(self).spec_next() < usize::MAX,
        ensures
            final(self).wf(),
            index == old(self).spec_next(),
            final(self).spec_next() == old(self).spec_next() + 1,
            final(self).scopes() == bind(old(self).scopes(), value@, index),
    {
        let index = self.next;
        self.table.insert(value, index);
        self.next = self.next + 1;
        index
    }

    /// Given a name, find the index that the innermost scope that binds it gives it.
    pub fn find(&self, value: &str) -> (found: Result<Index, ScopeError>)
        ensures
            match lookup(self.scopes(), value@) {
                Some(index) => found == Ok::<Index, ScopeError>(index),
                None => found == Err::<Index, ScopeError>(ScopeError::UnresolvedName),
            },
    {
        match self.table.find(value) {
            Some(index) => Ok(*index),
            None => Err(ScopeError::UnresolvedName),
        }
    }

    /// Add one table to the stack of symbol tables.
    pub fn up(&mut self)
        requires
            old(self).wf(),
        ensures
            final(self).wf(),
            final(self).scopes() == enter(old(self).scopes()),
            final(self).spec_next() == old(self).spec_next(),
    {
        self.table.push();
    }

    /// Pop one table from the stack of symbol tables. The indices that it
    /// bound stay used.
    pub fn down(&mut self) -> (left: Result<(), ScopeError>)
        requires
            old(self).wf(),
        ensures
            final(self).wf(),
            final(self).spec_next() == old(self).spec_next(),
            old(self).scopes().len() > 1 ==> left is Ok && final(self).scopes() == leave(
                old(self).scopes(),
            ),
            old(self).scopes().len() <= 1 ==> left == Err::<(), ScopeError>(ScopeError::RootScope)
                && final(self).scopes() == old(self).scopes(),
    {
        self.table.pop()
    }
}

} // verus!
