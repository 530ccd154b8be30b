use vstd::hash_map::StringHashMap;
use vstd::prelude::*;

verus! {

/// What can go wrong when names are looked up or scopes are left.
#[derive(Debug, Clone, Copy, PartialEq, Eq, Structural)]
pub enum ScopeError {
    /// No scope that is open binds the name.
    UnresolvedName,
    /// The root scope cannot be left.
    RootScope,
}

/// The chain of open scopes as a sequence of maps from names to symbols, the
/// root scope first and the current scope last.
pub type Scopes<T> = Seq<Map<Seq<char>, T>>;

/// The symbol that `name` resolves to: the binding in the innermost scope
/// that has one.
pub open spec fn lookup<T>(scopes: Scopes<T>, name: Seq<char>) -> Option<T>
    decreases scopes.len(),
{
    if scopes.len() == 0 {
        None
    } else if scopes.last().contains_key(name) {
        Some(scopes.last()[name])
    } else {
        lookup(scopes.drop_last(), name)
    }
}

/// The scopes after `name` is bound to `value` in the current scope.
pub open spec fn bind<T>(scopes: Scopes<T>, name: Seq<char>, value: T) -> Scopes<T>
    recommends
        scopes.len() > 0,
{
    scopes.update(scopes.len() - 1, scopes.last().insert(name, value))
}

/// The scopes after a new, empty scope is entered.
pub open spec fn enter<T>(scopes: Scopes<T>) -> Scopes<T> {
    scopes.push(Map::empty())
}

/// The scopes after the current scope is left.
pub open spec fn leave<T>(scopes: Scopes<T>) -> Scopes<T>
    recommends
        scopes.len() > 1,
{
    scopes.drop_last()
}

/// A binding is found at once, whatever the enclosing scopes hold.
pub proof fn lemma_lookup_bind_same<T>(scopes: Scopes<T>, name: Seq<char>, value: T)
    requires
        scopes.len() > 0,
    ensures
        lookup(bind(scopes, name, value), name) == Some(value),
{
}

/// A binding leaves what every other name resolves to as it was.
pub proof fn lemma_lookup_bind_other<T>(
    scopes: Scopes<T>,
    name: Seq<char>,
    value: T,
    other: Seq<char>,
)
    requires
        scopes.len() > 0,
        other != name,
    ensures
        lookup(bind(scopes, name, value), other) == lookup(scopes, other),
{
    assert(bind(scopes, name, value).drop_last() =~= scopes.drop_last());
}

/// Shadowing: a binding made in an inner scope hides the outer binding of the
/// same name and does not destroy it. After `enter; bind x a; enter; bind x b`
/// the name resolves to `b`; after one `leave` to `a`; and after a second one
/// to whatever it resolved to before, if anything.
pub proof fn lemma_shadowing<T>(scopes: Scopes<T>, name: Seq<char>, a: T, b: T)
    ensures
        ({
            let outer = bind(enter(scopes), name, a);
            let inner = bind(enter(outer), name, b);
            &&& lookup(inner, name) == Some(b)
            &&& lookup(leave(inner), name) == Some(a)
            &&& lookup(leave(leave(inner)), name) == lookup(scopes, name)
            &&& leave(leave(inner)) == scopes
        }),
{
    let outer = bind(enter(scopes), name, a);
    let inner = bind(enter(outer), name, b);
    assert(leave(inner) =~= outer);
    assert(leave(outer) =~= scopes);
}

/// A chain of lexical scopes that maps names to symbols of type `T`. The
/// chain always holds the root scope.
#[verifier::reject_recursive_types(T)]
pub struct SymbolTable<T> {
    /// The enclosing scopes, the root scope first.
    previous: Vec<StringHashMap<T>>,
    /// The current scope.
    symbols: StringHashMap<T>,
}

impl<T> View for SymbolTable<T> {
    type V = Scopes<T>;

    /// The open scopes, the root scope first and the current scope last.
    closed spec fn view(&self) -> Scopes<T> {
        Seq::new(self.previous@.len(), |i: int| self.previous@[i]@).push(self.symbols@)
    }
}

impl<T> SymbolTable<T> {
    /// There is always a current scope.
    pub proof fn lemma_depth(&self)
        ensures
            self@.len() >= 1,
    {
    }

    /// Create a table that holds the empty root scope.
    pub fn new() -> (table: Self)
        ensures
            table@ == seq![Map::<Seq<char>, T>::empty()],
    {
        let table = SymbolTable { previous: Vec::new(), symbols: StringHashMap::new() };
        assert(table@ =~= seq![Map::<Seq<char>, T>::empty()]);
        table
    }

    /// Put the current scope of this table inside the scopes of `previous`.
    pub fn with_previous(self, previous: SymbolTable<T>) -> (table: Self)
        ensures
            table@ == previous@.push(self@.last()),
    {
        let mut scopes = previous.previous;
        scopes.push(previous.symbols);
        let table = SymbolTable { previous: scopes, symbols: self.symbols };
        assert(table@ =~= previous@.push(self@.last()));
        table
    }

    /// Search the current scope, then each enclosing scope in turn, for `symbol`.
    pub fn find(&self, symbol: &str) -> (found: Option<&T>)
        ensures
            match found {
                Some(value) => lookup(self@, symbol@) == Some(*value),
                None => lookup(self@, symbol@) is None,
            },
    {
        if let Some(value) = self.symbols.get(symbol) {
            return Some(value);
        }
        let mut i = self.previous.len();
        assert(self@.drop_last().take(i as int) =~= self@.drop_last());
        while i > 0
            invariant
                i <= self.previous.len(),
                lookup(self@, symbol@) == lookup(self@.drop_last().take(i as int), symbol@),
            decreases i,
        {
            i = i - 1;
            let ghost outer = self@.drop_last().take(i + 1);
            assert(outer.last() == self.previous@[i as int]@);
            assert(outer.drop_last() =~= self@.drop_last().take(i as int));
            if let Some(value) = self.previous[i].get(symbol) {
                return Some(value);
            }
        }
        None
    }

    /// Bind `symbol` to `value` in the current scope. An outer binding of the
    /// same name is hidden, one in the current scope is replaced.
    pub fn insert(&mut self, symbol: &str, value: T)
        ensures
            final(self)@ == bind(old(self)@, symbol@, value),
    {
        self.symbols.insert(symbol.to_owned(), value);
        assert(final(self)@ =~= bind(old(self)@, symbol@, value));
    }

    /// Forget every binding of the current scope.
    pub fn clear(&mut self)
        ensures
            final(self)@ == old(self)@.update(old(self)@.len() - 1, Map::empty()),
    {
        self.symbols.clear();
        assert(final(self)@ =~= old(self)@.update(old(self)@.len() - 1, Map::empty()));
    }

    /// Enter a new scope, which becomes the current one.
    pub fn push(&mut self)
        ensures
            final(self)@ == enter(old(self)@),
    {
        let mut scope = StringHashMap::new();
        std::mem::swap(&mut self.symbols, &mut scope);
        self.previous.push(scope);
        assert(final(self)@ =~= enter(old(self)@));
    }

    /// Leave the current scope and go back to the one around it. The root
    /// scope cannot be left.
    pub fn pop(&mut self) -> (left: Result<(), ScopeError>)
        ensures
            old(self)@.len() > 1 ==> left is Ok && final(self)@ == leave(old(self)@),
            old(self)@.len() <= 1 ==> left == Err::<(), ScopeError>(ScopeError::RootScope)
                && final(self)@ == old(self)@,
    {
        match self.previous.pop() {
            Some(scope) => {
                self.symbols = scope;
                assert(final(self)@ =~= leave(old(self)@));
                Ok(())
            },
            None => {
                assert(final(self)@ =~= old(self)@);
                Err(ScopeError::RootScope)
            },
        }
    }
}

} // verus!
