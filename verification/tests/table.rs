use scooter::ir::mapper::Mapper;
use scooter::ir::table::{ScopeError, SymbolTable};

#[test]
fn find_in_the_root_scope() {
    let mut table: SymbolTable<u32> = SymbolTable::new();
    assert_eq!(table.find("x"), None);
    table.insert("x", 1);
    assert_eq!(table.find("x"), Some(&1));
    assert_eq!(table.find("y"), None);
}

#[test]
fn insert_in_the_same_scope_overwrites() {
    let mut table: SymbolTable<u32> = SymbolTable::new();
    table.insert("x", 1);
    table.insert("x", 2);
    assert_eq!(table.find("x"), Some(&2));
}

#[test]
fn shadowing_with_an_outer_binding() {
    let mut table: SymbolTable<char> = SymbolTable::new();
    table.insert("x", 'O');
    table.push();
    table.insert("x", 'A');
    table.push();
    table.insert("x", 'B');
    assert_eq!(table.find("x"), Some(&'B'));
    assert_eq!(table.pop(), Ok(()));
    assert_eq!(table.find("x"), Some(&'A'));
    assert_eq!(table.pop(), Ok(()));
    assert_eq!(table.find("x"), Some(&'O'));
}

#[test]
fn shadowing_without_an_outer_binding() {
    let mut table: SymbolTable<char> = SymbolTable::new();
    table.push();
    table.insert("x", 'A');
    table.push();
    table.insert("x", 'B');
    assert_eq!(table.find("x"), Some(&'B'));
    assert_eq!(table.pop(), Ok(()));
    assert_eq!(table.find("x"), Some(&'A'));
    assert_eq!(table.pop(), Ok(()));
    assert_eq!(table.find("x"), None);
}

#[test]
fn inner_scope_sees_outer_names() {
    let mut table: SymbolTable<u32> = SymbolTable::new();
    table.insert("outer", 1);
    table.push();
    table.push();
    assert_eq!(table.find("outer"), Some(&1));
}

#[test]
fn pop_on_the_root_scope_is_an_error() {
    let mut table: SymbolTable<u32> = SymbolTable::new();
    table.insert("x", 1);
    assert_eq!(table.pop(), Err(ScopeError::RootScope));
    assert_eq!(table.find("x"), Some(&1));
    table.push();
    assert_eq!(table.pop(), Ok(()));
    assert_eq!(table.pop(), Err(ScopeError::RootScope));
}

#[test]
fn clear_empties_only_the_current_scope() {
    let mut table: SymbolTable<u32> = SymbolTable::new();
    table.insert("x", 1);
    table.push();
    table.insert("x", 2);
    table.insert("y", 3);
    table.clear();
    assert_eq!(table.find("x"), Some(&1));
    assert_eq!(table.find("y"), None);
}

#[test]
fn with_previous_puts_the_current_scope_inside() {
    let mut outer: SymbolTable<u32> = SymbolTable::new();
    outer.insert("x", 1);
    outer.insert("y", 2);
    let mut inner: SymbolTable<u32> = SymbolTable::new();
    inner.insert("x", 3);
    let mut table = inner.with_previous(outer);
    assert_eq!(table.find("x"), Some(&3));
    assert_eq!(table.find("y"), Some(&2));
    assert_eq!(table.pop(), Ok(()));
    assert_eq!(table.find("x"), Some(&1));
    assert_eq!(table.pop(), Err(ScopeError::RootScope));
}

#[test]
fn mapper_gives_fresh_indices() {
    let mut mapper = Mapper::new();
    assert_eq!(mapper.next(), 0);
    assert_eq!(mapper.insert("a"), 0);
    assert_eq!(mapper.insert("b"), 1);
    assert_eq!(mapper.insert("a"), 2);
    assert_eq!(mapper.next(), 3);
    assert_eq!(mapper.find("a"), Ok(2));
    assert_eq!(mapper.find("b"), Ok(1));
}

#[test]
fn mapper_find_fails_on_an_unbound_name() {
    let mut mapper = Mapper::new();
    assert_eq!(mapper.find("a"), Err(ScopeError::UnresolvedName));
    mapper.insert("a");
    assert_eq!(mapper.find("b"), Err(ScopeError::UnresolvedName));
}

#[test]
fn mapper_never_reuses_an_index_after_a_scope_is_left() {
    let mut mapper = Mapper::new();
    assert_eq!(mapper.insert("x"), 0);
    mapper.up();
    assert_eq!(mapper.insert("x"), 1);
    assert_eq!(mapper.find("x"), Ok(1));
    assert_eq!(mapper.down(), Ok(()));
    assert_eq!(mapper.find("x"), Ok(0));
    mapper.up();
    assert_eq!(mapper.insert("x"), 2);
    assert_eq!(mapper.insert("y"), 3);
    assert_eq!(mapper.down(), Ok(()));
    assert_eq!(mapper.find("y"), Err(ScopeError::UnresolvedName));
    assert_eq!(mapper.next(), 4);
}

#[test]
fn mapper_down_on_the_root_scope_is_an_error() {
    let mut mapper = Mapper::new();
    assert_eq!(mapper.down(), Err(ScopeError::RootScope));
    mapper.insert("a");
    assert_eq!(mapper.down(), Err(ScopeError::RootScope));
    assert_eq!(mapper.find("a"), Ok(0));
}
