use scooter::shared::bimap::BiMap;
use scooter::shared::interner::Interner;
use scooter::shared::pool::Pool;
use scooter::shared::span::{Location, Span};

#[test]
fn pool_insert_deduplicates() {
    let mut pool: Pool<i32> = Pool::new();
    assert_eq!(pool.insert(7), 0);
    assert_eq!(pool.insert(9), 1);
    assert_eq!(pool.insert(7), 0);
    assert_eq!(pool.value_of(1), Some(&9));
    assert_eq!(pool.value_of(2), None);
    assert_eq!(pool.index_of(&9), Some(&1));
    assert_eq!(pool.index_of(&8), None);
}

#[test]
fn pool_equal_values_share_an_index_and_distinct_values_do_not() {
    let values = [0, 1, -1, i32::MAX, i32::MIN, 42, 1, 0, 42];
    let mut pool: Pool<i32> = Pool::new();
    let mut indices = Vec::new();
    for value in values {
        indices.push(pool.insert(value));
    }
    for i in 0..values.len() {
        for j in 0..values.len() {
            assert_eq!(indices[i] == indices[j], values[i] == values[j]);
        }
    }
    for i in 0..values.len() {
        assert_eq!(pool.value_of(indices[i]), Some(&values[i]));
    }
}

#[test]
fn pool_of_booleans_and_strings() {
    let mut flags: Pool<bool> = Pool::new();
    assert_eq!(flags.insert(true), 0);
    assert_eq!(flags.insert(false), 1);
    assert_eq!(flags.insert(true), 0);
    let mut names: Pool<&str> = Pool::new();
    assert_eq!(names.insert("a"), 0);
    assert_eq!(names.insert("b"), 1);
    assert_eq!(names.insert("a"), 0);
    assert_eq!(names.value_of(1), Some(&"b"));
}

#[test]
fn bimap_insert_and_lookup_both_ways() {
    let mut map: BiMap<u32, u64> = BiMap::new();
    map.insert(1, 10);
    map.insert(2, 20);
    assert_eq!(map.from(&1), Some(&10));
    assert_eq!(map.from(&3), None);
    assert_eq!(map.to(&20), Some(&2));
    assert_eq!(map.to(&30), None);
}

#[test]
fn bimap_change_replaces_the_reverse_entry() {
    let mut map: BiMap<u32, u64> = BiMap::new();
    map.insert(1, 10);
    map.change(&1, 11);
    assert_eq!(map.from(&1), Some(&11));
    assert_eq!(map.to(&10), None);
    assert_eq!(map.to(&11), Some(&1));
}

#[test]
fn interner_gives_the_next_index_to_each_new_value() {
    let mut interner: Interner<i32> = Interner::new();
    assert_eq!(interner.len(), 0);
    assert_eq!(interner.insert(5), 0);
    assert_eq!(interner.insert(6), 1);
    assert_eq!(interner.insert(5), 0);
    assert_eq!(interner.len(), 2);
    assert_eq!(interner.index_of(6), Some(&1));
    assert_eq!(interner.index_of(7), None);
    assert_eq!(interner.value_of(0), Some(&5));
    assert_eq!(interner.value_of(2), None);
}

#[test]
fn span_constructors() {
    let start = Location::new(2, 3);
    let end = Location::new(4, 5);
    assert_eq!(start.line, 2);
    assert_eq!(start.column, 3);
    let span = Span::new(start, end);
    assert_eq!(span.start, start);
    assert_eq!(span.end, end);
    let single = Span::single(7, 9);
    assert_eq!(single.start, Location::new(7, 9));
    assert_eq!(single.end, Location::new(7, 9));
}
