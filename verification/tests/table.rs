use tcr_runtime::table::{Key, Table};

#[test]
fn keys_compare_by_value() {
    assert!(7u32.same(&7u32));
    assert!(!7u32.same(&8u32));
    assert!(7u64.same(&7u64));
    assert!(!7u64.same(&(u64::MAX)));
    assert!((1u32, 2u64).same(&(1u32, 2u64)));
    assert!(!(1u32, 2u64).same(&(1u32, 3u64)));
    assert!(!(1u32, 2u64).same(&(0u32, 2u64)));
    let a = [5u8; 32];
    let mut b = [5u8; 32];
    assert!(a.same(&b));
    b[0] = 6;
    assert!(!a.same(&b));
    b[0] = 5;
    b[31] = 6;
    assert!(!a.same(&b));
}

#[test]
fn empty_table_holds_nothing() {
    let table: Table<u64, u64> = Table::new();
    assert!(!table.contains_key(&1));
    assert_eq!(table.get(&1), None);
}

#[test]
fn insert_then_get() {
    let mut table: Table<u64, u64> = Table::new();
    table.insert(1, 10);
    table.insert(2, 20);
    assert_eq!(table.get(&1), Some(&10));
    assert_eq!(table.get(&2), Some(&20));
    assert_eq!(table.get(&3), None);
    assert!(table.contains_key(&2));
}

#[test]
fn insert_replaces_value() {
    let mut table: Table<(u32, u64), u64> = Table::new();
    table.insert((1, 1), 10);
    table.insert((1, 2), 20);
    table.insert((1, 1), 30);
    assert_eq!(table.get(&(1, 1)), Some(&30));
    assert_eq!(table.get(&(1, 2)), Some(&20));
    assert_eq!(table.remove(&(1, 1)), Some(30));
    assert_eq!(table.remove(&(1, 1)), None);
}

#[test]
fn remove_takes_only_the_named_entry() {
    let mut table: Table<u32, u64> = Table::new();
    table.insert(1, 10);
    table.insert(2, 20);
    table.insert(3, 30);
    assert_eq!(table.remove(&1), Some(10));
    assert_eq!(table.get(&1), None);
    assert_eq!(table.get(&2), Some(&20));
    assert_eq!(table.get(&3), Some(&30));
    assert_eq!(table.remove(&4), None);
    assert_eq!(table.remove(&3), Some(30));
    assert_eq!(table.get(&2), Some(&20));
    table.insert(1, 11);
    assert_eq!(table.get(&1), Some(&11));
}
