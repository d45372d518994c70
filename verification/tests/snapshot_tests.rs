use series_poll::series::SeriesKey;
use series_poll::snapshot::Snapshot;

fn key(column: &str, table: &str) -> SeriesKey {
    SeriesKey::new(column, table)
}

#[test]
fn new_snapshot_is_empty() {
    let snapshot: Snapshot<u32> = Snapshot::new();
    assert_eq!(snapshot.len(), 0);
    assert_eq!(snapshot.ready_count(), 0);
    assert!(snapshot.get(&key("x", "t")).is_none());
    assert!(snapshot.key_at(0).is_none());
}

#[test]
fn insert_appends_new_keys_in_order() {
    let mut snapshot: Snapshot<u32> = Snapshot::new();
    assert_eq!(snapshot.insert(key("x", "t"), Some(1)), None);
    assert_eq!(snapshot.insert(key("y", "t"), None), None);
    assert_eq!(snapshot.insert(key("x", "u"), Some(3)), None);
    assert_eq!(snapshot.len(), 3);
    assert_eq!(snapshot.position(&key("x", "t")), Some(0));
    assert_eq!(snapshot.position(&key("y", "t")), Some(1));
    assert_eq!(snapshot.position(&key("x", "u")), Some(2));
    assert_eq!(snapshot.position(&key("y", "u")), None);
    assert_eq!(snapshot.key_at(1).unwrap().column, "y");
    assert_eq!(snapshot.key_at(2).unwrap().table, "u");
    assert!(snapshot.key_at(3).is_none());
}

#[test]
fn insert_replaces_the_value_of_a_known_key() {
    let mut snapshot: Snapshot<u32> = Snapshot::new();
    snapshot.insert(key("x", "t"), Some(1));
    snapshot.insert(key("y", "t"), Some(2));
    assert_eq!(snapshot.insert(key("x", "t"), None), Some(Some(1)));
    assert_eq!(snapshot.len(), 2);
    assert_eq!(snapshot.position(&key("x", "t")), Some(0));
    assert_eq!(snapshot.get(&key("x", "t")), Some(&None));
    assert_eq!(snapshot.get(&key("y", "t")), Some(&Some(2)));
}

#[test]
fn get_tells_absent_from_empty() {
    let mut snapshot: Snapshot<u32> = Snapshot::new();
    snapshot.insert(key("x", "t"), None);
    assert_eq!(snapshot.get(&key("x", "t")), Some(&None));
    assert_eq!(snapshot.get(&key("t", "x")), None);
}

#[test]
fn remove_takes_one_entry_out() {
    let mut snapshot: Snapshot<u32> = Snapshot::new();
    snapshot.insert(key("x", "t"), Some(1));
    snapshot.insert(key("y", "t"), Some(2));
    snapshot.insert(key("z", "t"), None);
    assert_eq!(snapshot.remove(&key("y", "t")), Some(Some(2)));
    assert_eq!(snapshot.remove(&key("y", "t")), None);
    assert_eq!(snapshot.len(), 2);
    assert_eq!(snapshot.position(&key("z", "t")), Some(1));
    assert_eq!(snapshot.get(&key("x", "t")), Some(&Some(1)));
    assert_eq!(snapshot.remove(&key("z", "t")), Some(None));
    assert_eq!(snapshot.len(), 1);
}

#[test]
fn ready_count_counts_present_values() {
    let mut snapshot: Snapshot<u32> = Snapshot::new();
    snapshot.insert(key("x", "t"), Some(1));
    snapshot.insert(key("y", "t"), None);
    snapshot.insert(key("z", "t"), Some(0));
    assert_eq!(snapshot.ready_count(), 2);
    snapshot.insert(key("y", "t"), Some(5));
    assert_eq!(snapshot.ready_count(), 3);
    assert_eq!(snapshot.ready_count(), snapshot.len());
}

#[test]
fn keys_are_equal_when_column_and_table_are() {
    assert!(key("x", "t").same(&key("x", "t")));
    assert!(!key("x", "t").same(&key("x", "u")));
    assert!(!key("x", "t").same(&key("y", "t")));
    assert!(!key("xt", "").same(&key("x", "t")));
    let copy = key("x", "t").clone();
    assert_eq!(copy.column, "x");
    assert_eq!(copy.table, "t");
}
