use std::cell::RefCell;
use std::rc::Rc;

use poll_promise::Promise;
use series_poll::registry::{RegistryError, SeriesRegistry};
use series_poll::series::SeriesKey;
use series_poll::snapshot::Snapshot;

fn key(column: &str) -> SeriesKey {
    SeriesKey::new(column, "accelerometer_data")
}

fn seeds_of(entries: &[(&str, Option<u32>)]) -> Snapshot<u32> {
    let mut seeds = Snapshot::new();
    for (column, value) in entries {
        seeds.insert(key(column), *value);
    }
    seeds
}

fn ready(value: u32) -> impl Fn(&SeriesKey) -> Promise<Option<u32>> {
    move |_: &SeriesKey| Promise::from_ready(Some(value))
}

#[test]
fn new_registry_seeds_each_cell_and_counts_no_tick() {
    let started: Rc<RefCell<Vec<String>>> = Rc::new(RefCell::new(Vec::new()));
    let log = started.clone();
    let pending: Rc<RefCell<Vec<poll_promise::Sender<Option<u32>>>>> = Rc::new(RefCell::new(Vec::new()));
    let held = pending.clone();
    let factory = move |k: &SeriesKey| {
        log.borrow_mut().push(k.column.clone());
        let (sender, promise) = Promise::new();
        held.borrow_mut().push(sender);
        promise
    };
    let keys = vec![key("x"), key("y"), key("z")];
    let seeds = seeds_of(&[("z", Some(3)), ("x", Some(1)), ("y", None), ("w", Some(9))]);
    let mut registry = SeriesRegistry::new(keys, seeds, &factory).unwrap();
    assert_eq!(*started.borrow(), vec!["x".to_string(), "y".to_string(), "z".to_string()]);
    assert_eq!(registry.len(), 3);
    assert_eq!(registry.cycle_ticks(), 0);
    let snapshot = registry.poll_all();
    assert_eq!(snapshot.len(), 3);
    assert_eq!(snapshot.key_at(0).unwrap().column, "x");
    assert_eq!(snapshot.key_at(1).unwrap().column, "y");
    assert_eq!(snapshot.key_at(2).unwrap().column, "z");
    assert_eq!(snapshot.get(&key("x")), Some(&Some(1)));
    assert_eq!(snapshot.get(&key("y")), Some(&None));
    assert_eq!(snapshot.get(&key("z")), Some(&Some(3)));
    assert_eq!(snapshot.get(&key("w")), None);
    assert_eq!(snapshot.ready_count(), 2);
    assert_eq!(registry.cycle_ticks(), 0);
    assert_eq!(pending.borrow().len(), 3);
}

#[test]
fn poll_all_takes_in_finished_fetches() {
    let keys = vec![key("x"), key("y")];
    let seeds = seeds_of(&[("x", None), ("y", Some(4))]);
    let mut registry = SeriesRegistry::new(keys, seeds, &ready(7)).unwrap();
    let snapshot = registry.poll_all();
    assert_eq!(snapshot.get(&key("x")), Some(&Some(7)));
    assert_eq!(snapshot.get(&key("y")), Some(&Some(7)));
    assert_eq!(snapshot.ready_count(), 2);
    let again = registry.poll_all();
    assert_eq!(again.get(&key("x")), Some(&Some(7)));
    assert_eq!(again.get(&key("y")), Some(&Some(7)));
}

#[test]
fn a_missing_seed_is_an_error() {
    let keys = vec![key("x"), key("y"), key("z")];
    let seeds = seeds_of(&[("x", None), ("z", None)]);
    let built = SeriesRegistry::new(keys, seeds, &ready(0));
    assert_eq!(built.err(), Some(RegistryError::MissingSeed(1)));
}

#[test]
fn no_seeds_at_all_is_an_error_at_the_first_key() {
    let keys = vec![key("x"), key("y")];
    let built = SeriesRegistry::new(keys, Snapshot::<u32>::new(), &ready(0));
    assert_eq!(built.err(), Some(RegistryError::MissingSeed(0)));
}

#[test]
fn a_repeated_key_is_an_error() {
    let keys = vec![key("x"), key("y"), key("x")];
    let seeds = seeds_of(&[("x", None), ("y", None)]);
    let built = SeriesRegistry::new(keys, seeds, &ready(0));
    assert_eq!(built.err(), Some(RegistryError::DuplicateKey(2)));
}

#[test]
fn the_first_fault_is_reported() {
    let keys = vec![key("x"), key("x"), key("y")];
    let seeds = seeds_of(&[("x", None)]);
    let built = SeriesRegistry::new(keys, seeds, &ready(0));
    assert_eq!(built.err(), Some(RegistryError::DuplicateKey(1)));

    let keys = vec![key("y"), key("x"), key("x")];
    let seeds = seeds_of(&[("x", None)]);
    let built = SeriesRegistry::new(keys, seeds, &ready(0));
    assert_eq!(built.err(), Some(RegistryError::MissingSeed(0)));
}

#[test]
fn no_fetch_is_started_when_the_keys_are_refused() {
    let started = Rc::new(RefCell::new(0usize));
    let count = started.clone();
    let factory = move |_: &SeriesKey| {
        *count.borrow_mut() += 1;
        Promise::from_ready(Some(1u32))
    };
    let keys = vec![key("x"), key("y")];
    let seeds = seeds_of(&[("x", None)]);
    assert!(SeriesRegistry::new(keys, seeds, &factory).is_err());
    assert_eq!(*started.borrow(), 0);
}

#[test]
fn a_registry_without_keys_polls_to_an_empty_snapshot() {
    let mut registry = SeriesRegistry::new(Vec::new(), Snapshot::<u32>::new(), &ready(0)).unwrap();
    assert_eq!(registry.len(), 0);
    let snapshot = registry.poll_all();
    assert_eq!(snapshot.len(), 0);
    assert_eq!(snapshot.ready_count(), 0);
}

#[test]
fn keys_that_differ_only_in_table_are_different_series() {
    let keys = vec![SeriesKey::new("x", "a"), SeriesKey::new("x", "b")];
    let mut seeds: Snapshot<u32> = Snapshot::new();
    seeds.insert(SeriesKey::new("x", "a"), Some(1));
    seeds.insert(SeriesKey::new("x", "b"), Some(2));
    let (_s1, p1) = Promise::new();
    let (_s2, p2) = Promise::new();
    let promises = RefCell::new(vec![p2, p1]);
    let factory = move |_: &SeriesKey| promises.borrow_mut().pop().unwrap();
    let mut registry = SeriesRegistry::new(keys, seeds, &factory).unwrap();
    let snapshot = registry.poll_all();
    assert_eq!(snapshot.get(&SeriesKey::new("x", "a")), Some(&Some(1)));
    assert_eq!(snapshot.get(&SeriesKey::new("x", "b")), Some(&Some(2)));
}
