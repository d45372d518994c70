use poll_promise::Promise;
use series_poll::cell::{FetchState, PollableValue};

#[test]
fn new_cell_holds_its_default_value() {
    let (_sender, promise) = Promise::new();
    let mut cell: PollableValue<u32> = PollableValue::new(Some(5), promise);
    assert_eq!(cell.value, Some(5));
    assert_eq!(cell.poll(), Some(5));
}

#[test]
fn poll_returns_none_before_the_first_value() {
    let (_sender, promise) = Promise::new();
    let mut cell: PollableValue<u32> = PollableValue::new(None, promise);
    assert_eq!(cell.poll(), None);
    assert_eq!(cell.poll(), None);
    assert_eq!(cell.value, None);
}

#[test]
fn poll_takes_in_the_value_of_a_finished_fetch() {
    let (sender, promise) = Promise::new();
    let mut cell: PollableValue<String> = PollableValue::new(None, promise);
    assert_eq!(cell.poll(), None);
    sender.send(Some("ready".to_string()));
    assert_eq!(cell.poll(), Some("ready".to_string()));
    assert_eq!(cell.value, Some("ready".to_string()));
}

#[test]
fn a_finished_fetch_replaces_the_default_value() {
    let mut cell: PollableValue<u32> = PollableValue::new(Some(1), Promise::from_ready(Some(2)));
    assert_eq!(cell.poll(), Some(2));
}

#[test]
fn a_failed_fetch_keeps_the_previous_value() {
    let (sender, promise) = Promise::new();
    let mut cell: PollableValue<u32> = PollableValue::new(Some(3), promise);
    sender.send(None);
    assert_eq!(cell.poll(), Some(3));
    assert_eq!(cell.poll(), Some(3));
}

#[test]
fn a_failed_fetch_without_default_stays_empty() {
    let mut cell: PollableValue<u32> = PollableValue::new(None, Promise::from_ready(None));
    assert_eq!(cell.poll(), None);
    assert_eq!(cell.value, None);
}

#[test]
fn polling_twice_after_completion_returns_the_same_value() {
    let mut cell: PollableValue<Vec<[u8; 2]>> =
        PollableValue::new(None, Promise::from_ready(Some(vec![[1, 2], [3, 4]])));
    let first = cell.poll();
    let second = cell.poll();
    assert_eq!(first, Some(vec![[1, 2], [3, 4]]));
    assert_eq!(first, second);
}

#[test]
fn a_fetch_whose_sender_is_gone_stays_pending() {
    let (sender, promise) = Promise::<Option<u32>>::new();
    drop(sender);
    let mut cell = PollableValue::new(Some(9), promise);
    assert_eq!(cell.poll(), Some(9));
    assert_eq!(cell.poll(), Some(9));
}

#[test]
fn absorb_pending_changes_nothing() {
    let (_sender, promise) = Promise::new();
    let mut cell: PollableValue<u32> = PollableValue::new(Some(4), promise);
    assert_eq!(cell.absorb(FetchState::Pending), Some(4));
    assert_eq!(cell.absorb(FetchState::Finished(Some(6))), Some(6));
}

#[test]
fn absorb_ignores_what_comes_after_the_fetch_has_finished() {
    let (_sender, promise) = Promise::new();
    let mut cell: PollableValue<u32> = PollableValue::new(None, promise);
    assert_eq!(cell.absorb(FetchState::Finished(None)), None);
    assert_eq!(cell.absorb(FetchState::Finished(Some(8))), None);
    assert_eq!(cell.value, None);
}

#[test]
fn a_settled_cell_does_not_look_at_its_promise_again() {
    let (sender, promise) = Promise::new();
    let mut cell: PollableValue<u32> = PollableValue::new(Some(1), promise);
    assert_eq!(cell.absorb(FetchState::Finished(Some(2))), Some(2));
    sender.send(Some(3));
    assert_eq!(cell.poll(), Some(2));
}
