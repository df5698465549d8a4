//! Debounce behavior of the watch loop, on synthetic timestamped events.

use denver::watch::{WatchState, DEBOUNCE_SECS};

#[test]
fn debounce_threshold_is_two_units() {
    assert_eq!(DEBOUNCE_SECS, 2);
    let mut st = WatchState::new(100);
    assert!(!st.on_event(101)); // within the window: discarded
    assert_eq!(st.last_build, 100);
    assert!(st.on_event(102)); // exactly the window: rebuild
    assert_eq!(st.last_build, 102);
}

#[test]
fn burst_of_events_triggers_one_rebuild() {
    // several events within less than the window of each other: one rebuild
    let mut st = WatchState::new(0);
    let events = vec![10, 10, 11, 11, 11];
    let rebuilds = denver::watch::replay_events(&mut st, &events);
    assert_eq!(rebuilds, 1);
    assert_eq!(st.last_build, 10);
}

#[test]
fn separated_events_trigger_separate_rebuilds() {
    // two events separated by more than the window: two rebuilds
    let mut st = WatchState::new(0);
    let events = vec![5, 8];
    let rebuilds = denver::watch::replay_events(&mut st, &events);
    assert_eq!(rebuilds, 2);
    assert_eq!(st.last_build, 8);
}

#[test]
fn window_measures_from_last_rebuild_not_last_event() {
    // events keep arriving 1 unit apart; the rebuild happens whenever 2
    // units have passed since the last rebuild, not since the last event
    let mut st = WatchState::new(0);
    let events = vec![2, 3, 4, 5, 6];
    let rebuilds = denver::watch::replay_events(&mut st, &events);
    assert_eq!(rebuilds, 3); // at 2, 4 and 6
    assert_eq!(st.last_build, 6);
}
