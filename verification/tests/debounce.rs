use clockhand::debounce::{DebounceState, DEFAULT_INTERVAL_SECS, NANOS_PER_SECOND};

const SECOND: u128 = 1_000_000_000;

#[test]
fn default_interval_is_a_minute() {
    assert_eq!(DEFAULT_INTERVAL_SECS, 60);
    assert_eq!(NANOS_PER_SECOND, SECOND);
}

#[test]
fn new_state_counts_the_interval_in_nanoseconds() {
    let state = DebounceState::new(60);
    assert_eq!(state.last_fired, None);
    assert_eq!(state.interval, 60 * SECOND);
    assert_eq!(DebounceState::new(u64::MAX).interval, u64::MAX as u128 * SECOND);
}

#[test]
fn first_change_always_fires() {
    let mut state = DebounceState::new(60);
    assert!(state.accept(0));
    assert_eq!(state.last_fired, Some(0));
    let mut late = DebounceState::new(60);
    assert!(late.accept(5 * SECOND));
    assert_eq!(late.last_fired, Some(5 * SECOND));
}

#[test]
fn change_within_the_interval_is_dropped_and_leaves_the_state() {
    let mut state = DebounceState::new(60);
    assert!(state.accept(10 * SECOND));
    assert!(!state.accept(30 * SECOND));
    assert_eq!(state.last_fired, Some(10 * SECOND));
    assert!(!state.accept(70 * SECOND));
    assert_eq!(state.last_fired, Some(10 * SECOND));
}

#[test]
fn change_fires_only_after_more_than_the_interval() {
    let mut state = DebounceState::new(60);
    assert!(state.accept(10 * SECOND));
    assert!(!state.accept(70 * SECOND));
    assert!(state.accept(70 * SECOND + 1));
    assert_eq!(state.last_fired, Some(70 * SECOND + 1));
}

#[test]
fn clock_that_runs_backwards_fires_nothing() {
    let mut state = DebounceState::new(0);
    assert!(state.accept(10));
    assert!(!state.accept(5));
    assert!(!state.accept(10));
    assert!(state.accept(11));
}

#[test]
fn burst_within_one_interval_fires_once() {
    let mut state = DebounceState::new(60);
    let mut fired = 0;
    for step in 0..600u128 {
        if state.accept(1000 * SECOND + step * SECOND / 10) {
            fired += 1;
        }
    }
    assert_eq!(fired, 1);
}

#[test]
fn changes_every_half_interval_fire_every_third_time() {
    let mut state = DebounceState::new(60);
    let fired: Vec<bool> = (0..7u128).map(|step| state.accept(step * 30 * SECOND)).collect();
    assert_eq!(fired, vec![true, false, false, true, false, false, true]);
}
