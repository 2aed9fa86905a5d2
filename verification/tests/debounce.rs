use webview_host::debounce::{should_start, Debounce, DebounceStep};

#[test]
fn one_write_after_events_stop() {
    assert!(should_start(false));
    assert!(!should_start(true));
    let mut d = Debounce::start(5);
    assert!(matches!(d.on_wake(7), DebounceStep::Sleep));
    assert_eq!(d.seen, 7);
    assert!(matches!(d.on_wake(7), DebounceStep::Persist));
    assert!(matches!(d.on_persisted(7), DebounceStep::Release));
}

#[test]
fn events_during_write_keep_the_task_alive() {
    let mut d = Debounce::start(1);
    assert!(matches!(d.on_wake(1), DebounceStep::Persist));
    assert!(matches!(d.on_persisted(3), DebounceStep::Sleep));
    assert_eq!(d.seen, 3);
    assert!(matches!(d.on_wake(3), DebounceStep::Persist));
    assert!(matches!(d.on_persisted(3), DebounceStep::Release));
}

#[test]
fn write_follows_within_two_wakes() {
    let mut d = Debounce::start(2);
    // Events went on to tick 9 and then stopped.
    assert!(matches!(d.on_wake(9), DebounceStep::Sleep));
    assert!(matches!(d.on_wake(9), DebounceStep::Persist));
}

#[test]
fn event_after_release_is_taken_up() {
    let mut d = Debounce::start(4);
    assert!(matches!(d.on_wake(4), DebounceStep::Persist));
    assert!(matches!(d.on_persisted(4), DebounceStep::Release));
    // An event bumped the counter after the last read: take the flag back.
    assert!(matches!(d.on_released(5), DebounceStep::Reclaim));
    assert_eq!(d.seen, 5);
    assert!(should_start(false));
    assert!(matches!(d.on_wake(5), DebounceStep::Persist));
    assert!(matches!(d.on_persisted(5), DebounceStep::Release));
    assert!(matches!(d.on_released(5), DebounceStep::Stop));
}
