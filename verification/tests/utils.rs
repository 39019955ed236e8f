use barust::utils::timed_hooks::HookSchedule;
use barust::utils::{Callback, OnClickCallback, ResettableTimer};
use std::cell::Cell;
use std::time::Duration;

#[test]
fn callback_calls_its_closure() {
    let c = Callback::new(|x: u32| x * 2);
    assert_eq!(c.call(21), 42);
}

#[test]
fn on_click_callback_calls_or_does_nothing() {
    let hits = Cell::new((0, 0));
    let some = OnClickCallback::new(Some(|x: u32, y: u32| hits.set((x, y))));
    some.call(3, 4);
    assert_eq!(hits.get(), (3, 4));
    let none: OnClickCallback<fn(u32, u32)> = OnClickCallback::new(None);
    none.call(5, 6);
    assert_eq!(hits.get(), (3, 4));
}

#[test]
fn resettable_timer_compares_elapsed_with_duration() {
    let mut t = ResettableTimer::new(Duration::from_millis(10));
    assert!(!t.is_done_after(Duration::from_millis(10)));
    assert!(t.is_done_after(Duration::from_millis(11)));
    assert!(!t.is_done_after(Duration::from_secs(0)));
    let long = ResettableTimer::new(Duration::from_secs(3600));
    assert!(!long.is_done());
    t.reset();
    assert_eq!(t.duration, Duration::from_millis(10));
}

#[test]
fn schedule_groups_by_period_and_fires_when_due() {
    let mut s = HookSchedule::new();
    assert_eq!(s.next_wake(0), 1_000_000_000);
    s.subscribe(100, 1, 0);
    s.subscribe(50, 2, 0);
    s.subscribe(100, 3, 10);
    // nothing is due before its period has passed
    assert_eq!(s.fire_due(50), Vec::<usize>::new());
    assert_eq!(s.next_wake(50), 0);
    // the 50 group is due at 51, the 100 group at 101
    assert_eq!(s.fire_due(51), vec![2]);
    assert_eq!(s.next_wake(51), 49);
    assert_eq!(s.fire_due(101), vec![1, 3]);
    // after firing nothing is due any more at the same time
    assert_eq!(s.fire_due(101), Vec::<usize>::new());
    assert_eq!(s.next_wake(101), 0);
    assert_eq!(s.fire_due(200), vec![2]);
}

#[test]
fn schedule_before_last_firing_is_never_due() {
    let mut s = HookSchedule::new();
    s.subscribe(100, 7, 1_000);
    // a time before the group last fired counts as no time passed
    assert_eq!(s.fire_due(10), Vec::<usize>::new());
    assert_eq!(s.next_wake(10), 100);
    assert_eq!(s.fire_due(1_101), vec![7]);
}

#[test]
fn time_summary_of_timings() {
    assert_eq!(barust::utils::time_summary(&vec![30, 10, 20]), (20, 30, 10));
    // the average is rounded down
    assert_eq!(barust::utils::time_summary(&vec![1, 2]), (1, 2, 1));
    assert_eq!(barust::utils::time_summary(&vec![u64::MAX, u64::MAX]), (u64::MAX, u64::MAX, u64::MAX));
}

#[test]
fn schedule_wakes_just_in_time() {
    let mut s = HookSchedule::new();
    s.subscribe(100, 1, 0);
    s.subscribe(30, 2, 0);
    let sleep = s.next_wake(10);
    assert_eq!(sleep, 20);
    // nothing becomes due while sleeping
    assert_eq!(s.fire_due(10 + sleep), Vec::<usize>::new());
    // a nanosecond later the shortest period is due
    assert_eq!(s.fire_due(10 + sleep + 1), vec![2]);
    // the group that just fired waits for its whole period again
    assert_eq!(s.fire_due(31 + 30), Vec::<usize>::new());
    assert_eq!(s.fire_due(31 + 31), vec![2]);
}
