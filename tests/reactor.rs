use mocha_compositor::reactor::{FrameClock, TickPlan};

const DELAY: u64 = 1_000_000 / 165;

#[test]
fn idle_loop_returns_at_deadline_and_updates() {
    let mut clock = FrameClock::new(0, DELAY);
    assert_eq!(clock.delay(), 6060);
    let first = clock.tick(0);
    assert_eq!(first, TickPlan { run_update: false, deadline: 6060 });
    // No source is ready: the timer wakes the loop just after the deadline.
    let second = clock.tick(first.deadline + 1);
    assert!(second.run_update);
    assert_eq!(second.deadline, 6061 + 6060);
}

#[test]
fn early_wake_skips_update() {
    let mut clock = FrameClock::new(1000, DELAY);
    let p = clock.tick(2000);
    assert!(!p.run_update);
    assert_eq!(p.deadline, 8060);
    // Exactly one period later is not more than one period.
    let q = clock.tick(2000 + DELAY);
    assert!(!q.run_update);
}

#[test]
fn clock_going_backwards_counts_as_no_time() {
    let mut clock = FrameClock::new(50_000, DELAY);
    let p = clock.tick(10);
    assert!(!p.run_update);
    assert_eq!(p.deadline, 10 + DELAY);
}

#[test]
fn deadline_saturates() {
    let mut clock = FrameClock::new(0, DELAY);
    let p = clock.tick(u64::MAX - 5);
    assert!(p.run_update);
    assert_eq!(p.deadline, u64::MAX);
}
