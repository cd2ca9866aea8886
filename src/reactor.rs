//! The pacing of the reactor: when the host's per-frame update runs and how
//! long one dispatch may wait for ready sources.

use vstd::prelude::*;

verus! {

/// What one loop iteration does.
#[derive(Clone, Copy, Debug, PartialEq, Eq, Structural)]
pub struct TickPlan {
    /// Whether the host's update runs before dispatching.
    pub run_update: bool,
    /// The time by which the dispatch returns even if no source is ready:
    /// a timer source fires then.
    pub deadline: u64,
}

/// The frame clock of the loop; times are monotonic microseconds.
#[derive(Clone, Copy, Debug, PartialEq, Eq, Structural)]
pub struct FrameClock {
    start: u64,
    delay: u64,
}

impl FrameClock {
    /// The start of the current iteration.
    pub closed spec fn start_spec(&self) -> u64 {
        self.start
    }

    /// The frame period.
    pub closed spec fn delay_spec(&self) -> u64 {
        self.delay
    }

    /// A clock whose first iteration started at `now`, with period `delay`.
    pub fn new(now: u64, delay: u64) -> (r: Self)
        ensures
            r.start_spec() == now,
            r.delay_spec() == delay,
    {
        FrameClock { start: now, delay }
    }

    /// The frame period.
    pub fn delay(&self) -> (r: u64)
        ensures
            r == self.delay_spec(),
    {
        self.delay
    }

    /// Starts an iteration at `now`: the update runs when more than one
    /// period has passed since the previous iteration began, and the dispatch
    /// waits at most one period.
    pub fn tick(&mut self, now: u64) -> (r: TickPlan)
        ensures
            final(self).start_spec() == now,
            final(self).delay_spec() == old(self).delay_spec(),
            r.run_update == (now as int - old(self).start_spec() as int > old(self).delay_spec() as int),
            r.deadline == (if now as int + old(self).delay_spec() as int <= u64::MAX as int {
                (now + old(self).delay_spec()) as u64
            } else {
                u64::MAX
            }),
    {
        let elapsed = now.saturating_sub(self.start);
        self.start = now;
        TickPlan { run_update: elapsed > self.delay, deadline: now.saturating_add(self.delay) }
    }
}

/// The wait of an iteration is bounded: the deadline is at most one period
/// after its start, and an iteration that starts after that deadline runs the
/// update, ready sources or not.
pub proof fn lemma_bounded_wait(now: u64, delay: u64, plan: TickPlan, woken: u64)
    requires
        plan.deadline == (if now as int + delay as int <= u64::MAX as int { (now + delay) as u64 } else { u64::MAX }),
        woken > plan.deadline,
    ensures
        plan.deadline as int <= now as int + delay as int,
        woken as int - now as int > delay as int,
{
}

} // verus!
