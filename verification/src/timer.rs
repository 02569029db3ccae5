//! Timers of the UI toolkit, each with the schedule it was started with.
use vstd::prelude::*;
use i_slint_core::timers::Timer;

verus! {

#[verifier::external_type_specification]
#[verifier::external_body]
pub struct ExTimer(i_slint_core::timers::Timer);

/// Whether a timer fires once or until it is stopped.
#[derive(Clone, Copy, Debug, PartialEq, Eq, Structural)]
pub enum TimerRepeat {
    SingleShot,
    Repeated,
}

/// A started timer of the UI toolkit, with the mode and interval it was
/// started with and whether the toolkit reported it running right after.
/// Only `start_timer` makes one, and records there what it hands to the
/// toolkit and what it reads back.
pub struct ScheduledTimer {
    timer: Timer,
    repeat: TimerRepeat,
    interval_ms: u64,
    running_at_start: bool,
}

impl ScheduledTimer {
    /// The mode the timer was started with.
    pub closed spec fn repeat_mode(&self) -> TimerRepeat {
        self.repeat
    }

    /// The interval the timer was started with, in milliseconds.
    pub closed spec fn interval(&self) -> u64 {
        self.interval_ms
    }

    /// What the toolkit reported, right after the start, on whether the
    /// timer runs.
    pub closed spec fn reported_running(&self) -> bool {
        self.running_at_start
    }

    pub fn repeat(&self) -> (r: TimerRepeat)
        ensures
            r == self.repeat_mode(),
    {
        self.repeat
    }

    pub fn interval_ms(&self) -> (ms: u64)
        ensures
            ms == self.interval(),
    {
        self.interval_ms
    }

    pub fn running_after_start(&self) -> (b: bool)
        ensures
            b == self.reported_running(),
    {
        self.running_at_start
    }

    /// The toolkit's timer; it stops when dropped.
    pub fn timer(&self) -> &Timer {
        &self.timer
    }
}

/// `Timer::default`: a timer that has not been started.
#[verifier::external_body]
pub(crate) fn new_timer() -> Timer {
    Timer::default()
}

/// `Timer::start`: starts `timer` so that `callback` is called after
/// `interval_ms` milliseconds, once or repeatedly, followed by
/// `Timer::running`, whose answer is recorded. Claimed: the timer was handed
/// exactly `repeat` and `interval_ms` (they are recorded as they are handed
/// over). Whether it runs is not claimed: the toolkit starts nothing while the
/// thread's thread-local storage is being torn down. The interval is bounded
/// because the toolkit adds it, in milliseconds, to the time since it started
/// in a `u64`.
#[verifier::external_body]
pub(crate) fn start_timer<F: Fn() + 'static>(
    timer: Timer,
    repeat: TimerRepeat,
    interval_ms: u64,
    callback: F,
) -> (t: ScheduledTimer)
    requires
        interval_ms <= u32::MAX,
    ensures
        t.repeat_mode() == repeat,
        t.interval() == interval_ms,
{
    timer.start(
        match repeat {
            TimerRepeat::SingleShot => i_slint_core::timers::TimerMode::SingleShot,
            TimerRepeat::Repeated => i_slint_core::timers::TimerMode::Repeated,
        },
        core::time::Duration::from_millis(interval_ms),
        callback,
    );
    let running_at_start = timer.running();
    ScheduledTimer { timer, repeat, interval_ms, running_at_start }
}

} // verus!
