//! The dashboard's periodic refresh.
use vstd::prelude::*;
use crate::timer::{new_timer, start_timer, ScheduledTimer, TimerRepeat};

verus! {

/// How often the dashboard refreshes, in milliseconds.
pub const UPDATE_INTERVAL_MS: u64 = 300;

/// One refresh of the dashboard window. There is nothing to refresh yet.
pub fn update<W>(window: &W) {
}

/// A timer that calls `update` on `window` every `UPDATE_INTERVAL_MS`
/// milliseconds, repeatedly, for as long as the returned timer is kept.
pub fn setup_timer<W: 'static>(window: W) -> (update_timer: ScheduledTimer)
    ensures
        update_timer.repeat_mode() == TimerRepeat::Repeated,
        update_timer.interval() == UPDATE_INTERVAL_MS,
{
    start_timer(new_timer(), TimerRepeat::Repeated, UPDATE_INTERVAL_MS, move || update(&window))
}

} // verus!
