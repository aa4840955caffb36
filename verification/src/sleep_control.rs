//! Deep-sleep policy: classifying why the CPU is running.
use vstd::prelude::*;

verus! {

/// How long the RTC timer waits before automatically waking the CPU again,
/// in seconds.
pub const WAKE_INTERVAL_SECS: u64 = 300;

/// Why the CPU is currently executing.
#[derive(Debug, Clone, Copy, PartialEq, Eq, Structural)]
pub enum WakeReason {
    /// Power-on or any reset that wasn't a deep-sleep exit.
    ColdBoot,
    /// Woken by the accelerometer's INT2 pin (motion detected).
    Activity,
    /// Woken by the RTC timer with no external event: nothing to do, go back to sleep.
    TimerElapsed,
}

/// The kind of the last reset of the CPU.
#[derive(Debug, Clone, Copy, PartialEq, Eq, Structural)]
pub enum ResetKind {
    /// The core left deep sleep.
    CoreDeepSleep,
    /// Any other reset.
    Other,
}

/// What woke the CPU from sleep.
#[derive(Debug, Clone, Copy, PartialEq, Eq, Structural)]
pub enum WakeupCause {
    Timer,
    Other,
}

/// Classifies why the CPU is executing, from the last reset reason (if the
/// chip reports one) and the wakeup cause: a deep-sleep exit by the timer is a
/// timer wakeup, any other deep-sleep exit is activity, anything else a cold
/// boot.
pub fn classify_wakeup(reset: Option<ResetKind>, wakeup: WakeupCause) -> (r: WakeReason)
    ensures
        r == (if reset == Some(ResetKind::CoreDeepSleep) {
            if wakeup == WakeupCause::Timer {
                WakeReason::TimerElapsed
            } else {
                WakeReason::Activity
            }
        } else {
            WakeReason::ColdBoot
        }),
{
    match (reset, wakeup) {
        (Some(ResetKind::CoreDeepSleep), WakeupCause::Timer) => WakeReason::TimerElapsed,
        (Some(ResetKind::CoreDeepSleep), _) => WakeReason::Activity,
        _ => WakeReason::ColdBoot,
    }
}

} // verus!
