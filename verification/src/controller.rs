//! The decisions of the background loop: when to start a cycle and how long
//! to sleep.
//!
//! The loop itself sleeps and sends, which the library does not do. It asks
//! the controller on every wake-up and tells it how each cycle ended.

use crate::clock::{read_local_clock, ClockReading};
use crate::schedule::{eligible, valid_time, ScheduleState, ScheduleView, WINDOW_MINUTES};
use vstd::prelude::*;

verus! {

/// The sleep between two looks at the clock, in seconds.
pub const WAKE_INTERVAL_SECONDS: u64 = 60;

/// The sleep after a digest was delivered, in seconds. Longer than the
/// window, so that the next look at the clock falls behind it.
pub const COOLDOWN_SECONDS: u64 = 360;

/// Where the background loop stands.
#[derive(Clone, Copy, Debug, PartialEq, Eq, Structural)]
pub enum ControllerState {
    /// Waiting for the next look at the clock.
    Idle,
    /// A cycle is in progress.
    Firing,
    /// A digest was delivered and the long sleep follows.
    Cooldown,
}

/// What the loop does next.
#[derive(Clone, Copy, Debug, PartialEq, Eq, Structural)]
pub enum ControllerAction {
    /// Run one digest cycle and report how it ended.
    RunCycle,
    /// Sleep for so many seconds, then look at the clock again.
    Sleep(u64),
}

/// How a cycle ended, as far as the controller needs to know.
#[derive(Clone, Copy, Debug, PartialEq, Eq, Structural)]
pub enum CycleOutcome {
    /// No report was pending.
    NothingToSend,
    /// The digest arrived.
    Delivered,
    /// The digest did not arrive.
    Failed,
}

/// The decision on a wake-up at `now_hour`:`now_minute`. A cycle starts
/// where the time falls into the window and none is in progress. Otherwise
/// the loop sleeps for the usual interval.
pub open spec fn on_wake_spec(
    state: ControllerState,
    schedule: ScheduleView,
    now_hour: u32,
    now_minute: u32,
) -> (ControllerState, ControllerAction) {
    match state {
        ControllerState::Firing => (
            ControllerState::Firing,
            ControllerAction::Sleep(WAKE_INTERVAL_SECONDS),
        ),
        _ => if eligible(schedule, now_hour, now_minute) {
            (ControllerState::Firing, ControllerAction::RunCycle)
        } else {
            (ControllerState::Idle, ControllerAction::Sleep(WAKE_INTERVAL_SECONDS))
        },
    }
}

/// The decision at the end of a cycle. Only a delivered digest is followed
/// by the long sleep. A cycle that sent nothing or failed is followed by the
/// usual interval, so that the next wake-up in the window tries again.
pub open spec fn on_cycle_end_spec(state: ControllerState, outcome: CycleOutcome) -> (
    ControllerState,
    ControllerAction,
) {
    match (state, outcome) {
        (ControllerState::Firing, CycleOutcome::Delivered) => (
            ControllerState::Cooldown,
            ControllerAction::Sleep(COOLDOWN_SECONDS),
        ),
        (ControllerState::Firing, _) => (
            ControllerState::Idle,
            ControllerAction::Sleep(WAKE_INTERVAL_SECONDS),
        ),
        _ => (state, ControllerAction::Sleep(WAKE_INTERVAL_SECONDS)),
    }
}

impl ControllerState {
    /// The state in which the loop starts.
    pub fn new() -> (state: ControllerState)
        ensures
            state == ControllerState::Idle,
    {
        ControllerState::Idle
    }

    /// Decides on a wake-up at `now_hour`:`now_minute`.
    pub fn on_wake(self, schedule: &ScheduleState, now_hour: u32, now_minute: u32) -> (next: (
        ControllerState,
        ControllerAction,
    ))
        ensures
            next == on_wake_spec(self, schedule@, now_hour, now_minute),
    {
        match self {
            ControllerState::Firing => (
                ControllerState::Firing,
                ControllerAction::Sleep(WAKE_INTERVAL_SECONDS),
            ),
            _ => {
                if schedule.is_eligible(now_hour, now_minute) {
                    (ControllerState::Firing, ControllerAction::RunCycle)
                } else {
                    (ControllerState::Idle, ControllerAction::Sleep(WAKE_INTERVAL_SECONDS))
                }
            },
        }
    }

    /// Decides on a wake-up at the local time now, which is returned with
    /// the decision.
    pub fn on_wake_now(self, schedule: &ScheduleState) -> (next: (
        ControllerState,
        ControllerAction,
        ClockReading,
    ))
        ensures
            (next.0, next.1) == on_wake_spec(self, schedule@, next.2.hour, next.2.minute),
            next.2.in_range(),
    {
        let now = read_local_clock();
        let (state, action) = self.on_wake(schedule, now.hour, now.minute);
        (state, action, now)
    }

    /// Decides at the end of a cycle.
    pub fn on_cycle_end(self, outcome: CycleOutcome) -> (next: (ControllerState, ControllerAction))
        ensures
            next == on_cycle_end_spec(self, outcome),
    {
        match self {
            ControllerState::Firing => match outcome {
                CycleOutcome::Delivered => (
                    ControllerState::Cooldown,
                    ControllerAction::Sleep(COOLDOWN_SECONDS),
                ),
                _ => (ControllerState::Idle, ControllerAction::Sleep(WAKE_INTERVAL_SECONDS)),
            },
            _ => (self, ControllerAction::Sleep(WAKE_INTERVAL_SECONDS)),
        }
    }
}

/// The hour of the day at `second_of_day` seconds past midnight.
pub open spec fn hour_at(second_of_day: int) -> u32 {
    (second_of_day / 3600) as u32
}

/// The minute of the hour at `second_of_day` seconds past midnight.
pub open spec fn minute_at(second_of_day: int) -> u32 {
    ((second_of_day % 3600) / 60) as u32
}

/// At most one digest per window: after a wake-up in the window, no wake-up
/// of the same day that comes [`COOLDOWN_SECONDS`] later, or later still,
/// falls into the window.
pub proof fn lemma_cooldown_leaves_window(schedule: ScheduleView, fired: int, later: int)
    requires
        valid_time(schedule.hour, schedule.minute),
        0 <= fired < 86400,
        eligible(schedule, hour_at(fired), minute_at(fired)),
        fired + COOLDOWN_SECONDS <= later < 86400,
    ensures
        !eligible(schedule, hour_at(later), minute_at(later)),
{
    let start = schedule.hour * 3600 + schedule.minute * 60;
    assert(start <= fired);
    assert(later >= start + WINDOW_MINUTES * 60);
}

} // verus!
