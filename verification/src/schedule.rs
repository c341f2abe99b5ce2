//! The configured time of day of the digest and where it goes.

use crate::entry::CalendarDate;
use crate::error::DigestError;
use vstd::prelude::*;

verus! {

/// The hour at which a new schedule fires.
pub const DEFAULT_HOUR: u32 = 17;

/// The minute at which a new schedule fires.
pub const DEFAULT_MINUTE: u32 = 0;

/// The width of the window that starts at the target minute, in minutes.
pub const WINDOW_MINUTES: u32 = 5;

/// When the digest fires, where it goes, and the day on which one was last
/// delivered.
#[derive(Clone, Copy, Debug, PartialEq, Eq)]
pub struct ScheduleState {
    hour: u32,
    minute: u32,
    destination: Option<u64>,
    last_fired: Option<CalendarDate>,
}

/// What a [`ScheduleState`] holds.
pub struct ScheduleView {
    pub hour: u32,
    pub minute: u32,
    pub destination: Option<u64>,
    pub last_fired: Option<CalendarDate>,
}

/// The schedule before anything is configured: 17:00, no destination,
/// never fired.
pub open spec fn default_schedule() -> ScheduleView {
    ScheduleView {
        hour: DEFAULT_HOUR,
        minute: DEFAULT_MINUTE,
        destination: None,
        last_fired: None,
    }
}

/// `hour` and `minute` name a minute of the day.
pub open spec fn valid_time(hour: u32, minute: u32) -> bool {
    hour <= 23 && minute <= 59
}

/// A wake-up at `now_hour`:`now_minute` falls into the window of `schedule`:
/// in the target hour, at the target minute or one of the following
/// `WINDOW_MINUTES - 1` minutes.
pub open spec fn eligible(schedule: ScheduleView, now_hour: u32, now_minute: u32) -> bool {
    now_hour == schedule.hour && schedule.minute <= now_minute < schedule.minute + WINDOW_MINUTES
}

impl View for ScheduleState {
    type V = ScheduleView;

    closed spec fn view(&self) -> ScheduleView {
        ScheduleView {
            hour: self.hour,
            minute: self.minute,
            destination: self.destination,
            last_fired: self.last_fired,
        }
    }
}

impl ScheduleState {
    #[verifier::type_invariant]
    spec fn time_is_valid(self) -> bool {
        valid_time(self.hour, self.minute)
    }

    /// The schedule before anything is configured.
    pub fn new() -> (schedule: ScheduleState)
        ensures
            schedule@ == default_schedule(),
    {
        ScheduleState {
            hour: DEFAULT_HOUR,
            minute: DEFAULT_MINUTE,
            destination: None,
            last_fired: None,
        }
    }

    /// A schedule with the given contents, if the time is valid.
    pub fn from_parts(
        hour: u32,
        minute: u32,
        destination: Option<u64>,
        last_fired: Option<CalendarDate>,
    ) -> (schedule: Result<ScheduleState, DigestError>)
        ensures
            valid_time(hour, minute) ==> (schedule matches Ok(s) && s@ == (ScheduleView {
                hour,
                minute,
                destination,
                last_fired,
            })),
            !valid_time(hour, minute) ==> schedule == Err::<ScheduleState, DigestError>(
                DigestError::InvalidTime,
            ),
    {
        if hour > 23 || minute > 59 {
            Err(DigestError::InvalidTime)
        } else {
            Ok(ScheduleState { hour, minute, destination, last_fired })
        }
    }

    /// The target hour, the target minute and the destination.
    pub fn get(&self) -> (read: (u32, u32, Option<u64>))
        ensures
            read == (self@.hour, self@.minute, self@.destination),
            valid_time(read.0, read.1),
    {
        proof {
            use_type_invariant(self);
        }
        (self.hour, self.minute, self.destination)
    }

    /// The target hour, at most 23.
    pub fn hour(&self) -> (hour: u32)
        ensures
            hour == self@.hour,
            hour <= 23,
    {
        proof {
            use_type_invariant(self);
        }
        self.hour
    }

    /// The target minute, at most 59.
    pub fn minute(&self) -> (minute: u32)
        ensures
            minute == self@.minute,
            minute <= 59,
    {
        proof {
            use_type_invariant(self);
        }
        self.minute
    }

    /// Where the digest goes, once configured.
    pub fn destination(&self) -> (destination: Option<u64>)
        ensures
            destination == self@.destination,
    {
        self.destination
    }

    /// The day on which a digest was last delivered.
    pub fn last_fired(&self) -> (day: Option<CalendarDate>)
        ensures
            day == self@.last_fired,
    {
        self.last_fired
    }

    /// Sets where the digest goes.
    pub fn set_destination(&mut self, id: u64)
        ensures
            final(self)@ == (ScheduleView { destination: Some(id), ..old(self)@ }),
    {
        proof {
            use_type_invariant(&*self);
        }
        self.destination = Some(id);
    }

    /// Sets the time of day at which the digest fires. A time that is not
    /// valid is refused and changes nothing.
    pub fn set_time(&mut self, hour: u32, minute: u32) -> (done: Result<(), DigestError>)
        ensures
            valid_time(hour, minute) ==> done is Ok && final(self)@ == (ScheduleView {
                hour,
                minute,
                ..old(self)@
            }),
            !valid_time(hour, minute) ==> final(self)@ == old(self)@ && done == Err::<
                (),
                DigestError,
            >(DigestError::InvalidTime),
    {
        if hour > 23 || minute > 59 {
            return Err(DigestError::InvalidTime);
        }
        proof {
            use_type_invariant(&*self);
        }
        let updated = ScheduleState {
            hour,
            minute,
            destination: self.destination,
            last_fired: self.last_fired,
        };
        *self = updated;
        Ok(())
    }

    /// Notes that a digest was delivered on `day`.
    pub fn record_fired(&mut self, day: CalendarDate)
        ensures
            final(self)@ == (ScheduleView { last_fired: Some(day), ..old(self)@ }),
    {
        proof {
            use_type_invariant(&*self);
        }
        self.last_fired = Some(day);
    }

    /// Decides whether a wake-up at `now_hour`:`now_minute` falls into the
    /// window.
    pub fn is_eligible(&self, now_hour: u32, now_minute: u32) -> (fire: bool)
        ensures
            fire == eligible(self@, now_hour, now_minute),
    {
        proof {
            use_type_invariant(self);
        }
        now_hour == self.hour && now_minute >= self.minute && now_minute < self.minute
            + WINDOW_MINUTES
    }
}

} // verus!
