//! The snapshot that is saved after every change and read at start-up.
//!
//! Reading and writing the file is left to the caller. The library says what
//! goes into a snapshot and what state a loaded one stands for.

use crate::entry::{distinct_users, view_all, CalendarDate, ReportEntry, ReportEntryView};
use crate::error::DigestError;
use crate::schedule::{valid_time, ScheduleState, ScheduleView, DEFAULT_HOUR, DEFAULT_MINUTE};
use crate::state::{default_state, AppState, AppStateView};
use crate::store::{has_distinct_users, EntryStore};
use vstd::prelude::*;

verus! {

/// The pending reports and the schedule as they are saved.
#[derive(Debug, PartialEq, Eq)]
pub struct PersistedSnapshot {
    pub entries: Vec<ReportEntry>,
    pub destination: Option<u64>,
    /// Target hour and minute. A snapshot without them stands for the
    /// default time.
    pub time: Option<(u32, u32)>,
    pub last_fired: Option<CalendarDate>,
}

/// What a [`PersistedSnapshot`] holds.
pub struct SnapshotView {
    pub entries: Seq<ReportEntryView>,
    pub destination: Option<u64>,
    pub time: Option<(u32, u32)>,
    pub last_fired: Option<CalendarDate>,
}

impl View for PersistedSnapshot {
    type V = SnapshotView;

    open spec fn view(&self) -> SnapshotView {
        SnapshotView {
            entries: view_all(self.entries@),
            destination: self.destination,
            time: self.time,
            last_fired: self.last_fired,
        }
    }
}

/// The snapshot of `state`: all of it, with the time always present.
pub open spec fn snapshot_of(state: AppStateView) -> SnapshotView {
    SnapshotView {
        entries: state.entries,
        destination: state.schedule.destination,
        time: Some((state.schedule.hour, state.schedule.minute)),
        last_fired: state.schedule.last_fired,
    }
}

/// A snapshot is well formed if no user has two reports in it and its time,
/// where it has one, is valid.
pub open spec fn well_formed(snapshot: SnapshotView) -> bool {
    &&& distinct_users(snapshot.entries)
    &&& snapshot.time matches Some(t) ==> valid_time(t.0, t.1)
}

/// The state that a load stands for: that of the snapshot where one was
/// found and is well formed, else the default state, never a mixture.
pub open spec fn restored(loaded: Option<SnapshotView>) -> AppStateView {
    match loaded {
        Some(snapshot) => if well_formed(snapshot) {
            AppStateView {
                entries: snapshot.entries,
                schedule: ScheduleView {
                    hour: match snapshot.time {
                        Some(t) => t.0,
                        None => DEFAULT_HOUR,
                    },
                    minute: match snapshot.time {
                        Some(t) => t.1,
                        None => DEFAULT_MINUTE,
                    },
                    destination: snapshot.destination,
                    last_fired: snapshot.last_fired,
                },
            }
        } else {
            default_state()
        },
        None => default_state(),
    }
}

/// The view of what a load returned.
pub open spec fn loaded_view(loaded: Option<PersistedSnapshot>) -> Option<SnapshotView> {
    match loaded {
        Some(snapshot) => Some(snapshot@),
        None => None,
    }
}

impl PersistedSnapshot {
    /// Checks that the snapshot is well formed.
    pub fn check(&self) -> (checked: Result<(), DigestError>)
        ensures
            well_formed(self@) ==> checked is Ok,
            !well_formed(self@) ==> checked == Err::<(), DigestError>(
                DigestError::MalformedSnapshot,
            ),
    {
        let time_ok = match self.time {
            Some((hour, minute)) => hour <= 23 && minute <= 59,
            None => true,
        };
        if time_ok && has_distinct_users(&self.entries) {
            Ok(())
        } else {
            Err(DigestError::MalformedSnapshot)
        }
    }
}

impl AppState {
    /// The snapshot to save. The state is only read.
    pub fn snapshot(&self) -> (snapshot: PersistedSnapshot)
        ensures
            snapshot@ == snapshot_of(self@),
            well_formed(snapshot@),
            restored(Some(snapshot@)) == self@,
    {
        let (entries, _) = self.store.snapshot_and_is_empty();
        let (hour, minute, destination) = self.schedule.get();
        PersistedSnapshot {
            entries,
            destination,
            time: Some((hour, minute)),
            last_fired: self.schedule.last_fired(),
        }
    }

    /// The state to start with, given what was loaded.
    pub fn restore(loaded: Option<PersistedSnapshot>) -> (state: AppState)
        ensures
            state@ == restored(loaded_view(loaded)),
    {
        match loaded {
            Some(snapshot) => {
                let (hour, minute) = match snapshot.time {
                    Some(time) => time,
                    None => (DEFAULT_HOUR, DEFAULT_MINUTE),
                };
                match ScheduleState::from_parts(
                    hour,
                    minute,
                    snapshot.destination,
                    snapshot.last_fired,
                ) {
                    Ok(schedule) => match EntryStore::from_entries(snapshot.entries) {
                        Some(store) => AppState { store, schedule },
                        None => AppState::new(),
                    },
                    Err(_) => AppState::new(),
                }
            },
            None => AppState::new(),
        }
    }
}

/// Saving a state and loading what was saved gives the state back: every
/// report and every part of the schedule.
pub proof fn lemma_snapshot_round_trip(state: AppStateView)
    requires
        distinct_users(state.entries),
        valid_time(state.schedule.hour, state.schedule.minute),
    ensures
        well_formed(snapshot_of(state)),
        restored(Some(snapshot_of(state))) == state,
{
}

} // verus!
