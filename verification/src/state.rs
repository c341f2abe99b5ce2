//! The application state and the digest cycle that works on it.
//!
//! A cycle reads the store, composes the digest and hands it to a
//! [`Dispatcher`]. Only a delivery that the transport confirmed clears the
//! store. The scheduled path and the manual trigger run the same cycle.
//!
//! Every operation takes the state by reference for the length of one call.
//! Callers that share the state keep it behind one lock and hold the lock
//! for that call only, never while they send or sleep. A report that arrives
//! between the start of a cycle and the confirmation of its delivery is
//! therefore cleared with the others without having been sent.

use crate::clock::read_local_clock;
use crate::controller::CycleOutcome;
use crate::digest::{compose_digest, digest_text, header_text, sections_text};
use crate::digest::lemma_latest_per_user_of_distinct;
use crate::dispatch::{
    deliver, next_step, outcome_view, DispatchStep, DispatchStepView, Dispatcher, DispatcherView,
    Outcome,
};
use crate::entry::{distinct_users, CalendarDate, ReportEntryView};
use crate::error::{DigestError, DigestErrorView};
use crate::schedule::{default_schedule, ScheduleState, ScheduleView};
use crate::store::EntryStore;
use vstd::prelude::*;

verus! {

/// The pending reports and the schedule, as one value that is handed to
/// whoever works on them.
#[derive(Debug, PartialEq, Eq)]
pub struct AppState {
    pub store: EntryStore,
    pub schedule: ScheduleState,
}

/// What an [`AppState`] holds.
pub struct AppStateView {
    pub entries: Seq<ReportEntryView>,
    pub schedule: ScheduleView,
}

impl View for AppState {
    type V = AppStateView;

    open spec fn view(&self) -> AppStateView {
        AppStateView { entries: self.store@, schedule: self.schedule@ }
    }
}

/// The state before anything was submitted or configured.
pub open spec fn default_state() -> AppStateView {
    AppStateView { entries: Seq::empty(), schedule: default_schedule() }
}

/// How a cycle starts.
#[derive(Debug)]
pub enum CycleStart {
    /// No report is pending: nothing is sent.
    NothingToSend,
    /// The digest cannot be sent at all.
    Rejected(DigestError),
    /// The digest is composed and its delivery begins.
    Dispatch(Dispatcher),
}

/// A [`CycleStart`] over views.
pub enum CycleStartView {
    NothingToSend,
    Rejected(DigestErrorView),
    Dispatch(DispatcherView),
}

impl View for CycleStart {
    type V = CycleStartView;

    open spec fn view(&self) -> CycleStartView {
        match self {
            CycleStart::NothingToSend => CycleStartView::NothingToSend,
            CycleStart::Rejected(e) => CycleStartView::Rejected(e@),
            CycleStart::Dispatch(d) => CycleStartView::Dispatch(d@),
        }
    }
}

/// How a cycle starts in `state`: with nothing where no report is pending,
/// with a refusal where reports are pending and no destination is
/// configured, else with the delivery of the digest of all pending reports.
pub open spec fn cycle_start(state: AppStateView) -> CycleStartView {
    if state.entries.len() == 0 {
        CycleStartView::NothingToSend
    } else {
        match state.schedule.destination {
            None => CycleStartView::Rejected(DigestErrorView::NoDestinationConfigured),
            Some(id) => CycleStartView::Dispatch(
                DispatcherView {
                    destination: id,
                    text: digest_text(state.entries),
                    failed_attempts: 0,
                },
            ),
        }
    }
}

/// The state after a digest was delivered on `today`: no report is pending
/// and the day is noted. Time and destination stay.
pub open spec fn delivered(state: AppStateView, today: CalendarDate) -> AppStateView {
    AppStateView {
        entries: Seq::empty(),
        schedule: ScheduleView { last_fired: Some(today), ..state.schedule },
    }
}

/// The state after the transport answered an attempt with `outcome`: a
/// failure changes nothing.
pub open spec fn after_attempt(
    state: AppStateView,
    outcome: Outcome,
    today: CalendarDate,
) -> AppStateView {
    match outcome {
        Ok(_) => delivered(state, today),
        Err(_) => state,
    }
}

impl CycleStart {
    /// How the cycle ended, where it ended before any attempt; `None` where
    /// a delivery begins.
    pub fn outcome(&self) -> (outcome: Option<CycleOutcome>)
        ensures
            outcome == match self@ {
                CycleStartView::NothingToSend => Some(CycleOutcome::NothingToSend),
                CycleStartView::Rejected(_) => Some(CycleOutcome::Failed),
                CycleStartView::Dispatch(_) => None,
            },
    {
        match self {
            CycleStart::NothingToSend => Some(CycleOutcome::NothingToSend),
            CycleStart::Rejected(_) => Some(CycleOutcome::Failed),
            CycleStart::Dispatch(_) => None,
        }
    }
}

/// How the cycle ended, where `step` ends it; `None` where another attempt
/// is due.
pub fn step_outcome(step: &DispatchStep) -> (outcome: Option<CycleOutcome>)
    ensures
        outcome == match step@ {
            DispatchStepView::Delivered => Some(CycleOutcome::Delivered),
            DispatchStepView::GaveUp(_) => Some(CycleOutcome::Failed),
            DispatchStepView::Retry { .. } => None,
        },
{
    match step {
        DispatchStep::Delivered => Some(CycleOutcome::Delivered),
        DispatchStep::GaveUp(_) => Some(CycleOutcome::Failed),
        DispatchStep::Retry { .. } => None,
    }
}

impl AppState {
    /// The state before anything was submitted or configured.
    pub fn new() -> (state: AppState)
        ensures
            state@ == default_state(),
    {
        AppState { store: EntryStore::new(), schedule: ScheduleState::new() }
    }

    /// Starts a cycle. The state is only read.
    pub fn begin_cycle(&self) -> (start: CycleStart)
        ensures
            start@ == cycle_start(self@),
            distinct_users(self@.entries),
            digest_text(self@.entries) == header_text() + sections_text(self@.entries),
    {
        let (entries, _) = self.store.snapshot_and_is_empty();
        proof {
            lemma_latest_per_user_of_distinct(self@.entries);
        }
        match compose_digest(&entries) {
            None => CycleStart::NothingToSend,
            Some(text) => match Dispatcher::begin(self.schedule.destination(), text) {
                Ok(dispatcher) => CycleStart::Dispatch(dispatcher),
                Err(e) => CycleStart::Rejected(e),
            },
        }
    }

    /// Starts a cycle at once, whatever the time of day.
    pub fn trigger_now(&self) -> (start: CycleStart)
        ensures
            start@ == cycle_start(self@),
    {
        self.begin_cycle()
    }

    /// Notes that the digest was delivered on `today`: clears the store and
    /// records the day. Every pending report goes, also one that was
    /// submitted after the cycle began and that the digest does not show.
    pub fn record_delivery(&mut self, today: CalendarDate)
        ensures
            final(self)@ == delivered(old(self)@, today),
    {
        self.store.clear();
        self.schedule.record_fired(today);
    }

    /// Takes the transport's answer to the attempt that `dispatcher` was
    /// waiting for, on the day `today`.
    pub fn on_attempt(
        &mut self,
        dispatcher: Dispatcher,
        result: Result<(), String>,
        today: CalendarDate,
    ) -> (step: DispatchStep)
        ensures
            step@ == next_step(dispatcher@, outcome_view(result)),
            final(self)@ == after_attempt(old(self)@, outcome_view(result), today),
    {
        let step = dispatcher.on_result(result);
        match step {
            DispatchStep::Delivered => {
                self.record_delivery(today);
            },
            _ => {},
        }
        step
    }

    /// Takes the transport's answer to the attempt that `dispatcher` was
    /// waiting for, and reads the day from the local clock where the digest
    /// was delivered.
    pub fn on_attempt_now(&mut self, dispatcher: Dispatcher, result: Result<(), String>) -> (step:
        DispatchStep)
        ensures
            step@ == next_step(dispatcher@, outcome_view(result)),
            result is Err ==> final(self)@ == old(self)@,
            result is Ok ==> (final(self)@.schedule.last_fired matches Some(today)
                && today.in_range() && final(self)@ == delivered(old(self)@, today)),
    {
        let step = dispatcher.on_result(result);
        match step {
            DispatchStep::Delivered => {
                let now = read_local_clock();
                self.record_delivery(now.date);
            },
            _ => {},
        }
        step
    }
}

/// How a whole cycle ended.
pub enum CycleEnd {
    /// No report was pending.
    NothingToSend,
    /// The digest arrived.
    Delivered,
    /// The digest did not arrive.
    Failed(DigestErrorView),
    /// An attempt is still unanswered.
    Pending,
}

/// A whole cycle: the state it leaves, the attempts to send that it made and
/// how it ended.
pub struct CycleRun {
    pub state: AppStateView,
    pub attempts: nat,
    pub end: CycleEnd,
}

/// The cycle that starts in `state` on the day `today` when the transport
/// answers the attempts with `outcomes`, in this order.
pub open spec fn cycle(state: AppStateView, outcomes: Seq<Outcome>, today: CalendarDate) -> CycleRun {
    match cycle_start(state) {
        CycleStartView::NothingToSend => CycleRun {
            state,
            attempts: 0,
            end: CycleEnd::NothingToSend,
        },
        CycleStartView::Rejected(e) => CycleRun { state, attempts: 0, end: CycleEnd::Failed(e) },
        CycleStartView::Dispatch(d) => {
            let run = deliver(d, outcomes);
            match run.end {
                Some(Ok(_)) => CycleRun {
                    state: delivered(state, today),
                    attempts: run.attempts,
                    end: CycleEnd::Delivered,
                },
                Some(Err(reason)) => CycleRun {
                    state,
                    attempts: run.attempts,
                    end: CycleEnd::Failed(DigestErrorView::SendError(reason)),
                },
                None => CycleRun { state, attempts: run.attempts, end: CycleEnd::Pending },
            }
        },
    }
}

} // verus!
