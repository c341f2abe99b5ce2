//! What holds of a whole digest cycle, whatever the transport answers.

use crate::dispatch::{
    lemma_attempts_are_bounded, lemma_failures_exhaust_delivery, lemma_first_success_ends_delivery,
    Outcome, MAX_ATTEMPTS,
};
use crate::entry::{CalendarDate, ReportEntryView};
use crate::error::DigestErrorView;
use crate::snapshot::{snapshot_of, SnapshotView};
use crate::state::{cycle, cycle_start, delivered, AppStateView, CycleEnd, CycleStartView};
use vstd::prelude::*;

verus! {

/// A cycle over an empty store sends nothing: it makes no attempt, ends with
/// nothing to send and leaves the state as it is.
pub proof fn lemma_empty_store_sends_nothing(
    state: AppStateView,
    outcomes: Seq<Outcome>,
    today: CalendarDate,
)
    requires
        state.entries.len() == 0,
    ensures
        cycle_start(state) == CycleStartView::NothingToSend,
        cycle(state, outcomes, today).attempts == 0,
        cycle(state, outcomes, today).end is NothingToSend,
        cycle(state, outcomes, today).state == state,
{
}

/// A cycle without a destination makes no attempt, reports that no
/// destination is configured and leaves the state as it is.
pub proof fn lemma_no_destination_sends_nothing(
    state: AppStateView,
    outcomes: Seq<Outcome>,
    today: CalendarDate,
)
    requires
        state.entries.len() > 0,
        state.schedule.destination is None,
    ensures
        cycle(state, outcomes, today).attempts == 0,
        cycle(state, outcomes, today).end == CycleEnd::Failed(
            DigestErrorView::NoDestinationConfigured,
        ),
        cycle(state, outcomes, today).state == state,
{
}

/// No cycle makes more than [`MAX_ATTEMPTS`] attempts, and only a cycle that
/// ends with a delivered digest changes the state.
pub proof fn lemma_store_is_cleared_on_delivery_only(
    state: AppStateView,
    outcomes: Seq<Outcome>,
    today: CalendarDate,
)
    ensures
        cycle(state, outcomes, today).attempts <= MAX_ATTEMPTS,
        cycle(state, outcomes, today).end is Delivered ==> cycle(state, outcomes, today).state
            == delivered(state, today),
        !(cycle(state, outcomes, today).end is Delivered) ==> cycle(state, outcomes, today).state
            == state,
{
    match cycle_start(state) {
        CycleStartView::Dispatch(d) => {
            lemma_attempts_are_bounded(d, outcomes);
        },
        _ => {},
    }
}

/// Where reports are pending, a destination is configured and attempt
/// number `n` is the first that the transport accepts, with `n` at most
/// [`MAX_ATTEMPTS`], the cycle ends with the digest delivered after exactly
/// `n` attempts. The store is then empty, time and destination are as they
/// were, and the snapshot to save holds no report and that schedule.
pub proof fn lemma_success_clears_store(
    state: AppStateView,
    outcomes: Seq<Outcome>,
    today: CalendarDate,
    n: int,
)
    requires
        state.entries.len() > 0,
        state.schedule.destination is Some,
        1 <= n <= MAX_ATTEMPTS,
        n <= outcomes.len(),
        outcomes[n - 1] is Ok,
        forall|i: int| 0 <= i < n - 1 ==> (#[trigger] outcomes[i]) is Err,
    ensures
        cycle(state, outcomes, today).end is Delivered,
        cycle(state, outcomes, today).attempts == n,
        cycle(state, outcomes, today).state.entries == Seq::<ReportEntryView>::empty(),
        cycle(state, outcomes, today).state.schedule.hour == state.schedule.hour,
        cycle(state, outcomes, today).state.schedule.minute == state.schedule.minute,
        cycle(state, outcomes, today).state.schedule.destination == state.schedule.destination,
        cycle(state, outcomes, today).state.schedule.last_fired == Some(today),
        snapshot_of(cycle(state, outcomes, today).state) == (SnapshotView {
            entries: Seq::empty(),
            destination: state.schedule.destination,
            time: Some((state.schedule.hour, state.schedule.minute)),
            last_fired: Some(today),
        }),
{
    match cycle_start(state) {
        CycleStartView::Dispatch(d) => {
            lemma_first_success_ends_delivery(d, outcomes, n);
        },
        _ => {},
    }
}

/// Where reports are pending, a destination is configured and the transport
/// refuses [`MAX_ATTEMPTS`] attempts in a row, the cycle gives up after
/// exactly that many, reports what the transport said of the last one, and
/// leaves the store and the schedule as they were.
pub proof fn lemma_failure_keeps_store(
    state: AppStateView,
    outcomes: Seq<Outcome>,
    today: CalendarDate,
)
    requires
        state.entries.len() > 0,
        state.schedule.destination is Some,
        outcomes.len() >= MAX_ATTEMPTS,
        forall|i: int| 0 <= i < MAX_ATTEMPTS ==> (#[trigger] outcomes[i]) is Err,
    ensures
        cycle(state, outcomes, today).attempts == MAX_ATTEMPTS,
        cycle(state, outcomes, today).end == CycleEnd::Failed(
            DigestErrorView::SendError(outcomes[MAX_ATTEMPTS - 1]->Err_0),
        ),
        cycle(state, outcomes, today).state == state,
{
    match cycle_start(state) {
        CycleStartView::Dispatch(d) => {
            lemma_failures_exhaust_delivery(d, outcomes);
            assert(outcomes[MAX_ATTEMPTS - 1] is Err);
        },
        _ => {},
    }
}

} // verus!
