use standup_digest::controller::CycleOutcome;
use standup_digest::dispatch::DispatchStep;
use standup_digest::entry::{CalendarDate, ReportEntry, Timestamp};
use standup_digest::error::DigestError;
use standup_digest::snapshot::PersistedSnapshot;
use standup_digest::state::{step_outcome, AppState, CycleStart};

const TODAY: CalendarDate = CalendarDate { year: 2024, month: 5, day: 17 };

fn report(user: &str, did: &str, seconds: i64) -> ReportEntry {
    ReportEntry {
        user_id: user.to_string(),
        display_name: format!("User {}", user),
        did: did.to_string(),
        plan: "plan".to_string(),
        blockers: "none".to_string(),
        timestamp: Timestamp { seconds, nanos: 0 },
    }
}

fn state_with_reports(destination: Option<u64>) -> AppState {
    let mut state = AppState::new();
    state.store.upsert(report("1", "one", 10));
    state.store.upsert(report("2", "two", 20));
    if let Some(id) = destination {
        state.schedule.set_destination(id);
    }
    state
}

/// What a transport saw of one cycle.
struct Seen {
    sends: Vec<(u64, String)>,
    pauses: Vec<u64>,
}

/// Runs one cycle against a transport that answers with `script`, attempt by
/// attempt, as the loop around the library does.
fn run_cycle(state: &mut AppState, script: &[Result<(), String>]) -> (Seen, Result<CycleOutcome, DigestError>) {
    let mut seen = Seen { sends: Vec::new(), pauses: Vec::new() };
    let mut dispatcher = match state.begin_cycle() {
        CycleStart::NothingToSend => return (seen, Ok(CycleOutcome::NothingToSend)),
        CycleStart::Rejected(e) => return (seen, Err(e)),
        CycleStart::Dispatch(dispatcher) => dispatcher,
    };
    loop {
        let answer = script[seen.sends.len()].clone();
        seen.sends.push((dispatcher.destination(), dispatcher.text().clone()));
        match state.on_attempt(dispatcher, answer, TODAY) {
            DispatchStep::Delivered => return (seen, Ok(CycleOutcome::Delivered)),
            DispatchStep::GaveUp(e) => return (seen, Err(e)),
            DispatchStep::Retry { dispatcher: next, delay_seconds } => {
                seen.pauses.push(delay_seconds);
                dispatcher = next;
            }
        }
    }
}

const DIGEST: &str = "# Daily Standup Summary\n\n\
                      ## User 1\n**Did:** one\n**Plan:** plan\n**Blockers:** none\n\n\
                      ## User 2\n**Did:** two\n**Plan:** plan\n**Blockers:** none\n\n";

#[test]
fn empty_store_sends_nothing() {
    let mut state = AppState::new();
    state.schedule.set_destination(5);
    let before = state.snapshot();
    assert!(matches!(state.begin_cycle(), CycleStart::NothingToSend));
    let (seen, end) = run_cycle(&mut state, &[Ok(())]);
    assert!(seen.sends.is_empty());
    assert_eq!(end, Ok(CycleOutcome::NothingToSend));
    assert_eq!(state.snapshot(), before);
}

#[test]
fn empty_store_without_destination_sends_nothing() {
    let mut state = AppState::new();
    let (seen, end) = run_cycle(&mut state, &[Ok(())]);
    assert!(seen.sends.is_empty());
    assert_eq!(end, Ok(CycleOutcome::NothingToSend));
    assert_eq!(state, AppState::new());
}

#[test]
fn missing_destination_is_reported_without_an_attempt() {
    let mut state = state_with_reports(None);
    let (seen, end) = run_cycle(&mut state, &[Ok(())]);
    assert!(seen.sends.is_empty());
    assert!(seen.pauses.is_empty());
    assert_eq!(end, Err(DigestError::NoDestinationConfigured));
    assert_eq!(state, state_with_reports(None));
}

#[test]
fn success_clears_the_store_and_keeps_the_schedule() {
    let mut state = state_with_reports(Some(321));
    assert_eq!(state.schedule.set_time(9, 30), Ok(()));
    let (seen, end) = run_cycle(&mut state, &[Ok(()), Ok(()), Ok(())]);
    assert_eq!(end, Ok(CycleOutcome::Delivered));
    assert_eq!(seen.sends, vec![(321, DIGEST.to_string())]);
    assert!(seen.pauses.is_empty());
    assert!(state.store.is_empty());
    assert_eq!(state.schedule.get(), (9, 30, Some(321)));
    assert_eq!(state.schedule.last_fired(), Some(TODAY));
    assert_eq!(
        state.snapshot(),
        PersistedSnapshot {
            entries: Vec::new(),
            destination: Some(321),
            time: Some((9, 30)),
            last_fired: Some(TODAY),
        }
    );
}

#[test]
fn third_attempt_succeeds_after_two_failures() {
    let mut state = state_with_reports(Some(8));
    let script = [Err("down".to_string()), Err("still down".to_string()), Ok(())];
    let (seen, end) = run_cycle(&mut state, &script);
    assert_eq!(end, Ok(CycleOutcome::Delivered));
    assert_eq!(seen.sends.len(), 3);
    assert_eq!(seen.sends[0], (8, DIGEST.to_string()));
    assert_eq!(seen.sends[1], seen.sends[0]);
    assert_eq!(seen.sends[2], seen.sends[0]);
    assert_eq!(seen.pauses, vec![5, 5]);
    assert!(state.store.is_empty());
    assert_eq!(state.schedule.last_fired(), Some(TODAY));
}

#[test]
fn exhausted_retries_keep_the_store() {
    let mut state = state_with_reports(Some(8));
    let script = [
        Err("one".to_string()),
        Err("two".to_string()),
        Err("three".to_string()),
        Ok(()),
    ];
    let (seen, end) = run_cycle(&mut state, &script);
    assert_eq!(end, Err(DigestError::SendError("three".to_string())));
    assert_eq!(seen.sends.len(), 3);
    assert_eq!(seen.pauses, vec![5, 5]);
    assert_eq!(state, state_with_reports(Some(8)));
    assert_eq!(state.schedule.last_fired(), None);
}

#[test]
fn a_later_cycle_sends_old_and_new_reports() {
    let mut state = state_with_reports(Some(8));
    let failures = [Err("a".to_string()), Err("b".to_string()), Err("c".to_string())];
    let (_, end) = run_cycle(&mut state, &failures);
    assert!(end.is_err());
    state.store.upsert(report("3", "three", 30));
    let (seen, end) = run_cycle(&mut state, &[Ok(())]);
    assert_eq!(end, Ok(CycleOutcome::Delivered));
    let expected = format!(
        "{}## User 3\n**Did:** three\n**Plan:** plan\n**Blockers:** none\n\n",
        DIGEST
    );
    assert_eq!(seen.sends, vec![(8, expected)]);
    assert!(state.store.is_empty());
}

#[test]
fn manual_trigger_starts_the_same_cycle() {
    let state = state_with_reports(Some(4));
    match state.trigger_now() {
        CycleStart::Dispatch(dispatcher) => {
            assert_eq!(dispatcher.destination(), 4);
            assert_eq!(dispatcher.text(), DIGEST);
            assert_eq!(dispatcher.failed_attempts(), 0);
        }
        other => panic!("a delivery begins, got {:?}", other),
    }
    assert!(matches!(AppState::new().trigger_now(), CycleStart::NothingToSend));
    assert!(matches!(
        state_with_reports(None).trigger_now(),
        CycleStart::Rejected(DigestError::NoDestinationConfigured)
    ));
}

#[test]
fn begin_cycle_does_not_change_the_state() {
    let state = state_with_reports(Some(4));
    let _ = state.begin_cycle();
    assert_eq!(state, state_with_reports(Some(4)));
}

#[test]
fn record_delivery_clears_and_notes_the_day() {
    let mut state = state_with_reports(Some(4));
    state.record_delivery(TODAY);
    assert!(state.store.is_empty());
    assert_eq!(state.schedule.get(), (17, 0, Some(4)));
    assert_eq!(state.schedule.last_fired(), Some(TODAY));
}

#[test]
fn delivery_reads_the_day_from_the_clock() {
    let mut state = state_with_reports(Some(4));
    let dispatcher = match state.begin_cycle() {
        CycleStart::Dispatch(dispatcher) => dispatcher,
        other => panic!("a delivery begins, got {:?}", other),
    };
    let step = state.on_attempt_now(dispatcher, Ok(()));
    assert!(matches!(step, DispatchStep::Delivered));
    assert!(state.store.is_empty());
    assert_eq!(state.schedule.get(), (17, 0, Some(4)));
    let day = state.schedule.last_fired().unwrap();
    assert!(day.year >= 2020);
    assert!(1 <= day.month && day.month <= 12);
    assert!(1 <= day.day && day.day <= 31);
}

#[test]
fn failure_with_the_clock_changes_nothing() {
    let mut state = state_with_reports(Some(4));
    let dispatcher = match state.begin_cycle() {
        CycleStart::Dispatch(dispatcher) => dispatcher,
        other => panic!("a delivery begins, got {:?}", other),
    };
    let step = state.on_attempt_now(dispatcher, Err("no".to_string()));
    assert!(matches!(step, DispatchStep::Retry { delay_seconds: 5, .. }));
    assert_eq!(state, state_with_reports(Some(4)));
}

#[test]
fn outcomes_of_starts_and_steps() {
    assert_eq!(CycleStart::NothingToSend.outcome(), Some(CycleOutcome::NothingToSend));
    assert_eq!(
        CycleStart::Rejected(DigestError::NoDestinationConfigured).outcome(),
        Some(CycleOutcome::Failed)
    );
    assert_eq!(state_with_reports(Some(1)).begin_cycle().outcome(), None);
    assert_eq!(step_outcome(&DispatchStep::Delivered), Some(CycleOutcome::Delivered));
    assert_eq!(
        step_outcome(&DispatchStep::GaveUp(DigestError::SendError("x".to_string()))),
        Some(CycleOutcome::Failed)
    );
}
