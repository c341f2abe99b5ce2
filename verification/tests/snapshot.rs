use standup_digest::entry::{CalendarDate, ReportEntry, Timestamp};
use standup_digest::error::DigestError;
use standup_digest::snapshot::PersistedSnapshot;
use standup_digest::state::AppState;

fn report(user: &str, did: &str, seconds: i64, nanos: u32) -> ReportEntry {
    ReportEntry {
        user_id: user.to_string(),
        display_name: format!("User {}", user),
        did: did.to_string(),
        plan: "plan".to_string(),
        blockers: "none".to_string(),
        timestamp: Timestamp { seconds, nanos },
    }
}

fn two_reports() -> Vec<ReportEntry> {
    vec![report("10", "first", 1_700_000_000, 5), report("20", "second", 1_700_000_100, 999_999_999)]
}

#[test]
fn save_and_reload_gives_the_state_back() {
    let mut state = AppState::new();
    for e in two_reports() {
        state.store.upsert(e);
    }
    state.schedule.set_destination(123_456_789);
    assert_eq!(state.schedule.set_time(8, 45), Ok(()));
    state.schedule.record_fired(CalendarDate { year: 2024, month: 3, day: 9 });

    let saved = state.snapshot();
    assert_eq!(saved.entries, two_reports());
    assert_eq!(saved.destination, Some(123_456_789));
    assert_eq!(saved.time, Some((8, 45)));
    assert_eq!(saved.last_fired, Some(CalendarDate { year: 2024, month: 3, day: 9 }));

    let reloaded = AppState::restore(Some(saved));
    assert_eq!(reloaded, state);
    assert_eq!(reloaded.store.snapshot_and_is_empty().0, two_reports());
    assert_eq!(reloaded.schedule.get(), (8, 45, Some(123_456_789)));
    assert_eq!(reloaded.schedule.last_fired(), Some(CalendarDate { year: 2024, month: 3, day: 9 }));
}

#[test]
fn snapshot_of_a_new_state_holds_the_defaults() {
    assert_eq!(
        AppState::new().snapshot(),
        PersistedSnapshot { entries: Vec::new(), destination: None, time: Some((17, 0)), last_fired: None }
    );
}

#[test]
fn nothing_loaded_gives_the_defaults() {
    let state = AppState::restore(None);
    assert_eq!(state, AppState::new());
    assert!(state.store.is_empty());
    assert_eq!(state.schedule.get(), (17, 0, None));
    assert_eq!(state.schedule.last_fired(), None);
}

#[test]
fn snapshot_without_time_gets_the_default_time() {
    let loaded = PersistedSnapshot {
        entries: two_reports(),
        destination: Some(7),
        time: None,
        last_fired: None,
    };
    assert_eq!(loaded.check(), Ok(()));
    let state = AppState::restore(Some(loaded));
    assert_eq!(state.schedule.get(), (17, 0, Some(7)));
    assert_eq!(state.store.snapshot_and_is_empty().0, two_reports());
}

#[test]
fn snapshot_with_an_invalid_time_gives_the_defaults() {
    let loaded = PersistedSnapshot {
        entries: two_reports(),
        destination: Some(7),
        time: Some((24, 0)),
        last_fired: Some(CalendarDate { year: 2024, month: 3, day: 9 }),
    };
    assert_eq!(loaded.check(), Err(DigestError::MalformedSnapshot));
    assert_eq!(AppState::restore(Some(loaded)), AppState::new());
    let loaded = PersistedSnapshot {
        entries: Vec::new(),
        destination: None,
        time: Some((0, 60)),
        last_fired: None,
    };
    assert_eq!(loaded.check(), Err(DigestError::MalformedSnapshot));
    assert_eq!(AppState::restore(Some(loaded)), AppState::new());
}

#[test]
fn snapshot_with_a_repeated_user_gives_the_defaults() {
    let mut entries = two_reports();
    entries.push(report("10", "again", 1_700_000_200, 0));
    let loaded = PersistedSnapshot {
        entries,
        destination: Some(7),
        time: Some((9, 0)),
        last_fired: None,
    };
    assert_eq!(loaded.check(), Err(DigestError::MalformedSnapshot));
    let state = AppState::restore(Some(loaded));
    assert_eq!(state, AppState::new());
    assert_eq!(state.schedule.destination(), None);
}

#[test]
fn well_formed_snapshot_passes_the_check() {
    let loaded = PersistedSnapshot {
        entries: two_reports(),
        destination: None,
        time: Some((23, 59)),
        last_fired: None,
    };
    assert_eq!(loaded.check(), Ok(()));
    let state = AppState::restore(Some(loaded));
    assert_eq!(state.schedule.get(), (23, 59, None));
    assert_eq!(state.store.len(), 2);
}
