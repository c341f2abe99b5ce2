use standup_digest::entry::{find_user, ReportEntry, Timestamp};
use standup_digest::store::{copy_entries, has_distinct_users, EntryStore};

fn report(user: &str, did: &str, seconds: i64) -> ReportEntry {
    ReportEntry {
        user_id: user.to_string(),
        display_name: format!("name of {}", user),
        did: did.to_string(),
        plan: format!("plan of {}", user),
        blockers: String::new(),
        timestamp: Timestamp { seconds, nanos: 0 },
    }
}

fn sorted_by_user(mut entries: Vec<ReportEntry>) -> Vec<ReportEntry> {
    entries.sort_by_key(|e| e.user_id.clone());
    entries
}

#[test]
fn new_store_is_empty() {
    let store = EntryStore::new();
    assert!(store.is_empty());
    assert_eq!(store.len(), 0);
    let (entries, none) = store.snapshot_and_is_empty();
    assert!(entries.is_empty());
    assert!(none);
}

#[test]
fn two_reports_of_one_user_leave_the_second() {
    let mut store = EntryStore::new();
    store.upsert(report("42", "first", 100));
    store.upsert(report("42", "second", 200));
    let (entries, none) = store.snapshot_and_is_empty();
    assert!(!none);
    assert_eq!(entries, vec![report("42", "second", 200)]);
    assert_eq!(store.len(), 1);
}

#[test]
fn an_older_timestamp_still_replaces() {
    let mut store = EntryStore::new();
    store.upsert(report("42", "first", 200));
    store.upsert(report("42", "second", 100));
    assert_eq!(store.snapshot_and_is_empty().0, vec![report("42", "second", 100)]);
}

#[test]
fn resubmission_moves_the_user_to_the_end() {
    let mut store = EntryStore::new();
    store.upsert(report("1", "a", 1));
    store.upsert(report("2", "b", 2));
    store.upsert(report("3", "c", 3));
    store.upsert(report("1", "d", 4));
    assert_eq!(
        store.snapshot_and_is_empty().0,
        vec![report("2", "b", 2), report("3", "c", 3), report("1", "d", 4)]
    );
}

#[test]
fn distinct_users_all_stay_in_any_order() {
    let users = ["a", "b", "c", "d"];
    let stamps: [i64; 4] = [10, 11, 12, 13];
    let orders: [[usize; 4]; 4] = [[0, 1, 2, 3], [3, 2, 1, 0], [2, 0, 3, 1], [1, 3, 0, 2]];
    let mut seen: Vec<Vec<ReportEntry>> = Vec::new();
    for order in orders.iter() {
        let mut store = EntryStore::new();
        for &i in order.iter() {
            store.upsert(report(users[i], "did", stamps[i]));
        }
        assert_eq!(store.len(), 4);
        seen.push(sorted_by_user(store.snapshot_and_is_empty().0));
    }
    assert_eq!(seen[0], seen[1]);
    assert_eq!(seen[0], seen[2]);
    assert_eq!(seen[0], seen[3]);
}

#[test]
fn interleaved_resubmissions_keep_one_report_per_user() {
    let mut store = EntryStore::new();
    store.upsert(report("a", "a1", 1));
    store.upsert(report("b", "b1", 2));
    store.upsert(report("a", "a2", 3));
    store.upsert(report("c", "c1", 4));
    store.upsert(report("b", "b2", 5));
    assert_eq!(store.len(), 3);
    assert_eq!(store.report_of(&"a".to_string()), Some(report("a", "a2", 3)));
    assert_eq!(store.report_of(&"b".to_string()), Some(report("b", "b2", 5)));
    assert_eq!(store.report_of(&"c".to_string()), Some(report("c", "c1", 4)));
    assert_eq!(store.report_of(&"d".to_string()), None);
}

#[test]
fn snapshot_does_not_change_the_store() {
    let mut store = EntryStore::new();
    store.upsert(report("a", "x", 1));
    let (mut copy, _) = store.snapshot_and_is_empty();
    copy.clear();
    assert_eq!(store.len(), 1);
    assert_eq!(store.snapshot_and_is_empty().0, vec![report("a", "x", 1)]);
}

#[test]
fn clear_removes_everything() {
    let mut store = EntryStore::new();
    store.upsert(report("a", "x", 1));
    store.upsert(report("b", "y", 2));
    store.clear();
    assert!(store.is_empty());
    assert_eq!(store, EntryStore::new());
}

#[test]
fn submit_stamps_the_report_with_the_clock() {
    let mut store = EntryStore::new();
    let at = store.submit(
        "7".to_string(),
        "Seven".to_string(),
        "did".to_string(),
        "plan".to_string(),
        "blockers".to_string(),
    );
    // Later than the first of January 2020.
    assert!(at.seconds > 1_577_836_800);
    assert!(at.nanos < 2_000_000_000);
    let expected = ReportEntry {
        user_id: "7".to_string(),
        display_name: "Seven".to_string(),
        did: "did".to_string(),
        plan: "plan".to_string(),
        blockers: "blockers".to_string(),
        timestamp: at,
    };
    assert_eq!(store.snapshot_and_is_empty().0, vec![expected]);
}

#[test]
fn submit_replaces_the_earlier_report_of_the_user() {
    let mut store = EntryStore::new();
    store.upsert(report("7", "old", 1));
    store.upsert(report("8", "other", 2));
    let at = store.submit(
        "7".to_string(),
        "Seven".to_string(),
        "new".to_string(),
        "plan".to_string(),
        "none".to_string(),
    );
    let entries = store.snapshot_and_is_empty().0;
    assert_eq!(entries.len(), 2);
    assert_eq!(entries[0], report("8", "other", 2));
    assert_eq!(entries[1].did, "new");
    assert_eq!(entries[1].timestamp, at);
}

#[test]
fn from_entries_accepts_distinct_users_only() {
    let distinct = vec![report("a", "x", 1), report("b", "y", 2)];
    let store = EntryStore::from_entries(copy_entries(&distinct)).unwrap();
    assert_eq!(store.snapshot_and_is_empty().0, distinct);
    let doubled = vec![report("a", "x", 1), report("b", "y", 2), report("a", "z", 3)];
    assert_eq!(EntryStore::from_entries(doubled), None);
    assert_eq!(EntryStore::from_entries(Vec::new()), Some(EntryStore::new()));
}

#[test]
fn has_distinct_users_finds_a_repeated_user() {
    assert!(has_distinct_users(&Vec::new()));
    assert!(has_distinct_users(&vec![report("a", "x", 1)]));
    assert!(has_distinct_users(&vec![report("a", "x", 1), report("b", "x", 1)]));
    assert!(!has_distinct_users(&vec![report("a", "x", 1), report("a", "y", 2)]));
    assert!(!has_distinct_users(&vec![report("a", "x", 1), report("b", "y", 2), report("b", "z", 3)]));
}

#[test]
fn find_user_gives_the_first_position() {
    let entries = vec![report("a", "x", 1), report("b", "y", 2), report("b", "z", 3)];
    assert_eq!(find_user(&entries, &"a".to_string()), Some(0));
    assert_eq!(find_user(&entries, &"b".to_string()), Some(1));
    assert_eq!(find_user(&entries, &"c".to_string()), None);
}

#[test]
fn reports_compare_field_by_field() {
    let a = report("a", "x", 1);
    assert!(a.same_as(&a.clone()));
    assert!(a.is_from(&"a".to_string()));
    assert!(!a.is_from(&"b".to_string()));
    let mut b = a.clone();
    b.blockers = "one".to_string();
    assert!(!a.same_as(&b));
    let mut c = a.clone();
    c.timestamp.nanos = 1;
    assert!(!a.same_as(&c));
}
