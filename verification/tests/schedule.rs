use standup_digest::entry::CalendarDate;
use standup_digest::error::DigestError;
use standup_digest::schedule::{ScheduleState, DEFAULT_HOUR, DEFAULT_MINUTE, WINDOW_MINUTES};

#[test]
fn new_schedule_has_the_defaults() {
    let schedule = ScheduleState::new();
    assert_eq!(schedule.get(), (17, 0, None));
    assert_eq!(schedule.last_fired(), None);
    assert_eq!((DEFAULT_HOUR, DEFAULT_MINUTE, WINDOW_MINUTES), (17, 0, 5));
}

#[test]
fn set_time_refuses_hour_24() {
    let mut schedule = ScheduleState::new();
    assert_eq!(schedule.set_time(24, 0), Err(DigestError::InvalidTime));
    assert_eq!(schedule.get(), (17, 0, None));
}

#[test]
fn set_time_refuses_minute_60() {
    let mut schedule = ScheduleState::new();
    assert_eq!(schedule.set_time(0, 60), Err(DigestError::InvalidTime));
    assert_eq!(schedule.get(), (17, 0, None));
}

#[test]
fn set_time_accepts_midnight() {
    let mut schedule = ScheduleState::new();
    assert_eq!(schedule.set_time(0, 0), Ok(()));
    assert_eq!(schedule.get(), (0, 0, None));
}

#[test]
fn set_time_accepts_the_last_minute_of_the_day() {
    let mut schedule = ScheduleState::new();
    assert_eq!(schedule.set_time(23, 59), Ok(()));
    assert_eq!((schedule.hour(), schedule.minute()), (23, 59));
}

#[test]
fn set_time_refuses_large_values() {
    let mut schedule = ScheduleState::new();
    schedule.set_destination(9);
    assert_eq!(schedule.set_time(9, 30), Ok(()));
    assert_eq!(schedule.set_time(u32::MAX, 0), Err(DigestError::InvalidTime));
    assert_eq!(schedule.set_time(0, u32::MAX), Err(DigestError::InvalidTime));
    assert_eq!(schedule.set_time(24, 60), Err(DigestError::InvalidTime));
    assert_eq!(schedule.get(), (9, 30, Some(9)));
}

#[test]
fn set_time_keeps_destination_and_last_fired() {
    let mut schedule = ScheduleState::new();
    schedule.set_destination(77);
    schedule.record_fired(CalendarDate { year: 2024, month: 2, day: 29 });
    assert_eq!(schedule.set_time(8, 15), Ok(()));
    assert_eq!(schedule.get(), (8, 15, Some(77)));
    assert_eq!(schedule.last_fired(), Some(CalendarDate { year: 2024, month: 2, day: 29 }));
}

#[test]
fn set_destination_replaces_the_destination_only() {
    let mut schedule = ScheduleState::new();
    schedule.set_destination(1);
    assert_eq!(schedule.destination(), Some(1));
    schedule.set_destination(2);
    assert_eq!(schedule.get(), (17, 0, Some(2)));
    assert_eq!(schedule.last_fired(), None);
}

#[test]
fn record_fired_keeps_time_and_destination() {
    let mut schedule = ScheduleState::new();
    schedule.set_destination(5);
    schedule.record_fired(CalendarDate { year: 2025, month: 12, day: 31 });
    assert_eq!(schedule.get(), (17, 0, Some(5)));
    assert_eq!(schedule.last_fired(), Some(CalendarDate { year: 2025, month: 12, day: 31 }));
}

#[test]
fn window_of_17_00_is_17_00_to_17_04() {
    let schedule = ScheduleState::new();
    assert!(!schedule.is_eligible(16, 59));
    assert!(schedule.is_eligible(17, 0));
    assert!(schedule.is_eligible(17, 1));
    assert!(schedule.is_eligible(17, 2));
    assert!(schedule.is_eligible(17, 3));
    assert!(schedule.is_eligible(17, 4));
    assert!(!schedule.is_eligible(17, 5));
    assert!(!schedule.is_eligible(18, 0));
    assert!(!schedule.is_eligible(5, 0));
}

#[test]
fn window_ends_with_the_hour() {
    let mut schedule = ScheduleState::new();
    assert_eq!(schedule.set_time(23, 58), Ok(()));
    assert!(!schedule.is_eligible(23, 57));
    assert!(schedule.is_eligible(23, 58));
    assert!(schedule.is_eligible(23, 59));
    assert!(!schedule.is_eligible(0, 0));
    assert!(!schedule.is_eligible(0, 2));
}

#[test]
fn from_parts_checks_the_time() {
    let day = CalendarDate { year: 2024, month: 1, day: 2 };
    let schedule = ScheduleState::from_parts(6, 45, Some(3), Some(day)).unwrap();
    assert_eq!(schedule.get(), (6, 45, Some(3)));
    assert_eq!(schedule.last_fired(), Some(day));
    assert_eq!(ScheduleState::from_parts(24, 0, None, None), Err(DigestError::InvalidTime));
    assert_eq!(ScheduleState::from_parts(0, 60, None, None), Err(DigestError::InvalidTime));
    assert_eq!(ScheduleState::from_parts(17, 0, None, None), Ok(ScheduleState::new()));
}
