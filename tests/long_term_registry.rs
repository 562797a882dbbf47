use chrono::{DateTime, TimeDelta, Utc};
use clockedin_utils::delta_hours::DeltaHours;
use clockedin_utils::long_term_registry::{LongTermRegistry, LongTermRegistryError};
use clockedin_utils::time::Timestamp;
use clockedin_utils::work_days::WorkDay;
use clockedin_utils::work_journey::{IncompleteWorkJourney, WorkJourney};
use clockedin_utils::work_week::WorkWeek;

fn registry_instant(t: DateTime<Utc>) -> Timestamp {
    Timestamp::from_unix_seconds(t.timestamp()).unwrap()
}

fn registry_mock_day() -> WorkDay {
    let now = Utc::now();
    let now_plus_six = now + TimeDelta::hours(6);
    let now_plus_seven = now_plus_six + TimeDelta::hours(1);
    let now_plus_eight = now_plus_seven + TimeDelta::hours(1);
    let mut new_journey = IncompleteWorkJourney::new(registry_instant(now));
    let mut new_journey_2 = IncompleteWorkJourney::new(registry_instant(now_plus_seven));
    let journey = new_journey.end(registry_instant(now_plus_six)).unwrap();
    let journey2 = new_journey_2.end(registry_instant(now_plus_eight)).unwrap();
    WorkDay::new(&[journey, journey2])
}

fn registry_mock_week() -> WorkWeek {
    let mut week = WorkWeek::new();
    for _ in 0..5 {
        week.append_day(&registry_mock_day());
    }
    week
}

fn mock_long_term_registry() -> LongTermRegistry {
    let mut long_term_registry = LongTermRegistry::new();
    long_term_registry.push_week(registry_mock_week());
    long_term_registry.push_week(registry_mock_week());
    long_term_registry.push_week(registry_mock_week());
    long_term_registry.push_week(registry_mock_week());
    long_term_registry
}

/// A week of `days` days of `hours` each, starting `week_index` weeks after 2023-11-13.
fn registry_week(week_index: i64, days: i64, hours: i64) -> WorkWeek {
    let mut week = WorkWeek::new();
    for d in 0..days {
        let start = 1_699_862_400 + week_index * 7 * 86_400 + d * 86_400 + 8 * 3600;
        let journey = WorkJourney::new(
            Timestamp::from_unix_seconds(start).unwrap(),
            Timestamp::from_unix_seconds(start + hours * 3600).unwrap(),
        )
        .unwrap();
        week.append_day(&WorkDay::new(&[journey]));
    }
    week
}

#[test]
fn basic_long_term_registry_initialization() {
    let _mock_long_term_registry = mock_long_term_registry();
}

#[test]
fn long_term_registry_basic_work_week_math() {
    let mock_long_term_registry = mock_long_term_registry();
    let week4 = registry_mock_week();

    assert_eq!(
        TimeDelta::hours(4 * 5 * 7).num_seconds(),
        mock_long_term_registry.worked_hours()
    );
    assert!(
        week4.last_clock_out_last_day_in_week().unwrap().unix_seconds()
            - mock_long_term_registry
                .last_clock_out_last_week()
                .unwrap()
                .unix_seconds()
            < TimeDelta::seconds(1).num_seconds()
    );
    assert_eq!(
        DeltaHours::new(TimeDelta::hours(20).num_seconds()),
        mock_long_term_registry.worked_delta().unwrap()
    )
}

#[test]
fn empty_registry_has_no_delta() {
    let registry = LongTermRegistry::new();
    assert_eq!(registry.worked_delta(), Err(LongTermRegistryError::EmptyHistory));
    assert_eq!(registry.cumulative_delta_seconds(), 0);
    assert_eq!(registry.worked_hours(), 0);
    assert_eq!(registry.last_clock_out_last_week(), None);
}

#[test]
fn cumulative_delta_does_not_depend_on_push_order() {
    let mut forward = LongTermRegistry::new();
    forward.push_week(registry_week(0, 5, 7));
    forward.push_week(registry_week(1, 3, 10));
    forward.push_week(registry_week(2, 4, 8));
    let mut backward = LongTermRegistry::new();
    backward.push_week(registry_week(2, 4, 8));
    backward.push_week(registry_week(1, 3, 10));
    backward.push_week(registry_week(0, 5, 7));
    // 5h missing, 6h exceeding, even.
    assert_eq!(forward.worked_delta().unwrap().seconds(), -3600);
    assert_eq!(forward.worked_delta(), backward.worked_delta());
    assert_eq!(forward.worked_hours(), (35 + 30 + 32) * 3600);
}

#[test]
fn last_clock_out_of_an_empty_last_week() {
    let mut registry = LongTermRegistry::new();
    registry.push_week(registry_week(0, 2, 7));
    let end = registry.last_clock_out_last_week().unwrap();
    assert_eq!(end.unix_seconds(), 1_699_862_400 + 86_400 + 15 * 3600);
    registry.push_week(WorkWeek::new());
    assert_eq!(registry.last_clock_out_last_week(), None);
    assert_eq!(registry.worked_delta().unwrap().seconds(), 2 * 3600);
}
