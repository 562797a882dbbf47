use chrono::{DateTime, TimeDelta, Utc};
use clockedin_utils::delta_hours::{DeltaHours, HourState};
use clockedin_utils::time::Timestamp;
use clockedin_utils::work_days::WorkDay;
use clockedin_utils::work_journey::{IncompleteWorkJourney, WorkJourney};
use clockedin_utils::work_week::{InterDayViolation, WorkWeek};

fn week_instant(t: DateTime<Utc>) -> Timestamp {
    Timestamp::from_unix_seconds(t.timestamp()).unwrap()
}

fn week_mock_day() -> (DateTime<Utc>, DateTime<Utc>, WorkDay) {
    let now = Utc::now();
    let now_plus_six = now + TimeDelta::hours(6);
    let now_plus_seven = now_plus_six + TimeDelta::hours(1);
    let now_plus_eight = now_plus_seven + TimeDelta::hours(1);
    let mut new_journey = IncompleteWorkJourney::new(week_instant(now));
    let mut new_journey_2 = IncompleteWorkJourney::new(week_instant(now_plus_seven));
    let journey = new_journey.end(week_instant(now_plus_six)).unwrap();
    let journey2 = new_journey_2.end(week_instant(now_plus_eight)).unwrap();
    (now, now_plus_eight, WorkDay::new(&[journey, journey2]))
}

fn week_mock() -> WorkWeek {
    let mut week = WorkWeek::new();
    for _ in 0..5 {
        let (_now, _end, day) = week_mock_day();
        week.append_day(&day);
    }
    week
}

/// A day of `hours` worked from 08:00 UTC, `index` days after 2023-11-13.
fn weekday(index: i64, hours: i64) -> WorkDay {
    let start = 1_699_862_400 + index * 86_400 + 8 * 3600;
    let journey = WorkJourney::new(
        Timestamp::from_unix_seconds(start).unwrap(),
        Timestamp::from_unix_seconds(start + hours * 3600).unwrap(),
    )
    .unwrap();
    WorkDay::new(&[journey])
}

#[test]
fn basic_work_week_initialization() {
    let _mock_week = week_mock();
}

#[test]
fn work_week_basic_work_week_math() {
    let mock_week = week_mock();
    let (_now, _now_plus_eight, work_day_five) = week_mock_day();

    assert_eq!(TimeDelta::hours(5 * 7).num_seconds(), mock_week.worked_hours());
    assert!(
        work_day_five.last_clock_out().unix_seconds()
            - mock_week.last_clock_out_last_day_in_week().unwrap().unix_seconds()
            < TimeDelta::seconds(1).num_seconds()
    );
    assert_eq!(
        DeltaHours::new(TimeDelta::hours(5).num_seconds()),
        mock_week.worked_delta()
    )
}

#[test]
fn work_week_missing_hours_violation_check() {
    let mock_week = week_mock();

    assert!(mock_week.get_violation().is_some());
}

#[test]
fn five_seven_hour_days_miss_five_hours() {
    let mut week = WorkWeek::new();
    for i in 0..5 {
        week.append_day(&weekday(i, 7));
    }
    assert_eq!(week.days_worked(), 5);
    assert_eq!(week.worked_hours(), 35 * 3600);
    assert_eq!(week.expected_hours(), 40 * 3600);
    let delta = week.worked_delta();
    assert_eq!(delta, DeltaHours::new(5 * 3600));
    assert_eq!(delta.state(), HourState::Debt);
    assert_eq!(delta.describe(), "Missing 5 hours, 0 minutes, 0 seconds.");
    assert_eq!(week.get_violation(), None);
}

#[test]
fn sixth_day_is_not_kept() {
    let mut week = WorkWeek::new();
    for i in 0..5 {
        week.append_day(&weekday(i, 7));
    }
    let last = week.last_clock_out_last_day_in_week();
    week.append_day(&weekday(5, 9));
    assert_eq!(week.days_worked(), 5);
    assert_eq!(week.worked_hours(), 35 * 3600);
    assert_eq!(week.expected_hours(), 40 * 3600);
    assert_eq!(week.last_clock_out_last_day_in_week(), last);
}

#[test]
fn short_rest_between_days_is_flagged_and_stays() {
    let mut week = WorkWeek::new();
    week.append_day(&weekday(0, 7));
    assert_eq!(week.get_violation(), None);
    // 08:00 to 23:00, then 08:00 the next morning: nine hours of rest.
    week.append_day(&weekday(1, 15));
    week.append_day(&weekday(2, 7));
    assert_eq!(week.get_violation(), Some(InterDayViolation::InterDayRestViolation));
    week.append_day(&weekday(3, 7));
    assert_eq!(week.get_violation(), Some(InterDayViolation::InterDayRestViolation));
}

#[test]
fn empty_week_expects_nothing() {
    let week = WorkWeek::new();
    assert_eq!(week.worked_hours(), 0);
    assert_eq!(week.expected_hours(), 0);
    assert!(week.worked_delta().is_zero());
    assert_eq!(week.last_clock_out_last_day_in_week(), None);
}

#[test]
fn overtime_week_is_a_credit() {
    let mut week = WorkWeek::new();
    week.append_day(&weekday(0, 10));
    week.append_day(&weekday(1, 9));
    let delta = week.worked_delta();
    assert_eq!(delta.seconds(), -3 * 3600);
    assert_eq!(delta.state(), HourState::Credit);
    assert_eq!(delta.describe(), "Exceeding 3 hours, 0 minutes, 0 seconds.");
}
