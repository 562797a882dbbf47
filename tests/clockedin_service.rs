use clockedin_utils::clockedin_service::{
    ClockedInService, ClockedInServiceError, ServiceSnapshot, EXPECTED_WORK_JOURNEY_TIME_DELTA,
};
use clockedin_utils::time::Timestamp;
use clockedin_utils::work_days::IntraDayViolation;
use clockedin_utils::work_journey::{WorkJourney, WorkJourneyError};
use clockedin_utils::work_week::InterDayViolation;

/// Monday 2023-11-13 00:00:00 UTC.
const MONDAY: i64 = 1_699_833_600;

fn at(day: i64, hour: i64, minute: i64) -> Timestamp {
    Timestamp::from_unix_seconds(MONDAY + day * 86_400 + hour * 3600 + minute * 60).unwrap()
}

#[test]
fn nine_to_five_day() {
    let mut service = ClockedInService::new();
    service.clock_in(at(0, 9, 0)).unwrap();
    service.clock_out_and_end_work_day(at(0, 17, 0)).unwrap();
    let (is_current, week) = service.latest_week().unwrap();
    assert!(is_current);
    let day = &week.workdays()[0];
    assert_eq!(day.worked_hours(), 8 * 3600);
    let violations = day.get_violations();
    assert!(!violations.contains(&IntraDayViolation::ExceddedMaxHours));
    assert!(!violations.contains(&IntraDayViolation::MissingHours));
    assert!(violations.contains(&IntraDayViolation::ViolatedInterJourneyRest));
    assert_eq!(service.worked_delta_until_today().unwrap().seconds(), 0);
}

#[test]
fn two_short_journeys_miss_hours() {
    let mut service = ClockedInService::new();
    service.clock_in(at(0, 9, 0)).unwrap();
    service.clock_out(at(0, 12, 0)).unwrap();
    assert_eq!(service.worked_hours_today(), 3 * 3600);
    service.clock_in(at(0, 13, 0)).unwrap();
    service.clock_out_and_end_work_day(at(0, 15, 0)).unwrap();
    assert_eq!(service.worked_hours_today(), 0);
    let (_, week) = service.latest_week().unwrap();
    let day = &week.workdays()[0];
    assert_eq!(day.worked_hours(), 5 * 3600);
    assert!(day.get_violations().contains(&IntraDayViolation::MissingHours));
}

#[test]
fn five_seven_hour_days_through_the_service() {
    let mut service = ClockedInService::new();
    for d in 0..5 {
        service.clock_in(at(d, 8, 0)).unwrap();
        if d < 4 {
            service.clock_out_and_end_work_day(at(d, 15, 0)).unwrap();
        } else {
            service.clock_out_and_end_work_week(at(d, 15, 0)).unwrap();
        }
    }
    let delta = service.worked_delta_until_today().unwrap();
    assert_eq!(delta.seconds(), 5 * 3600);
    assert_eq!(delta.describe(), "Missing 5 hours, 0 minutes, 0 seconds.");
    let (is_current, week) = service.latest_week().unwrap();
    assert!(is_current);
    assert_eq!(week.days_worked(), 0);
    assert_eq!(service.snapshot().history.len(), 1);
}

#[test]
fn clock_in_after_closing_the_week_on_the_same_day() {
    let mut service = ClockedInService::new();
    service.clock_in(at(4, 8, 0)).unwrap();
    service.clock_out_and_end_work_week(at(4, 16, 0)).unwrap();
    assert_eq!(
        service.clock_in(at(4, 18, 0)),
        Err(ClockedInServiceError::ClockInDaySameAsFinishedWeekInRegistry)
    );
    assert!(service.clock_in(at(7, 8, 0)).is_ok());
}

#[test]
fn clock_in_after_closing_the_day_on_the_same_day() {
    let mut service = ClockedInService::new();
    service.clock_in(at(4, 8, 0)).unwrap();
    service.clock_out_and_end_work_day(at(4, 16, 0)).unwrap();
    assert_eq!(
        service.clock_in(at(4, 18, 0)),
        Err(ClockedInServiceError::ClockInDaySameAsLastFinishedWorkDay)
    );
    assert!(service.has_finished_work_day(at(4, 20, 0)));
    assert!(!service.has_finished_work_day(at(5, 8, 0)));
}

#[test]
fn second_clock_in_reports_the_open_journey() {
    let mut service = ClockedInService::new();
    assert!(service.clock_in(at(0, 9, 0)).is_ok());
    assert_eq!(
        service.clock_in(at(0, 10, 0)),
        Err(ClockedInServiceError::WorkJourneyAlreadyInProgess(at(0, 9, 0)))
    );
    assert!(service.clock_out(at(0, 11, 0)).is_ok());
}

#[test]
fn clock_out_without_an_open_journey() {
    let mut service = ClockedInService::new();
    assert_eq!(
        service.clock_out(at(0, 9, 0)),
        Err(ClockedInServiceError::NoneCurrentWorkJourney())
    );
    assert_eq!(
        service.clock_out_and_end_work_day(at(0, 9, 0)),
        Err(ClockedInServiceError::NoneCurrentWorkJourney())
    );
    assert_eq!(
        service.clock_out_and_end_work_week(at(0, 9, 0)),
        Err(ClockedInServiceError::NoneCurrentWorkJourney())
    );
}

#[test]
fn clock_out_before_clock_in_is_refused_and_keeps_the_journey() {
    let mut service = ClockedInService::new();
    service.clock_in(at(0, 9, 0)).unwrap();
    assert_eq!(
        service.clock_out(at(0, 8, 0)),
        Err(ClockedInServiceError::WorkJourneyEndingError(
            WorkJourneyError::InvalidClockBoundaries(at(0, 9, 0), at(0, 8, 0))
        ))
    );
    assert_eq!(service.snapshot().open, Some(at(0, 9, 0)));
    assert!(service.clock_out(at(0, 10, 0)).is_ok());
}

#[test]
fn empty_service_has_zero_delta() {
    let service = ClockedInService::new();
    assert!(service.worked_delta_until_today().unwrap().is_zero());
    assert!(service.latest_week().is_none());
    assert!(!service.has_finished_work_day(at(0, 9, 0)));
    assert!(service.worked_hours_this_week().is_empty());
}

#[test]
fn recommendations_for_the_open_journey() {
    let mut service = ClockedInService::new();
    assert_eq!(service.recommended_journey(EXPECTED_WORK_JOURNEY_TIME_DELTA), None);
    service.clock_in(at(0, 8, 0)).unwrap();
    service.clock_out(at(0, 11, 0)).unwrap();
    service.clock_in(at(0, 12, 0)).unwrap();
    // Three hours done: five more reach eight, within one journey.
    assert_eq!(
        service.recommended_journey(EXPECTED_WORK_JOURNEY_TIME_DELTA),
        Some((at(0, 17, 0), false))
    );
    // Ten hours would need seven more: capped at six from the start.
    assert_eq!(service.recommended_journey(10 * 3600), Some((at(0, 18, 0), true)));
    // Two hours are already exceeded by one.
    assert_eq!(service.recommended_journey(2 * 3600), Some((at(0, 11, 0), false)));
}

#[test]
fn hours_of_this_week_by_date() {
    let mut service = ClockedInService::new();
    service.clock_in(at(0, 8, 0)).unwrap();
    service.clock_out_and_end_work_day(at(0, 15, 30)).unwrap();
    service.clock_in(at(1, 8, 0)).unwrap();
    service.clock_out_and_end_work_day(at(1, 16, 0)).unwrap();
    assert_eq!(
        service.worked_hours_this_week(),
        vec![((2023, 11, 13), 7 * 3600 + 1800), ((2023, 11, 14), 8 * 3600)]
    );
}

#[test]
fn short_rest_between_days_is_reported_on_the_week() {
    let mut service = ClockedInService::new();
    service.clock_in(at(0, 14, 0)).unwrap();
    service.clock_out_and_end_work_day(at(0, 23, 0)).unwrap();
    service.clock_in(at(1, 6, 0)).unwrap();
    service.clock_out_and_end_work_week(at(1, 14, 0)).unwrap();
    let (is_current, week) = service.latest_week().unwrap();
    assert!(is_current);
    assert_eq!(week.get_violation(), None);
    let history = service.snapshot().history;
    assert_eq!(history.len(), 1);
    assert_eq!(history[0].len(), 2);
    let restored = ClockedInService::restore(&service.snapshot()).unwrap();
    let mut reloaded = ServiceSnapshot {
        history: restored.snapshot().history,
        open: None,
        day: Vec::new(),
        week: None,
    };
    let only_history = ClockedInService::restore(&reloaded).unwrap();
    let (is_current, week) = only_history.latest_week().unwrap();
    assert!(!is_current);
    assert_eq!(week.get_violation(), Some(InterDayViolation::InterDayRestViolation));
    reloaded.week = Some(vec![vec![]]);
    assert!(ClockedInService::restore(&reloaded).is_none());
}

#[test]
fn snapshot_and_restore_give_back_the_state() {
    let mut service = ClockedInService::new();
    for d in 0..3 {
        service.clock_in(at(d, 8, 0)).unwrap();
        service.clock_out(at(d, 12, 0)).unwrap();
        service.clock_in(at(d, 13, 0)).unwrap();
        if d == 1 {
            service.clock_out_and_end_work_week(at(d, 17, 30)).unwrap();
        } else {
            service.clock_out_and_end_work_day(at(d, 17, 0)).unwrap();
        }
    }
    service.clock_in(at(3, 8, 0)).unwrap();
    service.clock_out(at(3, 10, 0)).unwrap();
    service.clock_in(at(3, 11, 0)).unwrap();
    let snapshot = service.snapshot();
    let restored = ClockedInService::restore(&snapshot).unwrap();
    let again = restored.snapshot();
    assert_eq!(again.history, snapshot.history);
    assert_eq!(again.open, snapshot.open);
    assert_eq!(again.day, snapshot.day);
    assert_eq!(again.week, snapshot.week);
    assert_eq!(
        restored.worked_delta_until_today(),
        service.worked_delta_until_today()
    );
    assert_eq!(restored.worked_hours_today(), 2 * 3600);
}

#[test]
fn restore_refuses_a_sixth_day() {
    let journey = WorkJourney::new(at(0, 8, 0), at(0, 16, 0)).unwrap();
    let snapshot = ServiceSnapshot {
        history: vec![vec![vec![journey]; 6]],
        open: None,
        day: Vec::new(),
        week: None,
    };
    assert!(ClockedInService::restore(&snapshot).is_none());
}
