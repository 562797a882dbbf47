use clockedin_utils::delta_hours::{DeltaHours, HourState};

#[test]
fn delta_state_and_magnitude() {
    let debt = DeltaHours::new(3661);
    assert_eq!(debt.state(), HourState::Debt);
    assert_eq!(debt.magnitude(), 3661);
    assert_eq!(debt.hours_minutes_seconds(), (1, 1, 1));
    let credit = DeltaHours::new(-3661);
    assert_eq!(credit.state(), HourState::Credit);
    assert_eq!(credit.magnitude(), 3661);
    let zero = DeltaHours::new(0);
    assert_eq!(zero.state(), HourState::Debt);
    assert!(zero.is_zero());
}

#[test]
fn delta_accumulation_rederives_state() {
    let mut delta = DeltaHours::new(3600);
    delta.accumulate(DeltaHours::new(-7200));
    assert_eq!(delta, DeltaHours::new(-3600));
    assert_eq!(delta.state(), HourState::Credit);
    assert_eq!(delta.magnitude(), 3600);
    delta.accumulate(DeltaHours::new(3600));
    assert!(delta.is_zero());
    assert_eq!(delta.state(), HourState::Debt);
}

#[test]
fn delta_descriptions() {
    assert_eq!(
        DeltaHours::new(5 * 3600).describe(),
        "Missing 5 hours, 0 minutes, 0 seconds."
    );
    assert_eq!(
        DeltaHours::new(-(12 * 3600 + 34 * 60 + 56)).describe(),
        "Exceeding 12 hours, 34 minutes, 56 seconds."
    );
    assert_eq!(DeltaHours::new(0).describe(), "Delta is zero");
    assert_eq!(
        DeltaHours::new(i64::MAX).describe(),
        "Missing 2562047788015215 hours, 30 minutes, 7 seconds."
    );
}
