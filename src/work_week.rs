//! Up to five finished days, with the week's balance and its rest check.

use crate::delta_hours::DeltaHours;
use crate::time::{SECONDS_PER_HOUR, Timestamp};
use crate::work_days::{total_of, WorkDay};
use crate::work_journey::JourneyModel;
use vstd::prelude::*;

verus! {

pub const MAX_DAYS_PER_WEEK: usize = 5;

/// Seconds of work expected for each day of a week.
pub const EXPECTED_DAY_SECONDS: i64 = 8 * SECONDS_PER_HOUR;

/// Shortest rest between the last clock-out of a day and the first clock-in of
/// the next one, in seconds.
pub const MIN_INTER_DAY_REST: i64 = 11 * SECONDS_PER_HOUR;

#[derive(Clone, Copy, PartialEq, Eq, Debug, Structural, Hash)]
pub enum InterDayViolation {
    InterDayRestViolation,
}

/// The journeys of a day, in clock order.
pub type DayModel = Seq<JourneyModel>;

pub open spec fn day_models(ds: Seq<WorkDay>) -> Seq<DayModel> {
    ds.map_values(|d: WorkDay| d@)
}

/// Sum of the days' totals.
pub open spec fn week_total(ds: Seq<DayModel>) -> int
    decreases ds.len(),
{
    if ds.len() == 0 {
        0
    } else {
        week_total(ds.drop_last()) + total_of(ds.last())
    }
}

pub open spec fn expected_of(ds: Seq<DayModel>) -> int {
    EXPECTED_DAY_SECONDS * ds.len()
}

/// Expected minus worked seconds over the days.
pub open spec fn week_delta(ds: Seq<DayModel>) -> int {
    expected_of(ds) - week_total(ds)
}

/// Some day starts less than eleven hours after the previous one ended.
pub open spec fn rest_violated(ds: Seq<DayModel>) -> bool {
    exists|i: int|
        0 <= i < ds.len() - 1 && #[trigger] ds[i + 1][0].0 - ds[i].last().1 < MIN_INTER_DAY_REST
}

pub open spec fn violation_of(ds: Seq<DayModel>) -> Option<InterDayViolation> {
    if rest_violated(ds) {
        Some(InterDayViolation::InterDayRestViolation)
    } else {
        None
    }
}

/// What a week made of `ds` can hold: at most five days, none empty, and a
/// total that fits in an `i64`.
pub open spec fn week_fits(ds: Seq<DayModel>) -> bool {
    &&& ds.len() <= MAX_DAYS_PER_WEEK
    &&& forall|i: int| 0 <= i < ds.len() ==> (#[trigger] ds[i]).len() > 0 && total_of(ds[i]) >= 0
    &&& week_total(ds) <= i64::MAX
}

/// The days of a week after `day` is appended: a sixth day is not kept.
pub open spec fn appended(ds: Seq<DayModel>, day: DayModel) -> Seq<DayModel> {
    if ds.len() < MAX_DAYS_PER_WEEK {
        ds.push(day)
    } else {
        ds
    }
}

pub struct WorkWeek {
    workdays: Vec<WorkDay>,
    violations: Option<InterDayViolation>,
}

impl View for WorkWeek {
    type V = Seq<DayModel>;

    closed spec fn view(&self) -> Seq<DayModel> {
        day_models(self.workdays@)
    }
}

impl WorkWeek {
    #[verifier::type_invariant]
    spec fn consistent(self) -> bool {
        &&& week_fits(self@)
        &&& self.violations == violation_of(self@)
    }

    pub fn new() -> (r: WorkWeek)
        ensures
            r@ == Seq::<DayModel>::empty(),
    {
        let workdays: Vec<WorkDay> = Vec::with_capacity(MAX_DAYS_PER_WEEK);
        let violations = None;
        let r = WorkWeek { workdays, violations };
        proof {
            assert(r@ =~= Seq::<DayModel>::empty());
        }
        r
    }

    /// Appends `day` unless the week already holds five days, then checks the
    /// rest between every two consecutive days; once found, a violation stays.
    pub fn append_day(&mut self, day: &WorkDay)
        requires
            day@.len() > 0,
            old(self)@.len() < MAX_DAYS_PER_WEEK ==> week_total(old(self)@) + total_of(day@)
                <= i64::MAX,
        ensures
            final(self)@ == appended(old(self)@, day@),
            old(self)@.len() == MAX_DAYS_PER_WEEK ==> final(self)@ == old(self)@,
    {
        proof {
            use_type_invariant(&*self);
        }
        let ghost before = self@;
        let day_total = day.worked_hours();
        if self.workdays.len() < MAX_DAYS_PER_WEEK {
            let copy = day.clone();
            let mut taken = WorkWeek::new();
            std::mem::swap(&mut taken, self);
            let WorkWeek { mut workdays, violations } = taken;
            workdays.push(copy);
            proof {
                assert(day_models(workdays@) =~= before.push(day@));
                assert(day_models(workdays@).drop_last() =~= before);
                assert forall|i: int| 0 <= i < before.len() - 1 && #[trigger] before[i + 1][0].0
                    - before[i].last().1 < MIN_INTER_DAY_REST implies day_models(
                    workdays@,
                )[i + 1][0].0 - day_models(workdays@)[i].last().1 < MIN_INTER_DAY_REST by {
                    assert(day_models(workdays@)[i + 1] == before[i + 1]);
                    assert(day_models(workdays@)[i] == before[i]);
                }
            }
            let violations = WorkWeek::scan_rest(&workdays, violations);
            *self = WorkWeek { workdays, violations };
        } else {
            let violations = WorkWeek::scan_rest(&self.workdays, self.violations);
            self.violations = violations;
        }
    }

    /// `flag`, or a violation when some two consecutive days of `days` are less
    /// than eleven hours apart.
    fn scan_rest(days: &Vec<WorkDay>, flag: Option<InterDayViolation>) -> (r: Option<
        InterDayViolation,
    >)
        requires
            forall|i: int|
                0 <= i < days@.len() ==> (#[trigger] day_models(days@)[i]).len() > 0,
            flag is Some ==> rest_violated(day_models(days@)),
            flag is Some ==> flag == Some(InterDayViolation::InterDayRestViolation),
        ensures
            r == violation_of(day_models(days@)),
    {
        let ghost ds = day_models(days@);
        let mut violations = flag;
        if days.len() == 0 {
            return violations;
        }
        let mut index: usize = 1;
        while index < days.len()
            invariant
                ds == day_models(days@),
                1 <= index <= days@.len(),
                forall|i: int| 0 <= i < days@.len() ==> (#[trigger] ds[i]).len() > 0,
                violations is Some ==> violations == Some(InterDayViolation::InterDayRestViolation),
                violations is Some <==> (flag is Some || exists|k: int|
                    0 <= k && k + 1 < index && #[trigger] ds[k + 1][0].0 - ds[k].last().1
                        < MIN_INTER_DAY_REST),
            decreases days@.len() - index,
        {
            proof {
                assert(ds[index as int] == days@[index as int]@);
                assert(ds[index - 1] == days@[index - 1]@);
            }
            let next_day_first_clock_in = days[index].first_clock_in();
            let this_day_last_clock_out = days[index - 1].last_clock_out();
            let gap = next_day_first_clock_in.unix_seconds() - this_day_last_clock_out.unix_seconds();
            proof {
                let k = index - 1;
                assert(ds[k + 1] == days@[k + 1]@);
                assert(gap == ds[k + 1][0].0 - ds[k].last().1);
            }
            if gap < MIN_INTER_DAY_REST {
                violations = Some(InterDayViolation::InterDayRestViolation);
            }
            index = index + 1;
        }
        violations
    }

    /// Seconds worked over the week's days.
    pub fn worked_hours(&self) -> (r: i64)
        ensures
            r == week_total(self@),
            r >= 0,
    {
        proof {
            use_type_invariant(self);
        }
        let ghost ds = self@;
        let mut sum: i128 = 0;
        let mut i: usize = 0;
        while i < self.workdays.len()
            invariant
                ds == self@,
                week_fits(ds),
                i <= ds.len(),
                sum == week_total(ds.take(i as int)),
                0 <= sum <= i * i64::MAX,
            decreases ds.len() - i,
        {
            let d = self.workdays[i].worked_hours();
            proof {
                assert(ds.take(i + 1).drop_last() =~= ds.take(i as int));
                assert(ds[i as int] == self.workdays@[i as int]@);
            }
            sum = sum + d as i128;
            i = i + 1;
        }
        proof {
            assert(ds.take(i as int) =~= ds);
        }
        sum as i64
    }

    /// Number of days held.
    pub fn days_worked(&self) -> (r: usize)
        ensures
            r == self@.len(),
            r <= MAX_DAYS_PER_WEEK,
    {
        proof {
            use_type_invariant(self);
        }
        self.workdays.len()
    }

    /// Eight hours for each day of the week, in seconds.
    pub fn expected_hours(&self) -> (r: i64)
        ensures
            r == expected_of(self@),
    {
        let days = self.days_worked();
        days as i64 * EXPECTED_DAY_SECONDS
    }

    /// Expected minus worked time over the week.
    pub fn worked_delta(&self) -> (r: DeltaHours)
        ensures
            r@ == week_delta(self@),
    {
        let expected = self.expected_hours();
        let worked = self.worked_hours();
        DeltaHours::new(expected - worked)
    }

    /// Last clock-out of the most recent day, if the week has a day.
    pub fn last_clock_out_last_day_in_week(&self) -> (r: Option<Timestamp>)
        ensures
            r is Some <==> self@.len() > 0,
            r is Some ==> r.unwrap()@ == self@.last().last().1,
    {
        proof {
            use_type_invariant(self);
        }
        let n = self.workdays.len();
        if n == 0 {
            None
        } else {
            proof {
                assert(self@[n - 1] == self.workdays@[n - 1]@);
            }
            Some(self.workdays[n - 1].last_clock_out())
        }
    }

    pub fn get_violation(&self) -> (r: Option<InterDayViolation>)
        ensures
            r == violation_of(self@),
    {
        proof {
            use_type_invariant(self);
        }
        self.violations
    }

    /// The days of the week, in clock order.
    pub fn workdays(&self) -> (r: &Vec<WorkDay>)
        ensures
            day_models(r@) == self@,
    {
        &self.workdays
    }
}

} // verus!
