//! The clock-in/clock-out state machine over the journey, day, week and registry.

use crate::delta_hours::{delta_in_range, DeltaHours};
use crate::long_term_registry::{
    history_delta, history_total, LongTermRegistry, LongTermRegistryError, WeekModel,
};
use crate::time::{
    calendar_date_of, in_time_range, same_day, same_work_day, SECONDS_PER_HOUR, Timestamp,
};
use crate::work_days::{
    all_ordered, journey_models, total_of, total_seconds, WorkDay, MAX_HOURS_PER_JOURNEY,
};
use crate::work_journey::{IncompleteWorkJourney, JourneyModel, WorkJourney, WorkJourneyError};
use crate::work_week::{appended, week_delta, week_total, DayModel, WorkWeek, MAX_DAYS_PER_WEEK};
use vstd::prelude::*;

verus! {

/// A normal day of work, in seconds.
pub const EXPECTED_WORK_JOURNEY_TIME_DELTA: i64 = 8 * SECONDS_PER_HOUR;

/// Overtime on top of a normal day, in seconds.
pub const EXPECTED_OVERTIME_WORK_JOURNEY_TIME_DELTA: i64 = 2 * SECONDS_PER_HOUR;

#[derive(Clone, Copy, PartialEq, Eq, Debug, Structural)]
pub enum ClockedInServiceError {
    /// A journey is already open; it started at the instant held.
    WorkJourneyAlreadyInProgess(Timestamp),
    WorkJourneyEndingError(WorkJourneyError),
    NoneCurrentWorkJourney(),
    LongTermRegistryError(LongTermRegistryError),
    SerializationError,
    LongTermRegistryOpenError,
    ClockInDaySameAsFinishedWeekInRegistry,
    ClockInDaySameAsLastFinishedWorkDay,
}

/// What a service holds: the recorded weeks, the start of the open journey, the
/// journeys closed today and the week in progress.
pub struct ServiceModel {
    pub history: Seq<WeekModel>,
    pub open: Option<int>,
    pub day: Seq<JourneyModel>,
    pub week: Option<WeekModel>,
}

/// Seconds worked in the week in progress, if there is one.
pub open spec fn open_week_total(week: Option<WeekModel>) -> int {
    match week {
        Some(w) => week_total(w),
        None => 0,
    }
}

/// Seconds worked over everything the service holds.
pub open spec fn grand_total(m: ServiceModel) -> int {
    history_total(m.history) + open_week_total(m.week) + total_of(m.day)
}

/// A finished day holds at least one journey, none ending before it starts.
pub open spec fn day_ok(d: Seq<JourneyModel>) -> bool {
    d.len() > 0 && all_ordered(d)
}

/// A week holds at most five finished days.
pub open spec fn week_ok(w: WeekModel) -> bool {
    &&& w.len() <= MAX_DAYS_PER_WEEK
    &&& forall|i: int| 0 <= i < w.len() ==> day_ok(#[trigger] w[i])
}

/// The states a service can be in: weeks of at most five non-empty days, journeys
/// that never end before they start, and a grand total that fits in an `i64`.
pub open spec fn service_fits(m: ServiceModel) -> bool {
    &&& forall|i: int| 0 <= i < m.history.len() ==> week_ok(#[trigger] m.history[i])
    &&& (m.week is Some ==> week_ok(m.week.unwrap()))
    &&& all_ordered(m.day)
    &&& grand_total(m) <= i64::MAX
}

/// The last clock-out recorded in the registry falls on the day of `t`.
pub open spec fn registry_conflict(m: ServiceModel, t: int) -> bool {
    &&& m.history.len() > 0
    &&& m.history.last().len() > 0
    &&& same_day(t, m.history.last().last().last().1)
}

/// The last clock-out of the week in progress falls on the day of `t`.
pub open spec fn week_conflict(m: ServiceModel, t: int) -> bool {
    &&& m.week is Some
    &&& m.week.unwrap().len() > 0
    &&& same_day(t, m.week.unwrap().last().last().1)
}

/// Closing the open journey at `t` is accepted.
pub open spec fn can_close(m: ServiceModel, t: int) -> bool {
    &&& m.open is Some
    &&& t >= m.open.unwrap()
    &&& grand_total(m) + (t - m.open.unwrap()) <= i64::MAX
}

/// The state after a journey is opened at `t`.
pub open spec fn opened(m: ServiceModel, t: int) -> ServiceModel {
    ServiceModel { open: Some(t), ..m }
}

/// The state after the open journey is closed at `t`.
pub open spec fn closed_journey(m: ServiceModel, t: int) -> ServiceModel {
    ServiceModel { open: None, day: m.day.push((m.open.unwrap(), t)), ..m }
}

/// The state after today's journeys become a day of the week in progress.
pub open spec fn ended_day(m: ServiceModel) -> ServiceModel {
    let week = match m.week {
        Some(w) => w,
        None => Seq::empty(),
    };
    ServiceModel { day: Seq::empty(), week: Some(appended(week, m.day)), ..m }
}

/// The state after the week in progress is recorded and an empty one opened.
pub open spec fn ended_week(m: ServiceModel) -> ServiceModel {
    match m.week {
        Some(w) => ServiceModel { history: m.history.push(w), week: Some(Seq::empty()), ..m },
        None => m,
    }
}

/// Balance over the registry and the week in progress, in seconds.
pub open spec fn delta_until_today(m: ServiceModel) -> int {
    history_delta(m.history) + match m.week {
        Some(w) => week_delta(w),
        None => 0,
    }
}

/// The whole state of a service as plain journeys, for storing and restoring.
pub struct ServiceSnapshot {
    /// Recorded weeks, oldest first; each a list of days, each a list of journeys.
    pub history: Vec<Vec<Vec<WorkJourney>>>,
    /// Start of the open journey.
    pub open: Option<Timestamp>,
    /// Journeys closed today.
    pub day: Vec<WorkJourney>,
    /// Days of the week in progress.
    pub week: Option<Vec<Vec<WorkJourney>>>,
}

/// The journeys of each day, as models.
pub open spec fn days_model(days: Seq<Vec<WorkJourney>>) -> WeekModel {
    days.map_values(|d: Vec<WorkJourney>| journey_models(d@))
}

/// The journeys of each day of each week, as models.
pub open spec fn history_model(weeks: Seq<Vec<Vec<WorkJourney>>>) -> Seq<WeekModel> {
    weeks.map_values(|w: Vec<Vec<WorkJourney>>| days_model(w@))
}

/// The state that a snapshot describes.
pub open spec fn snapshot_model(s: ServiceSnapshot) -> ServiceModel {
    ServiceModel {
        history: history_model(s.history@),
        open: match s.open {
            Some(t) => Some(t@),
            None => None,
        },
        day: journey_models(s.day@),
        week: match s.week {
            Some(w) => Some(days_model(w@)),
            None => None,
        },
    }
}

/// The sum over the first `i` days never exceeds the sum over all of them.
pub proof fn lemma_week_prefix(w: WeekModel, i: int)
    requires
        0 <= i <= w.len(),
        forall|k: int| 0 <= k < w.len() ==> all_ordered(#[trigger] w[k]),
    ensures
        week_total(w.take(i)) <= week_total(w),
    decreases w.len(),
{
    if i < w.len() {
        assert forall|k: int| 0 <= k < w.drop_last().len() implies all_ordered(
            #[trigger] w.drop_last()[k],
        ) by {
            assert(w.drop_last()[k] == w[k]);
        }
        assert(all_ordered(w[w.len() - 1]));
        crate::work_days::lemma_total_nonnegative(w.last());
        lemma_week_prefix(w.drop_last(), i);
        assert(w.drop_last().take(i) =~= w.take(i));
    } else {
        assert(w.take(i) =~= w);
    }
}

/// The sum over the first `i` weeks never exceeds the sum over all of them.
pub proof fn lemma_history_prefix(ws: Seq<WeekModel>, i: int)
    requires
        0 <= i <= ws.len(),
        forall|k: int| 0 <= k < ws.len() ==> week_ok(#[trigger] ws[k]),
    ensures
        history_total(ws.take(i)) <= history_total(ws),
    decreases ws.len(),
{
    if i < ws.len() {
        assert forall|k: int| 0 <= k < ws.drop_last().len() implies week_ok(
            #[trigger] ws.drop_last()[k],
        ) by {
            assert(ws.drop_last()[k] == ws[k]);
        }
        let w = ws[ws.len() - 1];
        assert(week_ok(w));
        assert forall|k: int| 0 <= k < w.len() implies all_ordered(#[trigger] w[k]) by {
            assert(day_ok(w[k]));
        }
        lemma_week_total_nonnegative(w);
        lemma_history_prefix(ws.drop_last(), i);
        assert(ws.drop_last().take(i) =~= ws.take(i));
    } else {
        assert(ws.take(i) =~= ws);
    }
}

/// The state of a new service.
pub open spec fn empty_model() -> ServiceModel {
    ServiceModel { history: Seq::empty(), open: None, day: Seq::empty(), week: None }
}

/// Every state that a service reaches from `new` through the clock operations is
/// one that `restore` accepts: the empty state fits, and each operation that
/// succeeds takes a fitting state to a fitting one.
pub proof fn lemma_reachable_states_fit(m: ServiceModel, t: int)
    requires
        service_fits(m),
    ensures
        service_fits(empty_model()),
        m.open is None ==> service_fits(opened(m, t)),
        can_close(m, t) ==> service_fits(closed_journey(m, t)),
        can_close(m, t) ==> service_fits(ended_day(closed_journey(m, t))),
        can_close(m, t) ==> service_fits(ended_week(ended_day(closed_journey(m, t)))),
{
    lemma_parts_bounded(m);
    if can_close(m, t) {
        let c = closed_journey(m, t);
        assert(c.day.drop_last() =~= m.day);
        assert(all_ordered(c.day)) by {
            assert forall|i: int| 0 <= i < c.day.len() implies #[trigger] c.day[i].0
                <= c.day[i].1 by {
                if i < m.day.len() {
                    assert(c.day[i] == m.day[i]);
                }
            }
        }
        assert(service_fits(c));
        lemma_parts_bounded(c);
        let d = ended_day(c);
        let old_week = match c.week {
            Some(w) => w,
            None => Seq::empty(),
        };
        let w = d.week.unwrap();
        assert(open_week_total(c.week) == week_total(old_week));
        if old_week.len() < MAX_DAYS_PER_WEEK {
            assert(w.drop_last() =~= old_week);
            assert(w.last() == c.day);
        }
        assert forall|i: int| 0 <= i < w.len() implies day_ok(#[trigger] w[i]) by {
            if i < old_week.len() {
                assert(w[i] == old_week[i]);
            }
        }
        assert(total_of(d.day) == 0);
        assert(service_fits(d));
        let e = ended_week(d);
        let h = e.history;
        assert(h.drop_last() =~= d.history);
        assert forall|i: int| 0 <= i < h.len() implies week_ok(#[trigger] h[i]) by {
            if i < d.history.len() {
                assert(h[i] == d.history[i]);
            }
        }
        assert(week_total(Seq::<DayModel>::empty()) == 0);
        assert(service_fits(e));
    }
    assert(total_of(Seq::<JourneyModel>::empty()) == 0);
    assert(history_total(Seq::<WeekModel>::empty()) == 0);
}

/// Builds a week from the journeys of its days, if it is well formed and its
/// total is at most `budget`.
fn restore_week(days: &Vec<Vec<WorkJourney>>, budget: i64) -> (r: Option<WorkWeek>)
    requires
        budget >= 0,
    ensures
        r is Some ==> r.unwrap()@ == days_model(days@) && week_ok(r.unwrap()@) && week_total(
            r.unwrap()@,
        ) <= budget,
        week_ok(days_model(days@)) && week_total(days_model(days@)) <= budget ==> r is Some,
{
    let ghost model = days_model(days@);
    if days.len() > MAX_DAYS_PER_WEEK {
        return None;
    }
    let mut week = WorkWeek::new();
    let mut used: i128 = 0;
    let mut i: usize = 0;
    while i < days.len()
        invariant
            model == days_model(days@),
            days@.len() <= MAX_DAYS_PER_WEEK,
            i <= days@.len(),
            budget >= 0,
            week@ == model.take(i as int),
            used == week_total(model.take(i as int)),
            0 <= used <= budget,
            forall|k: int| 0 <= k < i ==> day_ok(#[trigger] model[k]),
        decreases days@.len() - i,
    {
        let journeys = &days[i];
        proof {
            assert(model[i as int] == journey_models(journeys@));
        }
        if journeys.len() == 0 {
            return None;
        }
        let t = crate::work_days::exact_total(journeys.as_slice());
        proof {
            assert(model.take(i + 1).drop_last() =~= model.take(i as int));
            if week_ok(model) && week_total(model) <= budget {
                lemma_week_prefix(model, i + 1);
            }
        }
        if used + t > budget as i128 {
            return None;
        }
        let day = WorkDay::new(journeys.as_slice());
        proof {
            assert(week@.len() == i);
            assert(appended(week@, day@) =~= model.take(i + 1));
        }
        week.append_day(&day);
        used = used + t;
        i = i + 1;
    }
    proof {
        assert(model.take(i as int) =~= model);
    }
    Some(week)
}

/// The journeys of each day of `week`.
fn week_journeys(week: &WorkWeek) -> (r: Vec<Vec<WorkJourney>>)
    ensures
        days_model(r@) == week@,
{
    let days = week.workdays();
    let ghost model = week@;
    let mut out: Vec<Vec<WorkJourney>> = Vec::new();
    let mut i: usize = 0;
    while i < days.len()
        invariant
            crate::work_week::day_models(days@) == model,
            i <= days@.len(),
            days_model(out@) == model.take(i as int),
        decreases days@.len() - i,
    {
        let journeys = vstd::slice::slice_to_vec(days[i].journeys().as_slice());
        let ghost prev = out@;
        proof {
            assert(days_model(prev).len() == prev.len());
            assert(model.len() == days@.len());
            assert(prev.len() == i);
            assert(model[i as int] == days@[i as int]@);
            assert(journey_models(journeys@) == model[i as int]);
        }
        out.push(journeys);
        proof {
            assert forall|k: int| 0 <= k < i implies days_model(out@)[k] == model.take(
                i + 1,
            )[k] by {
                assert(out@[k] == prev[k]);
                assert(days_model(prev)[k] == model.take(i as int)[k]);
            }
            assert(days_model(out@) =~= model.take(i + 1));
        }
        i = i + 1;
    }
    proof {
        assert(model.take(i as int) =~= model);
    }
    out
}

pub struct ClockedInService {
    long_term_registry: LongTermRegistry,
    current_work_journey: Option<IncompleteWorkJourney>,
    current_work_day: Vec<WorkJourney>,
    current_work_week: Option<WorkWeek>,
}

impl View for ClockedInService {
    type V = ServiceModel;

    closed spec fn view(&self) -> ServiceModel {
        ServiceModel {
            history: self.long_term_registry@,
            open: match self.current_work_journey {
                Some(j) => Some(j.start()),
                None => None,
            },
            day: journey_models(self.current_work_day@),
            week: match self.current_work_week {
                Some(w) => Some(w@),
                None => None,
            },
        }
    }
}

impl ClockedInService {
    #[verifier::type_invariant]
    spec fn consistent(self) -> bool {
        &&& service_fits(self@)
        &&& (self.current_work_journey matches Some(j) ==> j.end_attempt() is None)
    }

    /// Start of the open journey, when there is one.
    pub closed spec fn open_start_time(self) -> Timestamp {
        self.current_work_journey.unwrap().start_time()
    }

    pub fn new() -> (r: ClockedInService)
        ensures
            r@ == empty_model(),
    {
        let long_term_registry = LongTermRegistry::new();
        let current_work_journey = None;
        let current_work_day = Vec::new();
        let current_work_week = None;
        let r = ClockedInService {
            long_term_registry,
            current_work_journey,
            current_work_day,
            current_work_week,
        };
        proof {
            assert(journey_models(r.current_work_day@) =~= Seq::<JourneyModel>::empty());
        }
        r
    }

    /// Seconds worked over the registry, the week in progress and today.
    fn worked_total(&self) -> (r: i64)
        ensures
            r == grand_total(self@),
            r >= 0,
    {
        proof {
            use_type_invariant(self);
            lemma_parts_bounded(self@);
        }
        let registry = self.long_term_registry.worked_hours();
        let week = match &self.current_work_week {
            Some(w) => w.worked_hours(),
            None => 0,
        };
        let today = total_seconds(self.current_work_day.as_slice());
        registry + week + today
    }

    /// Opens a journey at `starting_time`. Refused when the last day recorded in
    /// the registry, or the last day of the week in progress, is the same calendar
    /// day, or when a journey is already open; checked in that order.
    pub fn clock_in(&mut self, starting_time: Timestamp) -> (r: Result<(), ClockedInServiceError>)
        ensures
            registry_conflict(old(self)@, starting_time@) ==> r == Err::<(), _>(
                ClockedInServiceError::ClockInDaySameAsFinishedWeekInRegistry,
            ),
            !registry_conflict(old(self)@, starting_time@) && week_conflict(
                old(self)@,
                starting_time@,
            ) ==> r == Err::<(), _>(ClockedInServiceError::ClockInDaySameAsLastFinishedWorkDay),
            !registry_conflict(old(self)@, starting_time@) && !week_conflict(
                old(self)@,
                starting_time@,
            ) && old(self)@.open is Some ==> r == Err::<(), _>(
                ClockedInServiceError::WorkJourneyAlreadyInProgess(old(self).open_start_time()),
            ),
            old(self)@.open is Some ==> old(self).open_start_time()@ == old(self)@.open.unwrap(),
            r is Ok <==> !registry_conflict(old(self)@, starting_time@) && !week_conflict(
                old(self)@,
                starting_time@,
            ) && old(self)@.open is None,
            r is Ok ==> final(self)@ == opened(old(self)@, starting_time@),
            r is Err ==> final(self)@ == old(self)@,
    {
        proof {
            use_type_invariant(&*self);
        }
        if let Some(last_clock_out) = self.long_term_registry.last_clock_out_last_week() {
            if same_work_day(starting_time, last_clock_out) {
                return Err(ClockedInServiceError::ClockInDaySameAsFinishedWeekInRegistry);
            }
        }
        if let Some(last_week) = &self.current_work_week {
            if let Some(last_clock_out) = last_week.last_clock_out_last_day_in_week() {
                if same_work_day(starting_time, last_clock_out) {
                    return Err(ClockedInServiceError::ClockInDaySameAsLastFinishedWorkDay);
                }
            }
        }
        match &self.current_work_journey {
            Some(initiated_work_journey) => {
                Err(
                    ClockedInServiceError::WorkJourneyAlreadyInProgess(
                        initiated_work_journey.starting_time(),
                    ),
                )
            },
            None => {
                let new_work_journey = IncompleteWorkJourney::new(starting_time);
                self.current_work_journey = Some(new_work_journey);
                Ok(())
            },
        }
    }

    /// Closes the open journey at `ending_time` and adds it to today's journeys.
    pub fn clock_out(&mut self, ending_time: Timestamp) -> (r: Result<(), ClockedInServiceError>)
        ensures
            old(self)@.open is None ==> r == Err::<(), _>(
                ClockedInServiceError::NoneCurrentWorkJourney(),
            ),
            old(self)@.open is Some ==> old(self).open_start_time()@ == old(self)@.open.unwrap(),
            old(self)@.open is Some && ending_time@ < old(self)@.open.unwrap() ==> r == Err::<
                (),
                _,
            >(
                ClockedInServiceError::WorkJourneyEndingError(
                    WorkJourneyError::InvalidClockBoundaries(
                        old(self).open_start_time(),
                        ending_time,
                    ),
                ),
            ),
            old(self)@.open is Some && ending_time@ >= old(self)@.open.unwrap() && !can_close(
                old(self)@,
                ending_time@,
            ) ==> r == Err::<(), _>(
                ClockedInServiceError::LongTermRegistryError(
                    LongTermRegistryError::IntConversionError,
                ),
            ),
            r is Ok <==> can_close(old(self)@, ending_time@),
            r is Ok ==> final(self)@ == closed_journey(old(self)@, ending_time@),
            r is Err ==> final(self)@ == old(self)@,
    {
        proof {
            use_type_invariant(&*self);
        }
        let mut closing = match self.current_work_journey {
            Some(j) => j,
            None => return Err(ClockedInServiceError::NoneCurrentWorkJourney()),
        };
        let finished_journey = match closing.end(ending_time) {
            Ok(j) => j,
            Err(e) => return Err(ClockedInServiceError::WorkJourneyEndingError(e)),
        };
        let worked = self.worked_total();
        let added = finished_journey.worked_hours();
        if worked > i64::MAX - added {
            return Err(
                ClockedInServiceError::LongTermRegistryError(
                    LongTermRegistryError::IntConversionError,
                ),
            );
        }
        let ghost before = self@;
        let mut taken = ClockedInService::new();
        std::mem::swap(&mut taken, self);
        let ClockedInService {
            long_term_registry,
            current_work_journey: _,
            mut current_work_day,
            current_work_week,
        } = taken;
        current_work_day.push(finished_journey);
        proof {
            assert(journey_models(current_work_day@) =~= before.day.push(finished_journey@));
            assert(journey_models(current_work_day@).drop_last() =~= before.day);
        }
        *self = ClockedInService {
            long_term_registry,
            current_work_journey: None,
            current_work_day,
            current_work_week,
        };
        Ok(())
    }

    /// Balance over the registry (nothing when it is empty) and the week in progress.
    pub fn worked_delta_until_today(&self) -> (r: Result<DeltaHours, ClockedInServiceError>)
        ensures
            delta_in_range(delta_until_today(self@)) ==> r is Ok && r.unwrap()@
                == delta_until_today(self@),
            !delta_in_range(delta_until_today(self@)) ==> r == Err::<DeltaHours, _>(
                ClockedInServiceError::LongTermRegistryError(
                    LongTermRegistryError::IntConversionError,
                ),
            ),
    {
        let registry = self.long_term_registry.cumulative_delta_seconds();
        let week: i128 = match &self.current_work_week {
            Some(w) => w.worked_delta().seconds() as i128,
            None => 0,
        };
        let total = registry + week;
        if (i64::MIN as i128) < total && total <= (i64::MAX as i128) {
            Ok(DeltaHours::new(total as i64))
        } else {
            Err(
                ClockedInServiceError::LongTermRegistryError(
                    LongTermRegistryError::IntConversionError,
                ),
            )
        }
    }

    /// Seconds worked over the journeys closed today.
    pub fn worked_hours_today(&self) -> (r: i64)
        ensures
            r == total_of(self@.day),
            r >= 0,
    {
        proof {
            use_type_invariant(self);
            lemma_parts_bounded(self@);
        }
        total_seconds(self.current_work_day.as_slice())
    }

    /// For each day of the week in progress: the UTC date of its first clock-in
    /// and the seconds worked.
    pub fn worked_hours_this_week(&self) -> (r: Vec<((i32, u32, u32), i64)>)
        ensures
            r@.len() == (match self@.week {
                Some(w) => w.len(),
                None => 0,
            }),
            forall|i: int|
                0 <= i < r@.len() ==> #[trigger] r@[i].0 == calendar_date_of(
                    self@.week.unwrap()[i][0].0,
                ) && r@[i].1 == total_of(self@.week.unwrap()[i]),
    {
        proof {
            use_type_invariant(self);
        }
        let mut return_vec: Vec<((i32, u32, u32), i64)> = Vec::new();
        if let Some(week) = &self.current_work_week {
            let days = week.workdays();
            let ghost w = week@;
            let mut i: usize = 0;
            while i < days.len()
                invariant
                    w == self@.week.unwrap(),
                    crate::work_week::day_models(days@) == w,
                    week_ok(w),
                    i <= days@.len(),
                    return_vec@.len() == i,
                    forall|k: int|
                        0 <= k < i ==> #[trigger] return_vec@[k].0 == calendar_date_of(w[k][0].0)
                            && return_vec@[k].1 == total_of(w[k]),
                decreases days@.len() - i,
            {
                proof {
                    assert(w[i as int] == days@[i as int]@);
                    assert(day_ok(w[i as int]));
                }
                let day = &days[i];
                return_vec.push((day.first_clock_in().calendar_date(), day.worked_hours()));
                i = i + 1;
            }
        }
        return_vec
    }

    /// Where the open journey should end for today's work to reach `expected`
    /// seconds, or six hours after its start (flagged `true`) when that is
    /// sooner. `None` with no open journey, or when the instant cannot be held.
    pub fn recommended_journey(&self, expected_work_journey: i64) -> (r: Option<(Timestamp, bool)>)
        ensures
            ({
                let m = self@;
                let remaining = expected_work_journey - total_of(m.day);
                let capped = remaining > MAX_HOURS_PER_JOURNEY;
                let end = m.open.unwrap() + if capped {
                    MAX_HOURS_PER_JOURNEY as int
                } else {
                    remaining
                };
                &&& r is Some <==> m.open is Some && in_time_range(end)
                &&& r is Some ==> r.unwrap().0@ == end && r.unwrap().1 == capped
            }),
    {
        let worked_hours_today = self.worked_hours_today();
        let remaining_hours = expected_work_journey as i128 - worked_hours_today as i128;
        match &self.current_work_journey {
            Some(current_journey) => {
                let start = current_journey.starting_time().unix_seconds();
                let capped = remaining_hours > MAX_HOURS_PER_JOURNEY as i128;
                let step = if capped {
                    MAX_HOURS_PER_JOURNEY as i128
                } else {
                    remaining_hours
                };
                let end = start as i128 + step;
                if (crate::time::MIN_UNIX_SECONDS as i128) <= end && end
                    <= (crate::time::MAX_UNIX_SECONDS as i128) {
                    match Timestamp::from_unix_seconds(end as i64) {
                        Some(t) => Some((t, capped)),
                        None => None,
                    }
                } else {
                    None
                }
            },
            None => None,
        }
    }

    /// Whether the latest finished day (of the week in progress when there is
    /// one, else of the last recorded week) falls on the calendar day of `now`.
    pub fn has_finished_work_day(&self, now: Timestamp) -> (r: bool)
        ensures
            r == (match self@.week {
                Some(w) => w.len() > 0 && same_day(now@, w.last().last().1),
                None => self@.history.len() > 0 && self@.history.last().len() > 0 && same_day(
                    now@,
                    self@.history.last().last().last().1,
                ),
            }),
    {
        match &self.current_work_week {
            Some(week) => match week.last_clock_out_last_day_in_week() {
                Some(last_clock_out) => same_work_day(now, last_clock_out),
                None => false,
            },
            None => match self.long_term_registry.last_clock_out_last_week() {
                Some(last_clock_out) => same_work_day(now, last_clock_out),
                None => false,
            },
        }
    }

    /// The week whose violations are current: the week in progress (`true`) when
    /// there is one, else the last recorded week (`false`).
    pub fn latest_week(&self) -> (r: Option<(bool, &WorkWeek)>)
        ensures
            self@.week is Some ==> r is Some && r.unwrap().0 && r.unwrap().1@
                == self@.week.unwrap(),
            self@.week is None ==> (r is Some <==> self@.history.len() > 0),
            self@.week is None && r is Some ==> !r.unwrap().0 && r.unwrap().1@
                == self@.history.last(),
    {
        match &self.current_work_week {
            Some(week) => Some((true, week)),
            None => {
                let history = self.long_term_registry.history();
                let n = history.len();
                if n == 0 {
                    None
                } else {
                    Some((false, &history[n - 1]))
                }
            },
        }
    }

    /// The whole state as plain journeys.
    pub fn snapshot(&self) -> (r: ServiceSnapshot)
        ensures
            snapshot_model(r) == self@,
            service_fits(self@),
    {
        proof {
            use_type_invariant(self);
        }
        let weeks = self.long_term_registry.history();
        let ghost ws = self@.history;
        let mut history: Vec<Vec<Vec<WorkJourney>>> = Vec::new();
        let mut i: usize = 0;
        while i < weeks.len()
            invariant
                crate::long_term_registry::week_models(weeks@) == ws,
                i <= weeks@.len(),
                history_model(history@) == ws.take(
                    i as int,
                ),
            decreases weeks@.len() - i,
        {
            let days = week_journeys(&weeks[i]);
            let ghost prev = history@;
            proof {
                assert(history_model(prev).len() == prev.len());
                assert(ws.len() == weeks@.len());
                assert(prev.len() == i);
                assert(ws[i as int] == weeks@[i as int]@);
            }
            history.push(days);
            proof {
                assert forall|k: int| 0 <= k < i implies #[trigger] history_model(history@)[k]
                    == ws.take(i + 1)[k] by {
                    assert(history@[k] == prev[k]);
                    assert(history_model(prev)[k] == ws.take(i as int)[k]);
                }
                assert(history_model(history@) =~= ws.take(
                    i + 1,
                ));
            }
            i = i + 1;
        }
        proof {
            assert(ws.take(i as int) =~= ws);
        }
        let open = match &self.current_work_journey {
            Some(j) => Some(j.starting_time()),
            None => None,
        };
        let day = vstd::slice::slice_to_vec(self.current_work_day.as_slice());
        let week = match &self.current_work_week {
            Some(w) => Some(week_journeys(w)),
            None => None,
        };
        let r = ServiceSnapshot { history, open, day, week };
        proof {
            assert(snapshot_model(r) =~= self@);
        }
        r
    }

    /// The service whose state `snapshot` holds, when it is one a service can be
    /// in; recorded totals and violations are computed afresh.
    pub fn restore(snapshot: &ServiceSnapshot) -> (r: Option<ClockedInService>)
        ensures
            r is Some <==> service_fits(snapshot_model(*snapshot)),
            r is Some ==> r.unwrap()@ == snapshot_model(*snapshot),
    {
        let ghost m = snapshot_model(*snapshot);
        proof {
            if service_fits(m) {
                lemma_parts_bounded(m);
            }
        }
        let day_total = crate::work_days::exact_total(snapshot.day.as_slice());
        if day_total > i64::MAX as i128 {
            return None;
        }
        let mut budget: i64 = i64::MAX - day_total as i64;
        let current_work_week = match &snapshot.week {
            Some(days) => {
                proof {
                    assert(m.week.unwrap() == days_model(days@));
                }
                match restore_week(days, budget) {
                    Some(w) => {
                        let worked = w.worked_hours();
                        budget = budget - worked;
                        Some(w)
                    },
                    None => return None,
                }
            },
            None => None,
        };
        let mut long_term_registry = LongTermRegistry::new();
        let ghost ws = m.history;
        let mut i: usize = 0;
        while i < snapshot.history.len()
            invariant
                m == snapshot_model(*snapshot),
                ws == m.history,
                i <= snapshot.history@.len(),
                long_term_registry@ == ws.take(i as int),
                forall|k: int| 0 <= k < i ==> week_ok(#[trigger] ws[k]),
                all_ordered(m.day),
                m.week is Some ==> week_ok(m.week.unwrap()),
                current_work_week matches Some(w) ==> m.week == Some(w@),
                current_work_week is None ==> m.week is None,
                0 <= budget,
                budget == i64::MAX - total_of(m.day) - open_week_total(m.week) - history_total(
                    ws.take(i as int),
                ),
                service_fits(m) ==> 0 <= history_total(m.history),
                0 <= open_week_total(m.week),
                0 <= total_of(m.day),
            decreases snapshot.history@.len() - i,
        {
            proof {
                assert(ws[i as int] == days_model(snapshot.history@[i as int]@));
                assert(ws.take(i + 1).drop_last() =~= ws.take(i as int));
                if service_fits(m) {
                    lemma_history_prefix(ws, i + 1);
                }
            }
            let week = match restore_week(&snapshot.history[i], budget) {
                Some(w) => w,
                None => return None,
            };
            let worked = week.worked_hours();
            long_term_registry.push_week(week);
            budget = budget - worked;
            i = i + 1;
        }
        proof {
            assert(ws.take(i as int) =~= ws);
        }
        let current_work_journey = match snapshot.open {
            Some(t) => Some(IncompleteWorkJourney::new(t)),
            None => None,
        };
        let current_work_day = vstd::slice::slice_to_vec(snapshot.day.as_slice());
        let r = ClockedInService {
            long_term_registry,
            current_work_journey,
            current_work_day,
            current_work_week,
        };
        proof {
            assert(r@ =~= m);
        }
        Some(r)
    }

    /// The registry of recorded weeks.
    pub fn long_term_registry(&self) -> (r: &LongTermRegistry)
        ensures
            r@ == self@.history,
    {
        &self.long_term_registry
    }

    /// The open journey, if any.
    pub fn current_work_journey(&self) -> (r: Option<IncompleteWorkJourney>)
        ensures
            r is Some <==> self@.open is Some,
            r is Some ==> r.unwrap().start() == self@.open.unwrap(),
    {
        self.current_work_journey
    }

    /// The journeys closed today.
    pub fn current_work_day(&self) -> (r: &Vec<WorkJourney>)
        ensures
            journey_models(r@) == self@.day,
    {
        &self.current_work_day
    }

    /// The week in progress, if any.
    pub fn current_work_week(&self) -> (r: Option<&WorkWeek>)
        ensures
            r is Some <==> self@.week is Some,
            r is Some ==> r.unwrap()@ == self@.week.unwrap(),
    {
        match &self.current_work_week {
            Some(w) => Some(w),
            None => None,
        }
    }

    /// Clocks out, then closes today's journeys into a day of the week in
    /// progress (opening a week when there is none).
    pub fn clock_out_and_end_work_day(&mut self, ending_time: Timestamp) -> (r: Result<
        (),
        ClockedInServiceError,
    >)
        ensures
            old(self)@.open is None ==> r == Err::<(), _>(
                ClockedInServiceError::NoneCurrentWorkJourney(),
            ),
            old(self)@.open is Some ==> old(self).open_start_time()@ == old(self)@.open.unwrap(),
            old(self)@.open is Some && ending_time@ < old(self)@.open.unwrap() ==> r == Err::<
                (),
                _,
            >(
                ClockedInServiceError::WorkJourneyEndingError(
                    WorkJourneyError::InvalidClockBoundaries(
                        old(self).open_start_time(),
                        ending_time,
                    ),
                ),
            ),
            old(self)@.open is Some && ending_time@ >= old(self)@.open.unwrap() && !can_close(
                old(self)@,
                ending_time@,
            ) ==> r == Err::<(), _>(
                ClockedInServiceError::LongTermRegistryError(
                    LongTermRegistryError::IntConversionError,
                ),
            ),
            r is Ok <==> can_close(old(self)@, ending_time@),
            r is Ok ==> final(self)@ == ended_day(closed_journey(old(self)@, ending_time@)),
            r is Err ==> final(self)@ == old(self)@,
    {
        match self.clock_out(ending_time) {
            Ok(_) => {},
            Err(e) => return Err(e),
        }
        proof {
            use_type_invariant(&*self);
            lemma_parts_bounded(self@);
        }
        let ghost before = self@;
        let mut taken = ClockedInService::new();
        std::mem::swap(&mut taken, self);
        let ClockedInService {
            long_term_registry,
            current_work_journey,
            current_work_day,
            current_work_week,
        } = taken;
        let finished_work_day = WorkDay::new(current_work_day.as_slice());
        let mut week = match current_work_week {
            Some(w) => w,
            None => WorkWeek::new(),
        };
        week.append_day(&finished_work_day);
        let empty_day: Vec<WorkJourney> = Vec::new();
        proof {
            assert(journey_models(empty_day@) =~= Seq::<JourneyModel>::empty());
            let old_week = match before.week {
                Some(w) => w,
                None => Seq::empty(),
            };
            let w = week@;
            assert(open_week_total(before.week) == week_total(old_week));
            if old_week.len() < MAX_DAYS_PER_WEEK {
                assert(w.drop_last() =~= old_week);
                assert(w.last() == before.day);
                assert(week_total(w) == week_total(old_week) + total_of(before.day));
            }
            assert forall|i: int| 0 <= i < w.len() implies day_ok(#[trigger] w[i]) by {
                if i < old_week.len() {
                    assert(w[i] == old_week[i]);
                }
            }
        }
        let r = ClockedInService {
            long_term_registry,
            current_work_journey,
            current_work_day: empty_day,
            current_work_week: Some(week),
        };
        proof {
            assert(r@ == ended_day(before));
        }
        *self = r;
        Ok(())
    }

    /// Clocks out, ends the day, then records the week in the registry and opens
    /// an empty one.
    pub fn clock_out_and_end_work_week(&mut self, ending_time: Timestamp) -> (r: Result<
        (),
        ClockedInServiceError,
    >)
        ensures
            old(self)@.open is None ==> r == Err::<(), _>(
                ClockedInServiceError::NoneCurrentWorkJourney(),
            ),
            old(self)@.open is Some ==> old(self).open_start_time()@ == old(self)@.open.unwrap(),
            old(self)@.open is Some && ending_time@ < old(self)@.open.unwrap() ==> r == Err::<
                (),
                _,
            >(
                ClockedInServiceError::WorkJourneyEndingError(
                    WorkJourneyError::InvalidClockBoundaries(
                        old(self).open_start_time(),
                        ending_time,
                    ),
                ),
            ),
            old(self)@.open is Some && ending_time@ >= old(self)@.open.unwrap() && !can_close(
                old(self)@,
                ending_time@,
            ) ==> r == Err::<(), _>(
                ClockedInServiceError::LongTermRegistryError(
                    LongTermRegistryError::IntConversionError,
                ),
            ),
            r is Ok <==> can_close(old(self)@, ending_time@),
            r is Ok ==> final(self)@ == ended_week(
                ended_day(closed_journey(old(self)@, ending_time@)),
            ),
            r is Err ==> final(self)@ == old(self)@,
    {
        match self.clock_out_and_end_work_day(ending_time) {
            Ok(_) => {},
            Err(e) => return Err(e),
        }
        proof {
            use_type_invariant(&*self);
            lemma_parts_bounded(self@);
        }
        let ghost before = self@;
        let mut taken = ClockedInService::new();
        std::mem::swap(&mut taken, self);
        let ClockedInService {
            mut long_term_registry,
            current_work_journey,
            current_work_day,
            current_work_week,
        } = taken;
        let ghost before_history = long_term_registry@;
        let current_work_week = match current_work_week {
            Some(week) => {
                long_term_registry.push_week(week);
                Some(WorkWeek::new())
            },
            None => None,
        };
        proof {
            let h = long_term_registry@;
            if before.week is Some {
                assert(h.drop_last() =~= before_history);
                assert forall|i: int| 0 <= i < h.len() implies week_ok(#[trigger] h[i]) by {
                    if i < before_history.len() {
                        assert(h[i] == before_history[i]);
                    }
                }
            }
        }
        let r = ClockedInService {
            long_term_registry,
            current_work_journey,
            current_work_day,
            current_work_week,
        };
        proof {
            assert(r@ == ended_week(before));
        }
        *self = r;
        Ok(())
    }
}

/// A week of well-formed days has a non-negative total.
pub proof fn lemma_week_total_nonnegative(w: WeekModel)
    requires
        forall|i: int| 0 <= i < w.len() ==> all_ordered(#[trigger] w[i]),
    ensures
        week_total(w) >= 0,
    decreases w.len(),
{
    if w.len() > 0 {
        assert forall|i: int| 0 <= i < w.drop_last().len() implies all_ordered(
            #[trigger] w.drop_last()[i],
        ) by {
            assert(w.drop_last()[i] == w[i]);
        }
        assert(all_ordered(w[w.len() - 1]));
        crate::work_days::lemma_total_nonnegative(w.last());
        lemma_week_total_nonnegative(w.drop_last());
    }
}

/// A history of well-formed weeks has a non-negative total.
pub proof fn lemma_history_nonnegative(ws: Seq<WeekModel>)
    requires
        forall|i: int| 0 <= i < ws.len() ==> week_ok(#[trigger] ws[i]),
    ensures
        history_total(ws) >= 0,
    decreases ws.len(),
{
    if ws.len() > 0 {
        assert forall|i: int| 0 <= i < ws.drop_last().len() implies week_ok(
            #[trigger] ws.drop_last()[i],
        ) by {
            assert(ws.drop_last()[i] == ws[i]);
        }
        let w = ws[ws.len() - 1];
        assert(week_ok(w));
        assert forall|i: int| 0 <= i < w.len() implies all_ordered(#[trigger] w[i]) by {
            assert(day_ok(w[i]));
        }
        lemma_week_total_nonnegative(w);
        lemma_history_nonnegative(ws.drop_last());
    }
}

/// Every part of a fitting state has a total between zero and the grand total.
pub proof fn lemma_parts_bounded(m: ServiceModel)
    requires
        service_fits(m),
    ensures
        0 <= history_total(m.history),
        0 <= open_week_total(m.week),
        0 <= total_of(m.day),
        grand_total(m) >= 0,
{
    lemma_history_nonnegative(m.history);
    crate::work_days::lemma_total_nonnegative(m.day);
    if m.week is Some {
        let w = m.week.unwrap();
        assert forall|i: int| 0 <= i < w.len() implies all_ordered(#[trigger] w[i]) by {
            assert(day_ok(w[i]));
        }
        lemma_week_total_nonnegative(w);
    }
}

} // verus!
