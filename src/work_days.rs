//! A calendar day of closed journeys, with its total and the day's policy checks.

use crate::time::{SECONDS_PER_HOUR, MAX_UNIX_SECONDS, MIN_UNIX_SECONDS};
use crate::sums::{lemma_sum_permutation, sum_by};
use crate::work_journey::{duration, JourneyModel, WorkJourney};
use vstd::prelude::*;

verus! {

pub const MAX_JOURNEYS_PER_DAY: usize = 5;

/// Longest single journey that a recommendation proposes, in seconds.
pub const MAX_HOURS_PER_JOURNEY: i64 = 6 * SECONDS_PER_HOUR;

/// Below this many seconds worked the day is short.
pub const MIN_DAY_SECONDS: i64 = 6 * SECONDS_PER_HOUR;

/// Above this many seconds worked the day is too long.
pub const MAX_DAY_SECONDS: i64 = 10 * SECONDS_PER_HOUR;

/// Shortest pause between two journeys of a day that counts as a rest, in seconds.
pub const MIN_INTER_JOURNEY_REST: i64 = SECONDS_PER_HOUR;

#[derive(Clone, Copy, PartialEq, Eq, Debug, Structural, Hash)]
pub enum IntraDayViolation {
    ExceddedMaxHours,
    MissingHours,
    ViolatedInterJourneyRest,
    ExceddedMaxJourneys,
}

pub open spec fn journey_models(js: Seq<WorkJourney>) -> Seq<JourneyModel> {
    js.map_values(|j: WorkJourney| j@)
}

/// Sum of the journeys' durations.
pub open spec fn total_of(js: Seq<JourneyModel>) -> int
    decreases js.len(),
{
    if js.len() == 0 {
        0
    } else {
        total_of(js.drop_last()) + duration(js.last())
    }
}

/// Some two consecutive journeys are at least an hour apart.
pub open spec fn has_sufficient_rest(js: Seq<JourneyModel>) -> bool {
    exists|i: int|
        0 <= i < js.len() - 1 && #[trigger] js[i + 1].0 - js[i].1 >= MIN_INTER_JOURNEY_REST
}

/// The violations of a day made of `js`, in the order in which they are reported.
pub open spec fn day_violations(js: Seq<JourneyModel>) -> Seq<IntraDayViolation> {
    let total = total_of(js);
    let rest = if total >= MIN_DAY_SECONDS && !has_sufficient_rest(js) {
        seq![IntraDayViolation::ViolatedInterJourneyRest]
    } else {
        Seq::empty()
    };
    let hours = if total < MIN_DAY_SECONDS {
        seq![IntraDayViolation::MissingHours]
    } else if total > MAX_DAY_SECONDS {
        seq![IntraDayViolation::ExceddedMaxHours]
    } else {
        Seq::empty()
    };
    let count = if js.len() > MAX_JOURNEYS_PER_DAY {
        seq![IntraDayViolation::ExceddedMaxJourneys]
    } else {
        Seq::empty()
    };
    rest + hours + count
}

pub open spec fn all_ordered(js: Seq<JourneyModel>) -> bool {
    forall|i: int| 0 <= i < js.len() ==> #[trigger] js[i].0 <= js[i].1
}

/// A finished day: its journeys in clock order, their total and the violations found.
#[derive(Debug)]
pub struct WorkDay {
    journeys: Vec<WorkJourney>,
    worked_seconds: i64,
    violations: Vec<IntraDayViolation>,
}

impl View for WorkDay {
    type V = Seq<JourneyModel>;

    closed spec fn view(&self) -> Seq<JourneyModel> {
        journey_models(self.journeys@)
    }
}

impl WorkDay {
    #[verifier::type_invariant]
    spec fn consistent(self) -> bool {
        &&& all_ordered(self@)
        &&& self.worked_seconds == total_of(self@)
        &&& self.violations@ == day_violations(self@)
    }

    /// The day made of `journeys`; its total and violations are computed here once.
    pub fn new(journeys: &[WorkJourney]) -> (r: WorkDay)
        requires
            total_of(journey_models(journeys@)) <= i64::MAX,
        ensures
            r@ == journey_models(journeys@),
    {
        let ghost models = journey_models(journeys@);
        let worked_hours = total_seconds(journeys);

        let mut found_violations: Vec<IntraDayViolation> = Vec::new();
        if worked_hours >= MIN_DAY_SECONDS {
            let found = WorkDay::has_sufficient_rest(journeys);
            if !found {
                found_violations.push(IntraDayViolation::ViolatedInterJourneyRest);
            }
        }
        if worked_hours < MIN_DAY_SECONDS {
            found_violations.push(IntraDayViolation::MissingHours);
        } else if worked_hours > MAX_DAY_SECONDS {
            found_violations.push(IntraDayViolation::ExceddedMaxHours);
        }
        if journeys.len() > MAX_JOURNEYS_PER_DAY {
            found_violations.push(IntraDayViolation::ExceddedMaxJourneys);
        }
        proof {
            assert(found_violations@ =~= day_violations(models));
        }
        let stored = vstd::slice::slice_to_vec(journeys);
        WorkDay { journeys: stored, worked_seconds: worked_hours, violations: found_violations }
    }

    /// Whether some two consecutive journeys are at least an hour apart.
    fn has_sufficient_rest(journeys: &[WorkJourney]) -> (r: bool)
        ensures
            r == has_sufficient_rest(journey_models(journeys@)),
    {
        let ghost models = journey_models(journeys@);
        let mut found = false;
        if journeys.len() == 0 {
            return false;
        }
        let mut i: usize = 1;
        while i < journeys.len()
            invariant
                models == journey_models(journeys@),
                1 <= i <= journeys@.len(),
                found == exists|k: int|
                    0 <= k && k + 1 < i && #[trigger] models[k + 1].0 - models[k].1
                        >= MIN_INTER_JOURNEY_REST,
            decreases journeys@.len() - i,
        {
            let rest = journeys[i].get_starting_time().unix_seconds()
                - journeys[i - 1].get_ending_time().unix_seconds();
            proof {
                let k = i - 1;
                assert(rest == models[k + 1].0 - models[k].1);
            }
            if rest >= MIN_INTER_JOURNEY_REST {
                found = true;
            }
            i = i + 1;
        }
        found
    }

    /// Seconds worked over the day.
    pub fn worked_hours(&self) -> (r: i64)
        ensures
            r == total_of(self@),
            r >= 0,
    {
        proof {
            use_type_invariant(self);
            lemma_total_nonnegative(self@);
        }
        self.worked_seconds
    }

    /// Start of the first journey.
    pub fn first_clock_in(&self) -> (r: crate::time::Timestamp)
        requires
            self@.len() > 0,
        ensures
            r@ == self@[0].0,
    {
        self.journeys[0].get_starting_time()
    }

    /// End of the last journey.
    pub fn last_clock_out(&self) -> (r: crate::time::Timestamp)
        requires
            self@.len() > 0,
        ensures
            r@ == self@.last().1,
    {
        self.journeys[self.journeys.len() - 1].get_ending_time()
    }

    pub fn get_violations(&self) -> (r: Vec<IntraDayViolation>)
        ensures
            r@ == day_violations(self@),
    {
        proof {
            use_type_invariant(self);
        }
        let mut out: Vec<IntraDayViolation> = Vec::new();
        let mut i: usize = 0;
        while i < self.violations.len()
            invariant
                i <= self.violations@.len(),
                out@ == self.violations@.take(i as int),
            decreases self.violations@.len() - i,
        {
            out.push(self.violations[i]);
            proof {
                assert(out@ =~= self.violations@.take(i + 1));
            }
            i = i + 1;
        }
        proof {
            assert(out@ =~= self.violations@);
        }
        out
    }

    /// The journeys of the day, in clock order.
    pub fn journeys(&self) -> (r: &Vec<WorkJourney>)
        ensures
            journey_models(r@) == self@,
    {
        &self.journeys
    }
}

impl Clone for WorkDay {
    fn clone(&self) -> (r: WorkDay)
        ensures
            r@ == self@,
    {
        proof {
            use_type_invariant(self);
        }
        let journeys = vstd::slice::slice_to_vec(self.journeys.as_slice());
        let violations = self.get_violations();
        WorkDay { journeys, worked_seconds: self.worked_seconds, violations }
    }
}

/// Seconds worked over `journeys`, which may exceed the range of an `i64`.
pub fn exact_total(journeys: &[WorkJourney]) -> (r: i128)
    ensures
        r == total_of(journey_models(journeys@)),
        0 <= r <= 0x1_0000_0000_0000_0000 * (MAX_UNIX_SECONDS - MIN_UNIX_SECONDS),
        all_ordered(journey_models(journeys@)),
{
    let ghost models = journey_models(journeys@);
    let span: i128 = (MAX_UNIX_SECONDS - MIN_UNIX_SECONDS) as i128;
    let mut sum: i128 = 0;
    let mut i: usize = 0;
    while i < journeys.len()
        invariant
            i <= journeys@.len(),
            models == journey_models(journeys@),
            span == MAX_UNIX_SECONDS - MIN_UNIX_SECONDS,
            sum == total_of(models.take(i as int)),
            0 <= sum <= i * span,
            forall|k: int| 0 <= k < i ==> #[trigger] models[k].0 <= models[k].1,
        decreases journeys@.len() - i,
    {
        let d = journeys[i].worked_hours();
        proof {
            assert(models.take(i + 1).drop_last() =~= models.take(i as int));
            let ii = i as int;
            let sp = span as int;
            assert(sum + d <= (ii + 1) * sp) by (nonlinear_arith)
                requires
                    sum <= ii * sp,
                    d <= sp,
            ;
            assert((ii + 1) * sp <= 0x1_0000_0000_0000_0000 * sp) by (nonlinear_arith)
                requires
                    ii + 1 <= 0x1_0000_0000_0000_0000,
                    sp >= 0,
            ;
        }
        sum = sum + d as i128;
        i = i + 1;
    }
    proof {
        assert(models.take(i as int) =~= models);
        let ii = i as int;
        let sp = span as int;
        assert(ii * sp <= 0x1_0000_0000_0000_0000 * sp) by (nonlinear_arith)
            requires
                ii <= 0x1_0000_0000_0000_0000,
                sp >= 0,
        ;
    }
    sum
}

/// Seconds worked over `journeys`, when that fits in an `i64`.
pub fn total_seconds(journeys: &[WorkJourney]) -> (r: i64)
    requires
        total_of(journey_models(journeys@)) <= i64::MAX,
    ensures
        r == total_of(journey_models(journeys@)),
        r >= 0,
        all_ordered(journey_models(journeys@)),
{
    exact_total(journeys) as i64
}

/// `total_of` is the sum of the durations.
pub proof fn lemma_total_is_sum(js: Seq<JourneyModel>)
    ensures
        total_of(js) == sum_by(js, |j: JourneyModel| duration(j)),
    decreases js.len(),
{
    if js.len() > 0 {
        lemma_total_is_sum(js.drop_last());
    }
}

/// A day's total is the sum of its journeys' durations whatever order the
/// journeys come in: two lists of the same journeys give the same total.
pub proof fn lemma_total_any_order(js: Seq<JourneyModel>, ps: Seq<JourneyModel>)
    requires
        js.to_multiset() == ps.to_multiset(),
    ensures
        total_of(js) == total_of(ps),
{
    lemma_total_is_sum(js);
    lemma_total_is_sum(ps);
    lemma_sum_permutation(js, ps, |j: JourneyModel| duration(j));
}

/// A total of journeys that each end no earlier than they start is never negative.
pub proof fn lemma_total_nonnegative(js: Seq<JourneyModel>)
    requires
        all_ordered(js),
    ensures
        total_of(js) >= 0,
    decreases js.len(),
{
    if js.len() > 0 {
        assert(all_ordered(js.drop_last()) && js.last().0 <= js.last().1) by {
            assert forall|i: int| 0 <= i < js.drop_last().len() implies #[trigger] js.drop_last()[i].0
                <= js.drop_last()[i].1 by {
                assert(js.drop_last()[i] == js[i]);
            }
            assert(js.last() == js[js.len() - 1]);
        }
        lemma_total_nonnegative(js.drop_last());
    }
}

} // verus!
