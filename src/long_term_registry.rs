//! The append-only history of closed weeks.

use crate::delta_hours::{delta_in_range, DeltaHours};
use crate::sums::{lemma_sum_permutation, sum_by};
use crate::time::Timestamp;
use crate::work_week::{
    DayModel, EXPECTED_DAY_SECONDS, MAX_DAYS_PER_WEEK, WorkWeek, week_delta, week_total,
};
use vstd::prelude::*;

verus! {

#[derive(Clone, Copy, PartialEq, Eq, Debug, Structural)]
pub enum LongTermRegistryError {
    /// No week has been recorded yet.
    EmptyHistory,
    /// A sum of durations left the range of an `i64`.
    IntConversionError,
}

/// The days of a week, in clock order.
pub type WeekModel = Seq<DayModel>;

pub open spec fn week_models(ws: Seq<WorkWeek>) -> Seq<WeekModel> {
    ws.map_values(|w: WorkWeek| w@)
}

/// Sum of the weeks' worked seconds.
pub open spec fn history_total(ws: Seq<WeekModel>) -> int
    decreases ws.len(),
{
    if ws.len() == 0 {
        0
    } else {
        history_total(ws.drop_last()) + week_total(ws.last())
    }
}

/// Sum of the weeks' balances, in seconds.
pub open spec fn history_delta(ws: Seq<WeekModel>) -> int
    decreases ws.len(),
{
    if ws.len() == 0 {
        0
    } else {
        history_delta(ws.drop_last()) + week_delta(ws.last())
    }
}

/// Facts about a recorded week that sums over the history rely on.
pub open spec fn week_bounded(w: WeekModel) -> bool {
    &&& w.len() <= MAX_DAYS_PER_WEEK
    &&& 0 <= week_total(w) <= i64::MAX
}

pub open spec fn history_fits(ws: Seq<WeekModel>) -> bool {
    &&& forall|i: int| 0 <= i < ws.len() ==> week_bounded(#[trigger] ws[i])
    &&& history_total(ws) <= i64::MAX
}

pub struct LongTermRegistry {
    history: Vec<WorkWeek>,
}

impl View for LongTermRegistry {
    type V = Seq<WeekModel>;

    closed spec fn view(&self) -> Seq<WeekModel> {
        week_models(self.history@)
    }
}

impl LongTermRegistry {
    #[verifier::type_invariant]
    spec fn consistent(self) -> bool {
        history_fits(self@)
    }

    pub fn new() -> (r: LongTermRegistry)
        ensures
            r@ == Seq::<WeekModel>::empty(),
    {
        let r = LongTermRegistry { history: Vec::new() };
        proof {
            assert(r@ =~= Seq::<WeekModel>::empty());
        }
        r
    }

    /// Records a closed week after the others.
    pub fn push_week(&mut self, week: WorkWeek)
        requires
            history_total(old(self)@) + week_total(week@) <= i64::MAX,
        ensures
            final(self)@ == old(self)@.push(week@),
    {
        proof {
            use_type_invariant(&*self);
        }
        let ghost before = self@;
        let worked = week.worked_hours();
        let days = week.days_worked();
        let mut taken = LongTermRegistry { history: Vec::new() };
        proof {
            assert(taken@ =~= Seq::<WeekModel>::empty());
        }
        std::mem::swap(&mut taken, self);
        let LongTermRegistry { mut history } = taken;
        history.push(week);
        proof {
            assert(week_models(history@) =~= before.push(week@));
            assert(week_models(history@).drop_last() =~= before);
        }
        *self = LongTermRegistry { history };
    }

    /// Seconds worked over every recorded week.
    pub fn worked_hours(&self) -> (r: i64)
        ensures
            r == history_total(self@),
            r >= 0,
    {
        proof {
            use_type_invariant(self);
        }
        let ghost ws = self@;
        let mut sum: i128 = 0;
        let mut i: usize = 0;
        while i < self.history.len()
            invariant
                ws == self@,
                history_fits(ws),
                i <= ws.len(),
                sum == history_total(ws.take(i as int)),
                0 <= sum <= i * i64::MAX,
            decreases ws.len() - i,
        {
            let w = self.history[i].worked_hours();
            proof {
                assert(ws.take(i + 1).drop_last() =~= ws.take(i as int));
                assert(ws[i as int] == self.history@[i as int]@);
                let ii = i as int;
                assert(sum + w <= (ii + 1) * i64::MAX) by (nonlinear_arith)
                    requires
                        sum <= ii * i64::MAX,
                        w <= i64::MAX,
                ;
                assert((ii + 1) * i64::MAX <= 0x1_0000_0000_0000_0000 * i64::MAX) by (
                nonlinear_arith)
                    requires
                        ii + 1 <= 0x1_0000_0000_0000_0000,
                ;
            }
            sum = sum + w as i128;
            i = i + 1;
        }
        proof {
            assert(ws.take(i as int) =~= ws);
            lemma_history_total_nonnegative(ws);
        }
        sum as i64
    }

    /// Sum of every recorded week's balance, in seconds; zero when nothing is recorded.
    pub fn cumulative_delta_seconds(&self) -> (r: i128)
        ensures
            r == history_delta(self@),
            -(0x1_0000_0000_0000_0000 * i64::MAX) <= r <= 0x1_0000_0000_0000_0000 * (
            EXPECTED_DAY_SECONDS * 5),
    {
        proof {
            use_type_invariant(self);
        }
        let ghost ws = self@;
        let cap: i128 = EXPECTED_DAY_SECONDS as i128 * 5;
        let mut sum: i128 = 0;
        let mut i: usize = 0;
        while i < self.history.len()
            invariant
                ws == self@,
                history_fits(ws),
                i <= ws.len(),
                cap == EXPECTED_DAY_SECONDS * 5,
                sum == history_delta(ws.take(i as int)),
                -(i * i64::MAX) <= sum <= i * cap,
            decreases ws.len() - i,
        {
            let d = self.history[i].worked_delta().seconds();
            proof {
                assert(ws.take(i + 1).drop_last() =~= ws.take(i as int));
                assert(ws[i as int] == self.history@[i as int]@);
                assert(week_bounded(ws[i as int]));
                let ii = i as int;
                let c = cap as int;
                assert(-((ii + 1) * i64::MAX) <= sum + d <= (ii + 1) * c) by (nonlinear_arith)
                    requires
                        -(ii * i64::MAX) <= sum <= ii * c,
                        -i64::MAX <= d <= c,
                ;
                assert((ii + 1) * i64::MAX <= 0x1_0000_0000_0000_0000 * i64::MAX
                    && (ii + 1) * c <= 0x1_0000_0000_0000_0000 * c) by (nonlinear_arith)
                    requires
                        ii + 1 <= 0x1_0000_0000_0000_0000,
                        c >= 0,
                ;
            }
            sum = sum + d as i128;
            i = i + 1;
        }
        proof {
            assert(ws.take(i as int) =~= ws);
            let ii = i as int;
            let c = cap as int;
            assert(ii * i64::MAX <= 0x1_0000_0000_0000_0000 * i64::MAX && ii * c
                <= 0x1_0000_0000_0000_0000 * c) by (nonlinear_arith)
                requires
                    ii <= 0x1_0000_0000_0000_0000,
                    c >= 0,
            ;
        }
        sum
    }

    /// Sum of every recorded week's balance.
    pub fn worked_delta(&self) -> (r: Result<DeltaHours, LongTermRegistryError>)
        ensures
            self@.len() == 0 ==> r == Err::<DeltaHours, _>(LongTermRegistryError::EmptyHistory),
            self@.len() > 0 && !delta_in_range(history_delta(self@)) ==> r == Err::<
                DeltaHours,
                _,
            >(LongTermRegistryError::IntConversionError),
            self@.len() > 0 && delta_in_range(history_delta(self@)) ==> r is Ok && r.unwrap()@
                == history_delta(self@),
    {
        if self.history.len() == 0 {
            return Err(LongTermRegistryError::EmptyHistory);
        }
        let sum = self.cumulative_delta_seconds();
        if (i64::MIN as i128) < sum && sum <= (i64::MAX as i128) {
            Ok(DeltaHours::new(sum as i64))
        } else {
            Err(LongTermRegistryError::IntConversionError)
        }
    }

    /// Last clock-out of the most recent recorded week, if it has a day.
    pub fn last_clock_out_last_week(&self) -> (r: Option<Timestamp>)
        ensures
            r is Some <==> self@.len() > 0 && self@.last().len() > 0,
            r is Some ==> r.unwrap()@ == self@.last().last().last().1,
    {
        let n = self.history.len();
        if n == 0 {
            None
        } else {
            proof {
                assert(self@[n - 1] == self.history@[n - 1]@);
            }
            self.history[n - 1].last_clock_out_last_day_in_week()
        }
    }

    /// The recorded weeks, oldest first.
    pub fn history(&self) -> (r: &Vec<WorkWeek>)
        ensures
            week_models(r@) == self@,
    {
        &self.history
    }
}

/// `history_delta` is the sum of the weeks' balances.
pub proof fn lemma_history_delta_is_sum(ws: Seq<WeekModel>)
    ensures
        history_delta(ws) == sum_by(ws, |w: WeekModel| week_delta(w)),
    decreases ws.len(),
{
    if ws.len() > 0 {
        lemma_history_delta_is_sum(ws.drop_last());
    }
}

/// The cumulative balance is the sum of the recorded weeks' balances whatever
/// order the weeks were pushed in: the same weeks give the same balance.
pub proof fn lemma_history_delta_any_order(ws: Seq<WeekModel>, vs: Seq<WeekModel>)
    requires
        ws.to_multiset() == vs.to_multiset(),
    ensures
        history_delta(ws) == history_delta(vs),
{
    lemma_history_delta_is_sum(ws);
    lemma_history_delta_is_sum(vs);
    lemma_sum_permutation(ws, vs, |w: WeekModel| week_delta(w));
}

/// A history of bounded weeks has a non-negative total.
pub proof fn lemma_history_total_nonnegative(ws: Seq<WeekModel>)
    requires
        forall|i: int| 0 <= i < ws.len() ==> week_bounded(#[trigger] ws[i]),
    ensures
        history_total(ws) >= 0,
    decreases ws.len(),
{
    if ws.len() > 0 {
        assert forall|i: int| 0 <= i < ws.drop_last().len() implies week_bounded(
            #[trigger] ws.drop_last()[i],
        ) by {
            assert(ws.drop_last()[i] == ws[i]);
        }
        assert(week_bounded(ws[ws.len() - 1]));
        lemma_history_total_nonnegative(ws.drop_last());
    }
}

} // verus!
