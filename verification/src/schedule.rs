//! Schedule expressions and the plan that a schedule compiles to.
//!
//! A [`ScheduleConfiguration`] is a base interval refined by an ordered list
//! of [`Adjustment`]s. [`JobPlan`] is the mathematical model of the job that
//! the scheduler holds for it; [`compiled`] says which plan an expression
//! yields.
use crate::error::Error;
use vstd::prelude::*;

verus! {

/// The recurrence unit of the scheduler: `clokwerk::Interval`, a public enum
/// of plain values, which Verus reads as it stands.
#[verifier::external_type_specification]
pub struct ExRecurrenceUnit(clokwerk::Interval);

/// A time of day: `chrono::NaiveTime`, carried through unread.
#[verifier::external_type_specification]
#[verifier::external_body]
pub struct ExTimeOfDay(chrono::NaiveTime);

/// `Clone::clone` of `clokwerk::Interval`, which is `Copy`: the clone is the
/// value itself.
pub assume_specification[ <clokwerk::Interval as Clone>::clone ](
    unit: &clokwerk::Interval,
) -> (copy: clokwerk::Interval)
    ensures
        copy == *unit,
;

/// `Clone::clone` of `chrono::NaiveTime`, which is `Copy`: the clone is the
/// value itself.
pub assume_specification[ <chrono::NaiveTime as Clone>::clone ](
    time: &chrono::NaiveTime,
) -> (copy: chrono::NaiveTime)
    ensures
        copy == *time,
;

/// One refinement of a schedule. The order of refinements matters: each one
/// acts on what the earlier ones have left.
#[derive(Eq, PartialEq, Debug, Clone)]
pub enum Adjustment {
    /// Fire at this time of day.
    At(chrono::NaiveTime),
    /// Shift the cycle by this interval.
    Plus(clokwerk::Interval),
    /// Fire on this cadence as well.
    AndEvery(clokwerk::Interval),
    /// Stop for good after this many executions.
    Count(usize),
    /// After each run, run again on this interval, this many times.
    RepeatingEvery(clokwerk::Interval, usize),
}

impl Adjustment {
    /// A cap of zero executions describes a job that can never fire, and is
    /// the one adjustment that is refused.
    pub open spec fn valid(&self) -> bool {
        !(*self matches Adjustment::Count(n) && n == 0)
    }

    /// Whether this adjustment may stand in a schedule.
    pub fn is_valid(&self) -> (ok: bool)
        ensures
            ok == self.valid(),
    {
        match self {
            Adjustment::Count(n) => *n != 0,
            _ => true,
        }
    }
}

/// A schedule as it is stored and compiled: a base interval and the
/// refinements to apply to it, in order. No list and an empty list mean the
/// same.
#[derive(Eq, PartialEq, Debug, Clone)]
pub struct ScheduleConfiguration {
    pub base: clokwerk::Interval,
    pub adjustment: Option<Vec<Adjustment>>,
}

/// A schedule as a client proposes it. It becomes a
/// [`ScheduleConfiguration`] unchanged.
#[derive(Eq, PartialEq, Debug, Clone)]
pub struct ScheduleConfigurationProposal {
    base: clokwerk::Interval,
    adjustment: Option<Vec<Adjustment>>,
}

/// The list of refinements that an optional list stands for.
pub open spec fn adjustments_of(list: Option<Vec<Adjustment>>) -> Seq<Adjustment> {
    match list {
        Some(v) => v@,
        None => Seq::empty(),
    }
}

/// What stands against one refinement of a plan, if anything does: a cap of
/// zero executions, or a plan that the refinement takes out of reach.
pub open spec fn step_fault(plan: JobPlan, adjustment: Adjustment) -> Option<Error> {
    if !adjustment.valid() {
        Some(Error::ZeroCount)
    } else if !plan.adjusted(adjustment).within_reach() {
        Some(Error::IntervalOutOfRange)
    } else {
        None
    }
}

impl ScheduleConfiguration {
    /// The refinements of this schedule, in order.
    pub open spec fn adjustments(&self) -> Seq<Adjustment> {
        adjustments_of(self.adjustment)
    }

    /// The plan that the first `k` refinements make of the base.
    pub open spec fn plan_before(&self, k: int) -> JobPlan {
        JobPlan::bare(self.base).adjusted_by(self.adjustments().take(k))
    }

    /// What stands against the refinement at `k`, if anything does.
    pub open spec fn fault_at(&self, k: int) -> Option<Error> {
        step_fault(self.plan_before(k), self.adjustments()[k])
    }

    /// The base is within reach, and nothing stands against any refinement:
    /// none caps the executions at zero, and the plan is within reach after
    /// each of them.
    pub open spec fn valid(&self) -> bool {
        &&& JobPlan::bare(self.base).within_reach()
        &&& forall|k: int| 0 <= k < self.adjustments().len() ==> #[trigger] self.fault_at(k) is None
    }

    /// `error` is the first fault of this schedule: that of the base, or
    /// else that of the first refinement against which anything stands.
    pub open spec fn refused_with(&self, error: Error) -> bool {
        if !JobPlan::bare(self.base).within_reach() {
            error == Error::IntervalOutOfRange
        } else {
            exists|k: int|
                {
                    &&& 0 <= k < self.adjustments().len()
                    &&& #[trigger] self.fault_at(k) == Some(error)
                    &&& forall|j: int| 0 <= j < k ==> #[trigger] self.fault_at(j) is None
                }
        }
    }

    /// Checks the base and every refinement in order, and names the first
    /// fault of a schedule that may not be compiled.
    pub fn validate(&self) -> (checked: Result<(), Error>)
        ensures
            checked is Ok <==> self.valid(),
            checked matches Err(e) ==> self.refused_with(e),
    {
        if !is_in_reach(self.base) {
            assert(!JobPlan::bare(self.base).recurrences[0].within_reach());
            return Err(Error::IntervalOutOfRange);
        }
        let mut base_span = reach_of(self.base);
        let mut offsets: u64 = 0;
        let ghost mut plan = JobPlan::bare(self.base);
        proof {
            assert(self.adjustments().take(0) =~= Seq::<Adjustment>::empty());
        }
        match &self.adjustment {
            None => Ok(()),
            Some(list) => {
                let mut i: usize = 0;
                while i < list.len()
                    invariant
                        i <= list.len(),
                        self.adjustments() == list@,
                        plan == self.plan_before(i as int),
                        plan.within_reach(),
                        JobPlan::bare(self.base).within_reach(),
                        tracks(plan, base_span, offsets),
                        base_span <= MAX_REACH_DAYS,
                        offsets <= MAX_REACH_DAYS,
                        forall|k: int| 0 <= k < i ==> #[trigger] self.fault_at(k) is None,
                    decreases list.len() - i,
                {
                    let ghost next = plan.adjusted(list@[i as int]);
                    proof {
                        assert(list@.take(i + 1).drop_last() =~= list@.take(i as int));
                        assert(self.plan_before(i + 1) == next);
                        lemma_reach_of_adjusted(plan, list@[i as int]);
                    }
                    let fits = match &list[i] {
                        Adjustment::At(_) => base_span + 1 <= MAX_REACH_DAYS,
                        Adjustment::Plus(offset) => is_in_reach(*offset) && base_span + offsets
                            + reach_of(*offset) <= MAX_REACH_DAYS,
                        Adjustment::AndEvery(base) => is_in_reach(*base),
                        Adjustment::Count(times) => *times != 0,
                        Adjustment::RepeatingEvery(interval, times) => *times == 0 || (is_in_reach(
                            *interval,
                        ) && is_of_length(*interval)),
                    };
                    if !fits {
                        let fault = match &list[i] {
                            Adjustment::Count(_) => Error::ZeroCount,
                            _ => Error::IntervalOutOfRange,
                        };
                        assert(self.fault_at(i as int) == Some(fault));
                        return Err(fault);
                    }
                    match &list[i] {
                        Adjustment::At(_) => {
                            offsets = 0;
                        },
                        Adjustment::Plus(offset) => {
                            offsets = offsets + reach_of(*offset);
                        },
                        Adjustment::AndEvery(base) => {
                            base_span = reach_of(*base);
                            offsets = 0;
                        },
                        _ => {},
                    }
                    proof {
                        assert(self.fault_at(i as int) is None);
                        plan = next;
                    }
                    i += 1;
                }
                Ok(())
            },
        }
    }
}

/// The numbers that `validate` keeps of a plan: the span of the base of its
/// last recurrence, and the span of that recurrence's offsets.
spec fn tracks(plan: JobPlan, base_span: u64, offsets: u64) -> bool {
    &&& plan.recurrences.len() > 0
    &&& base_span == span_days(plan.recurrences.last().base)
    &&& offsets == match plan.recurrences.last().refinement {
        Refinement::Offsets(list) => offsets_span(list),
        _ => 0,
    }
}

/// What each refinement asks of a plan that is within reach, so that it
/// stays within reach.
proof fn lemma_reach_of_adjusted(plan: JobPlan, adjustment: Adjustment)
    requires
        plan.within_reach(),
        plan.recurrences.len() > 0,
    ensures
        plan.adjusted(adjustment).recurrences.len() > 0,
        plan.adjusted(adjustment).within_reach() <==> (match adjustment {
            Adjustment::At(_) => span_days(plan.recurrences.last().base) + 1 <= MAX_REACH_DAYS,
            Adjustment::Plus(offset) => interval_in_reach(offset) && span_days(
                plan.recurrences.last().base,
            ) + (match plan.recurrences.last().refinement {
                Refinement::Offsets(list) => offsets_span(list),
                _ => 0,
            }) + span_days(offset) <= MAX_REACH_DAYS,
            Adjustment::AndEvery(base) => interval_in_reach(base),
            Adjustment::Count(_) => true,
            Adjustment::RepeatingEvery(interval, times) => times == 0 || (interval_in_reach(
                interval,
            ) && has_length(interval)),
        }),
        match adjustment {
            Adjustment::At(_) => plan.adjusted(adjustment).recurrences.last() == (Recurrence {
                base: plan.recurrences.last().base,
                refinement: plan.adjusted(adjustment).recurrences.last().refinement,
            }) && plan.adjusted(adjustment).recurrences.last().refinement is AtTime,
            Adjustment::Plus(offset) => plan.adjusted(adjustment).recurrences.last().base
                == plan.recurrences.last().base && (plan.adjusted(
                adjustment,
            ).recurrences.last().refinement matches Refinement::Offsets(list) && offsets_span(list)
                == (match plan.recurrences.last().refinement {
                Refinement::Offsets(before) => offsets_span(before),
                _ => 0,
            }) + span_days(offset)),
            Adjustment::AndEvery(base) => plan.adjusted(adjustment).recurrences.last() == (
            Recurrence { base, refinement: Refinement::Unrefined }),
            _ => plan.adjusted(adjustment).recurrences == plan.recurrences,
        },
{
    let last = plan.recurrences.last();
    let after = plan.adjusted(adjustment);
    assert(last.within_reach());
    match adjustment {
        Adjustment::At(time) => {
            let made = Recurrence { base: last.base, refinement: Refinement::AtTime(time) };
            assert(after.recurrences.last() == made);
            assert forall|i: int| 0 <= i < after.recurrences.len() - 1 implies (
            #[trigger] after.recurrences[i]).within_reach() by {
                assert(after.recurrences[i] == plan.recurrences[i]);
            }
        },
        Adjustment::Plus(offset) => {
            let before = match last.refinement {
                Refinement::Offsets(list) => list,
                _ => Seq::empty(),
            };
            let list = before.push(offset);
            let made = Recurrence { base: last.base, refinement: Refinement::Offsets(list) };
            assert(after.recurrences.last() == made);
            assert(list.drop_last() =~= before);
            assert(offsets_span(list) == offsets_span(before) + span_days(offset));
            assert(offsets_span(Seq::<clokwerk::Interval>::empty()) == 0);
            assert forall|i: int| 0 <= i < after.recurrences.len() - 1 implies (
            #[trigger] after.recurrences[i]).within_reach() by {
                assert(after.recurrences[i] == plan.recurrences[i]);
            }
            if interval_in_reach(offset) {
                assert forall|j: int| 0 <= j < list.len() implies interval_in_reach(
                    #[trigger] list[j],
                ) by {
                    if j < before.len() {
                        assert(list[j] == before[j]);
                    }
                }
            } else {
                assert(list[list.len() - 1] == offset);
            }
        },
        Adjustment::AndEvery(base) => {
            let made = Recurrence { base, refinement: Refinement::Unrefined };
            assert(after.recurrences.last() == made);
            assert forall|i: int| 0 <= i < after.recurrences.len() - 1 implies (
            #[trigger] after.recurrences[i]).within_reach() by {
                assert(after.recurrences[i] == plan.recurrences[i]);
            }
        },
        Adjustment::Count(_) => {},
        Adjustment::RepeatingEvery(_, _) => {},
    }
}

impl ScheduleConfigurationProposal {
    /// A proposal of this base and these refinements.
    pub fn new(base: clokwerk::Interval, adjustment: Option<Vec<Adjustment>>) -> (proposal: Self)
        ensures
            proposal.accepted() == (ScheduleConfiguration { base, adjustment }),
    {
        ScheduleConfigurationProposal { base, adjustment }
    }

    /// The schedule that this proposal becomes.
    pub closed spec fn accepted(&self) -> ScheduleConfiguration {
        ScheduleConfiguration { base: self.base, adjustment: self.adjustment }
    }

    /// Turns the proposal into the schedule it proposes.
    pub fn into(self) -> (schedule: ScheduleConfiguration)
        ensures
            schedule == self.accepted(),
    {
        ScheduleConfiguration { base: self.base, adjustment: self.adjustment }
    }
}

/// What refines one recurrence of a job.
pub enum Refinement {
    /// Nothing: the recurrence fires on its base interval.
    Unrefined,
    /// The recurrence fires at this time of day.
    AtTime(chrono::NaiveTime),
    /// The cycle is shifted by these intervals, one after the other.
    Offsets(Seq<clokwerk::Interval>),
}

/// One cadence on which a job fires.
pub struct Recurrence {
    pub base: clokwerk::Interval,
    pub refinement: Refinement,
}

/// How often a job may still run.
pub enum RunLimit {
    /// Without end.
    Forever,
    /// This many times, counted as the scheduler counts them.
    Times(nat),
    /// Never again.
    Exhausted,
}

/// Extra runs that follow each scheduled run.
pub struct Repetition {
    pub interval: clokwerk::Interval,
    pub times: nat,
}

/// The model of a job: the cadences it fires on, the runs it has left, what
/// it repeats after each run, and whether an action is attached to it.
pub struct JobPlan {
    pub recurrences: Seq<Recurrence>,
    pub limit: RunLimit,
    pub repetition: Option<Repetition>,
    /// A job without an action is registered, but nothing runs when it is
    /// due.
    pub has_action: bool,
}

impl RunLimit {
    /// The limit that is left after one more run.
    pub open spec fn after_run(self) -> RunLimit {
        match self {
            RunLimit::Forever => RunLimit::Forever,
            RunLimit::Times(n) => if n > 1 {
                RunLimit::Times((n - 1) as nat)
            } else {
                RunLimit::Exhausted
            },
            RunLimit::Exhausted => RunLimit::Exhausted,
        }
    }

    /// The limit that is left after `runs` more runs.
    pub open spec fn after_runs(self, runs: nat) -> RunLimit
        decreases runs,
    {
        if runs == 0 {
            self
        } else {
            self.after_run().after_runs((runs - 1) as nat)
        }
    }
}

impl JobPlan {
    /// The plan of a job that fires on `base` and nothing else, without end.
    pub open spec fn bare(base: clokwerk::Interval) -> JobPlan {
        JobPlan {
            recurrences: seq![Recurrence { base, refinement: Refinement::Unrefined }],
            limit: RunLimit::Forever,
            repetition: None,
            has_action: false,
        }
    }

    /// The last recurrence is pinned to a time of day, whatever refined it
    /// before.
    pub open spec fn at_time(self, time: chrono::NaiveTime) -> JobPlan {
        if self.recurrences.len() == 0 {
            self
        } else {
            let last = self.recurrences.last();
            JobPlan {
                recurrences: self.recurrences.drop_last().push(
                    Recurrence { base: last.base, refinement: Refinement::AtTime(time) },
                ),
                ..self
            }
        }
    }

    /// The last recurrence gets one more offset, after those it has; a time
    /// of day that refined it is given up.
    pub open spec fn plus(self, offset: clokwerk::Interval) -> JobPlan {
        if self.recurrences.len() == 0 {
            self
        } else {
            let last = self.recurrences.last();
            let before = match last.refinement {
                Refinement::Offsets(offsets) => offsets,
                _ => Seq::empty(),
            };
            JobPlan {
                recurrences: self.recurrences.drop_last().push(
                    Recurrence {
                        base: last.base,
                        refinement: Refinement::Offsets(before.push(offset)),
                    },
                ),
                ..self
            }
        }
    }

    /// One more recurrence, unrefined, after those there are.
    pub open spec fn and_every(self, base: clokwerk::Interval) -> JobPlan {
        JobPlan {
            recurrences: self.recurrences.push(
                Recurrence { base, refinement: Refinement::Unrefined },
            ),
            ..self
        }
    }

    /// The job may run `times` times.
    pub open spec fn count(self, times: nat) -> JobPlan {
        JobPlan { limit: RunLimit::Times(times), ..self }
    }

    /// Each run is followed by `times` more, `interval` apart; zero times
    /// changes nothing.
    pub open spec fn repeating(self, interval: clokwerk::Interval, times: nat) -> JobPlan {
        if times >= 1 {
            JobPlan { repetition: Some(Repetition { interval, times }), ..self }
        } else {
            self
        }
    }

    /// The plan that one refinement makes of this plan.
    pub open spec fn adjusted(self, adjustment: Adjustment) -> JobPlan {
        match adjustment {
            Adjustment::At(time) => self.at_time(time),
            Adjustment::Plus(offset) => self.plus(offset),
            Adjustment::AndEvery(base) => self.and_every(base),
            Adjustment::Count(times) => self.count(times as nat),
            Adjustment::RepeatingEvery(interval, times) => self.repeating(interval, times as nat),
        }
    }

    /// The plan that a list of refinements makes of this plan, applied from
    /// the first to the last.
    pub open spec fn adjusted_by(self, list: Seq<Adjustment>) -> JobPlan
        decreases list.len(),
    {
        if list.len() == 0 {
            self
        } else {
            self.adjusted_by(list.drop_last()).adjusted(list.last())
        }
    }

    /// The plan of the job once an action is attached to it.
    pub open spec fn with_action(self) -> JobPlan {
        JobPlan { has_action: true, ..self }
    }

    /// The plan after the scheduler has run the job once.
    pub open spec fn after_run(self) -> JobPlan {
        JobPlan { limit: self.limit.after_run(), ..self }
    }
}

/// The days that a recurrence may reach ahead, about a hundred thousand
/// years. The scheduler computes its dates on a calendar that ends some two
/// hundred and sixty thousand years from now, and stops short where a date
/// would lie beyond it.
pub const MAX_REACH_DAYS: u64 = 36_500_000;

/// The days that one step of the interval reaches ahead at most.
pub open spec fn span_days(interval: clokwerk::Interval) -> nat {
    match interval {
        clokwerk::Interval::Seconds(n) => (n / 86_400 + 1) as nat,
        clokwerk::Interval::Minutes(n) => (n / 1_440 + 1) as nat,
        clokwerk::Interval::Hours(n) => (n / 24 + 1) as nat,
        clokwerk::Interval::Days(n) => n as nat,
        clokwerk::Interval::Weeks(n) => (7 * n) as nat,
        _ => 7,
    }
}

/// The scheduler counts minutes and hours in seconds, in 32 bits: the
/// interval is one whose seconds it can count.
pub open spec fn countable(interval: clokwerk::Interval) -> bool {
    match interval {
        clokwerk::Interval::Minutes(n) => n * 60 <= u32::MAX,
        clokwerk::Interval::Hours(n) => n * 3_600 <= u32::MAX,
        _ => true,
    }
}

/// The interval has a length: it is not a count of zero units.
pub open spec fn has_length(interval: clokwerk::Interval) -> bool {
    match interval {
        clokwerk::Interval::Seconds(n) => n != 0,
        clokwerk::Interval::Minutes(n) => n != 0,
        clokwerk::Interval::Hours(n) => n != 0,
        clokwerk::Interval::Days(n) => n != 0,
        clokwerk::Interval::Weeks(n) => n != 0,
        _ => true,
    }
}

/// The scheduler can count the interval, and one step of it stays within
/// reach.
pub open spec fn interval_in_reach(interval: clokwerk::Interval) -> bool {
    countable(interval) && span_days(interval) <= MAX_REACH_DAYS
}

/// The days that the offsets reach ahead, one after the other.
pub open spec fn offsets_span(offsets: Seq<clokwerk::Interval>) -> nat
    decreases offsets.len(),
{
    if offsets.len() == 0 {
        0
    } else {
        offsets_span(offsets.drop_last()) + span_days(offsets.last())
    }
}

impl Recurrence {
    /// The base and each offset are in reach, and so is the base with what
    /// refines it: with the day that a time of day may add, or with all the
    /// offsets together.
    pub open spec fn within_reach(self) -> bool {
        &&& interval_in_reach(self.base)
        &&& match self.refinement {
            Refinement::Unrefined => true,
            Refinement::AtTime(_) => span_days(self.base) + 1 <= MAX_REACH_DAYS,
            Refinement::Offsets(offsets) => {
                &&& forall|i: int|
                    0 <= i < offsets.len() ==> interval_in_reach(#[trigger] offsets[i])
                &&& span_days(self.base) + offsets_span(offsets) <= MAX_REACH_DAYS
            },
        }
    }
}

impl Repetition {
    /// The interval is in reach and has a length, so that repeating on it
    /// moves on.
    pub open spec fn within_reach(self) -> bool {
        interval_in_reach(self.interval) && has_length(self.interval)
    }
}

impl JobPlan {
    /// Every date that the scheduler computes for the job lies on its
    /// calendar: each recurrence is within reach, and so is the repetition.
    pub open spec fn within_reach(self) -> bool {
        &&& forall|i: int|
            0 <= i < self.recurrences.len() ==> (#[trigger] self.recurrences[i]).within_reach()
        &&& self.repetition matches Some(repetition) ==> repetition.within_reach()
    }
}

/// The days that one step of the interval reaches ahead at most.
pub fn reach_of(interval: clokwerk::Interval) -> (days: u64)
    ensures
        days == span_days(interval),
        days <= 7 * u32::MAX,
{
    match interval {
        clokwerk::Interval::Seconds(n) => (n / 86_400) as u64 + 1,
        clokwerk::Interval::Minutes(n) => (n / 1_440) as u64 + 1,
        clokwerk::Interval::Hours(n) => (n / 24) as u64 + 1,
        clokwerk::Interval::Days(n) => n as u64,
        clokwerk::Interval::Weeks(n) => 7 * (n as u64),
        _ => 7,
    }
}

/// Whether the scheduler can count the interval and one step of it stays
/// within reach.
pub fn is_in_reach(interval: clokwerk::Interval) -> (ok: bool)
    ensures
        ok == interval_in_reach(interval),
{
    let countable = match interval {
        clokwerk::Interval::Minutes(n) => n <= u32::MAX / 60,
        clokwerk::Interval::Hours(n) => n <= u32::MAX / 3_600,
        _ => true,
    };
    countable && reach_of(interval) <= MAX_REACH_DAYS
}

/// Whether the interval is not a count of zero units.
pub fn is_of_length(interval: clokwerk::Interval) -> (ok: bool)
    ensures
        ok == has_length(interval),
{
    match interval {
        clokwerk::Interval::Seconds(n) => n != 0,
        clokwerk::Interval::Minutes(n) => n != 0,
        clokwerk::Interval::Hours(n) => n != 0,
        clokwerk::Interval::Days(n) => n != 0,
        clokwerk::Interval::Weeks(n) => n != 0,
        _ => true,
    }
}

/// The plan that a schedule compiles to.
pub open spec fn compiled(schedule: ScheduleConfiguration) -> JobPlan {
    JobPlan::bare(schedule.base).adjusted_by(schedule.adjustments())
}

/// The cap of the last `Count` in the list, if it holds one.
pub open spec fn last_count(list: Seq<Adjustment>) -> Option<usize>
    decreases list.len(),
{
    if list.len() == 0 {
        None
    } else {
        match list.last() {
            Adjustment::Count(times) => Some(times),
            _ => last_count(list.drop_last()),
        }
    }
}

/// A schedule without refinements, whether its list is absent or empty,
/// compiles to the plan of its bare base interval.
pub proof fn lemma_unadjusted_schedule_is_bare(schedule: ScheduleConfiguration)
    requires
        schedule.adjustments().len() == 0,
    ensures
        compiled(schedule) == JobPlan::bare(schedule.base),
{
}

/// An absent list and an empty list of refinements compile to the same plan.
pub proof fn lemma_absent_list_is_empty_list(base: clokwerk::Interval, empty: Vec<Adjustment>)
    requires
        empty@.len() == 0,
    ensures
        compiled(ScheduleConfiguration { base, adjustment: None }) == compiled(
            ScheduleConfiguration { base, adjustment: Some(empty) },
        ),
{
}

/// Whatever else a list of refinements holds, the run limit that it leaves
/// is that of its last `Count`; without a `Count` the limit stays as it was.
pub proof fn lemma_limit_follows_last_count(plan: JobPlan, list: Seq<Adjustment>)
    ensures
        plan.adjusted_by(list).limit == (match last_count(list) {
            Some(times) => RunLimit::Times(times as nat),
            None => plan.limit,
        }),
    decreases list.len(),
{
    if list.len() > 0 {
        lemma_limit_follows_last_count(plan, list.drop_last());
    }
}

/// In a list that holds `Count(times)` and no other `Count`, the last
/// `Count` is that one, wherever it stands.
pub proof fn lemma_single_count_is_last_count(list: Seq<Adjustment>, times: usize)
    requires
        list.contains(Adjustment::Count(times)),
        forall|i: int|
            0 <= i < list.len() && (#[trigger] list[i]) is Count ==> list[i] == Adjustment::Count(
                times,
            ),
    ensures
        last_count(list) == Some(times),
    decreases list.len(),
{
    let front = list.drop_last();
    if !(list.last() is Count) {
        let at = choose|i: int| 0 <= i < list.len() && list[i] == Adjustment::Count(times);
        assert(front[at] == Adjustment::Count(times));
        assert forall|i: int| 0 <= i < front.len() && (#[trigger] front[i]) is Count implies front[i]
            == Adjustment::Count(times) by {
            assert(front[i] == list[i]);
        }
        lemma_single_count_is_last_count(front, times);
    }
}

/// Reordering the refinements of a schedule does not change how often its
/// job runs: where `Count(times)` is the only cap among them, every order
/// of them compiles to a job that may run `times` times.
pub proof fn lemma_count_outlives_reordering(
    base: clokwerk::Interval,
    list: Seq<Adjustment>,
    reordered: Seq<Adjustment>,
    times: usize,
)
    requires
        list.to_multiset() == reordered.to_multiset(),
        list.contains(Adjustment::Count(times)),
        forall|i: int|
            0 <= i < list.len() && (#[trigger] list[i]) is Count ==> list[i] == Adjustment::Count(
                times,
            ),
    ensures
        JobPlan::bare(base).adjusted_by(list).limit == RunLimit::Times(times as nat),
        JobPlan::bare(base).adjusted_by(reordered).limit == RunLimit::Times(times as nat),
{
    list.to_multiset_ensures();
    reordered.to_multiset_ensures();
    assert(list.to_multiset().count(Adjustment::Count(times)) > 0);
    assert(reordered.to_multiset().count(Adjustment::Count(times)) > 0);
    assert(reordered.contains(Adjustment::Count(times)));
    assert forall|i: int| 0 <= i < reordered.len() && (#[trigger] reordered[i]) is Count implies
        reordered[i] == Adjustment::Count(times) by {
        assert(reordered.contains(reordered[i]));
        assert(reordered.to_multiset().count(reordered[i]) > 0);
        assert(list.to_multiset().count(reordered[i]) > 0);
        assert(list.contains(reordered[i]));
        let at = choose|j: int| 0 <= j < list.len() && list[j] == reordered[i];
        assert(list[at] is Count);
    }
    lemma_single_count_is_last_count(list, times);
    lemma_single_count_is_last_count(reordered, times);
    lemma_limit_follows_last_count(JobPlan::bare(base), list);
    lemma_limit_follows_last_count(JobPlan::bare(base), reordered);
}

/// A job capped at `times` runs, `times` at least one, has runs left after
/// fewer than `times` runs and none from the `times`-th run on.
pub proof fn lemma_count_halts_after_its_runs(times: nat, runs: nat)
    requires
        times >= 1,
    ensures
        runs < times ==> RunLimit::Times(times).after_runs(runs) == RunLimit::Times(
            (times - runs) as nat,
        ),
        runs >= times ==> RunLimit::Times(times).after_runs(runs) == RunLimit::Exhausted,
    decreases runs,
{
    if runs > 0 {
        if times > 1 {
            lemma_count_halts_after_its_runs((times - 1) as nat, (runs - 1) as nat);
        } else {
            lemma_exhausted_stays_exhausted((runs - 1) as nat);
        }
    }
}

/// A job that has no runs left never gets one back.
pub proof fn lemma_exhausted_stays_exhausted(runs: nat)
    ensures
        RunLimit::Exhausted.after_runs(runs) == RunLimit::Exhausted,
    decreases runs,
{
    if runs > 0 {
        lemma_exhausted_stays_exhausted((runs - 1) as nat);
    }
}

} // verus!
