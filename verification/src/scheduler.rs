//! The recurring scheduler, and the compiler that registers schedules on it.
//!
//! The scheduler itself is `clokwerk`'s. What this module states of it is
//! written over [`scheduled`] and [`job_plan`], the plans of the jobs it
//! holds, and [`zone`], the time zone it reads the clock in; the calls into
//! it are the private functions at the end of the file, whose contracts are
//! taken on trust. Every call that shapes a job asks that the job's plan
//! stays within reach, which is what keeps the scheduler's date arithmetic
//! on its calendar.
use crate::error::Error;
use crate::schedule::{compiled, Adjustment, JobPlan, ScheduleConfiguration};
use clokwerk::Job;
use vstd::prelude::*;

verus! {

/// A fixed offset from UTC: `chrono::FixedOffset`, carried through unread.
#[verifier::external_type_specification]
#[verifier::external_body]
pub struct ExUtcOffset(chrono::FixedOffset);

/// A handle to a running executor: `tokio::runtime::Handle`, carried through
/// unread.
#[verifier::external_type_specification]
#[verifier::external_body]
pub struct ExExecutor(tokio::runtime::Handle);

/// The jobs of one generation of a worker, in the order of their
/// registration. It holds a `clokwerk::AsyncScheduler`, whose type Verus
/// cannot be told of.
#[verifier::external_body]
pub struct Scheduler {
    inner: clokwerk::AsyncScheduler<chrono::FixedOffset>,
}

/// The job that was registered last, borrowed from its scheduler for as long
/// as it is being shaped. It holds a `&mut clokwerk::AsyncJob`.
#[verifier::external_body]
pub struct JobHandle<'a> {
    inner: &'a mut clokwerk::AsyncJob<chrono::FixedOffset>,
}

/// The plans of the jobs that a scheduler holds, oldest first.
pub uninterp spec fn scheduled(scheduler: Scheduler) -> Seq<JobPlan>;

/// The time zone in which a scheduler reads dates and times.
pub uninterp spec fn zone(scheduler: Scheduler) -> chrono::FixedOffset;

/// The plan of the job behind a handle.
pub uninterp spec fn job_plan(job: JobHandle<'_>) -> JobPlan;

/// What one pass over the jobs may do to their plans: each job is either
/// left as it was or has run once, and a job without an action is left as
/// it was.
pub open spec fn advanced(before: Seq<JobPlan>, after: Seq<JobPlan>) -> bool {
    &&& after.len() == before.len()
    &&& forall|i: int|
        0 <= i < before.len() ==> (#[trigger] after[i]) == before[i] || (before[i].has_action
            && after[i] == before[i].after_run())
}

/// A pass over the jobs changes no job's cadences, repetition or action,
/// and wakes no job that has no runs left.
pub proof fn lemma_advance_keeps_the_schedules(before: Seq<JobPlan>, after: Seq<JobPlan>, i: int)
    requires
        advanced(before, after),
        0 <= i < before.len(),
    ensures
        after[i].recurrences == before[i].recurrences,
        after[i].repetition == before[i].repetition,
        after[i].has_action == before[i].has_action,
        before[i].limit is Exhausted ==> after[i].limit is Exhausted,
        before[i].limit is Forever ==> after[i].limit is Forever,
        !before[i].has_action ==> after[i] == before[i],
{
    assert(after[i] == before[i] || (before[i].has_action && after[i]
        == before[i].after_run()));
}

impl Scheduler {
    /// A scheduler without jobs, which reads dates and times in `timezone`.
    pub fn with_tz(timezone: chrono::FixedOffset) -> (scheduler: Scheduler)
        ensures
            scheduled(scheduler) == Seq::<JobPlan>::empty(),
            zone(scheduler) == timezone,
    {
        empty_scheduler(timezone)
    }

    /// One pass over the jobs: each job that is due is started on
    /// `executor`, without waiting for it to end, and has then run once;
    /// the others are left as they were. Which jobs are due is for the
    /// clock to say, read in the scheduler's time zone.
    pub fn advance(&mut self, executor: &tokio::runtime::Handle)
        ensures
            advanced(scheduled(*old(self)), scheduled(*final(self))),
            zone(*final(self)) == zone(*old(self)),
    {
        fire_pending(self, executor)
    }
}

impl<'a> JobHandle<'a> {
    /// Attaches the action that the job is to run each time it fires, and
    /// starts its schedule. From then on the job has an action; its
    /// cadences, its run limit and its repetition stay as they are.
    pub fn run<F, T>(&mut self, action: F) where
        F: 'static + FnMut() -> T + Send,
        T: 'static + core::future::Future<Output = ()> + Send,

        ensures
            job_plan(*final(self)) == job_plan(*old(self)).with_action(),
    {
        start(self, action)
    }

    /// Applies the refinements of a valid schedule to a job that fires on
    /// the schedule's bare base, in order.
    fn refine(&mut self, c: &ScheduleConfiguration)
        requires
            c.valid(),
            job_plan(*old(self)) == JobPlan::bare(c.base),
        ensures
            job_plan(*final(self)) == compiled(*c),
    {
        proof {
            assert(c.adjustments().take(0) =~= Seq::<Adjustment>::empty());
        }
        match &c.adjustment {
            None => {},
            Some(list) => {
                let mut i: usize = 0;
                while i < list.len()
                    invariant
                        i <= list.len(),
                        c.valid(),
                        list@ == c.adjustments(),
                        job_plan(*self) == c.plan_before(i as int),
                    decreases list.len() - i,
                {
                    proof {
                        assert(list@.take(i + 1).drop_last() =~= list@.take(i as int));
                        assert(c.fault_at(i as int) is None);
                    }
                    match &list[i] {
                        Adjustment::At(time) => at_time(self, *time),
                        Adjustment::Plus(offset) => plus(self, *offset),
                        Adjustment::AndEvery(base) => and_every(self, *base),
                        Adjustment::Count(times) => count(self, *times),
                        Adjustment::RepeatingEvery(interval, times) => repeating(
                            self,
                            *interval,
                            *times,
                        ),
                    }
                    i += 1;
                }
                proof {
                    assert(list@.take(list.len() as int) =~= list@);
                }
            },
        }
    }
}

/// Compiling a schedule into a job of a scheduler.
pub trait ConfigSchedulerExt {
    /// Registers the job that `c` describes, behind the jobs there are, and
    /// attaches `action` to it; a schedule that is not valid registers
    /// nothing.
    fn new_job_from_config<F, T>(&mut self, c: &ScheduleConfiguration, action: F) -> Result<
        (),
        Error,
    > where F: 'static + FnMut() -> T + Send, T: 'static + core::future::Future<Output = ()> + Send;
}

impl ConfigSchedulerExt for Scheduler {
    fn new_job_from_config<F, T>(&mut self, c: &ScheduleConfiguration, action: F) -> (made: Result<
        (),
        Error,
    >) where F: 'static + FnMut() -> T + Send, T: 'static + core::future::Future<Output = ()> + Send

        ensures
            made is Ok <==> c.valid(),
            made is Ok ==> scheduled(*final(self)) == scheduled(*old(self)).push(
                compiled(*c).with_action(),
            ),
            made matches Err(e) ==> c.refused_with(e) && *final(self) == *old(self),
            zone(*final(self)) == zone(*old(self)),
    {
        match c.validate() {
            Err(e) => Err(e),
            Ok(()) => {
                let build = move |job: &mut JobHandle<'_>|
                    requires
                        job_plan(*old(job)) == JobPlan::bare(c.base),
                    ensures
                        job_plan(*final(job)) == compiled(*c).with_action(),
                    {
                        job.refine(c);
                        job.run(action);
                    };
                every(self, c.base, build);
                Ok(())
            },
        }
    }
}

/// `AsyncScheduler::every`, and one call of `build` on the job that it
/// returns. `every` pushes a job that fires on `base`, unrefined, without
/// end and without an action, behind the jobs there are, and hands it out
/// borrowed; `build` shapes it while it is borrowed, so that the last job of
/// the scheduler is the job as `build` leaves it. The time zone is not
/// touched.
#[verifier::external_body]
fn every<B>(scheduler: &mut Scheduler, base: clokwerk::Interval, build: B) where
    B: FnOnce(&mut JobHandle<'_>),

    requires
        JobPlan::bare(base).within_reach(),
        forall|job: &mut JobHandle<'_>|
            job_plan(*job) == JobPlan::bare(base) ==> call_requires(build, (job,)),
    ensures
        scheduled(*final(scheduler)).len() == scheduled(*old(scheduler)).len() + 1,
        scheduled(*final(scheduler)).drop_last() == scheduled(*old(scheduler)),
        forall|plan: JobPlan|
            (forall|job: &mut JobHandle<'_>|
                job_plan(*job) == JobPlan::bare(base) && #[trigger] call_ensures(build, (job,), ())
                    ==> job_plan(*final(job)) == plan) ==> scheduled(*final(scheduler))
                == #[trigger] scheduled(*old(scheduler)).push(plan),
        zone(*final(scheduler)) == zone(*old(scheduler)),
{
    let mut job = JobHandle { inner: scheduler.inner.every(base) };
    build(&mut job);
}

/// `Job::at_time`: replaces the refinement of the job's last recurrence by
/// the time of day.
#[verifier::external_body]
fn at_time(job: &mut JobHandle<'_>, time: chrono::NaiveTime)
    requires
        job_plan(*old(job)).at_time(time).within_reach(),
    ensures
        job_plan(*final(job)) == job_plan(*old(job)).at_time(time),
{
    job.inner.at_time(time);
}

/// `Job::plus`: appends the offset to the offsets of the job's last
/// recurrence, or starts them with it where it had none.
#[verifier::external_body]
fn plus(job: &mut JobHandle<'_>, offset: clokwerk::Interval)
    requires
        job_plan(*old(job)).plus(offset).within_reach(),
    ensures
        job_plan(*final(job)) == job_plan(*old(job)).plus(offset),
{
    job.inner.plus(offset);
}

/// `Job::and_every`: pushes one more recurrence, unrefined.
#[verifier::external_body]
fn and_every(job: &mut JobHandle<'_>, base: clokwerk::Interval)
    requires
        job_plan(*old(job)).and_every(base).within_reach(),
    ensures
        job_plan(*final(job)) == job_plan(*old(job)).and_every(base),
{
    job.inner.and_every(base);
}

/// `Job::count`: sets the number of runs that the job has left.
#[verifier::external_body]
fn count(job: &mut JobHandle<'_>, times: usize)
    ensures
        job_plan(*final(job)) == job_plan(*old(job)).count(times as nat),
{
    job.inner.count(times);
}

/// `Job::repeating_every` and, on what it returns, `Repeating::times`: sets
/// what the job repeats after each run, and with zero times sets nothing.
#[verifier::external_body]
fn repeating(job: &mut JobHandle<'_>, interval: clokwerk::Interval, times: usize)
    requires
        job_plan(*old(job)).repeating(interval, times as nat).within_reach(),
    ensures
        job_plan(*final(job)) == job_plan(*old(job)).repeating(interval, times as nat),
{
    job.inner.repeating_every(interval).times(times);
}

/// `AsyncScheduler::with_tz`: a scheduler that holds no job and reads time
/// in `timezone`.
#[verifier::external_body]
fn empty_scheduler(timezone: chrono::FixedOffset) -> (scheduler: Scheduler)
    ensures
        scheduled(scheduler) == Seq::<JobPlan>::empty(),
        zone(scheduler) == timezone,
{
    Scheduler { inner: clokwerk::AsyncScheduler::with_tz(timezone) }
}

/// `AsyncJob::run`: stores the action, so that the job has one, and computes
/// the first time to fire; the recurrences, the run limit and the repetition
/// are not touched. The dates that it computes lie on the calendar, because
/// the calls that shape a job keep its plan within reach and the clock is
/// taken to stand within a hundred thousand years of today.
#[verifier::external_body]
fn start<F, T>(job: &mut JobHandle<'_>, action: F) where
    F: 'static + FnMut() -> T + Send,
    T: 'static + core::future::Future<Output = ()> + Send,

    ensures
        job_plan(*final(job)) == job_plan(*old(job)).with_action(),
{
    job.inner.run(action);
}

/// `AsyncScheduler::run_pending`, whose future goes to `Handle::spawn`: no
/// job is added or removed, and a job that was due has run once, which
/// costs it one of the runs it had left. A job is due only after
/// `AsyncJob::run` has given it a time to fire, so that a job without an
/// action is not touched. The call returns, because the calls that shape a
/// job keep its plan within reach: its dates lie on the calendar, and what
/// it repeats on has a length.
#[verifier::external_body]
fn fire_pending(scheduler: &mut Scheduler, executor: &tokio::runtime::Handle)
    ensures
        advanced(scheduled(*old(scheduler)), scheduled(*final(scheduler))),
        zone(*final(scheduler)) == zone(*old(scheduler)),
{
    executor.spawn(scheduler.inner.run_pending());
}

} // verus!
