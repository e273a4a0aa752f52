//! The worker: the owner of one scheduler's life.
//!
//! A worker is idle or running. [`Worker::try_schedule`] cancels the tick
//! loop that runs, builds a fresh scheduler and hands out the tick loop that
//! is to run from then on; [`Worker::stop`] cancels the one that runs.
//! Waiting and spawning are the caller's: it spawns what `try_schedule`
//! returns, waits for the loop's time or its cancellation, and tells the
//! loop which of the two came ([`TickLoop::on_wake`]).
use crate::cancel::{
    after_cancel, descends, follows_parent, lemma_all_descend_from_root,
    lemma_cancel_spares_siblings, same_token, well_formed,
    with_child, CancelTree, ScopeId, ScopeState,
};
use crate::error::Error;
use crate::schedule::JobPlan;
use crate::scheduler::{advanced, scheduled, zone, Scheduler};
use vstd::prelude::*;

verus! {

/// The seconds between two passes over the jobs, where nothing else is
/// asked for.
pub const DEFAULT_TICK_SECONDS: u64 = 1;

/// Whether a worker has a tick loop at work.
#[derive(Clone, Copy, PartialEq, Eq, Structural, Debug)]
pub enum WorkerState {
    Idle,
    Running,
}

/// What woke a tick loop.
#[derive(Clone, Copy, PartialEq, Eq, Structural, Debug)]
pub enum Wake {
    /// The scope of the loop was cancelled.
    Cancelled,
    /// The time between two passes has gone by.
    CadenceElapsed,
}

/// What a tick loop does after it was woken.
#[derive(Clone, Copy, PartialEq, Eq, Structural, Debug)]
pub enum TickAction {
    /// End the task.
    Stop,
    /// Wait again.
    Wait,
}

/// A change of the entity store under the watched prefix.
#[derive(Clone, PartialEq, Eq, Debug)]
pub enum ChangeEvent {
    Insert { key: Vec<u8> },
    Remove { key: Vec<u8> },
}

/// The model of a worker.
pub struct WorkerView {
    /// The scope of which every tick loop of the worker is a child.
    pub root: int,
    /// The scope of the tick loop that is at work, if one is.
    pub active: Option<int>,
    /// How often the worker has been asked to rebuild.
    pub attempts: nat,
}

impl WorkerView {
    pub open spec fn state(self) -> WorkerState {
        if self.active is Some {
            WorkerState::Running
        } else {
            WorkerState::Idle
        }
    }
}

/// The root of the worker is a scope of the tree, and the scope of its tick
/// loop, if it has one, is a child of that root.
pub open spec fn bound(worker: WorkerView, scopes: Seq<ScopeState>) -> bool {
    &&& 0 <= worker.root < scopes.len()
    &&& worker.active matches Some(child) ==> 0 <= child < scopes.len() && scopes[child].parent
        == Some(worker.root)
}

/// A worker and the tree after the worker was stopped: its tick loop's scope
/// is cancelled and given up; an idle worker and its tree are left as they
/// are.
pub open spec fn after_stop(worker: WorkerView, scopes: Seq<ScopeState>) -> (
    WorkerView,
    Seq<ScopeState>,
) {
    match worker.active {
        Some(child) => (WorkerView { active: None, ..worker }, after_cancel(scopes, child)),
        None => (worker, scopes),
    }
}

/// A worker and the tree after one rebuild. The worker is stopped first.
/// Where the builder succeeded, a fresh child of the worker's root is
/// derived and becomes the scope of the new tick loop; where it failed, the
/// worker stays idle.
pub open spec fn after_rebuild(worker: WorkerView, scopes: Seq<ScopeState>, built: bool) -> (
    WorkerView,
    Seq<ScopeState>,
) {
    let (idle, cleared) = after_stop(worker, scopes);
    if built {
        (
            WorkerView {
                active: Some(cleared.len() as int),
                attempts: worker.attempts + 1,
                ..idle
            },
            with_child(cleared, worker.root),
        )
    } else {
        (WorkerView { attempts: worker.attempts + 1, ..idle }, cleared)
    }
}

/// One generation of a worker's jobs, with the scope that ends it.
pub struct TickLoop {
    scheduler: Scheduler,
    scope: ScopeId,
    token: tokio_util::sync::CancellationToken,
    cadence_seconds: u64,
    stopped: bool,
}

/// What the builder returned, as a rebuild tells it.
pub open spec fn outcome_of(made: Result<TickLoop, Error>) -> Result<(), Error> {
    match made {
        Ok(_) => Ok(()),
        Err(e) => Err(e),
    }
}

impl TickLoop {
    /// The plans of the jobs of this generation.
    pub closed spec fn jobs(&self) -> Seq<JobPlan> {
        scheduled(self.scheduler)
    }

    pub closed spec fn spec_scope(&self) -> ScopeId {
        self.scope
    }

    pub closed spec fn spec_cadence_seconds(&self) -> u64 {
        self.cadence_seconds
    }

    pub closed spec fn spec_is_stopped(&self) -> bool {
        self.stopped
    }

    /// The token of the loop's scope.
    pub closed spec fn spec_token(&self) -> tokio_util::sync::CancellationToken {
        self.token
    }

    /// The time zone in which the jobs of this generation read the clock.
    pub closed spec fn timezone(&self) -> chrono::FixedOffset {
        zone(self.scheduler)
    }

    /// The scope whose cancellation ends the loop.
    #[verifier::when_used_as_spec(spec_scope)]
    pub fn scope(&self) -> (scope: ScopeId)
        ensures
            scope == self.spec_scope(),
    {
        self.scope
    }

    /// The seconds to wait between two passes.
    #[verifier::when_used_as_spec(spec_cadence_seconds)]
    pub fn cadence_seconds(&self) -> (seconds: u64)
        ensures
            seconds == self.spec_cadence_seconds(),
    {
        self.cadence_seconds
    }

    /// Whether the loop has seen its cancellation.
    #[verifier::when_used_as_spec(spec_is_stopped)]
    pub fn is_stopped(&self) -> (stopped: bool)
        ensures
            stopped == self.spec_is_stopped(),
    {
        self.stopped
    }

    /// The token to wait on for the cancellation of the loop's scope: the
    /// one that the tree kept beside that scope when the loop was made.
    pub fn token(&self) -> (token: tokio_util::sync::CancellationToken)
        ensures
            token == self.spec_token(),
    {
        same_token(&self.token)
    }

    /// The one decision of the loop. Woken by its cancellation, woken while
    /// its scope is cancelled in `scopes`, or woken at all after that, it
    /// stops and leaves its jobs alone. Woken by the clock otherwise, it
    /// makes one pass over its jobs, starting those that are due on
    /// `executor`, and waits again.
    pub fn on_wake(
        &mut self,
        wake: Wake,
        scopes: &CancelTree,
        executor: &tokio::runtime::Handle,
    ) -> (action: TickAction)
        requires
            scopes.wf(),
            scopes.contains(old(self).scope()),
        ensures
            final(self).scope() == old(self).scope(),
            final(self).cadence_seconds() == old(self).cadence_seconds(),
            final(self).spec_token() == old(self).spec_token(),
            final(self).timezone() == old(self).timezone(),
            halts(old(self).is_stopped(), wake, scopes@[old(self).scope().index as int].cancelled)
                ==> action == TickAction::Stop && final(self).is_stopped() && final(self).jobs()
                == old(self).jobs(),
            !halts(old(self).is_stopped(), wake, scopes@[old(self).scope().index as int].cancelled)
                ==> action == TickAction::Wait && !final(self).is_stopped() && advanced(
                old(self).jobs(),
                final(self).jobs(),
            ),
    {
        if self.stopped {
            TickAction::Stop
        } else if scopes.is_cancelled(self.scope) {
            self.stopped = true;
            TickAction::Stop
        } else {
            match wake {
                Wake::Cancelled => {
                    self.stopped = true;
                    TickAction::Stop
                },
                Wake::CadenceElapsed => {
                    self.scheduler.advance(executor);
                    TickAction::Wait
                },
            }
        }
    }
}

/// A tick loop ends, and makes no more pass, once it has been stopped, when
/// it is woken by its cancellation, and when its scope is cancelled.
pub open spec fn halts(stopped: bool, wake: Wake, cancelled: bool) -> bool {
    stopped || wake == Wake::Cancelled || cancelled
}

/// The owner of one scheduler's life. `Source` is the builder: it registers
/// the jobs of a generation on the fresh scheduler it is given, or fails.
pub struct Worker<Source> where Source: Fn(&mut Scheduler) -> Result<(), Error> {
    source: Source,
    cancel_token_root: ScopeId,
    timezone: chrono::FixedOffset,
    current_token: Option<ScopeId>,
    cadence_seconds: u64,
    attempts: Ghost<nat>,
}

impl<Source> View for Worker<Source> where Source: Fn(&mut Scheduler) -> Result<(), Error> {
    type V = WorkerView;

    closed spec fn view(&self) -> WorkerView {
        WorkerView {
            root: self.cancel_token_root.index as int,
            active: match self.current_token {
                Some(child) => Some(child.index as int),
                None => None,
            },
            attempts: self.attempts@,
        }
    }
}

impl<Source> Worker<Source> where Source: Fn(&mut Scheduler) -> Result<(), Error> {
    /// The builder may be called on any scheduler.
    pub closed spec fn wf(&self) -> bool {
        forall|scheduler: &mut Scheduler| call_requires(self.source, (scheduler,))
    }

    /// The scopes of the worker are scopes of `scopes`.
    pub open spec fn bound_to(&self, scopes: &CancelTree) -> bool {
        bound(self@, scopes@)
    }

    /// The builder.
    pub closed spec fn spec_source(&self) -> Source {
        self.source
    }

    pub closed spec fn spec_cadence_seconds(&self) -> u64 {
        self.cadence_seconds
    }

    pub closed spec fn spec_timezone(&self) -> chrono::FixedOffset {
        self.timezone
    }

    /// A worker that is idle. Its tick loops will be children of
    /// `cancel_token_root`, and its schedulers will read time in `tz`.
    pub fn new(source: Source, cancel_token_root: ScopeId, tz: chrono::FixedOffset) -> (worker:
        Self)
        requires
            forall|scheduler: &mut Scheduler| call_requires(source, (scheduler,)),
        ensures
            worker.wf(),
            worker@ == (WorkerView { root: cancel_token_root.index as int, active: None, attempts: 0 }),
            worker.spec_source() == source,
            worker.spec_cadence_seconds() == DEFAULT_TICK_SECONDS,
            worker.spec_timezone() == tz,
    {
        Worker {
            source,
            cancel_token_root,
            timezone: tz,
            current_token: None,
            cadence_seconds: DEFAULT_TICK_SECONDS,
            attempts: Ghost(0),
        }
    }

    /// The same worker with another time between two passes of the tick
    /// loops that it hands out from now on.
    pub fn with_cadence(self, seconds: u64) -> (worker: Self)
        requires
            self.wf(),
        ensures
            worker.wf(),
            worker@ == self@,
            worker.spec_source() == self.spec_source(),
            worker.spec_cadence_seconds() == seconds,
            worker.spec_timezone() == self.spec_timezone(),
    {
        Worker {
            source: self.source,
            cancel_token_root: self.cancel_token_root,
            timezone: self.timezone,
            current_token: self.current_token,
            cadence_seconds: seconds,
            attempts: self.attempts,
        }
    }

    /// Whether a tick loop of this worker is at work.
    pub fn state(&self) -> (state: WorkerState)
        ensures
            state == self@.state(),
    {
        match self.current_token {
            Some(_) => WorkerState::Running,
            None => WorkerState::Idle,
        }
    }

    /// The scope of which the worker's tick loops are children.
    pub fn root_scope(&self) -> (scope: ScopeId)
        ensures
            scope.index as int == self@.root,
    {
        self.cancel_token_root
    }

    /// The scope of the tick loop that is at work, if one is.
    pub fn active_scope(&self) -> (scope: Option<ScopeId>)
        ensures
            scope is Some == self@.active is Some,
            scope matches Some(child) ==> self@.active == Some(child.index as int),
    {
        self.current_token
    }

    /// Cancels the tick loop that is at work. Where none is, nothing
    /// happens.
    pub fn stop(&mut self, scopes: &mut CancelTree)
        requires
            old(self).wf(),
            old(scopes).wf(),
            old(self).bound_to(old(scopes)),
        ensures
            final(self).wf(),
            final(scopes).wf(),
            final(self).bound_to(final(scopes)),
            (final(self)@, final(scopes)@) == after_stop(old(self)@, old(scopes)@),
            final(self).spec_source() == old(self).spec_source(),
            final(self).spec_cadence_seconds() == old(self).spec_cadence_seconds(),
            final(self).spec_timezone() == old(self).spec_timezone(),
            old(self)@.active is None ==> *final(self) == *old(self) && *final(scopes) == *old(
                scopes,
            ),
    {
        match self.current_token {
            Some(child) => {
                scopes.cancel(child);
                self.current_token = None;
            },
            None => {},
        }
    }

    /// Ends a rebuild, of which `built` is what the builder returned for
    /// `scheduler`. The worker is stopped if it was not. Where the builder
    /// failed, its error is handed on and the worker stays idle. Where it
    /// succeeded, the worker runs: a fresh child of its root is the scope of
    /// the tick loop that is returned for the caller to spawn.
    pub fn install(
        &mut self,
        scopes: &mut CancelTree,
        scheduler: Scheduler,
        built: Result<(), Error>,
    ) -> (made: Result<TickLoop, Error>)
        requires
            old(self).wf(),
            old(scopes).wf(),
            old(self).bound_to(old(scopes)),
        ensures
            final(self).wf(),
            final(scopes).wf(),
            final(self).bound_to(final(scopes)),
            (final(self)@, final(scopes)@) == after_rebuild(
                old(self)@,
                old(scopes)@,
                built is Ok,
            ),
            final(self).spec_source() == old(self).spec_source(),
            final(self).spec_cadence_seconds() == old(self).spec_cadence_seconds(),
            final(self).spec_timezone() == old(self).spec_timezone(),
            made is Ok <==> built is Ok,
            made matches Err(e) ==> built == Err::<(), Error>(e),
            made matches Ok(tick) ==> final(self)@.active == Some(tick.scope().index as int)
                && !tick.is_stopped() && tick.jobs() == scheduled(scheduler)
                && tick.cadence_seconds() == old(self).spec_cadence_seconds()
                && tick.spec_token() == final(scopes).spec_token(tick.scope())
                && tick.timezone() == zone(scheduler) && final(scopes).contains(tick.scope()),
    {
        self.stop(scopes);
        proof {
            self.attempts@ = self.attempts@ + 1;
        }
        match built {
            Err(e) => Err(e),
            Ok(()) => {
                let child = scopes.child(self.cancel_token_root);
                self.current_token = Some(child);
                Ok(
                    TickLoop {
                        scheduler,
                        scope: child,
                        token: scopes.token(child),
                        cadence_seconds: self.cadence_seconds,
                        stopped: false,
                    },
                )
            },
        }
    }

    /// Cancels the tick loop that is at work, builds a fresh scheduler and,
    /// where the builder succeeds, returns the tick loop that is to run from
    /// now on, for the caller to spawn. Where the builder fails, its error
    /// is returned and the worker is left idle.
    ///
    /// The builder is called once, on a scheduler without jobs that reads
    /// time in the worker's time zone; what is returned is its error, or a
    /// tick loop over the jobs that it left.
    pub fn try_schedule(&mut self, scopes: &mut CancelTree) -> (made: Result<TickLoop, Error>)
        requires
            old(self).wf(),
            old(scopes).wf(),
            old(self).bound_to(old(scopes)),
        ensures
            final(self).wf(),
            final(scopes).wf(),
            final(self).bound_to(final(scopes)),
            (final(self)@, final(scopes)@) == after_rebuild(
                old(self)@,
                old(scopes)@,
                made is Ok,
            ),
            final(self).spec_source() == old(self).spec_source(),
            final(self).spec_cadence_seconds() == old(self).spec_cadence_seconds(),
            final(self).spec_timezone() == old(self).spec_timezone(),
            made matches Ok(tick) ==> final(self)@.active == Some(tick.scope().index as int)
                && !tick.is_stopped() && tick.cadence_seconds() == old(
                self,
            ).spec_cadence_seconds() && tick.spec_token() == final(scopes).spec_token(
                tick.scope(),
            ) && final(scopes).contains(tick.scope()),
            exists|scheduler: &mut Scheduler|
                {
                    &&& scheduled(*scheduler) == Seq::<JobPlan>::empty()
                    &&& zone(*scheduler) == old(self).spec_timezone()
                    &&& #[trigger] call_ensures(
                        old(self).spec_source(),
                        (scheduler,),
                        outcome_of(made),
                    )
                    &&& made matches Ok(tick) ==> tick.jobs() == scheduled(*final(scheduler))
                        && tick.timezone() == zone(*final(scheduler))
                },
    {
        self.stop(scopes);
        let mut scheduler = Scheduler::with_tz(self.timezone);
        let source = &self.source;
        let built = source(&mut scheduler);
        let ghost outcome = built;
        let made = self.install(scopes, scheduler, built);
        proof {
            if made is Ok {
                assert(outcome is Ok);
                assert(outcome->Ok_0 == ());
                assert(outcome == Ok::<(), Error>(()));
            } else {
                assert(outcome == Err::<(), Error>(made->Err_0));
            }
            assert(outcome_of(made) == outcome);
        }
        made
    }

    /// What a change of the entity store asks of the worker: one rebuild,
    /// whatever changed and however.
    pub fn on_change(&mut self, scopes: &mut CancelTree, event: &ChangeEvent) -> (made: Result<
        TickLoop,
        Error,
    >)
        requires
            old(self).wf(),
            old(scopes).wf(),
            old(self).bound_to(old(scopes)),
        ensures
            final(self).wf(),
            final(scopes).wf(),
            final(self).bound_to(final(scopes)),
            (final(self)@, final(scopes)@) == after_rebuild(
                old(self)@,
                old(scopes)@,
                made is Ok,
            ),
            final(self)@.attempts == old(self)@.attempts + 1,
            final(self).spec_source() == old(self).spec_source(),
            final(self).spec_cadence_seconds() == old(self).spec_cadence_seconds(),
            final(self).spec_timezone() == old(self).spec_timezone(),
            made matches Ok(tick) ==> final(self)@.active == Some(tick.scope().index as int)
                && !tick.is_stopped() && tick.cadence_seconds() == old(
                self,
            ).spec_cadence_seconds() && tick.spec_token() == final(scopes).spec_token(
                tick.scope(),
            ) && final(scopes).contains(tick.scope()),
            exists|scheduler: &mut Scheduler|
                {
                    &&& scheduled(*scheduler) == Seq::<JobPlan>::empty()
                    &&& zone(*scheduler) == old(self).spec_timezone()
                    &&& #[trigger] call_ensures(
                        old(self).spec_source(),
                        (scheduler,),
                        outcome_of(made),
                    )
                    &&& made matches Ok(tick) ==> tick.jobs() == scheduled(*final(scheduler))
                        && tick.timezone() == zone(*final(scheduler))
                },
    {
        self.try_schedule(scopes)
    }
}

/// Stopping a worker that has no tick loop changes neither the worker nor
/// the tree.
pub proof fn lemma_stop_of_idle_worker_is_noop(worker: WorkerView, scopes: Seq<ScopeState>)
    requires
        worker.active is None,
    ensures
        after_stop(worker, scopes) == (worker, scopes),
{
}

/// Stopping twice is stopping once.
pub proof fn lemma_stop_is_idempotent(worker: WorkerView, scopes: Seq<ScopeState>)
    ensures
        ({
            let (idle, cleared) = after_stop(worker, scopes);
            after_stop(idle, cleared) == (idle, cleared)
        }),
{
}

/// After two rebuilds in a row that both succeed, the worker runs the
/// second tick loop and no other: the scope of the first is cancelled, and
/// the scope of the second is a different one, cancelled only if the
/// worker's root is.
pub proof fn lemma_rebuild_twice_leaves_one_loop(worker: WorkerView, scopes: Seq<ScopeState>)
    requires
        well_formed(scopes),
        bound(worker, scopes),
    ensures
        ({
            let (first_worker, first_scopes) = after_rebuild(worker, scopes, true);
            let (second_worker, second_scopes) = after_rebuild(first_worker, first_scopes, true);
            &&& first_worker.active matches Some(first)
            &&& second_worker.active matches Some(second)
            &&& second_worker.state() == WorkerState::Running
            &&& first != second
            &&& 0 <= first < second < second_scopes.len()
            &&& second_scopes[first].cancelled
            &&& second_scopes[second].cancelled == second_scopes[worker.root].cancelled
            &&& second_worker.attempts == worker.attempts + 2
        }),
{
    let (first_worker, first_scopes) = after_rebuild(worker, scopes, true);
    let first = first_worker.active->0;
    assert(descends(first_scopes, first, first));
}

/// A rebuild whose builder fails leaves the worker idle, with the scope of
/// the tick loop that ran before cancelled.
pub proof fn lemma_failed_rebuild_leaves_idle(worker: WorkerView, scopes: Seq<ScopeState>)
    requires
        bound(worker, scopes),
    ensures
        ({
            let (failed_worker, failed_scopes) = after_rebuild(worker, scopes, false);
            &&& failed_worker.state() == WorkerState::Idle
            &&& failed_scopes.len() == scopes.len()
            &&& worker.active matches Some(before) ==> failed_scopes[before].cancelled
        }),
{
}

/// Cancelling the root of a worker cancels the scope of its tick loop, and
/// so does cancelling the root of the tree.
pub proof fn lemma_root_cancel_stops_the_loop(worker: WorkerView, scopes: Seq<ScopeState>)
    requires
        well_formed(scopes),
        bound(worker, scopes),
    ensures
        worker.active matches Some(child) ==> after_cancel(scopes, worker.root)[child].cancelled
            && after_cancel(scopes, 0)[child].cancelled,
{
    if let Some(child) = worker.active {
        assert(child != 0);
        assert(follows_parent(scopes, child));
        assert(descends(scopes, worker.root, worker.root));
        assert(descends(scopes, child, worker.root));
        lemma_all_descend_from_root(scopes, child);
    }
}

/// Once the root of a worker, or the root of the tree, is cancelled, the
/// worker's tick loop halts on whatever wakes it.
pub proof fn lemma_root_cancel_halts_the_loop(
    worker: WorkerView,
    scopes: Seq<ScopeState>,
    stopped: bool,
    wake: Wake,
)
    requires
        well_formed(scopes),
        bound(worker, scopes),
        worker.active is Some,
    ensures
        halts(stopped, wake, after_cancel(scopes, worker.root)[worker.active->0].cancelled),
        halts(stopped, wake, after_cancel(scopes, 0)[worker.active->0].cancelled),
{
    lemma_root_cancel_stops_the_loop(worker, scopes);
}

/// Cancelling the tick loop of one worker leaves the tick loop of another
/// worker of the same root as it was.
pub proof fn lemma_stop_spares_other_workers(
    worker: WorkerView,
    other: WorkerView,
    scopes: Seq<ScopeState>,
)
    requires
        well_formed(scopes),
        bound(worker, scopes),
        bound(other, scopes),
        worker.active is Some,
        other.active is Some,
        worker.active != other.active,
        worker.root == other.root,
    ensures
        after_stop(worker, scopes).1[other.active->0] == scopes[other.active->0],
{
    let one = worker.active->0;
    let two = other.active->0;
    assert(one != 0 && two != 0) by {
        assert(scopes[0].parent is None);
    }
    lemma_cancel_spares_siblings(scopes, one, two);
}

} // verus!
