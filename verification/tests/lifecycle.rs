use std::sync::atomic::{AtomicUsize, Ordering};
use std::sync::Arc;
use std::time::Duration;

use chrono::FixedOffset;
use clokwerk::Interval::Seconds;
use podcast_worker::cancel::CancelTree;
use podcast_worker::error::Error;
use podcast_worker::schedule::{Adjustment, ScheduleConfiguration};
use podcast_worker::scheduler::{ConfigSchedulerExt, Scheduler};
use podcast_worker::worker::{
    ChangeEvent, TickAction, Wake, Worker, WorkerState, DEFAULT_TICK_SECONDS,
};

fn utc() -> FixedOffset {
    FixedOffset::east_opt(0).unwrap()
}

fn runtime() -> tokio::runtime::Runtime {
    tokio::runtime::Builder::new_current_thread().enable_all().build().unwrap()
}

fn no_jobs(_scheduler: &mut Scheduler) -> Result<(), Error> {
    Ok(())
}

#[test]
fn new_worker_is_idle() {
    let scopes = CancelTree::new();
    let worker = Worker::new(no_jobs, scopes.root(), utc());
    assert_eq!(worker.state(), WorkerState::Idle);
    assert_eq!(worker.active_scope(), None);
    assert_eq!(worker.root_scope(), scopes.root());
}

#[test]
fn stop_on_never_scheduled_worker_is_noop() {
    let mut scopes = CancelTree::new();
    let mut worker = Worker::new(no_jobs, scopes.root(), utc());
    worker.stop(&mut scopes);
    worker.stop(&mut scopes);
    assert_eq!(worker.state(), WorkerState::Idle);
    assert!(!scopes.is_cancelled(scopes.root()));
    assert!(!scopes.token(scopes.root()).is_cancelled());
}

#[test]
fn scheduling_twice_leaves_one_running_loop() {
    let mut scopes = CancelTree::new();
    let mut worker = Worker::new(no_jobs, scopes.root(), utc());
    let first = worker.try_schedule(&mut scopes).unwrap();
    assert_eq!(worker.state(), WorkerState::Running);
    assert!(!first.token().is_cancelled());
    let second = worker.try_schedule(&mut scopes).unwrap();
    assert_eq!(worker.state(), WorkerState::Running);
    assert_eq!(worker.active_scope(), Some(second.scope()));
    assert_ne!(first.scope(), second.scope());
    assert!(scopes.is_cancelled(first.scope()));
    assert!(first.token().is_cancelled());
    assert!(!scopes.is_cancelled(second.scope()));
    assert!(!second.token().is_cancelled());
    assert_eq!(second.cadence_seconds(), DEFAULT_TICK_SECONDS);
}

#[test]
fn stop_cancels_the_running_loop_only() {
    let mut scopes = CancelTree::new();
    let mut worker = Worker::new(no_jobs, scopes.root(), utc());
    let mut other = Worker::new(no_jobs, scopes.root(), utc());
    let tick = worker.try_schedule(&mut scopes).unwrap();
    let other_tick = other.try_schedule(&mut scopes).unwrap();
    worker.stop(&mut scopes);
    assert_eq!(worker.state(), WorkerState::Idle);
    assert!(tick.token().is_cancelled());
    assert!(scopes.is_cancelled(tick.scope()));
    assert!(!other_tick.token().is_cancelled());
    assert!(!scopes.is_cancelled(other_tick.scope()));
    assert!(!scopes.is_cancelled(scopes.root()));
    assert_eq!(other.state(), WorkerState::Running);
}

#[test]
fn cancelling_the_root_stops_every_loop() {
    let rt = runtime();
    let mut scopes = CancelTree::new();
    let mut worker = Worker::new(no_jobs, scopes.root(), utc());
    let mut other = Worker::new(no_jobs, scopes.root(), utc());
    let mut tick = worker.try_schedule(&mut scopes).unwrap();
    let mut other_tick = other.try_schedule(&mut scopes).unwrap();
    assert_eq!(tick.on_wake(Wake::CadenceElapsed, &scopes, rt.handle()), TickAction::Wait);
    let root = scopes.root();
    scopes.cancel(root);
    assert!(tick.token().is_cancelled());
    assert!(other_tick.token().is_cancelled());
    assert!(scopes.is_cancelled(tick.scope()));
    assert!(scopes.is_cancelled(other_tick.scope()));
    assert_eq!(tick.on_wake(Wake::Cancelled, &scopes, rt.handle()), TickAction::Stop);
    assert!(tick.is_stopped());
    assert_eq!(tick.on_wake(Wake::CadenceElapsed, &scopes, rt.handle()), TickAction::Stop);
    assert_eq!(other_tick.on_wake(Wake::Cancelled, &scopes, rt.handle()), TickAction::Stop);
}

#[test]
fn each_notification_rebuilds_exactly_once() {
    let builds = Arc::new(AtomicUsize::new(0));
    let seen = builds.clone();
    let counting = move |_scheduler: &mut Scheduler| -> Result<(), Error> {
        seen.fetch_add(1, Ordering::SeqCst);
        Ok(())
    };
    let mut scopes = CancelTree::new();
    let mut worker = Worker::new(counting, scopes.root(), utc());
    worker.try_schedule(&mut scopes).unwrap();
    assert_eq!(builds.load(Ordering::SeqCst), 1);
    let events = vec![
        ChangeEvent::Insert { key: b"a".to_vec() },
        ChangeEvent::Insert { key: b"a".to_vec() },
        ChangeEvent::Remove { key: b"a".to_vec() },
        ChangeEvent::Insert { key: b"b".to_vec() },
    ];
    let mut ticks = Vec::new();
    for event in &events {
        ticks.push(worker.on_change(&mut scopes, event).unwrap());
    }
    assert_eq!(builds.load(Ordering::SeqCst), 1 + events.len());
    let last = ticks.pop().unwrap();
    assert!(!last.token().is_cancelled());
    for tick in &ticks {
        assert!(tick.token().is_cancelled());
    }
}

#[test]
fn failed_rebuild_leaves_the_worker_idle() {
    let builds = Arc::new(AtomicUsize::new(0));
    let seen = builds.clone();
    let failing_later = move |scheduler: &mut Scheduler| -> Result<(), Error> {
        if seen.fetch_add(1, Ordering::SeqCst) == 0 {
            Ok(())
        } else {
            let broken = ScheduleConfiguration {
                base: Seconds(1),
                adjustment: Some(vec![Adjustment::Count(0)]),
            };
            scheduler.new_job_from_config(&broken, || async {})
        }
    };
    let rt = runtime();
    let mut scopes = CancelTree::new();
    let mut worker = Worker::new(failing_later, scopes.root(), utc());
    let mut first = worker.try_schedule(&mut scopes).unwrap();
    let failed = worker.try_schedule(&mut scopes);
    assert!(matches!(failed, Err(Error::ZeroCount)));
    assert_eq!(worker.state(), WorkerState::Idle);
    assert_eq!(worker.active_scope(), None);
    assert!(first.token().is_cancelled());
    assert!(scopes.is_cancelled(first.scope()));
    assert_eq!(first.on_wake(Wake::Cancelled, &scopes, rt.handle()), TickAction::Stop);
    assert!(!scopes.is_cancelled(scopes.root()));
}

#[test]
fn count_caps_the_firings() {
    let fired = Arc::new(AtomicUsize::new(0));
    let counter = fired.clone();
    let builder = move |scheduler: &mut Scheduler| -> Result<(), Error> {
        let counter = counter.clone();
        let schedule = ScheduleConfiguration {
            base: Seconds(1),
            adjustment: Some(vec![Adjustment::Count(3)]),
        };
        scheduler.new_job_from_config(&schedule, move || {
            let counter = counter.clone();
            async move {
                counter.fetch_add(1, Ordering::SeqCst);
            }
        })
    };
    let rt = runtime();
    let mut scopes = CancelTree::new();
    let mut worker = Worker::new(builder, scopes.root(), utc());
    let mut tick = worker.try_schedule(&mut scopes).unwrap();
    for _ in 0..60 {
        assert_eq!(tick.on_wake(Wake::CadenceElapsed, &scopes, rt.handle()), TickAction::Wait);
        rt.block_on(async { tokio::time::sleep(Duration::from_millis(100)).await });
    }
    assert_eq!(fired.load(Ordering::SeqCst), 3);
}

#[test]
fn cancelled_loop_fires_nothing_more() {
    let fired = Arc::new(AtomicUsize::new(0));
    let counter = fired.clone();
    let builder = move |scheduler: &mut Scheduler| -> Result<(), Error> {
        let counter = counter.clone();
        let schedule = ScheduleConfiguration { base: Seconds(1), adjustment: None };
        scheduler.new_job_from_config(&schedule, move || {
            let counter = counter.clone();
            async move {
                counter.fetch_add(1, Ordering::SeqCst);
            }
        })
    };
    let rt = runtime();
    let mut scopes = CancelTree::new();
    let mut worker = Worker::new(builder, scopes.root(), utc());
    let mut tick = worker.try_schedule(&mut scopes).unwrap();
    worker.stop(&mut scopes);
    assert_eq!(tick.on_wake(Wake::Cancelled, &scopes, rt.handle()), TickAction::Stop);
    for _ in 0..15 {
        assert_eq!(tick.on_wake(Wake::CadenceElapsed, &scopes, rt.handle()), TickAction::Stop);
        rt.block_on(async { tokio::time::sleep(Duration::from_millis(100)).await });
    }
    assert_eq!(fired.load(Ordering::SeqCst), 0);
}

#[test]
fn cadence_can_be_varied() {
    let mut scopes = CancelTree::new();
    let mut worker = Worker::new(no_jobs, scopes.root(), utc()).with_cadence(5);
    let tick = worker.try_schedule(&mut scopes).unwrap();
    assert_eq!(tick.cadence_seconds(), 5);
}

#[test]
fn the_loop_waits_on_the_token_of_its_scope() {
    let mut scopes = CancelTree::new();
    let mut worker = Worker::new(no_jobs, scopes.root(), utc());
    let first = worker.try_schedule(&mut scopes).unwrap();
    let second = worker.try_schedule(&mut scopes).unwrap();
    assert!(first.token() == scopes.token(first.scope()));
    assert!(second.token() == scopes.token(second.scope()));
    assert!(first.token() != second.token());
    assert!(second.token() != scopes.token(scopes.root()));
    assert!(scopes.token(scopes.root()) == scopes.token(scopes.root()));
}

#[test]
fn a_loop_woken_by_the_clock_stops_where_its_scope_is_cancelled() {
    let fired = Arc::new(AtomicUsize::new(0));
    let counter = fired.clone();
    let builder = move |scheduler: &mut Scheduler| -> Result<(), Error> {
        let counter = counter.clone();
        let schedule = ScheduleConfiguration { base: Seconds(1), adjustment: None };
        scheduler.new_job_from_config(&schedule, move || {
            let counter = counter.clone();
            async move {
                counter.fetch_add(1, Ordering::SeqCst);
            }
        })
    };
    let rt = runtime();
    let mut scopes = CancelTree::new();
    let mut worker = Worker::new(builder, scopes.root(), utc());
    let mut tick = worker.try_schedule(&mut scopes).unwrap();
    let root = scopes.root();
    scopes.cancel(root);
    for _ in 0..15 {
        assert_eq!(tick.on_wake(Wake::CadenceElapsed, &scopes, rt.handle()), TickAction::Stop);
        rt.block_on(async { tokio::time::sleep(Duration::from_millis(100)).await });
    }
    assert!(tick.is_stopped());
    assert_eq!(fired.load(Ordering::SeqCst), 0);
}

#[test]
fn scopes_know_their_parents() {
    let mut scopes = CancelTree::new();
    let mut worker = Worker::new(no_jobs, scopes.root(), utc());
    let tick = worker.try_schedule(&mut scopes).unwrap();
    assert_eq!(scopes.parent(tick.scope()), Some(scopes.root()));
    assert_eq!(scopes.parent(scopes.root()), None);
}
