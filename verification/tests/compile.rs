use std::sync::{Arc, Mutex};
use std::time::Duration;

use chrono::{DateTime, FixedOffset, NaiveTime, Timelike, Utc};
use clokwerk::Interval::{Days, Hours, Minutes, Monday, Seconds, Weeks};
use podcast_worker::error::Error;
use podcast_worker::schedule::{
    is_in_reach, is_of_length, reach_of, Adjustment, ScheduleConfiguration, MAX_REACH_DAYS,
};
use podcast_worker::scheduler::{ConfigSchedulerExt, Scheduler};

fn utc() -> FixedOffset {
    FixedOffset::east_opt(0).unwrap()
}

fn schedule(base: clokwerk::Interval, adjustment: Vec<Adjustment>) -> ScheduleConfiguration {
    ScheduleConfiguration { base, adjustment: Some(adjustment) }
}

/// The instants at which a job of this schedule ran within `millis`.
fn firings(schedule: &ScheduleConfiguration, millis: u64) -> Vec<DateTime<Utc>> {
    let rt = tokio::runtime::Builder::new_current_thread().enable_all().build().unwrap();
    let seen = Arc::new(Mutex::new(Vec::new()));
    let log = seen.clone();
    let mut scheduler = Scheduler::with_tz(utc());
    scheduler
        .new_job_from_config(schedule, move || {
            let log = log.clone();
            async move {
                log.lock().unwrap().push(Utc::now());
            }
        })
        .unwrap();
    let mut waited = 0;
    while waited < millis {
        scheduler.advance(rt.handle());
        rt.block_on(async { tokio::time::sleep(Duration::from_millis(50)).await });
        waited += 50;
    }
    let seen = seen.lock().unwrap().clone();
    seen
}

/// A time some two seconds ahead, on a whole second that is not the start of
/// a minute.
fn soon() -> DateTime<Utc> {
    let ahead = (Utc::now() + chrono::Duration::seconds(2)).with_nanosecond(0).unwrap();
    if ahead.second() == 0 {
        ahead + chrono::Duration::seconds(1)
    } else {
        ahead
    }
}

fn refusal(base: clokwerk::Interval, adjustment: Vec<Adjustment>) -> Option<Error> {
    let mut scheduler = Scheduler::with_tz(utc());
    let schedule = schedule(base, adjustment);
    let checked = schedule.validate().err();
    let made = scheduler.new_job_from_config(&schedule, || async {}).err();
    assert_eq!(checked.is_some(), made.is_some());
    made
}

#[test]
fn bare_base_fires_on_its_own_boundary() {
    let absent = ScheduleConfiguration { base: Seconds(1), adjustment: None };
    let empty = schedule(Seconds(1), vec![]);
    for bare in [absent, empty] {
        let fired = firings(&bare, 2300);
        assert!(fired.len() == 2 || fired.len() == 3);
        for at in fired {
            assert!(at.timestamp_subsec_millis() < 400);
        }
    }
}

#[test]
fn plus_fires_at_the_boundary_plus_the_offset() {
    let fired = firings(&schedule(Seconds(4), vec![Adjustment::Plus(Seconds(2))]), 6400);
    assert!(fired.len() == 1 || fired.len() == 2);
    for at in fired {
        assert_eq!(at.timestamp() % 4, 2);
    }
    let bare = firings(&schedule(Seconds(4), vec![]), 4600);
    assert!(bare.len() == 1 || bare.len() == 2);
    for at in bare {
        assert_eq!(at.timestamp() % 4, 0);
    }
}

#[test]
fn at_fires_first_at_the_time_of_day() {
    let target = soon();
    let fired = firings(&schedule(Minutes(5), vec![Adjustment::At(target.time())]), 3600);
    assert_eq!(fired.len(), 1);
    assert_eq!(fired[0].with_nanosecond(0).unwrap(), target);
}

#[test]
fn refinements_act_in_order() {
    let midnight = NaiveTime::from_hms_opt(0, 0, 0).unwrap();
    let offset_last =
        schedule(Seconds(4), vec![Adjustment::At(midnight), Adjustment::Plus(Seconds(2))]);
    let fired = firings(&offset_last, 6400);
    assert!(fired.len() == 1 || fired.len() == 2);
    for at in fired {
        assert_eq!(at.timestamp() % 4, 2);
    }
    let target = soon();
    let time_last =
        schedule(Days(1), vec![Adjustment::Plus(Hours(7)), Adjustment::At(target.time())]);
    let fired = firings(&time_last, 3600);
    assert_eq!(fired.len(), 1);
    assert_eq!(fired[0].with_nanosecond(0).unwrap(), target);
}

#[test]
fn and_every_fires_on_either_cadence() {
    let alone = firings(&schedule(Days(1), vec![]), 1200);
    assert_eq!(alone.len(), 0);
    let both = firings(&schedule(Days(1), vec![Adjustment::AndEvery(Seconds(1))]), 2300);
    assert!(both.len() == 2 || both.len() == 3);
}

#[test]
fn repeating_every_follows_each_run() {
    let target = soon();
    let repeated = schedule(
        Days(1),
        vec![Adjustment::At(target.time()), Adjustment::RepeatingEvery(Seconds(1), 2)],
    );
    let fired = firings(&repeated, 5600);
    assert_eq!(fired.len(), 3);
    assert_eq!(fired[0].with_nanosecond(0).unwrap(), target);
    assert_eq!(fired[2].with_nanosecond(0).unwrap(), target + chrono::Duration::seconds(2));
    let target = soon();
    let single = schedule(
        Days(1),
        vec![Adjustment::At(target.time()), Adjustment::RepeatingEvery(Seconds(1), 0)],
    );
    assert_eq!(firings(&single, 4600).len(), 1);
}

#[test]
fn count_caps_the_runs_wherever_it_stands() {
    let first = schedule(Days(1), vec![Adjustment::Count(2), Adjustment::AndEvery(Seconds(1))]);
    let last = schedule(Days(1), vec![Adjustment::AndEvery(Seconds(1)), Adjustment::Count(2)]);
    assert_eq!(firings(&first, 4300).len(), 2);
    assert_eq!(firings(&last, 4300).len(), 2);
}

#[test]
fn the_last_count_wins() {
    let twice = schedule(Seconds(1), vec![Adjustment::Count(5), Adjustment::Count(1)]);
    assert_eq!(firings(&twice, 3300).len(), 1);
}

#[test]
fn zero_count_is_refused() {
    assert!(matches!(
        refusal(Seconds(1), vec![Adjustment::Plus(Seconds(2)), Adjustment::Count(0)]),
        Some(Error::ZeroCount)
    ));
    assert!(Adjustment::Count(1).is_valid());
    assert!(!Adjustment::Count(0).is_valid());
    assert!(Adjustment::RepeatingEvery(Seconds(1), 0).is_valid());
}

#[test]
fn intervals_out_of_reach_are_refused() {
    let out = |base, adjustment| matches!(refusal(base, adjustment), Some(Error::IntervalOutOfRange));
    assert!(out(Days(4_000_000_000), vec![]));
    assert!(out(Days(100_000_000), vec![]));
    assert!(out(Days(36_500_001), vec![]));
    assert!(out(Weeks(u32::MAX), vec![]));
    assert!(out(Weeks(5_214_286), vec![]));
    assert!(out(Minutes(71_582_789), vec![]));
    assert!(out(Hours(1_193_047), vec![]));
    assert!(out(Seconds(1), vec![Adjustment::Plus(Days(36_500_000))]));
    assert!(out(Seconds(1), vec![Adjustment::AndEvery(Days(4_000_000_000))]));
    assert!(out(Days(20_000_000), vec![Adjustment::Plus(Days(10_000_000)), Adjustment::Plus(Days(10_000_000))]));
    assert!(out(Days(36_500_000), vec![Adjustment::At(NaiveTime::from_hms_opt(8, 0, 0).unwrap())]));
    assert!(out(Seconds(1), vec![Adjustment::RepeatingEvery(Seconds(0), 1)]));
    assert!(out(Seconds(1), vec![Adjustment::RepeatingEvery(Days(4_000_000_000), 1)]));
}

#[test]
fn the_first_fault_is_named() {
    assert!(matches!(
        refusal(Seconds(1), vec![Adjustment::Count(0), Adjustment::Plus(Days(4_000_000_000))]),
        Some(Error::ZeroCount)
    ));
    assert!(matches!(
        refusal(Seconds(1), vec![Adjustment::Plus(Days(4_000_000_000)), Adjustment::Count(0)]),
        Some(Error::IntervalOutOfRange)
    ));
    assert!(matches!(
        refusal(Days(4_000_000_000), vec![Adjustment::Count(0)]),
        Some(Error::IntervalOutOfRange)
    ));
}

#[test]
fn the_widest_schedules_are_compiled_and_run() {
    let eight = NaiveTime::from_hms_opt(8, 0, 0).unwrap();
    let widest = vec![
        schedule(Days(36_500_000), vec![]),
        schedule(Weeks(5_214_285), vec![]),
        schedule(Hours(1_193_046), vec![]),
        schedule(Minutes(71_582_788), vec![]),
        schedule(Seconds(u32::MAX), vec![]),
        schedule(Monday, vec![Adjustment::Plus(Days(36_499_993))]),
        schedule(Days(36_499_999), vec![Adjustment::At(eight)]),
        schedule(Days(20_000_000), vec![Adjustment::Plus(Days(16_500_000))]),
        schedule(Seconds(0), vec![Adjustment::RepeatingEvery(Days(36_500_000), 1)]),
        schedule(Seconds(1), vec![Adjustment::RepeatingEvery(Seconds(0), 0)]),
        schedule(Days(0), vec![Adjustment::AndEvery(Weeks(0)), Adjustment::Plus(Minutes(0))]),
    ];
    for wide in widest {
        assert!(wide.validate().is_ok());
        firings(&wide, 150);
    }
}

#[test]
fn reach_is_counted_in_days() {
    assert_eq!(MAX_REACH_DAYS, 36_500_000);
    assert_eq!(reach_of(Seconds(86_400)), 2);
    assert_eq!(reach_of(Seconds(0)), 1);
    assert_eq!(reach_of(Minutes(2_880)), 3);
    assert_eq!(reach_of(Hours(47)), 2);
    assert_eq!(reach_of(Days(9)), 9);
    assert_eq!(reach_of(Weeks(3)), 21);
    assert_eq!(reach_of(Monday), 7);
    assert!(is_in_reach(Minutes(71_582_788)));
    assert!(!is_in_reach(Minutes(71_582_789)));
    assert!(is_of_length(Monday));
    assert!(is_of_length(Hours(1)));
    assert!(!is_of_length(Hours(0)));
}

#[test]
fn a_registered_job_stays_registered_beside_a_refused_one() {
    let fired = Arc::new(Mutex::new(0));
    let count = fired.clone();
    let rt = tokio::runtime::Builder::new_current_thread().enable_all().build().unwrap();
    let mut scheduler = Scheduler::with_tz(utc());
    let good = ScheduleConfiguration { base: Seconds(1), adjustment: None };
    let bad = schedule(Seconds(1), vec![Adjustment::Count(0)]);
    let made = scheduler.new_job_from_config(&good, move || {
        let count = count.clone();
        async move {
            *count.lock().unwrap() += 1;
        }
    });
    assert!(made.is_ok());
    assert!(scheduler.new_job_from_config(&bad, || async {}).is_err());
    for _ in 0..25 {
        scheduler.advance(rt.handle());
        rt.block_on(async { tokio::time::sleep(Duration::from_millis(50)).await });
    }
    assert!(*fired.lock().unwrap() >= 1);
}
