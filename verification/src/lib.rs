//! A hot-reloadable scheduler of recurring jobs.
//!
//! A schedule is described by a [`schedule::ScheduleConfiguration`], compiled
//! into a job of a [`scheduler::Scheduler`], and kept alive by a
//! [`worker::Worker`], which tears its tick loop down and builds a fresh one
//! whenever it is asked to.
pub mod cancel;
pub mod catalog;
pub mod error;
pub mod schedule;
pub mod scheduler;
pub mod worker;
