//! The monitoring collaborators: the notification contract around each job
//! run and the pure decisions behind it.

pub mod healthchecks;
pub mod mail;

use vstd::prelude::*;

use crate::jobs::XenbakJobStats;

verus! {

/// What every monitoring collaborator accepts: a start signal before the
/// run, then a success or failure signal carrying the run's statistics.
/// All of it is fire-and-forget — callers log errors and never abort a run
/// over them.  The live collaborators (mail, HTTP ping) are built outside
/// the library.
pub trait MonitoringTrait: Sized {
    fn start(&self, job_name: String) -> Result<(), String>;

    fn success(&self, job_name: String, job_stats: XenbakJobStats) -> Result<(), String>;

    fn failure(&self, job_name: String, job_stats: XenbakJobStats) -> Result<(), String>;
}

/// Which signal follows a finished run.
#[derive(Debug, Clone, Copy, PartialEq, Eq, Structural)]
pub enum NotificationKind {
    Start,
    Success,
    Failure,
}

/// The scheduler adapter's decision after a run: a failure signal iff any
/// object failed — the statistics carry the partial-success detail either
/// way.
pub fn outcome_notification(stats: &XenbakJobStats) -> (r: NotificationKind)
    ensures
        r == (if stats.failed_objects > 0 {
            NotificationKind::Failure
        } else {
            NotificationKind::Success
        }),
{
    if stats.failed_objects > 0 {
        NotificationKind::Failure
    } else {
        NotificationKind::Success
    }
}

} // verus!
