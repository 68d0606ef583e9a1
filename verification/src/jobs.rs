//! Job kinds, per-run statistics, and the job interface.

pub mod vm_backup;

use vstd::prelude::*;

use crate::config::{GlobalState, JobConfig};
use crate::error::DecodeError;

verus! {

/// The closed set of backup job kinds.
#[derive(Debug, Clone, Copy, PartialEq, Eq, Structural)]
pub enum JobType {
    VmBackup,
}

/// The token that stands for `j` inside flat backup names.
pub open spec fn job_type_token(j: JobType) -> Seq<char> {
    seq!['v', 'm']
}

/// The inverse of `job_type_token`: `None` on unknown tokens.
pub open spec fn job_type_of_token(s: Seq<char>) -> Option<JobType> {
    if s == job_type_token(JobType::VmBackup) {
        Some(JobType::VmBackup)
    } else {
        None
    }
}

/// The base file extension that `j`'s exports carry.
pub open spec fn job_type_extension(j: JobType) -> Seq<char> {
    seq!['x', 'v', 'a']
}

impl JobType {
    /// The serialized token of this job kind; total over the closed set.
    pub fn to_string(&self) -> (r: String)
        ensures
            r@ == job_type_token(*self),
    {
        let r = match self {
            JobType::VmBackup => "vm",
        };
        proof {
            reveal_strlit("vm");
            assert(r@ =~= job_type_token(*self));
        }
        r.to_owned()
    }

    /// The inverse mapping; rejects tokens outside the closed set.
    pub fn from_str(s: &str) -> (r: Result<JobType, DecodeError>)
        ensures
            r matches Ok(j) ==> job_type_of_token(s@) == Some(j),
            r is Err ==> job_type_of_token(s@) is None && r == Err::<
                JobType,
                DecodeError,
            >(DecodeError::UnknownJobType),
    {
        let vm_token = {
            proof {
                reveal_strlit("vm");
            }
            "vm"
        };
        proof {
            assert(vm_token@ =~= job_type_token(JobType::VmBackup));
        }
        if s.to_owned() == vm_token.to_owned() {
            Ok(JobType::VmBackup)
        } else {
            Err(DecodeError::UnknownJobType)
        }
    }

    /// The base extension of exports of this kind.
    pub fn base_extension(&self) -> (r: String)
        ensures
            r@ == job_type_extension(*self),
    {
        let r = match self {
            JobType::VmBackup => "xva",
        };
        proof {
            reveal_strlit("xva");
            assert(r@ =~= job_type_extension(*self));
        }
        r.to_owned()
    }
}

/// Accumulated outcome of one job run: zeroed at run start, filled by the
/// aggregation step, read by the scheduler adapter for notifications.
#[derive(Debug, Clone)]
pub struct XenbakJobStats {
    /// Snapshot of the configuration the run was started with.
    pub config: JobConfig,
    /// How many objects the run covered.
    pub total_objects: u32,
    /// How many per-object tasks ended without error.
    pub successful_objects: u32,
    /// How many per-object tasks ended with an error.
    pub failed_objects: u32,
    /// Wall-clock duration of the run, in whole seconds.
    pub duration: u64,
    /// The error text of every failed task, in task order.
    pub errors: Vec<String>,
}

impl XenbakJobStats {
    /// Zeroed statistics around the given configuration.
    pub fn new(config: JobConfig) -> (r: XenbakJobStats)
        ensures
            r.config == config,
            r.total_objects == 0,
            r.successful_objects == 0,
            r.failed_objects == 0,
            r.duration == 0,
            r.errors@.len() == 0,
    {
        XenbakJobStats {
            config,
            total_objects: 0,
            successful_objects: 0,
            failed_objects: 0,
            duration: 0,
            errors: Vec::new(),
        }
    }
}

/// What every backup job offers the scheduler adapter.  Running a job is
/// driven from outside the library: the engine exposes its decisions as
/// plain functions and the caller performs the hypervisor and storage I/O.
pub trait XenbakJob: Sized {
    fn new(global_state: GlobalState, job_config: JobConfig) -> Self;

    fn get_name(&self) -> String;

    fn get_job_type(&self) -> JobType;

    fn get_schedule(&self) -> String;

    fn get_job_stats(&self) -> XenbakJobStats;
}

} // verus!
