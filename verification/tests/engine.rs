//! The backup job engine: the per-VM task machine, the concurrency gate,
//! and the aggregation of task outcomes.

use xenbakd::config::{GlobalState, JobConfig};
use xenbakd::error::{XApiCliError, XApiParseError};
use xenbakd::jobs::vm_backup::{
    ConcurrencyGate, VmBackupJob, VmTask, VmTaskAction, VmTaskEvent,
};
use xenbakd::jobs::{JobType, XenbakJob};
use xenbakd::timestamp::Timestamp;
use xenbakd::xapi::VM;

fn vm(name: &str, uuid: &str) -> VM {
    let mut v = VM::default();
    v.name_label = name.to_string();
    v.uuid = uuid.to_string();
    v
}

fn snapshot(secs: i64) -> VM {
    let mut v = VM::default();
    v.uuid = "11111111-2222-3333-4444-555555555555".to_string();
    v.name_label = "xenbakd-snapshot".to_string();
    v.is_a_snapshot = true;
    v.snapshot_time = Timestamp::new(secs);
    v
}

fn fresh_job_config() -> JobConfig {
    let mut c = JobConfig::default();
    c.name = "nightly".to_string();
    c
}

#[test]
fn engine_created_snapshot_is_deleted_once_on_the_failure_path() {
    let cfg = fresh_job_config();
    let mut task = VmTask::new(vm("web-01", "aaaa"), &cfg, 10_000, 2);
    let mut deletes = 0;

    let a = task.step(VmTaskEvent::Start);
    assert!(matches!(a, VmTaskAction::CreateSnapshot));
    let a = task.step(VmTaskEvent::SnapshotCreated(Ok(snapshot(9_000))));
    assert!(matches!(a, VmTaskAction::MarkNotTemplate));
    let a = task.step(VmTaskEvent::MarkedNotTemplate(Ok(snapshot(9_000))));
    assert!(matches!(a, VmTaskAction::RenameSnapshot));
    let a = task.step(VmTaskEvent::Renamed(Ok(snapshot(9_000))));
    assert!(matches!(a, VmTaskAction::ExportToBackend { backend: 0 }));
    // The export into the first backend fails: the remaining backend is
    // skipped, but the snapshot is still cleaned up.
    let a = task.step(VmTaskEvent::Exported(Err("stream broke".to_string())));
    if matches!(a, VmTaskAction::DeleteSnapshot) {
        deletes += 1;
    }
    assert!(matches!(a, VmTaskAction::DeleteSnapshot));
    let a = task.step(VmTaskEvent::SnapshotDeleted(Ok(())));
    assert!(matches!(a, VmTaskAction::Finish));
    assert_eq!(deletes, 1);

    let outcome = task.outcome();
    let err = outcome.unwrap_err();
    assert_eq!(err, "Backup of VM 'web-01' [aaaa] failed: stream broke");
}

#[test]
fn engine_created_snapshot_is_deleted_once_on_the_success_path() {
    let cfg = fresh_job_config();
    let mut task = VmTask::new(vm("web-01", "aaaa"), &cfg, 10_000, 2);
    let mut deletes = 0;

    task.step(VmTaskEvent::Start);
    task.step(VmTaskEvent::SnapshotCreated(Ok(snapshot(9_000))));
    task.step(VmTaskEvent::MarkedNotTemplate(Ok(snapshot(9_000))));
    let a = task.step(VmTaskEvent::Renamed(Ok(snapshot(9_000))));
    assert!(matches!(a, VmTaskAction::ExportToBackend { backend: 0 }));
    let a = task.step(VmTaskEvent::Exported(Ok(())));
    assert!(matches!(a, VmTaskAction::RotateBackend { backend: 0 }));
    let a = task.step(VmTaskEvent::Rotated(Ok(())));
    // Export before rotate, per backend, in sequence.
    assert!(matches!(a, VmTaskAction::ExportToBackend { backend: 1 }));
    let a = task.step(VmTaskEvent::Exported(Ok(())));
    assert!(matches!(a, VmTaskAction::RotateBackend { backend: 1 }));
    let a = task.step(VmTaskEvent::Rotated(Ok(())));
    if matches!(a, VmTaskAction::DeleteSnapshot) {
        deletes += 1;
    }
    let a = task.step(VmTaskEvent::SnapshotDeleted(Ok(())));
    assert!(matches!(a, VmTaskAction::Finish));
    assert_eq!(deletes, 1);
    assert!(task.outcome().is_ok());
}

#[test]
fn reused_snapshot_is_never_deleted() {
    let mut cfg = fresh_job_config();
    cfg.use_existing_snapshot = true;
    cfg.use_existing_snapshot_age = Some(3600);
    let mut task = VmTask::new(vm("web-01", "aaaa"), &cfg, 10_000, 1);

    let a = task.step(VmTaskEvent::Start);
    assert!(matches!(a, VmTaskAction::QuerySnapshots));
    // A fresh snapshot exists: reuse it, skip the rename.
    let a = task.step(VmTaskEvent::SnapshotsListed(Ok(vec![
        snapshot(5_000),
        snapshot(9_500),
    ])));
    assert!(matches!(a, VmTaskAction::MarkNotTemplate));
    let a = task.step(VmTaskEvent::MarkedNotTemplate(Ok(snapshot(9_500))));
    assert!(matches!(a, VmTaskAction::ExportToBackend { backend: 0 }));
    let a = task.step(VmTaskEvent::Exported(Ok(())));
    assert!(matches!(a, VmTaskAction::RotateBackend { backend: 0 }));
    let a = task.step(VmTaskEvent::Rotated(Ok(())));
    // No cleanup for a reused snapshot.
    assert!(matches!(a, VmTaskAction::Finish));
    assert!(task.outcome().is_ok());
}

#[test]
fn stale_snapshot_forces_a_fresh_one() {
    let mut cfg = fresh_job_config();
    cfg.use_existing_snapshot = true;
    cfg.use_existing_snapshot_age = Some(3600);
    let mut task = VmTask::new(vm("web-01", "aaaa"), &cfg, 100_000, 1);
    task.step(VmTaskEvent::Start);
    // The newest existing snapshot is far older than the threshold.
    let a = task.step(VmTaskEvent::SnapshotsListed(Ok(vec![snapshot(10_000)])));
    assert!(matches!(a, VmTaskAction::CreateSnapshot));
}

#[test]
fn missing_snapshots_mean_a_fresh_one() {
    let mut cfg = fresh_job_config();
    cfg.use_existing_snapshot = true;
    let mut task = VmTask::new(vm("web-01", "aaaa"), &cfg, 10_000, 1);
    task.step(VmTaskEvent::Start);
    let a = task.step(VmTaskEvent::SnapshotsListed(Err(
        XApiCliError::XApiParseError(XApiParseError::EmptyOutput),
    )));
    assert!(matches!(a, VmTaskAction::CreateSnapshot));
}

#[test]
fn early_query_failure_finishes_without_cleanup() {
    let mut cfg = fresh_job_config();
    cfg.use_existing_snapshot = true;
    let mut task = VmTask::new(vm("web-01", "aaaa"), &cfg, 10_000, 1);
    task.step(VmTaskEvent::Start);
    let a = task.step(VmTaskEvent::SnapshotsListed(Err(XApiCliError::CommandFailed(
        "ssh unreachable".to_string(),
    ))));
    assert!(matches!(a, VmTaskAction::Finish));
    let err = task.outcome().unwrap_err();
    assert_eq!(
        err,
        "Backup of VM 'web-01' [aaaa] failed: 'xe' cli-command failed: ssh unreachable"
    );
}

#[test]
fn job_partial_failure_keeps_exact_counts() {
    let global = GlobalState { config: xenbakd::config::AppConfig::default() };
    let mut job = VmBackupJob::new(global, fresh_job_config());
    assert_eq!(job.get_job_type(), JobType::VmBackup);
    assert_eq!(job.get_name(), "nightly");

    // Three VMs resolved; the export of the second one fails.
    job.prepare_run(3);
    job.aggregate_results(vec![
        Ok(()),
        Err("Backup of VM 'vm2' [bbbb] failed: stream broke".to_string()),
        Ok(()),
    ]);
    let stats = job.get_job_stats();
    assert_eq!(stats.total_objects, 3);
    assert_eq!(stats.successful_objects, 2);
    assert_eq!(stats.failed_objects, 1);
    assert_eq!(stats.errors.len(), 1);
    assert!(stats.errors[0].contains("vm2"));
    assert!(job.run_result().is_err());
    assert_eq!(job.run_result().unwrap_err(), "Backup job failed.");
}

#[test]
fn all_successes_make_the_run_ok() {
    let global = GlobalState { config: xenbakd::config::AppConfig::default() };
    let mut job = VmBackupJob::new(global, fresh_job_config());
    job.prepare_run(2);
    job.aggregate_results(vec![Ok(()), Ok(())]);
    job.record_duration(42);
    let stats = job.get_job_stats();
    assert_eq!(stats.successful_objects, 2);
    assert_eq!(stats.failed_objects, 0);
    assert_eq!(stats.duration, 42);
    assert!(job.run_result().is_ok());
}

#[test]
fn gate_never_admits_more_than_the_bound() {
    let mut gate = ConcurrencyGate::new(2);
    // Five tasks contend for two permits.
    assert!(gate.try_acquire());
    assert!(gate.try_acquire());
    assert!(!gate.try_acquire());
    assert!(!gate.try_acquire());
    assert!(!gate.try_acquire());
    assert_eq!(gate.active, 2);
    gate.release();
    assert!(gate.try_acquire());
    assert_eq!(gate.active, 2);
    gate.release();
    gate.release();
    assert_eq!(gate.active, 0);
}
