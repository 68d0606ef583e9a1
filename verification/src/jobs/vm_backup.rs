//! The backup job engine.
//!
//! One run resolves targets, initializes backends, fans per-VM tasks out
//! under a concurrency bound, and aggregates their outcomes.  The engine's
//! decisions stand here as plain verified functions; the caller performs
//! the hypervisor and storage I/O and reports each result back:
//!
//!   * a per-VM task is a state machine (`VmTask::step`) that, fed the
//!     outcome of the previous action, decides the next one — snapshot
//!     reuse or creation, per-backend export then rotation, and a cleanup
//!     of the engine-created snapshot that happens exactly once on every
//!     path, success or failure (`lemma_snapshot_cleanup_exactly_once`);
//!   * the concurrency bound is a counting gate (`ConcurrencyGate`) whose
//!     contract keeps the number of admitted tasks at or under the bound;
//!   * aggregation (`aggregate_results`) turns the ordered task outcomes
//!     into the run's statistics, and `run_result` derives the run verdict
//!     from them — `Err` iff any object failed.

use vstd::prelude::*;

use crate::config::{GlobalState, JobConfig};
use crate::error::{cli_err_text, XApiCliError, XApiCliErrorView, XApiParseError, XApiParseErrorView};
use crate::jobs::{JobType, XenbakJob, XenbakJobStats};
use crate::xapi::{VMView, VM};

verus! {

/// What the engine asks the task's driver to do next.
#[derive(Debug, Clone, Copy, PartialEq, Eq, Structural)]
pub enum VmTaskAction {
    /// List the existing snapshots of the VM.
    QuerySnapshots,
    /// Create a fresh snapshot of the VM.
    CreateSnapshot,
    /// Flip the chosen snapshot's template flag off.
    MarkNotTemplate,
    /// Give the engine-created snapshot a readable label.
    RenameSnapshot,
    /// Export the snapshot and store it into backend `backend`.
    ExportToBackend { backend: usize },
    /// Rotate backend `backend` under the artifact's identity filter.
    RotateBackend { backend: usize },
    /// Delete the engine-created snapshot.
    DeleteSnapshot,
    /// The task is finished; read its outcome.
    Finish,
}

/// What the driver reports back to the engine.
#[derive(Debug)]
pub enum VmTaskEvent {
    /// The task is being started.
    Start,
    /// The snapshot listing came back; the distinct empty-output error
    /// means "none exist".
    SnapshotsListed(Result<Vec<VM>, XApiCliError>),
    SnapshotCreated(Result<VM, XApiCliError>),
    MarkedNotTemplate(Result<VM, XApiCliError>),
    Renamed(Result<VM, XApiCliError>),
    /// The export and store into the awaited backend finished.
    Exported(Result<(), String>),
    /// The rotation of the awaited backend finished.
    Rotated(Result<(), String>),
    SnapshotDeleted(Result<(), XApiCliError>),
}

/// Mathematical image of a driver event.
#[verifier::ext_equal]
pub enum VmTaskEventView {
    Start,
    SnapshotsListed(Result<Seq<VMView>, XApiCliErrorView>),
    SnapshotCreated(Result<VMView, XApiCliErrorView>),
    MarkedNotTemplate(Result<VMView, XApiCliErrorView>),
    Renamed(Result<VMView, XApiCliErrorView>),
    Exported(Result<(), Seq<char>>),
    Rotated(Result<(), Seq<char>>),
    SnapshotDeleted(Result<(), XApiCliErrorView>),
}

impl DeepView for VmTaskEvent {
    type V = VmTaskEventView;

    open spec fn deep_view(&self) -> VmTaskEventView {
        match self {
            VmTaskEvent::Start => VmTaskEventView::Start,
            VmTaskEvent::SnapshotsListed(r) => VmTaskEventView::SnapshotsListed(
                match r {
                    Ok(v) => Ok(v.deep_view()),
                    Err(e) => Err(e.deep_view()),
                },
            ),
            VmTaskEvent::SnapshotCreated(r) => VmTaskEventView::SnapshotCreated(
                match r {
                    Ok(v) => Ok(v.deep_view()),
                    Err(e) => Err(e.deep_view()),
                },
            ),
            VmTaskEvent::MarkedNotTemplate(r) => VmTaskEventView::MarkedNotTemplate(
                match r {
                    Ok(v) => Ok(v.deep_view()),
                    Err(e) => Err(e.deep_view()),
                },
            ),
            VmTaskEvent::Renamed(r) => VmTaskEventView::Renamed(
                match r {
                    Ok(v) => Ok(v.deep_view()),
                    Err(e) => Err(e.deep_view()),
                },
            ),
            VmTaskEvent::Exported(r) => VmTaskEventView::Exported(
                match r {
                    Ok(u) => Ok(*u),
                    Err(m) => Err(m@),
                },
            ),
            VmTaskEvent::Rotated(r) => VmTaskEventView::Rotated(
                match r {
                    Ok(u) => Ok(*u),
                    Err(m) => Err(m@),
                },
            ),
            VmTaskEvent::SnapshotDeleted(r) => VmTaskEventView::SnapshotDeleted(
                match r {
                    Ok(u) => Ok(*u),
                    Err(e) => Err(e.deep_view()),
                },
            ),
        }
    }
}

/// Where a per-VM task stands.
#[derive(Debug, Clone, Copy, PartialEq, Eq, Structural)]
pub enum VmTaskPhase {
    Ready,
    AwaitingSnapshots,
    AwaitingCreate,
    AwaitingNotTemplate,
    AwaitingRename,
    AwaitingExport { backend: usize },
    AwaitingRotate { backend: usize },
    AwaitingDelete,
    Done,
}

/// Mathematical image of a per-VM task.
#[verifier::ext_equal]
pub struct VmTaskView {
    pub vm: VMView,
    pub use_existing: bool,
    pub age_limit: i64,
    pub now: i64,
    pub n_backends: usize,
    pub phase: VmTaskPhase,
    pub snapshot: Option<VMView>,
    pub engine_created: bool,
    pub deleted: bool,
    pub failure: Option<Seq<char>>,
}

/// One per-VM task: the target VM, the snapshot decision inputs, and the
/// progress of the export/rotate walk over the backends.
#[derive(Debug)]
pub struct VmTask {
    /// The VM being backed up.
    pub vm: VM,
    /// Whether a fresh existing snapshot may be reused.
    pub use_existing: bool,
    /// Maximum age, in seconds, for a snapshot to count as fresh.
    pub age_limit: i64,
    /// The clock reading the freshness comparison uses.
    pub now: i64,
    /// How many storage backends each export walks through.
    pub n_backends: usize,
    pub phase: VmTaskPhase,
    /// The snapshot being exported, once chosen.
    pub snapshot: Option<VM>,
    /// Whether the engine created the snapshot (and so must delete it).
    pub engine_created: bool,
    /// Whether the delete of the engine-created snapshot was issued.
    pub deleted: bool,
    /// The first error of the task, if any.
    pub failure: Option<String>,
}

impl DeepView for VmTask {
    type V = VmTaskView;

    open spec fn deep_view(&self) -> VmTaskView {
        VmTaskView {
            vm: self.vm.deep_view(),
            use_existing: self.use_existing,
            age_limit: self.age_limit,
            now: self.now,
            n_backends: self.n_backends,
            phase: self.phase,
            snapshot: match self.snapshot {
                None => None,
                Some(s) => Some(s.deep_view()),
            },
            engine_created: self.engine_created,
            deleted: self.deleted,
            failure: match self.failure {
                None => None,
                Some(m) => Some(m@),
            },
        }
    }
}

/// Whether `e` is the event the phase of `t` awaits.
pub open spec fn event_fits(phase: VmTaskPhase, e: VmTaskEventView) -> bool {
    match phase {
        VmTaskPhase::Ready => e is Start,
        VmTaskPhase::AwaitingSnapshots => e is SnapshotsListed,
        VmTaskPhase::AwaitingCreate => e is SnapshotCreated,
        VmTaskPhase::AwaitingNotTemplate => e is MarkedNotTemplate,
        VmTaskPhase::AwaitingRename => e is Renamed,
        VmTaskPhase::AwaitingExport { .. } => e is Exported,
        VmTaskPhase::AwaitingRotate { .. } => e is Rotated,
        VmTaskPhase::AwaitingDelete => e is SnapshotDeleted,
        VmTaskPhase::Done => false,
    }
}

/// The backend index a walking phase carries never leaves the configured
/// range.
pub open spec fn task_inv(t: VmTaskView) -> bool {
    match t.phase {
        VmTaskPhase::AwaitingExport { backend } => backend < t.n_backends,
        VmTaskPhase::AwaitingRotate { backend } => backend < t.n_backends,
        _ => true,
    }
}

/// The listing position of the newest snapshot: the last one carrying the
/// maximal snapshot time, matching a stable ascending sort read from its
/// end.
pub open spec fn newest_index(vms: Seq<VMView>) -> int
    decreases vms.len(),
{
    if vms.len() <= 1 {
        0
    } else {
        let r = newest_index(vms.drop_last());
        if vms.last().snapshot_time >= vms[r].snapshot_time {
            vms.len() - 1
        } else {
            r
        }
    }
}

/// Leave the current phase for cleanup or completion: an engine-created
/// snapshot is deleted first — unconditionally, on the success and on the
/// failure path — everything else finishes directly.
pub open spec fn next_cleanup(t: VmTaskView) -> (VmTaskView, VmTaskAction) {
    if t.engine_created {
        (
            VmTaskView { phase: VmTaskPhase::AwaitingDelete, deleted: true, ..t },
            VmTaskAction::DeleteSnapshot,
        )
    } else {
        (VmTaskView { phase: VmTaskPhase::Done, ..t }, VmTaskAction::Finish)
    }
}

/// Enter the export walk, or go straight to cleanup when no backend is
/// configured.
pub open spec fn next_export(t: VmTaskView) -> (VmTaskView, VmTaskAction) {
    if t.n_backends == 0 {
        next_cleanup(t)
    } else {
        (
            VmTaskView { phase: VmTaskPhase::AwaitingExport { backend: 0 }, ..t },
            VmTaskAction::ExportToBackend { backend: 0 },
        )
    }
}

/// The transition relation of a per-VM task: what the event does to the
/// task and which action the driver must perform next.
pub open spec fn next_state(t: VmTaskView, e: VmTaskEventView) -> (VmTaskView, VmTaskAction) {
    match e {
        VmTaskEventView::Start => {
            if t.use_existing {
                (
                    VmTaskView { phase: VmTaskPhase::AwaitingSnapshots, ..t },
                    VmTaskAction::QuerySnapshots,
                )
            } else {
                (
                    VmTaskView { phase: VmTaskPhase::AwaitingCreate, ..t },
                    VmTaskAction::CreateSnapshot,
                )
            }
        },
        VmTaskEventView::SnapshotsListed(res) => match res {
            Err(err) => {
                if err == XApiCliErrorView::XApiParseError(XApiParseErrorView::EmptyOutput) {
                    (
                        VmTaskView { phase: VmTaskPhase::AwaitingCreate, ..t },
                        VmTaskAction::CreateSnapshot,
                    )
                } else {
                    (
                        VmTaskView {
                            phase: VmTaskPhase::Done,
                            failure: Some(cli_err_text(err)),
                            ..t
                        },
                        VmTaskAction::Finish,
                    )
                }
            },
            Ok(snapshots) => {
                if snapshots.len() == 0 {
                    (
                        VmTaskView { phase: VmTaskPhase::AwaitingCreate, ..t },
                        VmTaskAction::CreateSnapshot,
                    )
                } else {
                    let newest = snapshots[newest_index(snapshots)];
                    if t.now - newest.snapshot_time < t.age_limit {
                        (
                            VmTaskView {
                                phase: VmTaskPhase::AwaitingNotTemplate,
                                snapshot: Some(newest),
                                engine_created: false,
                                ..t
                            },
                            VmTaskAction::MarkNotTemplate,
                        )
                    } else {
                        (
                            VmTaskView { phase: VmTaskPhase::AwaitingCreate, ..t },
                            VmTaskAction::CreateSnapshot,
                        )
                    }
                }
            },
        },
        VmTaskEventView::SnapshotCreated(res) => match res {
            Err(err) => (
                VmTaskView { phase: VmTaskPhase::Done, failure: Some(cli_err_text(err)), ..t },
                VmTaskAction::Finish,
            ),
            Ok(snapshot) => (
                VmTaskView {
                    phase: VmTaskPhase::AwaitingNotTemplate,
                    snapshot: Some(snapshot),
                    engine_created: true,
                    ..t
                },
                VmTaskAction::MarkNotTemplate,
            ),
        },
        VmTaskEventView::MarkedNotTemplate(res) => match res {
            Err(err) => next_cleanup(VmTaskView { failure: Some(cli_err_text(err)), ..t }),
            Ok(snapshot) => {
                let t2 = VmTaskView { snapshot: Some(snapshot), ..t };
                if t2.engine_created {
                    (
                        VmTaskView { phase: VmTaskPhase::AwaitingRename, ..t2 },
                        VmTaskAction::RenameSnapshot,
                    )
                } else {
                    next_export(t2)
                }
            },
        },
        VmTaskEventView::Renamed(res) => match res {
            Err(err) => next_cleanup(VmTaskView { failure: Some(cli_err_text(err)), ..t }),
            Ok(snapshot) => next_export(VmTaskView { snapshot: Some(snapshot), ..t }),
        },
        VmTaskEventView::Exported(res) => match res {
            Err(msg) => next_cleanup(VmTaskView { failure: Some(msg), ..t }),
            Ok(_) => {
                let b = t.phase->AwaitingExport_backend;
                (
                    VmTaskView { phase: VmTaskPhase::AwaitingRotate { backend: b }, ..t },
                    VmTaskAction::RotateBackend { backend: b },
                )
            },
        },
        VmTaskEventView::Rotated(res) => match res {
            Err(msg) => next_cleanup(VmTaskView { failure: Some(msg), ..t }),
            Ok(_) => {
                let b = t.phase->AwaitingRotate_backend;
                if b + 1 < t.n_backends {
                    (
                        VmTaskView {
                            phase: VmTaskPhase::AwaitingExport { backend: (b + 1) as usize },
                            ..t
                        },
                        VmTaskAction::ExportToBackend { backend: (b + 1) as usize },
                    )
                } else {
                    next_cleanup(t)
                }
            },
        },
        VmTaskEventView::SnapshotDeleted(res) => match res {
            Err(err) => (
                VmTaskView { phase: VmTaskPhase::Done, failure: Some(cli_err_text(err)), ..t },
                VmTaskAction::Finish,
            ),
            Ok(_) => (VmTaskView { phase: VmTaskPhase::Done, ..t }, VmTaskAction::Finish),
        },
    }
}

impl VmTask {
    /// A fresh task for one VM under the job's snapshot settings; the
    /// freshness threshold falls back to an hour.
    pub fn new(vm: VM, config: &JobConfig, now: i64, n_backends: usize) -> (r: VmTask)
        ensures
            r.deep_view().vm == vm.deep_view(),
            r.use_existing == config.use_existing_snapshot,
            r.age_limit == match config.use_existing_snapshot_age {
                Some(a) => a,
                None => 3600i64,
            },
            r.now == now,
            r.n_backends == n_backends,
            r.phase == VmTaskPhase::Ready,
            r.snapshot is None,
            r.engine_created == false,
            r.deleted == false,
            r.failure is None,
            task_inv(r.deep_view()),
    {
        let age_limit = match config.use_existing_snapshot_age {
            Some(a) => a,
            None => 3600,
        };
        VmTask {
            vm,
            use_existing: config.use_existing_snapshot,
            age_limit,
            now,
            n_backends,
            phase: VmTaskPhase::Ready,
            snapshot: None,
            engine_created: false,
            deleted: false,
            failure: None,
        }
    }

    /// Feed one event to the task and get the next action; the transition
    /// is exactly `next_state`.
    pub fn step(&mut self, e: VmTaskEvent) -> (a: VmTaskAction)
        requires
            event_fits(old(self).phase, e.deep_view()),
            task_inv(old(self).deep_view()),
        ensures
            final(self).deep_view() == next_state(old(self).deep_view(), e.deep_view()).0,
            a == next_state(old(self).deep_view(), e.deep_view()).1,
            task_inv(final(self).deep_view()),
    {
        match e {
            VmTaskEvent::Start => {
                if self.use_existing {
                    self.phase = VmTaskPhase::AwaitingSnapshots;
                    VmTaskAction::QuerySnapshots
                } else {
                    self.phase = VmTaskPhase::AwaitingCreate;
                    VmTaskAction::CreateSnapshot
                }
            },
            VmTaskEvent::SnapshotsListed(res) => match res {
                Err(err) => {
                    let empty_output = match &err {
                        XApiCliError::XApiParseError(XApiParseError::EmptyOutput) => true,
                        _ => false,
                    };
                    if empty_output {
                        self.phase = VmTaskPhase::AwaitingCreate;
                        VmTaskAction::CreateSnapshot
                    } else {
                        self.phase = VmTaskPhase::Done;
                        self.failure = Some(err.describe());
                        VmTaskAction::Finish
                    }
                },
                Ok(snapshots) => {
                    if snapshots.len() == 0 {
                        self.phase = VmTaskPhase::AwaitingCreate;
                        VmTaskAction::CreateSnapshot
                    } else {
                        let best = newest_of(&snapshots);
                        let newest = snapshots[best].clone();
                        proof {
                            assert(newest.deep_view() == snapshots.deep_view()[newest_index(
                                snapshots.deep_view(),
                            )]);
                        }
                        if (self.now as i128) - (newest.snapshot_time.secs as i128) < (
                        self.age_limit as i128) {
                            self.phase = VmTaskPhase::AwaitingNotTemplate;
                            self.snapshot = Some(newest);
                            self.engine_created = false;
                            VmTaskAction::MarkNotTemplate
                        } else {
                            self.phase = VmTaskPhase::AwaitingCreate;
                            VmTaskAction::CreateSnapshot
                        }
                    }
                },
            },
            VmTaskEvent::SnapshotCreated(res) => match res {
                Err(err) => {
                    self.phase = VmTaskPhase::Done;
                    self.failure = Some(err.describe());
                    VmTaskAction::Finish
                },
                Ok(snapshot) => {
                    self.phase = VmTaskPhase::AwaitingNotTemplate;
                    self.snapshot = Some(snapshot);
                    self.engine_created = true;
                    VmTaskAction::MarkNotTemplate
                },
            },
            VmTaskEvent::MarkedNotTemplate(res) => match res {
                Err(err) => {
                    self.failure = Some(err.describe());
                    self.enter_cleanup()
                },
                Ok(snapshot) => {
                    self.snapshot = Some(snapshot);
                    if self.engine_created {
                        self.phase = VmTaskPhase::AwaitingRename;
                        VmTaskAction::RenameSnapshot
                    } else {
                        self.enter_export()
                    }
                },
            },
            VmTaskEvent::Renamed(res) => match res {
                Err(err) => {
                    self.failure = Some(err.describe());
                    self.enter_cleanup()
                },
                Ok(snapshot) => {
                    self.snapshot = Some(snapshot);
                    self.enter_export()
                },
            },
            VmTaskEvent::Exported(res) => match res {
                Err(msg) => {
                    self.failure = Some(msg);
                    self.enter_cleanup()
                },
                Ok(_) => {
                    let b = match self.phase {
                        VmTaskPhase::AwaitingExport { backend } => backend,
                        _ => {
                            proof {
                                assert(false);
                            }
                            0
                        },
                    };
                    self.phase = VmTaskPhase::AwaitingRotate { backend: b };
                    VmTaskAction::RotateBackend { backend: b }
                },
            },
            VmTaskEvent::Rotated(res) => match res {
                Err(msg) => {
                    self.failure = Some(msg);
                    self.enter_cleanup()
                },
                Ok(_) => {
                    let b = match self.phase {
                        VmTaskPhase::AwaitingRotate { backend } => backend,
                        _ => {
                            proof {
                                assert(false);
                            }
                            0
                        },
                    };
                    if b + 1 < self.n_backends {
                        self.phase = VmTaskPhase::AwaitingExport { backend: b + 1 };
                        VmTaskAction::ExportToBackend { backend: b + 1 }
                    } else {
                        self.enter_cleanup()
                    }
                },
            },
            VmTaskEvent::SnapshotDeleted(res) => match res {
                Err(err) => {
                    self.phase = VmTaskPhase::Done;
                    self.failure = Some(err.describe());
                    VmTaskAction::Finish
                },
                Ok(_) => {
                    self.phase = VmTaskPhase::Done;
                    VmTaskAction::Finish
                },
            },
        }
    }

    /// Enter cleanup or completion, as `next_cleanup` decides.
    fn enter_cleanup(&mut self) -> (a: VmTaskAction)
        ensures
            final(self).deep_view() == next_cleanup(old(self).deep_view()).0,
            a == next_cleanup(old(self).deep_view()).1,
    {
        if self.engine_created {
            self.phase = VmTaskPhase::AwaitingDelete;
            self.deleted = true;
            VmTaskAction::DeleteSnapshot
        } else {
            self.phase = VmTaskPhase::Done;
            VmTaskAction::Finish
        }
    }

    /// Enter the export walk, as `next_export` decides.
    fn enter_export(&mut self) -> (a: VmTaskAction)
        ensures
            final(self).deep_view() == next_export(old(self).deep_view()).0,
            a == next_export(old(self).deep_view()).1,
    {
        if self.n_backends == 0 {
            self.enter_cleanup()
        } else {
            self.phase = VmTaskPhase::AwaitingExport { backend: 0 };
            VmTaskAction::ExportToBackend { backend: 0 }
        }
    }

    /// The finished task's outcome: success, or its first error wrapped
    /// with the VM's identity.
    pub fn outcome(&self) -> (r: Result<(), String>)
        requires
            self.phase is Done,
        ensures
            r is Ok <==> self.failure is None,
            r matches Err(m) ==> m@ == task_failure_text(self.deep_view()),
    {
        match &self.failure {
            None => Ok(()),
            Some(msg) => {
                let mut m = String::new();
                m.append("Backup of VM '");
                m.append(self.vm.name_label.as_str());
                m.append("' [");
                m.append(self.vm.uuid.as_str());
                m.append("] failed: ");
                m.append(msg.as_str());
                proof {
                    assert(m@ =~= task_failure_text(self.deep_view()));
                }
                Err(m)
            },
        }
    }
}

/// The error text of a failed task, wrapped with the VM's identity.
pub open spec fn task_failure_text(t: VmTaskView) -> Seq<char> {
    "Backup of VM '"@ + t.vm.name_label + "' ["@ + t.vm.uuid + "] failed: "@ + t.failure->Some_0
}

/// The listing position of the newest snapshot.
fn newest_of(vms: &Vec<VM>) -> (r: usize)
    requires
        vms@.len() > 0,
    ensures
        r < vms@.len(),
        r as int == newest_index(vms.deep_view()),
{
    let mut best: usize = 0;
    let mut i: usize = 1;
    proof {
        assert(vms.deep_view().take(1).drop_last() =~= Seq::<VMView>::empty());
        assert(newest_index(vms.deep_view().take(1)) == 0);
    }
    while i < vms.len()
        invariant
            1 <= i <= vms@.len(),
            best < i,
            best as int == newest_index(vms.deep_view().take(i as int)),
        decreases vms@.len() - i,
    {
        proof {
            let cur = vms.deep_view().take(i + 1);
            assert(cur.drop_last() =~= vms.deep_view().take(i as int));
            assert(cur.last() == vms.deep_view()[i as int]);
            assert(vms.deep_view()[i as int].snapshot_time == vms@[i as int].snapshot_time.secs);
            assert(vms.deep_view()[best as int].snapshot_time == vms@[
                best as int
            ].snapshot_time.secs);
        }
        if vms[i].snapshot_time.secs >= vms[best].snapshot_time.secs {
            best = i;
        }
        i = i + 1;
    }
    proof {
        assert(vms.deep_view().take(vms.deep_view().len() as int) =~= vms.deep_view());
    }
    best
}

// --------------------------------------------------------------------------
// The snapshot cleanup guarantee
// --------------------------------------------------------------------------
/// Run the task machine over a whole event sequence: the final task and
/// the actions emitted, in order.
pub open spec fn run_trace(t: VmTaskView, events: Seq<VmTaskEventView>) -> (
    VmTaskView,
    Seq<VmTaskAction>,
)
    decreases events.len(),
{
    if events.len() == 0 {
        (t, Seq::empty())
    } else {
        let stepped = next_state(t, events[0]);
        let rest = run_trace(stepped.0, events.subrange(1, events.len() as int));
        (rest.0, seq![stepped.1] + rest.1)
    }
}

/// Every event of the sequence is the one the machine awaits when it
/// arrives.
pub open spec fn trace_fits(t: VmTaskView, events: Seq<VmTaskEventView>) -> bool
    decreases events.len(),
{
    events.len() == 0 || (event_fits(t.phase, events[0]) && trace_fits(
        next_state(t, events[0]).0,
        events.subrange(1, events.len() as int),
    ))
}

/// How many delete-snapshot actions a trace holds.
pub open spec fn count_deletes(actions: Seq<VmTaskAction>) -> nat
    decreases actions.len(),
{
    if actions.len() == 0 {
        0
    } else {
        (if actions[0] is DeleteSnapshot {
            1nat
        } else {
            0nat
        }) + count_deletes(actions.subrange(1, actions.len() as int))
    }
}

/// The cleanup bookkeeping the machine maintains: the delete is issued at
/// most once, only for an engine-created snapshot, before the walk ends.
pub open spec fn cleanup_inv(t: VmTaskView) -> bool {
    &&& (t.deleted ==> t.engine_created)
    &&& match t.phase {
        VmTaskPhase::Ready => !t.engine_created && !t.deleted,
        VmTaskPhase::AwaitingSnapshots => !t.engine_created && !t.deleted,
        VmTaskPhase::AwaitingCreate => !t.engine_created && !t.deleted,
        VmTaskPhase::AwaitingDelete => t.deleted && t.engine_created,
        VmTaskPhase::Done => t.deleted <==> t.engine_created,
        _ => !t.deleted,
    }
}

/// One step preserves the cleanup bookkeeping, and emits a delete action
/// exactly when it flips the deleted flag.
proof fn lemma_step_cleanup(t: VmTaskView, e: VmTaskEventView)
    requires
        cleanup_inv(t),
        event_fits(t.phase, e),
    ensures
        cleanup_inv(next_state(t, e).0),
        next_state(t, e).0.engine_created ==> t.engine_created || e is SnapshotCreated,
        (next_state(t, e).1 is DeleteSnapshot) <==> (!t.deleted && next_state(t, e).0.deleted),
        t.deleted ==> next_state(t, e).0.deleted,
{
    match e {
        VmTaskEventView::Start => {},
        VmTaskEventView::SnapshotsListed(res) => match res {
            Ok(_) => {},
            Err(_) => {},
        },
        VmTaskEventView::SnapshotCreated(res) => match res {
            Ok(_) => {},
            Err(_) => {},
        },
        VmTaskEventView::MarkedNotTemplate(res) => match res {
            Ok(_) => {},
            Err(_) => {},
        },
        VmTaskEventView::Renamed(res) => match res {
            Ok(_) => {},
            Err(_) => {},
        },
        VmTaskEventView::Exported(res) => match res {
            Ok(_) => {},
            Err(_) => {},
        },
        VmTaskEventView::Rotated(res) => match res {
            Ok(_) => {},
            Err(_) => {},
        },
        VmTaskEventView::SnapshotDeleted(res) => match res {
            Ok(_) => {},
            Err(_) => {},
        },
    }
}

/// **Snapshot cleanup law**: along any complete run of a per-VM task, the
/// delete of the snapshot is requested exactly once if the engine created
/// it — whether the exports succeeded or failed — and never for a reused
/// existing snapshot.
pub proof fn lemma_snapshot_cleanup_exactly_once(t0: VmTaskView, events: Seq<VmTaskEventView>)
    requires
        cleanup_inv(t0),
        !t0.deleted,
        trace_fits(t0, events),
        run_trace(t0, events).0.phase is Done,
    ensures
        count_deletes(run_trace(t0, events).1) == if run_trace(t0, events).0.engine_created {
            1nat
        } else {
            0nat
        },
{
    lemma_trace_deletes(t0, events);
    let fin = run_trace(t0, events).0;
    assert(cleanup_inv(fin));
}

/// Along any fitting trace the number of delete actions is the change of
/// the deleted flag, and the bookkeeping holds of the final task.
proof fn lemma_trace_deletes(t0: VmTaskView, events: Seq<VmTaskEventView>)
    requires
        cleanup_inv(t0),
        trace_fits(t0, events),
    ensures
        cleanup_inv(run_trace(t0, events).0),
        count_deletes(run_trace(t0, events).1) + (if t0.deleted {
            1nat
        } else {
            0nat
        }) == (if run_trace(t0, events).0.deleted {
            1nat
        } else {
            0nat
        }),
    decreases events.len(),
{
    if events.len() == 0 {
    } else {
        let stepped = next_state(t0, events[0]);
        lemma_step_cleanup(t0, events[0]);
        let rest = events.subrange(1, events.len() as int);
        lemma_trace_deletes(stepped.0, rest);
        let whole = seq![stepped.1] + run_trace(stepped.0, rest).1;
        assert(whole.subrange(1, whole.len() as int) =~= run_trace(stepped.0, rest).1);
        assert(whole[0] == stepped.1);
    }
}

// --------------------------------------------------------------------------
// The concurrency bound
// --------------------------------------------------------------------------
/// The per-run concurrency bound as a permit counter: a task runs only
/// between a successful acquire and its release, so at every instant at
/// most `bound` tasks hold a permit.  The semaphore that carries the
/// fan-out enforces the same accounting while the tasks run.
#[derive(Debug, Clone, Copy, PartialEq, Eq, Structural)]
pub struct ConcurrencyGate {
    pub bound: u32,
    pub active: u32,
}

impl ConcurrencyGate {
    /// The number of admitted tasks never exceeds the bound.
    pub open spec fn wf(self) -> bool {
        self.active <= self.bound
    }

    pub fn new(bound: u32) -> (r: ConcurrencyGate)
        requires
            bound >= 1,
        ensures
            r.bound == bound,
            r.active == 0,
            r.wf(),
    {
        ConcurrencyGate { bound, active: 0 }
    }

    /// Admit one task if the bound allows it; the count never passes the
    /// bound.
    pub fn try_acquire(&mut self) -> (r: bool)
        requires
            old(self).wf(),
        ensures
            final(self).wf(),
            final(self).bound == old(self).bound,
            r == (old(self).active < old(self).bound),
            r ==> final(self).active == old(self).active + 1,
            !r ==> final(self).active == old(self).active,
    {
        if self.active < self.bound {
            self.active = self.active + 1;
            true
        } else {
            false
        }
    }

    /// Release one admitted task.
    pub fn release(&mut self)
        requires
            old(self).wf(),
            old(self).active > 0,
        ensures
            final(self).wf(),
            final(self).bound == old(self).bound,
            final(self).active == old(self).active - 1,
    {
        self.active = self.active - 1;
    }
}

// --------------------------------------------------------------------------
// The job and its aggregation
// --------------------------------------------------------------------------
/// How many outcomes of `rs` are successes.
pub open spec fn count_ok(rs: Seq<Result<(), Seq<char>>>) -> nat
    decreases rs.len(),
{
    if rs.len() == 0 {
        0
    } else {
        (if rs[0] is Ok {
            1nat
        } else {
            0nat
        }) + count_ok(rs.subrange(1, rs.len() as int))
    }
}

/// The mathematical image of a sequence of task outcomes.
pub open spec fn outcomes_view(rs: Seq<Result<(), String>>) -> Seq<Result<(), Seq<char>>> {
    Seq::new(rs.len(), |i: int| match rs[i] {
        Ok(_) => Ok(()),
        Err(m) => Err(m@),
    })
}

/// No more successes than outcomes.
proof fn lemma_count_ok_le(rs: Seq<Result<(), Seq<char>>>)
    ensures
        count_ok(rs) <= rs.len(),
    decreases rs.len(),
{
    if rs.len() > 0 {
        lemma_count_ok_le(rs.subrange(1, rs.len() as int));
    }
}

/// The error texts of `rs`, in order.
pub open spec fn err_texts(rs: Seq<Result<(), Seq<char>>>) -> Seq<Seq<char>>
    decreases rs.len(),
{
    if rs.len() == 0 {
        Seq::empty()
    } else {
        let tail = err_texts(rs.subrange(1, rs.len() as int));
        match rs[0] {
            Ok(_) => tail,
            Err(m) => seq![m] + tail,
        }
    }
}

/// One VM backup job and the statistics of its latest run.
#[derive(Debug)]
pub struct VmBackupJob {
    pub job_type: JobType,
    pub job_config: JobConfig,
    pub job_stats: XenbakJobStats,
    pub global_state: GlobalState,
}

impl XenbakJob for VmBackupJob {
    fn new(global_state: GlobalState, job_config: JobConfig) -> (r: VmBackupJob) {
        let stats_config = job_config.clone();
        VmBackupJob {
            job_type: JobType::VmBackup,
            job_stats: XenbakJobStats::new(stats_config),
            job_config,
            global_state,
        }
    }

    fn get_name(&self) -> String {
        self.job_config.name.clone()
    }

    fn get_job_type(&self) -> JobType {
        self.job_type
    }

    fn get_schedule(&self) -> String {
        self.job_config.schedule.clone()
    }

    fn get_job_stats(&self) -> XenbakJobStats {
        self.job_stats.clone()
    }
}

impl VmBackupJob {
    /// Open a fresh run: zeroed statistics around a snapshot of the
    /// configuration, with the resolved object count recorded.  Zero
    /// resolved objects is a warning for the caller, not an error.
    pub fn prepare_run(&mut self, total_objects: u32)
        ensures
            final(self).job_stats.config.equiv(old(self).job_config),
            final(self).job_stats.total_objects == total_objects,
            final(self).job_stats.successful_objects == 0,
            final(self).job_stats.failed_objects == 0,
            final(self).job_stats.duration == 0,
            final(self).job_stats.errors@.len() == 0,
            final(self).job_config == old(self).job_config,
            final(self).job_type == old(self).job_type,
            final(self).global_state == old(self).global_state,
    {
        let mut stats = XenbakJobStats::new(self.job_config.clone());
        stats.total_objects = total_objects;
        self.job_stats = stats;
    }

    /// **Aggregation**: fold the ordered per-task outcomes into the run's
    /// statistics — one success count per `Ok`, one failure count and one
    /// recorded error text per `Err`, nothing else changed.
    pub fn aggregate_results(&mut self, results: Vec<Result<(), String>>)
        requires
            old(self).job_stats.successful_objects + results@.len() <= u32::MAX,
            old(self).job_stats.failed_objects + results@.len() <= u32::MAX,
        ensures
            final(self).job_stats.successful_objects == old(self).job_stats.successful_objects
                + count_ok(outcomes_view(results@)),
            final(self).job_stats.failed_objects + count_ok(outcomes_view(results@)) == old(
                self,
            ).job_stats.failed_objects + results@.len(),
            final(self).job_stats.errors.deep_view() == old(self).job_stats.errors.deep_view()
                + err_texts(outcomes_view(results@)),
            final(self).job_stats.total_objects == old(self).job_stats.total_objects,
            final(self).job_stats.duration == old(self).job_stats.duration,
            final(self).job_stats.config == old(self).job_stats.config,
            final(self).job_config == old(self).job_config,
            final(self).job_type == old(self).job_type,
            final(self).global_state == old(self).global_state,
    {
        let ghost orig = outcomes_view(results@);
        let ghost succ0 = self.job_stats.successful_objects;
        let ghost fail0 = self.job_stats.failed_objects;
        let ghost errs0 = self.job_stats.errors.deep_view();
        let mut rem = results;
        proof {
            assert(outcomes_view(rem@) =~= orig);
        }
        proof {
            lemma_count_ok_le(orig);
        }
        while rem.len() > 0
            invariant
                count_ok(outcomes_view(rem@)) <= rem@.len(),
                rem@.len() <= orig.len(),
                count_ok(orig) <= orig.len(),
                succ0 + orig.len() <= u32::MAX,
                fail0 + orig.len() <= u32::MAX,
                self.job_stats.successful_objects + count_ok(outcomes_view(rem@)) == succ0
                    + count_ok(orig),
                self.job_stats.failed_objects + rem@.len() + count_ok(orig) == fail0
                    + orig.len() + count_ok(outcomes_view(rem@)),
                self.job_stats.errors.deep_view() + err_texts(outcomes_view(rem@)) == errs0
                    + err_texts(orig),
                self.job_stats.total_objects == old(self).job_stats.total_objects,
                self.job_stats.duration == old(self).job_stats.duration,
                self.job_stats.config == old(self).job_stats.config,
                self.job_config == old(self).job_config,
                self.job_type == old(self).job_type,
                self.global_state == old(self).global_state,
                succ0 == old(self).job_stats.successful_objects,
                fail0 == old(self).job_stats.failed_objects,
                errs0 == old(self).job_stats.errors.deep_view(),
            decreases rem.len(),
        {
            let ghost before = outcomes_view(rem@);
            let r = rem.remove(0);
            proof {
                lemma_count_ok_le(before);
                assert(outcomes_view(rem@) =~= before.subrange(1, before.len() as int));
                lemma_count_ok_le(outcomes_view(rem@));
                assert(count_ok(before) == (if before[0] is Ok { 1nat } else { 0nat })
                    + count_ok(outcomes_view(rem@)));
                assert(err_texts(before) == (match before[0] {
                    Ok(_) => Seq::<Seq<char>>::empty(),
                    Err(m) => seq![m],
                }) + err_texts(outcomes_view(rem@)));
            }
            match r {
                Ok(_) => {
                    self.job_stats.successful_objects = self.job_stats.successful_objects + 1;
                    proof {
                        assert(Seq::<Seq<char>>::empty() + err_texts(outcomes_view(rem@))
                            =~= err_texts(outcomes_view(rem@)));
                    }
                },
                Err(msg) => {
                    self.job_stats.failed_objects = self.job_stats.failed_objects + 1;
                    let ghost e_before = self.job_stats.errors.deep_view();
                    self.job_stats.errors.push(msg);
                    proof {
                        assert(self.job_stats.errors.deep_view() =~= e_before.push(
                            before[0]->Err_0,
                        ));
                        assert(e_before.push(before[0]->Err_0) + err_texts(outcomes_view(rem@))
                            =~= e_before + (seq![before[0]->Err_0] + err_texts(outcomes_view(
                            rem@,
                        ))));
                    }
                },
            }
        }
        proof {
            assert(count_ok(outcomes_view(rem@)) == 0);
            assert(err_texts(outcomes_view(rem@)) =~= Seq::<Seq<char>>::empty());
            assert(self.job_stats.errors.deep_view() + Seq::<Seq<char>>::empty()
                =~= self.job_stats.errors.deep_view());
        }
    }

    /// The result of the whole run: `Err` iff any object failed, even if
    /// some others went through; the statistics carry the full detail.
    pub fn run_result(&self) -> (r: Result<(), String>)
        ensures
            r is Err <==> self.job_stats.failed_objects > 0,
            r matches Err(m) ==> m@ == "Backup job failed."@,
    {
        if self.job_stats.failed_objects > 0 {
            Err("Backup job failed.".to_owned())
        } else {
            Ok(())
        }
    }

    /// Record the run's wall-clock duration, in whole seconds.
    pub fn record_duration(&mut self, secs: u64)
        ensures
            final(self).job_stats.duration == secs,
            final(self).job_stats.successful_objects == old(self).job_stats.successful_objects,
            final(self).job_stats.failed_objects == old(self).job_stats.failed_objects,
            final(self).job_stats.total_objects == old(self).job_stats.total_objects,
            final(self).job_stats.errors == old(self).job_stats.errors,
            final(self).job_stats.config == old(self).job_stats.config,
            final(self).job_config == old(self).job_config,
    {
        self.job_stats.duration = secs;
    }
}

} // verus!
