//! The in-memory storage backend: the whole storage contract realized on
//! plain values, with nothing trusted.
//!
//! It stores artifacts as (flat name, bytes) pairs and gives the lifecycle
//! operations their exact meaning: `initialize` is an idempotent no-op,
//! `list` decodes and filters the stored names, `rotate` deletes exactly
//! what the retention engine marks and nothing outside the filter's scope,
//! and `handle_stdio_stream` keeps no partial artifact when the error
//! stream is non-empty.  Tests run the contract through this backend.

use vstd::prelude::*;

use crate::config::{contains_string, JobConfig};
use crate::error::StorageError;
use crate::retention::{rotation_victims, victims_of, RetentionPolicy};
use crate::storage::{
    full_name_of, list_from_file_names, listed, BackupObject, BackupObjectFilter,
    BackupObjectView, StorageHandler, StorageType,
};
use crate::timestamp::{Timestamp, MAX_TIMESTAMP_SECS};

verus! {

/// Mathematical image of one stored entry.
#[verifier::ext_equal]
pub struct MemoryEntryView {
    pub name: Seq<char>,
    pub data: Seq<u8>,
}

/// One stored artifact: its flat name and its bytes.
#[derive(Debug)]
pub struct MemoryEntry {
    pub name: String,
    pub data: Vec<u8>,
}

impl DeepView for MemoryEntry {
    type V = MemoryEntryView;

    open spec fn deep_view(&self) -> MemoryEntryView {
        MemoryEntryView { name: self.name@, data: self.data@ }
    }
}

/// The flat names of the stored entries, in storage order.
pub open spec fn names_of(entries: Seq<MemoryEntryView>) -> Seq<Seq<char>> {
    Seq::new(entries.len(), |i: int| entries[i].name)
}

/// The flat names of the artifacts `vs`, with extensions.
pub open spec fn full_names_of(vs: Seq<BackupObjectView>) -> Seq<Seq<char>> {
    Seq::new(vs.len(), |i: int| full_name_of(vs[i]))
}

/// The entries of `entries` whose name is not among `names`.
pub open spec fn purged(entries: Seq<MemoryEntryView>, names: Seq<Seq<char>>) -> Seq<
    MemoryEntryView,
>
    decreases entries.len(),
{
    if entries.len() == 0 {
        Seq::empty()
    } else {
        let tail = purged(entries.subrange(1, entries.len() as int), names);
        if names.contains(entries[0].name) {
            tail
        } else {
            seq![entries[0]] + tail
        }
    }
}

/// A storage backend held entirely in memory.
#[derive(Debug)]
pub struct MemoryStorage {
    pub job_config: JobConfig,
    pub policy: RetentionPolicy,
    pub entries: Vec<MemoryEntry>,
}

impl StorageHandler for MemoryStorage {
    fn get_storage_type(&self) -> (r: StorageType)
        ensures
            r == StorageType::Local,
    {
        StorageType::Local
    }

    fn get_job_config(&self) -> (r: JobConfig)
        ensures
            r.equiv(self.job_config),
    {
        self.job_config.clone()
    }
}

impl MemoryStorage {
    /// An empty backend under the given configuration and policy.
    pub fn new(job_config: JobConfig, policy: RetentionPolicy) -> (r: MemoryStorage)
        ensures
            r.job_config == job_config,
            r.policy == policy,
            r.entries@.len() == 0,
    {
        MemoryStorage { job_config, policy, entries: Vec::new() }
    }

    /// Idempotently prepare the backend.  The in-memory store needs no
    /// preparation; the operation never fails and changes nothing.
    pub fn initialize(&mut self) -> (r: Result<(), StorageError>)
        ensures
            r is Ok,
            *final(self) == *old(self),
    {
        Ok(())
    }

    /// Every stored artifact that decodes and passes every present field
    /// of `filter`; an undecodable name is skipped, not an error.
    pub fn list(&self, filter: &BackupObjectFilter) -> (r: Vec<BackupObject>)
        ensures
            r.deep_view() == listed(names_of(self.entries.deep_view()), filter.deep_view()),
    {
        let mut names: Vec<String> = Vec::new();
        let mut i: usize = 0;
        while i < self.entries.len()
            invariant
                i <= self.entries@.len(),
                names.deep_view() =~= names_of(self.entries.deep_view()).take(i as int),
            decreases self.entries@.len() - i,
        {
            let ghost nbefore = names.deep_view();
            names.push(self.entries[i].name.clone());
            proof {
                assert(names.deep_view() =~= nbefore.push(self.entries@[i as int].name@));
                assert(names_of(self.entries.deep_view())[i as int] == self.entries@[
                    i as int
                ].name@);
                assert(names.deep_view() =~= names_of(self.entries.deep_view()).take(i + 1));
            }
            i = i + 1;
        }
        proof {
            assert(names_of(self.entries.deep_view()).take(
                names_of(self.entries.deep_view()).len() as int,
            ) =~= names_of(self.entries.deep_view()));
        }
        list_from_file_names(names, filter)
    }

    /// Accept one export: the artifact's bytes on the out stream and
    /// whatever the exporter wrote on its error stream.  **Atomicity**: any
    /// content on the error stream is a failure even though the write
    /// itself succeeded, and no partial artifact remains in the store;
    /// otherwise the artifact is durable under its encoded name.
    pub fn handle_stdio_stream(
        &mut self,
        backup_object: BackupObject,
        stdout_stream: Vec<u8>,
        stderr_stream: Vec<u8>,
    ) -> (r: Result<(), StorageError>)
        requires
            0 <= backup_object.time_stamp.secs <= MAX_TIMESTAMP_SECS,
        ensures
            stderr_stream@.len() > 0 ==> r is Err && *final(self) == *old(self),
            stderr_stream@.len() == 0 ==> r is Ok && final(self).entries.deep_view() == old(
                self,
            ).entries.deep_view().push(
                MemoryEntryView {
                    name: full_name_of(backup_object.deep_view()),
                    data: stdout_stream@,
                },
            ) && final(self).job_config == old(self).job_config && final(self).policy == old(
                self,
            ).policy,
    {
        if stderr_stream.len() > 0 {
            let msg = "error encountered in stderr output";
            proof {
                reveal_strlit("error encountered in stderr output");
            }
            return Err(StorageError::StreamConsumption(msg.to_owned()));
        }
        let name = backup_object.generate_name_with_extension();
        let ghost before = self.entries.deep_view();
        self.entries.push(MemoryEntry { name, data: stdout_stream });
        proof {
            assert(self.entries.deep_view() =~= before.push(
                MemoryEntryView {
                    name: full_name_of(backup_object.deep_view()),
                    data: stdout_stream@,
                },
            ));
        }
        Ok(())
    }

    /// Apply the configured retention policy to the artifacts matching
    /// `filter`, evaluating ages at the call instant `now`: the artifacts
    /// the engine marks — and only those — are translated back into their
    /// flat names through the codec and removed.  Nothing outside the
    /// filter's scope is touched, and the marked artifacts are returned.
    pub fn rotate(&mut self, filter: &BackupObjectFilter, now: Timestamp) -> (r: Vec<
        BackupObject,
    >)
        ensures
            r.deep_view() == victims_of(
                listed(names_of(old(self).entries.deep_view()), filter.deep_view()),
                old(self).policy,
                now.secs,
            ),
            final(self).entries.deep_view() == purged(
                old(self).entries.deep_view(),
                full_names_of(r.deep_view()),
            ),
            final(self).job_config == old(self).job_config,
            final(self).policy == old(self).policy,
    {
        let candidates = self.list(filter);
        let victims = rotation_victims(&candidates, &self.policy, now);
        proof {
            crate::storage::lemma_listed_times_wf(
                names_of(self.entries.deep_view()),
                filter.deep_view(),
            );
            crate::retention::lemma_victims_come_from_listing(
                candidates.deep_view(),
                self.policy,
                now.secs,
            );
            assert forall|j: int| 0 <= j < victims@.len() implies 0 <= #[trigger] victims@[
                j
            ].time_stamp.secs <= MAX_TIMESTAMP_SECS by {
                let v = victims.deep_view()[j];
                assert(candidates.deep_view().contains(v));
                let w = choose|w: int|
                    0 <= w < candidates.deep_view().len() && candidates.deep_view()[w] == v;
                assert(victims@[j].time_stamp.secs == v.time_stamp);
            }
        }
        let mut victim_names: Vec<String> = Vec::new();
        let mut i: usize = 0;
        while i < victims.len()
            invariant
                i <= victims@.len(),
                forall|j: int|
                    0 <= j < victims@.len() ==> 0 <= #[trigger] victims@[j].time_stamp.secs
                        <= MAX_TIMESTAMP_SECS,
                victim_names.deep_view() =~= full_names_of(victims.deep_view()).take(i as int),
            decreases victims@.len() - i,
        {
            proof {
                assert(victims.deep_view()[i as int] == victims@[i as int].deep_view());
            }
            let ghost vn_before = victim_names.deep_view();
            let n = victims[i].generate_name_with_extension();
            victim_names.push(n);
            proof {
                assert(victim_names.deep_view() =~= vn_before.push(n@));
                assert(full_names_of(victims.deep_view())[i as int] == full_name_of(
                    victims.deep_view()[i as int],
                ));
                assert(victim_names.deep_view() =~= full_names_of(victims.deep_view()).take(
                    i + 1,
                ));
            }
            i = i + 1;
        }
        proof {
            assert(full_names_of(victims.deep_view()).take(
                full_names_of(victims.deep_view()).len() as int,
            ) =~= full_names_of(victims.deep_view()));
        }
        let ghost vnames = full_names_of(victims.deep_view());
        let ghost orig = self.entries.deep_view();
        let mut kept: Vec<MemoryEntry> = Vec::new();
        proof {
            assert(kept.deep_view() + purged(orig, vnames) =~= purged(orig, vnames));
        }
        while self.entries.len() > 0
            invariant
                victim_names.deep_view() == vnames,
                self.job_config == old(self).job_config,
                self.policy == old(self).policy,
                purged(orig, vnames) == kept.deep_view() + purged(
                    self.entries.deep_view(),
                    vnames,
                ),
            decreases self.entries@.len(),
        {
            let ghost before = self.entries.deep_view();
            let ghost kept_before = kept.deep_view();
            let e = self.entries.remove(0);
            proof {
                assert(self.entries.deep_view() =~= before.subrange(1, before.len() as int));
                assert(before[0] == e.deep_view());
            }
            if contains_string(&victim_names, &e.name) {
                proof {
                    assert(vnames.contains(before[0].name));
                    assert(purged(before, vnames) == purged(
                        self.entries.deep_view(),
                        vnames,
                    ));
                }
            } else {
                proof {
                    assert(!vnames.contains(before[0].name));
                    assert(purged(before, vnames) == seq![before[0]] + purged(
                        self.entries.deep_view(),
                        vnames,
                    ));
                }
                kept.push(e);
                proof {
                    assert(kept.deep_view() =~= kept_before.push(before[0]));
                    assert(kept.deep_view() + purged(self.entries.deep_view(), vnames)
                        =~= purged(orig, vnames));
                }
            }
        }
        proof {
            assert(purged(self.entries.deep_view(), vnames) =~= Seq::<MemoryEntryView>::empty());
            assert(kept.deep_view() + Seq::<MemoryEntryView>::empty() =~= kept.deep_view());
        }
        self.entries = kept;
        victims
    }
}

} // verus!
