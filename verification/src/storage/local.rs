//! The plain-file directory backend: compression kinds and the pure part of
//! its behaviour (naming, listing, rotation selection).

use vstd::prelude::*;

use crate::config::{JobConfig, LocalStorageConfig};
use crate::error::DecodeError;
use crate::retention::{victims_of, RetentionPolicy};
use crate::storage::{
    decoded, full_name_of, list_from_file_names, listed, BackupObject, BackupObjectFilter,
    BackupObjectView, StorageHandler, StorageType,
};
use crate::text::push_char;
use crate::timestamp::Timestamp;

verus! {

/// Compression applied by the plain-file backend, and the compression kinds
/// that dotted name suffixes decode to.
#[derive(Debug, Clone, Copy, PartialEq, Eq, Structural)]
pub enum LocalCompressionType {
    Gzip,
    Zstd,
}

/// The dotted name suffix of `c`.
pub open spec fn lct_extension(c: LocalCompressionType) -> Seq<char> {
    match c {
        LocalCompressionType::Gzip => seq!['g', 'z'],
        LocalCompressionType::Zstd => seq!['z', 's', 't'],
    }
}

/// The inverse of `lct_extension`: `None` on unknown suffixes.
pub open spec fn lct_of_extension(s: Seq<char>) -> Option<LocalCompressionType> {
    if s == lct_extension(LocalCompressionType::Gzip) {
        Some(LocalCompressionType::Gzip)
    } else if s == lct_extension(LocalCompressionType::Zstd) {
        Some(LocalCompressionType::Zstd)
    } else {
        None
    }
}

/// The command-line token of `c`.
pub open spec fn lct_cli_arg(c: LocalCompressionType) -> Seq<char> {
    match c {
        LocalCompressionType::Gzip => seq!['g', 'z', 'i', 'p'],
        LocalCompressionType::Zstd => seq!['z', 's', 't', 'd'],
    }
}

impl LocalCompressionType {
    /// The dotted suffix appended behind the base extension.
    pub fn to_extension(&self) -> (r: String)
        ensures
            r@ == lct_extension(*self),
    {
        let r = match self {
            LocalCompressionType::Gzip => "gz",
            LocalCompressionType::Zstd => "zst",
        };
        proof {
            reveal_strlit("gz");
            reveal_strlit("zst");
            assert(r@ =~= lct_extension(*self));
        }
        r.to_owned()
    }

    /// The inverse of `to_extension`; an unknown suffix is rejected, which a
    /// decoder reads as "no compression".
    pub fn from_extension(extension: &str) -> (r: Result<LocalCompressionType, ()>)
        ensures
            r matches Ok(c) ==> lct_of_extension(extension@) == Some(c),
            r is Err ==> lct_of_extension(extension@) is None,
    {
        let gz = "gz";
        let zst = "zst";
        proof {
            reveal_strlit("gz");
            reveal_strlit("zst");
            assert(gz@ =~= lct_extension(LocalCompressionType::Gzip));
            assert(zst@ =~= lct_extension(LocalCompressionType::Zstd));
        }
        let owned = extension.to_owned();
        if owned == gz.to_owned() {
            Ok(LocalCompressionType::Gzip)
        } else if owned == zst.to_owned() {
            Ok(LocalCompressionType::Zstd)
        } else {
            Err(())
        }
    }

    /// The token handed to compressing command lines.
    pub fn to_cli_arg(&self) -> (r: String)
        ensures
            r@ == lct_cli_arg(*self),
    {
        let r = match self {
            LocalCompressionType::Gzip => "gzip",
            LocalCompressionType::Zstd => "zstd",
        };
        proof {
            reveal_strlit("gzip");
            reveal_strlit("zstd");
            assert(r@ =~= lct_cli_arg(*self));
        }
        r.to_owned()
    }
}

/// Age-bucketed retention counts for a plain-file backend.
#[derive(Debug, Clone, Copy, PartialEq, Eq, Structural)]
pub struct LocalStorageRetention {
    pub daily: u32,
    pub weekly: u32,
    pub monthly: u32,
    pub yearly: u32,
}

/// The artifact `a` as this backend names it: the backend's configured
/// compression decides the dotted suffix, whatever the record carried.
pub open spec fn with_compression(a: BackupObjectView, c: Option<LocalCompressionType>) -> BackupObjectView {
    BackupObjectView { compression: c, ..a }
}

/// `dir`, a slash, and `name`.
pub open spec fn joined_path(dir: Seq<char>, name: Seq<char>) -> Seq<char> {
    dir + seq!['/'] + name
}

/// The full paths of the named artifacts under `dir`.
pub open spec fn victim_paths(
    dir: Seq<char>,
    vs: Seq<BackupObjectView>,
    c: Option<LocalCompressionType>,
) -> Seq<Seq<char>> {
    Seq::new(vs.len(), |i: int| joined_path(dir, full_name_of(with_compression(vs[i], c))))
}

/// The plain-file directory backend: artifacts are files under one job
/// directory, named by the identity codec.  The file I/O happens outside
/// the library; these methods decide every name, every listing and every
/// deletion.
#[derive(Debug)]
pub struct LocalStorage {
    /// The job's directory: the configured path plus the job name.
    pub path: String,
    pub storage_type: StorageType,
    pub storage_config: LocalStorageConfig,
    pub job_config: JobConfig,
}

impl StorageHandler for LocalStorage {
    fn get_storage_type(&self) -> (r: StorageType)
        ensures
            r == self.storage_type,
    {
        self.storage_type
    }

    fn get_job_config(&self) -> (r: JobConfig)
        ensures
            r.equiv(self.job_config),
    {
        self.job_config.clone()
    }
}

impl LocalStorage {
    /// A backend rooted at the configured path's job subdirectory.
    pub fn new(storage_config: LocalStorageConfig, job_config: JobConfig) -> (r: LocalStorage)
        ensures
            r.path@ == joined_path(storage_config.path@, job_config.name@),
            r.storage_type == StorageType::Local,
            r.storage_config == storage_config,
            r.job_config == job_config,
    {
        let mut path = storage_config.path.clone();
        push_char(&mut path, '/');
        path.append(job_config.name.as_str());
        proof {
            assert(path@ =~= joined_path(storage_config.path@, job_config.name@));
        }
        LocalStorage { path, storage_type: StorageType::Local, storage_config, job_config }
    }

    /// The file name this backend stores `backup_object` under: the flat
    /// name with the backend's configured compression suffix.
    pub fn backup_object_to_file_name(&self, backup_object: BackupObject) -> (r: String)
        requires
            0 <= backup_object.time_stamp.secs <= crate::timestamp::MAX_TIMESTAMP_SECS,
        ensures
            r@ == full_name_of(
                with_compression(backup_object.deep_view(), self.storage_config.compression),
            ),
    {
        let renamed = BackupObject {
            compression: self.storage_config.compression,
            ..backup_object
        };
        renamed.generate_name_with_extension()
    }

    /// The artifact a stored file name stands for; a name the codec cannot
    /// decode is rejected, not a panic.
    pub fn file_name_to_backup_object(&self, file_name: String) -> (r: Result<
        BackupObject,
        DecodeError,
    >)
        ensures
            crate::storage::decoded_view(r) == decoded(file_name@),
    {
        BackupObject::from_name_with_extension(file_name)
    }

    /// Every stored artifact that decodes and passes every present field
    /// of `filter`, given the file names of the job directory; an
    /// undecodable name is skipped, not an error.
    pub fn list(&self, file_names: Vec<String>, filter: &BackupObjectFilter) -> (r: Vec<
        BackupObject,
    >)
        ensures
            r.deep_view() == listed(file_names.deep_view(), filter.deep_view()),
    {
        list_from_file_names(file_names, filter)
    }

    /// Apply the backend's keep-N retention to the artifacts matching
    /// `filter` and give back the full paths of the files to delete: per
    /// object, everything but the `retention` newest.
    pub fn rotate(&self, file_names: Vec<String>, filter: &BackupObjectFilter, now: Timestamp) -> (r: Vec<String>)
        ensures
            r.deep_view() == victim_paths(
                self.path@,
                victims_of(
                    listed(file_names.deep_view(), filter.deep_view()),
                    RetentionPolicy::FlatCount(self.storage_config.retention),
                    now.secs,
                ),
                self.storage_config.compression,
            ),
    {
        let ghost names = file_names.deep_view();
        let candidates = list_from_file_names(file_names, filter);
        let policy = RetentionPolicy::FlatCount(self.storage_config.retention);
        let victims = crate::retention::rotation_victims(&candidates, &policy, now);
        proof {
            crate::storage::lemma_listed_times_wf(names, filter.deep_view());
            crate::retention::lemma_victims_come_from_listing(
                candidates.deep_view(),
                policy,
                now.secs,
            );
            assert forall|j: int| 0 <= j < victims@.len() implies 0 <= #[trigger] victims@[
                j
            ].time_stamp.secs <= crate::timestamp::MAX_TIMESTAMP_SECS by {
                let v = victims.deep_view()[j];
                assert(candidates.deep_view().contains(v));
                let w = choose|w: int|
                    0 <= w < candidates.deep_view().len() && candidates.deep_view()[w] == v;
                assert(victims@[j].time_stamp.secs == v.time_stamp);
            }
        }
        let ghost vdeep = victims.deep_view();
        let mut paths: Vec<String> = Vec::new();
        let mut i: usize = 0;
        while i < victims.len()
            invariant
                i <= victims@.len(),
                vdeep == victims.deep_view(),
                forall|j: int|
                    0 <= j < victims@.len() ==> 0 <= #[trigger] victims@[j].time_stamp.secs
                        <= crate::timestamp::MAX_TIMESTAMP_SECS,
                paths.deep_view() =~= victim_paths(
                    self.path@,
                    vdeep,
                    self.storage_config.compression,
                ).take(i as int),
            decreases victims@.len() - i,
        {
            proof {
                assert(victims.deep_view()[i as int] == victims@[i as int].deep_view());
            }
            let name = self.backup_object_to_file_name(victims[i].clone());
            let mut full = self.path.clone();
            push_char(&mut full, '/');
            full.append(name.as_str());
            proof {
                assert(full@ =~= joined_path(
                    self.path@,
                    full_name_of(
                        with_compression(vdeep[i as int], self.storage_config.compression),
                    ),
                ));
            }
            let ghost p_before = paths.deep_view();
            paths.push(full);
            proof {
                assert(paths.deep_view() =~= p_before.push(
                    joined_path(
                        self.path@,
                        full_name_of(
                            with_compression(vdeep[i as int], self.storage_config.compression),
                        ),
                    ),
                ));
                assert(paths.deep_view() =~= victim_paths(
                    self.path@,
                    vdeep,
                    self.storage_config.compression,
                ).take(i + 1));
            }
            i = i + 1;
        }
        proof {
            assert(victim_paths(self.path@, vdeep, self.storage_config.compression).take(
                vdeep.len() as int,
            ) =~= victim_paths(self.path@, vdeep, self.storage_config.compression));
        }
        paths
    }
}

} // verus!
