//! The deduplicating-archive repository backend: compression and encryption
//! kinds, retention counts, and the pure part of its behaviour (archive
//! naming, command building, rotation selection).

use vstd::prelude::*;

use crate::config::{BorgStorageConfig, JobConfig};
use crate::error::{DecodeError, StorageError};
use crate::retention::{victims_of, RetentionPolicy};
use crate::storage::{
    base_name_of, decoded, list_from_file_names, listed, BackupObject, BackupObjectFilter,
    BackupObjectView, StorageHandler, StorageType,
};
use crate::text::{contains_seq, contains_str};
use crate::timestamp::Timestamp;

verus! {

/// Compression the archive repository applies.
#[derive(Debug, Clone, Copy, PartialEq, Eq, Structural)]
pub enum BorgCompressionType {
    LZ4,
    Zstd,
}

/// The dotted name suffix of `c`.
pub open spec fn bct_extension(c: BorgCompressionType) -> Seq<char> {
    match c {
        BorgCompressionType::LZ4 => seq!['l', 'z', '4'],
        BorgCompressionType::Zstd => seq!['z', 's', 't'],
    }
}

/// The inverse of `bct_extension`: `None` on unknown suffixes.
pub open spec fn bct_of_extension(s: Seq<char>) -> Option<BorgCompressionType> {
    if s == bct_extension(BorgCompressionType::LZ4) {
        Some(BorgCompressionType::LZ4)
    } else if s == bct_extension(BorgCompressionType::Zstd) {
        Some(BorgCompressionType::Zstd)
    } else {
        None
    }
}

/// The command-line token of `c`.
pub open spec fn bct_cli_arg(c: BorgCompressionType) -> Seq<char> {
    match c {
        BorgCompressionType::LZ4 => seq!['l', 'z', '4'],
        BorgCompressionType::Zstd => seq!['z', 's', 't', 'd'],
    }
}

impl BorgCompressionType {
    /// The dotted suffix this compression kind would carry in a flat name.
    pub fn to_extension(&self) -> (r: String)
        ensures
            r@ == bct_extension(*self),
    {
        let r = match self {
            BorgCompressionType::LZ4 => "lz4",
            BorgCompressionType::Zstd => "zst",
        };
        proof {
            reveal_strlit("lz4");
            reveal_strlit("zst");
            assert(r@ =~= bct_extension(*self));
        }
        r.to_owned()
    }

    /// The inverse of `to_extension`; unknown suffixes are rejected.
    pub fn from_extension(extension: &str) -> (r: Result<BorgCompressionType, ()>)
        ensures
            r matches Ok(c) ==> bct_of_extension(extension@) == Some(c),
            r is Err ==> bct_of_extension(extension@) is None,
    {
        let lz4 = "lz4";
        let zst = "zst";
        proof {
            reveal_strlit("lz4");
            reveal_strlit("zst");
            assert(lz4@ =~= bct_extension(BorgCompressionType::LZ4));
            assert(zst@ =~= bct_extension(BorgCompressionType::Zstd));
        }
        let owned = extension.to_owned();
        if owned == lz4.to_owned() {
            Ok(BorgCompressionType::LZ4)
        } else if owned == zst.to_owned() {
            Ok(BorgCompressionType::Zstd)
        } else {
            Err(())
        }
    }

    /// The token handed to the archiver's `--compression` option.
    pub fn to_cli_arg(&self) -> (r: String)
        ensures
            r@ == bct_cli_arg(*self),
    {
        let r = match self {
            BorgCompressionType::LZ4 => "lz4",
            BorgCompressionType::Zstd => "zstd",
        };
        proof {
            reveal_strlit("lz4");
            reveal_strlit("zstd");
            assert(r@ =~= bct_cli_arg(*self));
        }
        r.to_owned()
    }
}

/// Repository encryption modes.
#[derive(Debug, Clone, Copy, PartialEq, Eq, Structural)]
pub enum BorgEncryptionType {
    Repokey,
    RepokeyBlake2,
}

/// The command-line token of `e`.
pub open spec fn bet_cli_arg(e: BorgEncryptionType) -> Seq<char> {
    match e {
        BorgEncryptionType::Repokey => "repokey"@,
        BorgEncryptionType::RepokeyBlake2 => "repokey-blake2"@,
    }
}

impl BorgEncryptionType {
    /// The token handed to the archiver's `--encryption` option.
    pub fn to_string(&self) -> (r: String)
        ensures
            r@ == bet_cli_arg(*self),
    {
        let r = match self {
            BorgEncryptionType::Repokey => "repokey",
            BorgEncryptionType::RepokeyBlake2 => "repokey-blake2",
        };
        r.to_owned()
    }
}

/// Age-bucketed retention counts for an archive repository backend.
#[derive(Debug, Clone, Copy, PartialEq, Eq, Structural)]
pub struct BorgStorageRetention {
    pub daily: u32,
    pub weekly: u32,
    pub monthly: u32,
    pub yearly: u32,
}

/// One environment assignment of an archiver invocation.
#[derive(Debug)]
pub struct EnvVar {
    pub name: String,
    pub value: String,
}

/// Mathematical image of one environment assignment.
#[verifier::ext_equal]
pub struct EnvVarView {
    pub name: Seq<char>,
    pub value: Seq<char>,
}

impl DeepView for EnvVar {
    type V = EnvVarView;

    open spec fn deep_view(&self) -> EnvVarView {
        EnvVarView { name: self.name@, value: self.value@ }
    }
}

/// One archiver invocation: its environment and its arguments.
#[derive(Debug)]
pub struct BorgCommand {
    pub env: Vec<EnvVar>,
    pub args: Vec<String>,
}

/// The deduplicating-archive repository backend: artifacts are archive
/// entries named by the identity codec without extensions.  The archiver
/// process runs outside the library; these methods build every command and
/// decide every deletion.
#[derive(Debug)]
pub struct BorgLocalStorage {
    pub storage_type: StorageType,
    pub storage_config: BorgStorageConfig,
    pub job_config: JobConfig,
}

impl StorageHandler for BorgLocalStorage {
    fn get_storage_type(&self) -> (r: StorageType)
        ensures
            r == self.storage_type,
    {
        self.storage_type
    }

    fn get_job_config(&self) -> (r: JobConfig)
        ensures
            r.equiv(self.job_config),
    {
        self.job_config.clone()
    }
}

/// The ssh command the archiver uses when a key is configured.
pub open spec fn rsh_of(key_path: Seq<char>) -> Seq<char> {
    "ssh -o StrictHostKeyChecking=no -i "@ + key_path
}

impl BorgLocalStorage {
    pub fn new(storage_config: BorgStorageConfig, job_config: JobConfig) -> (r:
        BorgLocalStorage)
        ensures
            r.storage_type == StorageType::Borg,
            r.storage_config == storage_config,
            r.job_config == job_config,
    {
        BorgLocalStorage { storage_type: StorageType::Borg, storage_config, job_config }
    }

    /// The archive entry name of `backup_object`: the flat name without
    /// extensions.
    pub fn backup_object_to_archive_name(&self, backup_object: BackupObject) -> (r: String)
        requires
            0 <= backup_object.time_stamp.secs <= crate::timestamp::MAX_TIMESTAMP_SECS,
        ensures
            r@ == base_name_of(backup_object.deep_view()),
    {
        backup_object.generate_name_without_extension()
    }

    /// The artifact an archive entry name stands for; an entry name the
    /// codec cannot decode is rejected, not a panic.
    pub fn archive_name_to_backup_object(&self, archive_name: String) -> (r: Result<
        BackupObject,
        DecodeError,
    >)
        ensures
            crate::storage::decoded_view(r) == decoded(archive_name@),
    {
        BackupObject::from_name_with_extension(archive_name)
    }

    /// The remote-shell override handed to the archiver when an ssh key is
    /// configured.
    pub fn get_rsh_env(&self) -> (r: Option<String>)
        ensures
            match self.storage_config.ssh_key_path {
                Some(_) => r matches Some(v) && v@ == rsh_of(
                    self.storage_config.ssh_key_path->Some_0@,
                ),
                None => r is None,
            },
    {
        match &self.storage_config.ssh_key_path {
            Some(ssh_key_path) => {
                let mut v = "ssh -o StrictHostKeyChecking=no -i ".to_owned();
                v.append(ssh_key_path.as_str());
                proof {
                    assert(v@ =~= rsh_of(self.storage_config.ssh_key_path->Some_0@));
                }
                Some(v)
            },
            None => None,
        }
    }

    /// The environment and standing arguments of every archiver
    /// invocation: the repository, the consent to unencrypted access, the
    /// remote shell when a key is configured, and a generous lock wait.
    pub fn borg_base_cmd(&self) -> (r: BorgCommand)
        ensures
            r.env.deep_view().len() == (if self.storage_config.ssh_key_path is Some {
                3int
            } else {
                2int
            }),
            r.env.deep_view()[0] == (EnvVarView {
                name: "BORG_REPO"@,
                value: self.storage_config.repository@,
            }),
            r.env.deep_view()[1] == (EnvVarView {
                name: "BORG_UNKNOWN_UNENCRYPTED_REPO_ACCESS_IS_OK"@,
                value: "yes"@,
            }),
            self.storage_config.ssh_key_path matches Some(k) ==> r.env.deep_view()[2] == (
            EnvVarView { name: "BORG_RSH"@, value: rsh_of(k@) }),
            r.args.deep_view() == seq!["--lock-wait"@, "300"@],
    {
        let mut env: Vec<EnvVar> = Vec::new();
        env.push(
            EnvVar {
                name: "BORG_REPO".to_owned(),
                value: self.storage_config.repository.clone(),
            },
        );
        env.push(
            EnvVar {
                name: "BORG_UNKNOWN_UNENCRYPTED_REPO_ACCESS_IS_OK".to_owned(),
                value: "yes".to_owned(),
            },
        );
        match self.get_rsh_env() {
            Some(rsh) => {
                env.push(EnvVar { name: "BORG_RSH".to_owned(), value: rsh });
            },
            None => {},
        }
        let mut args: Vec<String> = Vec::new();
        args.push("--lock-wait".to_owned());
        args.push("300".to_owned());
        proof {
            assert(args.deep_view() =~= seq!["--lock-wait"@, "300"@]);
        }
        BorgCommand { env, args }
    }

    /// The arguments initializing the repository, with the configured
    /// encryption or none.
    pub fn init_args(&self) -> (r: Vec<String>)
        ensures
            r.deep_view() == seq![
                "init"@,
                "--encryption"@,
                (match self.storage_config.encryption {
                    Some(e) => bet_cli_arg(e),
                    None => "none"@,
                }),
            ],
    {
        let mut args: Vec<String> = Vec::new();
        args.push("init".to_owned());
        args.push("--encryption".to_owned());
        match &self.storage_config.encryption {
            Some(e) => args.push(e.to_string()),
            None => args.push("none".to_owned()),
        }
        proof {
            assert(args.deep_view() =~= seq![
                "init"@,
                "--encryption"@,
                (match self.storage_config.encryption {
                    Some(e) => bet_cli_arg(e),
                    None => "none"@,
                }),
            ]);
        }
        args
    }

    /// What repository initialization means for the run: a clean exit
    /// prepares the backend, an "already exists" refusal is success —
    /// initialization is idempotent — and anything else is fatal for this
    /// backend.
    pub fn init_outcome(&self, success: bool, stderr: &str) -> (r: Result<(), StorageError>)
        ensures
            success ==> r is Ok,
            !success && contains_seq(stderr@, "repository already exists"@) ==> r is Ok,
            !success && !contains_seq(stderr@, "repository already exists"@) ==> (r matches Err(
                e,
            ) && e matches StorageError::Init(m) && m@ == stderr@),
    {
        if success {
            return Ok(());
        }
        if contains_str(stderr, "repository already exists") {
            return Ok(());
        }
        Err(StorageError::Init(stderr.to_owned()))
    }

    /// The arguments archiving the spooled export under its entry name,
    /// with the configured compression.
    pub fn create_args(&self, archive_name: &String, temp_path: &String) -> (r: Vec<String>)
        ensures
            r.deep_view() == (match self.storage_config.compression {
                Some(c) => seq![
                    "create"@,
                    "--compression"@,
                    bct_cli_arg(c),
                    "::"@ + archive_name@,
                    temp_path@,
                ],
                None => seq!["create"@, "::"@ + archive_name@, temp_path@],
            }),
    {
        let mut args: Vec<String> = Vec::new();
        args.push("create".to_owned());
        match &self.storage_config.compression {
            Some(c) => {
                args.push("--compression".to_owned());
                args.push(c.to_cli_arg());
            },
            None => {},
        }
        let mut entry = "::".to_owned();
        entry.append(archive_name.as_str());
        args.push(entry);
        args.push(temp_path.clone());
        proof {
            assert(args.deep_view() =~= (match self.storage_config.compression {
                Some(c) => seq![
                    "create"@,
                    "--compression"@,
                    bct_cli_arg(c),
                    "::"@ + archive_name@,
                    temp_path@,
                ],
                None => seq!["create"@, "::"@ + archive_name@, temp_path@],
            }));
        }
        args
    }

    /// The arguments deleting one archive entry.
    pub fn delete_args(&self, archive_name: &String) -> (r: Vec<String>)
        ensures
            r.deep_view() == seq!["delete"@, "::"@ + archive_name@],
    {
        let mut args: Vec<String> = Vec::new();
        args.push("delete".to_owned());
        let mut entry = "::".to_owned();
        entry.append(archive_name.as_str());
        args.push(entry);
        proof {
            assert(args.deep_view() =~= seq!["delete"@, "::"@ + archive_name@]);
        }
        args
    }

    /// Apply the backend's tiered retention to the archive entries
    /// matching `filter`, evaluating ages at `now`, and give back the
    /// entry names to delete.  A policy whose four counts are all zero is
    /// an explicit no-op.
    pub fn rotate(&self, archive_names: Vec<String>, filter: &BackupObjectFilter, now: Timestamp) -> (r: Vec<String>)
        ensures
            r.deep_view() == archive_victim_names(
                victims_of(
                    listed(archive_names.deep_view(), filter.deep_view()),
                    RetentionPolicy::Tiered {
                        daily: self.storage_config.retention.daily,
                        weekly: self.storage_config.retention.weekly,
                        monthly: self.storage_config.retention.monthly,
                        yearly: self.storage_config.retention.yearly,
                    },
                    now.secs,
                ),
            ),
    {
        let ghost names = archive_names.deep_view();
        let candidates = list_from_file_names(archive_names, filter);
        let policy = RetentionPolicy::Tiered {
            daily: self.storage_config.retention.daily,
            weekly: self.storage_config.retention.weekly,
            monthly: self.storage_config.retention.monthly,
            yearly: self.storage_config.retention.yearly,
        };
        let victims = crate::retention::rotation_victims(&candidates, &policy, now);
        proof {
            crate::storage::lemma_listed_times_wf(names, filter.deep_view());
            crate::retention::lemma_victims_come_from_listing(
                candidates.deep_view(),
                policy,
                now.secs,
            );
            assert forall|j: int| 0 <= j < victims@.len() implies 0 <= #[trigger] victims@[
                j
            ].time_stamp.secs <= crate::timestamp::MAX_TIMESTAMP_SECS by {
                let v = victims.deep_view()[j];
                assert(candidates.deep_view().contains(v));
                let w = choose|w: int|
                    0 <= w < candidates.deep_view().len() && candidates.deep_view()[w] == v;
                assert(victims@[j].time_stamp.secs == v.time_stamp);
            }
        }
        let ghost vdeep = victims.deep_view();
        let mut out: Vec<String> = Vec::new();
        let mut i: usize = 0;
        while i < victims.len()
            invariant
                i <= victims@.len(),
                vdeep == victims.deep_view(),
                forall|j: int|
                    0 <= j < victims@.len() ==> 0 <= #[trigger] victims@[j].time_stamp.secs
                        <= crate::timestamp::MAX_TIMESTAMP_SECS,
                out.deep_view() =~= archive_victim_names(vdeep).take(i as int),
            decreases victims@.len() - i,
        {
            proof {
                assert(victims.deep_view()[i as int] == victims@[i as int].deep_view());
            }
            let name = self.backup_object_to_archive_name(victims[i].clone());
            let ghost o_before = out.deep_view();
            out.push(name);
            proof {
                assert(out.deep_view() =~= o_before.push(base_name_of(vdeep[i as int])));
                assert(out.deep_view() =~= archive_victim_names(vdeep).take(i + 1));
            }
            i = i + 1;
        }
        proof {
            assert(archive_victim_names(vdeep).take(vdeep.len() as int) =~= archive_victim_names(
                vdeep,
            ));
        }
        out
    }
}

/// The archive entry names of the marked artifacts.
pub open spec fn archive_victim_names(vs: Seq<BackupObjectView>) -> Seq<Seq<char>> {
    Seq::new(vs.len(), |i: int| base_name_of(vs[i]))
}

} // verus!
