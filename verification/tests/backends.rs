//! The storage backend contract, checked through the in-memory backend and
//! the pure methods of the file and archive backends.

use xenbakd::config::{BorgStorageConfig, JobConfig, LocalStorageConfig};
use xenbakd::jobs::JobType;
use xenbakd::retention::RetentionPolicy;
use xenbakd::storage::borg::BorgLocalStorage;
use xenbakd::storage::local::{LocalCompressionType, LocalStorage};
use xenbakd::storage::memory::MemoryStorage;
use xenbakd::storage::{BackupObject, BackupObjectFilter, StorageHandler, StorageType};
use xenbakd::timestamp::Timestamp;

fn artifact(vm: &str, host: &str, secs: i64) -> BackupObject {
    BackupObject::new(
        JobType::VmBackup,
        vm.to_string(),
        host.to_string(),
        Timestamp::new(secs),
        None,
    )
}

fn empty_filter() -> BackupObjectFilter {
    BackupObjectFilter {
        job_type: None,
        vm_name: None,
        xen_host: None,
        time_stamp: None,
        compression: None,
    }
}

fn memory_store(retention: u32) -> MemoryStorage {
    MemoryStorage::new(JobConfig::default(), RetentionPolicy::FlatCount(retention))
}

#[test]
fn stores_and_lists_an_artifact() {
    let mut store = memory_store(7);
    store
        .handle_stdio_stream(artifact("db", "h1", 1000), vec![1, 2, 3], vec![])
        .unwrap();
    let listed = store.list(&empty_filter());
    assert_eq!(listed.len(), 1);
    assert_eq!(listed[0].vm_name, "db");
    assert_eq!(listed[0].xen_host, "h1");
    assert_eq!(listed[0].time_stamp.secs, 1000);
}

#[test]
fn nonempty_error_stream_leaves_no_artifact_behind() {
    let mut store = memory_store(7);
    let r = store.handle_stdio_stream(artifact("db", "h1", 1000), vec![1, 2, 3], vec![b'x']);
    assert!(r.is_err());
    // The write itself succeeded, yet nothing remains in the backend.
    assert_eq!(store.list(&empty_filter()).len(), 0);
}

#[test]
fn list_applies_every_filter_field_conjunctively() {
    let mut store = memory_store(7);
    store
        .handle_stdio_stream(artifact("x", "h1", 1000), vec![], vec![])
        .unwrap();
    store
        .handle_stdio_stream(artifact("y", "h1", 2000), vec![], vec![])
        .unwrap();
    store
        .handle_stdio_stream(artifact("x", "h2", 3000), vec![], vec![])
        .unwrap();

    let mut filter = empty_filter();
    filter.job_type = Some(vec![JobType::VmBackup]);
    filter.vm_name = Some(vec!["x".to_string()]);
    let listed = store.list(&filter);
    assert_eq!(listed.len(), 2);
    assert!(listed.iter().all(|a| a.vm_name == "x"));

    filter.xen_host = Some(vec!["h2".to_string()]);
    let listed = store.list(&filter);
    assert_eq!(listed.len(), 1);
    assert_eq!(listed[0].xen_host, "h2");

    // An empty filter returns all stored artifacts.
    assert_eq!(store.list(&empty_filter()).len(), 3);
}

#[test]
fn list_applies_timestamp_bounds() {
    let mut store = memory_store(7);
    store
        .handle_stdio_stream(artifact("x", "h", 1000), vec![], vec![])
        .unwrap();
    store
        .handle_stdio_stream(artifact("x", "h", 2000), vec![], vec![])
        .unwrap();
    let mut filter = empty_filter();
    filter.time_stamp = Some((None, Some(Timestamp::new(1500))));
    let listed = store.list(&filter);
    assert_eq!(listed.len(), 1);
    assert_eq!(listed[0].time_stamp.secs, 1000);
}

#[test]
fn rotate_deletes_the_losers_and_nothing_outside_the_filter() {
    let mut store = memory_store(1);
    store
        .handle_stdio_stream(artifact("db", "h", 1000), vec![], vec![])
        .unwrap();
    store
        .handle_stdio_stream(artifact("db", "h", 2000), vec![], vec![])
        .unwrap();
    store
        .handle_stdio_stream(artifact("other", "h", 500), vec![], vec![])
        .unwrap();

    let mut filter = empty_filter();
    filter.vm_name = Some(vec!["db".to_string()]);
    let deleted = store.rotate(&filter, Timestamp::new(10_000));
    assert_eq!(deleted.len(), 1);
    assert_eq!(deleted[0].time_stamp.secs, 1000);

    let remaining = store.list(&empty_filter());
    assert_eq!(remaining.len(), 2);
    assert!(remaining
        .iter()
        .any(|a| a.vm_name == "db" && a.time_stamp.secs == 2000));
    assert!(remaining
        .iter()
        .any(|a| a.vm_name == "other" && a.time_stamp.secs == 500));
}

#[test]
fn rotate_twice_deletes_nothing_the_second_time() {
    let mut store = memory_store(2);
    for secs in [1000, 2000, 3000, 4000, 5000] {
        store
            .handle_stdio_stream(artifact("db", "h", secs), vec![], vec![])
            .unwrap();
    }
    let first = store.rotate(&empty_filter(), Timestamp::new(10_000));
    assert_eq!(first.len(), 3);
    let second = store.rotate(&empty_filter(), Timestamp::new(10_000));
    assert_eq!(second.len(), 0);
    assert_eq!(store.list(&empty_filter()).len(), 2);
}

#[test]
fn initialize_is_an_idempotent_no_op() {
    let mut store = memory_store(7);
    assert!(store.initialize().is_ok());
    assert!(store.initialize().is_ok());
    assert_eq!(store.get_storage_type(), StorageType::Local);
}

#[test]
fn local_backend_names_files_by_its_configured_compression() {
    let mut cfg = LocalStorageConfig::default();
    cfg.path = "/backups".to_string();
    cfg.compression = Some(LocalCompressionType::Zstd);
    let mut job = JobConfig::default();
    job.name = "nightly".to_string();
    let backend = LocalStorage::new(cfg, job);
    assert_eq!(backend.path, "/backups/nightly");
    assert_eq!(backend.get_storage_type(), StorageType::Local);
    let name = backend.backup_object_to_file_name(artifact("db", "h", 1707473942));
    assert_eq!(name, "h__vm__db__2024-02-09T10:19:02+00:00.xva.zst");
    let back = backend.file_name_to_backup_object(name).unwrap();
    assert_eq!(back.vm_name, "db");
    assert_eq!(back.compression, Some(LocalCompressionType::Zstd));
}

#[test]
fn local_rotate_returns_the_full_paths_of_the_losers() {
    let mut cfg = LocalStorageConfig::default();
    cfg.path = "/backups".to_string();
    cfg.retention = 1;
    let mut job = JobConfig::default();
    job.name = "nightly".to_string();
    let backend = LocalStorage::new(cfg, job);
    let names = vec![
        "h__vm__db__2024-02-09T10:19:02+00:00.xva".to_string(),
        "h__vm__db__2024-02-09T11:28:01+00:00.xva".to_string(),
        "not a backup file".to_string(),
    ];
    let filter = empty_filter();
    let listed = backend.list(names.clone(), &filter);
    assert_eq!(listed.len(), 2);
    let paths = backend.rotate(names, &filter, Timestamp::new(1_800_000_000));
    assert_eq!(
        paths,
        vec!["/backups/nightly/h__vm__db__2024-02-09T10:19:02+00:00.xva".to_string()]
    );
}

#[test]
fn borg_backend_builds_its_commands() {
    let mut cfg = BorgStorageConfig::default();
    cfg.repository = "user@host:repo".to_string();
    cfg.ssh_key_path = Some("/keys/id".to_string());
    let backend = BorgLocalStorage::new(cfg, JobConfig::default());
    assert_eq!(backend.get_storage_type(), StorageType::Borg);

    assert_eq!(
        backend.get_rsh_env().unwrap(),
        "ssh -o StrictHostKeyChecking=no -i /keys/id"
    );

    let cmd = backend.borg_base_cmd();
    assert_eq!(cmd.env.len(), 3);
    assert_eq!(cmd.env[0].name, "BORG_REPO");
    assert_eq!(cmd.env[0].value, "user@host:repo");
    assert_eq!(cmd.env[1].name, "BORG_UNKNOWN_UNENCRYPTED_REPO_ACCESS_IS_OK");
    assert_eq!(cmd.env[1].value, "yes");
    assert_eq!(cmd.env[2].name, "BORG_RSH");
    assert_eq!(cmd.args, vec!["--lock-wait".to_string(), "300".to_string()]);

    assert_eq!(
        backend.init_args(),
        vec!["init".to_string(), "--encryption".to_string(), "none".to_string()]
    );

    let archive = backend.backup_object_to_archive_name(artifact("db", "h", 1707473942));
    assert_eq!(archive, "h__vm__db__2024-02-09T10:19:02+00:00");
    assert_eq!(
        backend.delete_args(&archive),
        vec![
            "delete".to_string(),
            "::h__vm__db__2024-02-09T10:19:02+00:00".to_string()
        ]
    );
    let create = backend.create_args(&archive, &"/tmp/spool".to_string());
    assert_eq!(
        create,
        vec![
            "create".to_string(),
            "::h__vm__db__2024-02-09T10:19:02+00:00".to_string(),
            "/tmp/spool".to_string()
        ]
    );
}

#[test]
fn borg_init_accepts_an_existing_repository() {
    let backend = BorgLocalStorage::new(BorgStorageConfig::default(), JobConfig::default());
    assert!(backend.init_outcome(true, "").is_ok());
    assert!(backend
        .init_outcome(false, "borg: repository already exists at location")
        .is_ok());
    assert!(backend.init_outcome(false, "permission denied").is_err());
}

#[test]
fn borg_rotate_selects_by_its_tiered_policy() {
    const DAY: i64 = 86400;
    let mut cfg = BorgStorageConfig::default();
    cfg.retention.daily = 1;
    cfg.retention.weekly = 1;
    cfg.retention.monthly = 1;
    cfg.retention.yearly = 1;
    let backend = BorgLocalStorage::new(cfg, JobConfig::default());
    let now = 20_000 * DAY;
    let older = artifact("db", "h", now - DAY);
    let younger = artifact("db", "h", now - DAY / 2);
    let names = vec![
        backend.backup_object_to_archive_name(older),
        backend.backup_object_to_archive_name(younger.clone()),
    ];
    let victims = backend.rotate(names, &empty_filter(), Timestamp::new(now));
    assert_eq!(victims, vec![backend.backup_object_to_archive_name(younger)]);
}
