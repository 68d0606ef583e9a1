//! The artifact identity codec: encoding, decoding, and their inversion.

use xenbakd::error::DecodeError;
use xenbakd::jobs::JobType;
use xenbakd::storage::local::LocalCompressionType;
use xenbakd::storage::BackupObject;
use xenbakd::timestamp::{format_rfc3339, parse_rfc3339, Timestamp};

fn artifact(
    vm: &str,
    host: &str,
    secs: i64,
    compression: Option<LocalCompressionType>,
) -> BackupObject {
    BackupObject::new(
        JobType::VmBackup,
        vm.to_string(),
        host.to_string(),
        Timestamp::new(secs),
        compression,
    )
}

#[test]
fn encodes_the_documented_flat_name() {
    let a = artifact(
        "mail-server",
        "xen01",
        1707473942,
        Some(LocalCompressionType::Zstd),
    );
    assert_eq!(
        a.generate_name_with_extension(),
        "xen01__vm__mail-server__2024-02-09T10:19:02+00:00.xva.zst"
    );
    assert_eq!(
        a.generate_name_without_extension(),
        "xen01__vm__mail-server__2024-02-09T10:19:02+00:00"
    );
}

#[test]
fn encodes_without_compression() {
    let a = artifact("debian-01", "xen02", 1707478081, None);
    assert_eq!(
        a.generate_name_with_extension(),
        "xen02__vm__debian-01__2024-02-09T11:28:01+00:00.xva"
    );
}

#[test]
fn encoding_trims_configured_whitespace() {
    let a = artifact("debian-01  ", "  xen02", 1707478081, None);
    assert_eq!(
        a.generate_name_with_extension(),
        "xen02__vm__debian-01__2024-02-09T11:28:01+00:00.xva"
    );
}

#[test]
fn decodes_a_full_name() {
    let a = BackupObject::from_name_with_extension(
        "xen01__vm__mail-server__2024-02-09T10:19:02+00:00.xva.zst".to_string(),
    )
    .unwrap();
    assert_eq!(a.xen_host, "xen01");
    assert_eq!(a.job_type, JobType::VmBackup);
    assert_eq!(a.vm_name, "mail-server");
    assert_eq!(a.time_stamp.secs, 1707473942);
    assert_eq!(a.size, None);
    assert_eq!(a.compression, Some(LocalCompressionType::Zstd));
}

#[test]
fn decodes_gzip_suffix() {
    let a = BackupObject::from_name_with_extension(
        "xen01__vm__db__2024-02-09T10:19:02+00:00.xva.gz".to_string(),
    )
    .unwrap();
    assert_eq!(a.compression, Some(LocalCompressionType::Gzip));
}

#[test]
fn unknown_suffix_means_no_compression() {
    let a = BackupObject::from_name_with_extension(
        "xen01__vm__db__2024-02-09T10:19:02+00:00.xva".to_string(),
    )
    .unwrap();
    assert_eq!(a.compression, None);
}

#[test]
fn decodes_an_archive_entry_name() {
    let a = BackupObject::from_name_with_extension(
        "xen01__vm__db__2024-02-09T10:19:02+00:00".to_string(),
    )
    .unwrap();
    assert_eq!(a.vm_name, "db");
    assert_eq!(a.time_stamp.secs, 1707473942);
    assert_eq!(a.compression, None);
}

#[test]
fn round_trip_restores_every_field() {
    let a = artifact("db-07", "xen03", 1700000000, Some(LocalCompressionType::Gzip));
    let b = a.reencoded();
    assert_eq!(b.xen_host, a.xen_host);
    assert_eq!(b.vm_name, a.vm_name);
    assert_eq!(b.job_type, a.job_type);
    assert_eq!(b.time_stamp, a.time_stamp);
    assert_eq!(b.compression, a.compression);
    assert_eq!(b.size, None);
}

#[test]
fn round_trip_through_the_text() {
    let a = artifact("web", "h1", 0, None);
    let name = a.generate_name_with_extension();
    assert_eq!(name, "h1__vm__web__1970-01-01T00:00:00+00:00.xva");
    let b = BackupObject::from_name_with_extension(name).unwrap();
    assert_eq!(b.vm_name, "web");
    assert_eq!(b.time_stamp.secs, 0);
}

#[test]
fn rejects_wrong_field_count() {
    let r = BackupObject::from_name_with_extension(
        "vm__db__2024-02-09T10:19:02+00:00.xva".to_string(),
    );
    assert_eq!(r.unwrap_err(), DecodeError::MalformedName);
    let r = BackupObject::from_name_with_extension("no separators at all".to_string());
    assert_eq!(r.unwrap_err(), DecodeError::MalformedName);
    let r = BackupObject::from_name_with_extension(
        "a__vm__b__c__2024-02-09T10:19:02+00:00.xva".to_string(),
    );
    assert_eq!(r.unwrap_err(), DecodeError::MalformedName);
}

#[test]
fn rejects_unknown_job_kind_token() {
    let r = BackupObject::from_name_with_extension(
        "xen01__container__db__2024-02-09T10:19:02+00:00.xva".to_string(),
    );
    assert_eq!(r.unwrap_err(), DecodeError::UnknownJobType);
}

#[test]
fn rejects_unparsable_timestamp() {
    let r = BackupObject::from_name_with_extension("xen01__vm__db__not-a-time.xva".to_string());
    assert_eq!(r.unwrap_err(), DecodeError::BadTimestamp);
}

#[test]
fn job_kind_tokens_are_a_closed_mapping() {
    assert_eq!(JobType::VmBackup.to_string(), "vm");
    assert_eq!(JobType::from_str("vm").unwrap(), JobType::VmBackup);
    assert!(JobType::from_str("container").is_err());
    assert!(JobType::from_str("").is_err());
}

#[test]
fn compression_extension_tables() {
    assert_eq!(LocalCompressionType::Gzip.to_extension(), "gz");
    assert_eq!(LocalCompressionType::Zstd.to_extension(), "zst");
    assert_eq!(
        LocalCompressionType::from_extension("gz").unwrap(),
        LocalCompressionType::Gzip
    );
    assert_eq!(
        LocalCompressionType::from_extension("zst").unwrap(),
        LocalCompressionType::Zstd
    );
    assert!(LocalCompressionType::from_extension("xva").is_err());
    assert_eq!(LocalCompressionType::Gzip.to_cli_arg(), "gzip");
    assert_eq!(LocalCompressionType::Zstd.to_cli_arg(), "zstd");
}

#[test]
fn timestamps_render_and_reparse() {
    let s = format_rfc3339(Timestamp::new(1707473942));
    assert_eq!(s, "2024-02-09T10:19:02+00:00");
    assert_eq!(parse_rfc3339(&s).unwrap().secs, 1707473942);
    assert!(parse_rfc3339("not a time").is_none());
}
