//! The monitoring helpers and the configuration defaults.

use xenbakd::config::{
    AppConfig, GeneralConfig, HealthchecksConfig, JobConfig, MailConfig, MonitoringConfig,
    StorageConfig, XenConfig,
};
use xenbakd::error::{DecodeError, XApiCliError, XApiParseError};
use xenbakd::jobs::XenbakJobStats;
use xenbakd::monitoring::healthchecks::{
    check_request_for, check_schedule, ping_path, ping_uuid, HealthchecksCheckInfo,
};
use xenbakd::monitoring::mail::{mail_recipients, mail_subject, needs_credentials};
use xenbakd::monitoring::{outcome_notification, NotificationKind};

#[test]
fn schedule_drops_the_seconds_field() {
    assert_eq!(check_schedule("0 0 2 * * *"), "0 2 * * *");
    assert_eq!(check_schedule("  0  15 3 * * 1  "), "15 3 * * 1");
    assert_eq!(check_schedule(""), "");
    assert_eq!(check_schedule("only"), "");
}

#[test]
fn check_registration_request_shape() {
    let mut job = JobConfig::default();
    job.name = "nightly".to_string();
    job.schedule = "0 30 2 * * *".to_string();
    let r = check_request_for(&job, 7200);
    assert_eq!(r.name, "nightly");
    assert_eq!(r.slug, "nightly");
    assert_eq!(r.tags, "");
    assert_eq!(r.schedule, "30 2 * * *");
    assert_eq!(r.grace, 7200);
    assert_eq!(r.timeout, 86400);
    assert_eq!(r.unique, vec!["name".to_string()]);
}

#[test]
fn ping_paths_follow_the_signal() {
    let check = HealthchecksCheckInfo {
        name: "nightly".to_string(),
        slug: "nightly".to_string(),
        ping_url: "https://hc-ping.com/ping/abcd-1234".to_string(),
    };
    assert_eq!(ping_uuid(&check), "abcd-1234");
    assert_eq!(
        ping_path(&check, NotificationKind::Start),
        "/ping/abcd-1234/start"
    );
    assert_eq!(ping_path(&check, NotificationKind::Success), "/ping/abcd-1234");
    assert_eq!(
        ping_path(&check, NotificationKind::Failure),
        "/ping/abcd-1234/fail"
    );
}

#[test]
fn outcome_notification_follows_the_failure_count() {
    let mut stats = XenbakJobStats::new(JobConfig::default());
    assert_eq!(outcome_notification(&stats), NotificationKind::Success);
    stats.failed_objects = 1;
    assert_eq!(outcome_notification(&stats), NotificationKind::Failure);
}

#[test]
fn mail_subjects_and_recipients() {
    assert_eq!(
        mail_subject(true, "nightly", "backup01"),
        "Success: Backup Job 'nightly' on host 'backup01'"
    );
    assert_eq!(
        mail_subject(false, "nightly", "backup01"),
        "Failure: Backup Job 'nightly' on host 'backup01'"
    );
    assert_eq!(
        mail_recipients(&vec!["a@x".to_string(), "b@x".to_string()]),
        "a@x, b@x"
    );
    assert_eq!(mail_recipients(&vec!["a@x".to_string()]), "a@x");
    assert!(!needs_credentials("", ""));
    assert!(needs_credentials("user", ""));
    assert!(needs_credentials("", "SECRET-REDACTED"));
}

#[test]
fn configuration_defaults_match_the_documented_values() {
    let g = GeneralConfig::default();
    assert_eq!(g.log_level, "info");
    assert_eq!(g.hostname, "localhost");

    let x = XenConfig::default();
    assert_eq!(x.server, "localhost");

    let h = HealthchecksConfig::default();
    assert!(!h.enabled);
    assert_eq!(h.server, "https://hc-ping.com");
    assert_eq!(h.grace, 7200);
    assert_eq!(h.max_retries, 3);

    let m = MailConfig::default();
    assert!(!m.enabled);
    assert_eq!(m.smtp_port, 587);

    let mon = MonitoringConfig::default();
    assert!(!mon.mail.enabled && !mon.healthchecks.enabled);

    let j = JobConfig::default();
    assert!(!j.enabled);
    assert_eq!(j.schedule, "0 0 0 * * *");
    assert_eq!(j.concurrency, 1);
    assert_eq!(j.retention, 7);
    assert!(!j.use_existing_snapshot);

    let s = StorageConfig::default();
    assert!(s.local.is_empty() && s.borg.is_empty());

    let a = AppConfig::default();
    assert!(a.xen.is_empty() && a.jobs.is_empty());
}

#[test]
fn job_host_linking_filters_by_name() {
    let mut job = JobConfig::default();
    job.xen_hosts = vec!["xen01".to_string(), "xen03".to_string()];
    let mut h1 = XenConfig::default();
    h1.name = "xen01".to_string();
    let mut h2 = XenConfig::default();
    h2.name = "xen02".to_string();
    let mut h3 = XenConfig::default();
    h3.name = "xen03".to_string();
    let picked = job.get_xen_configs(vec![h1, h2, h3]);
    let names: Vec<String> = picked.iter().map(|x| x.name.clone()).collect();
    assert_eq!(names, vec!["xen01".to_string(), "xen03".to_string()]);
}

#[test]
fn error_renderings_carry_their_payloads() {
    assert_eq!(
        XApiCliError::CommandFailed("boom".to_string()).describe(),
        "'xe' cli-command failed: boom"
    );
    assert_eq!(
        XApiCliError::SnapshotFailure("no space".to_string()).describe(),
        "Failed to create snapshot: no space"
    );
    assert_eq!(
        XApiCliError::XApiParseError(XApiParseError::EmptyOutput).describe(),
        "Failed to parse cli stdout to struct: Empty output"
    );
    assert_eq!(
        XApiParseError::TimestampParseError.describe(),
        "Failed to parse xen timestamp"
    );
    assert!(DecodeError::MalformedName.describe().len() > 0);
}
