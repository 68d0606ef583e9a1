//! The retention/rotation engine: flat and tiered selection.

use xenbakd::jobs::JobType;
use xenbakd::retention::{rotation_victims, select_flat_victims, RetentionPolicy};
use xenbakd::storage::BackupObject;
use xenbakd::timestamp::Timestamp;

fn artifact(vm: &str, host: &str, secs: i64) -> BackupObject {
    BackupObject::new(
        JobType::VmBackup,
        vm.to_string(),
        host.to_string(),
        Timestamp::new(secs),
        None,
    )
}

#[test]
fn flat_boundary_deletes_exactly_the_two_oldest() {
    let objs = vec![
        artifact("db", "h", 500),
        artifact("db", "h", 100),
        artifact("db", "h", 400),
        artifact("db", "h", 300),
        artifact("db", "h", 200),
    ];
    let victims = select_flat_victims(&objs, 3);
    let mut times: Vec<i64> = victims.iter().map(|v| v.time_stamp.secs).collect();
    times.sort();
    assert_eq!(times, vec![100, 200]);
}

#[test]
fn flat_keeps_everything_at_or_under_the_count() {
    let objs = vec![
        artifact("db", "h", 1),
        artifact("db", "h", 2),
        artifact("db", "h", 3),
    ];
    assert_eq!(select_flat_victims(&objs, 3).len(), 0);
    assert_eq!(select_flat_victims(&objs, 7).len(), 0);
}

#[test]
fn flat_scopes_by_object_identity() {
    let objs = vec![
        artifact("a", "h", 10),
        artifact("b", "h", 20),
        artifact("a", "h", 30),
        artifact("b", "h", 40),
        artifact("a", "other-host", 5),
    ];
    // One artifact per object survives; the host is part of the identity.
    let victims = select_flat_victims(&objs, 1);
    let mut summary: Vec<(String, String, i64)> = victims
        .iter()
        .map(|v| (v.xen_host.clone(), v.vm_name.clone(), v.time_stamp.secs))
        .collect();
    summary.sort();
    assert_eq!(
        summary,
        vec![
            ("h".to_string(), "a".to_string(), 10),
            ("h".to_string(), "b".to_string(), 20),
        ]
    );
}

#[test]
fn flat_tie_break_is_stable_by_listing_order() {
    let objs = vec![artifact("db", "h", 100), artifact("db", "h", 100)];
    let victims = select_flat_victims(&objs, 1);
    // Equal timestamps: the earlier listing entry wins, the later one goes.
    assert_eq!(victims.len(), 1);
}

#[test]
fn flat_rotation_is_idempotent() {
    let objs = vec![
        artifact("db", "h", 500),
        artifact("db", "h", 100),
        artifact("db", "h", 400),
        artifact("db", "h", 300),
        artifact("db", "h", 200),
    ];
    let kept = xenbakd::retention::select_flat_kept(&objs, 3);
    assert_eq!(kept.len(), 3);
    let second = select_flat_victims(&kept, 3);
    assert_eq!(second.len(), 0);
}

const DAY: i64 = 86400;

#[test]
fn tiered_boundary_one_day_is_daily_not_weekly() {
    let now = Timestamp::new(400 * DAY);
    // Exactly one day old, and one second past a day.
    let objs = vec![
        artifact("db", "h", now.secs - DAY),
        artifact("db", "h", now.secs - DAY - 1),
    ];
    // Room for one daily artifact, none for weekly: whichever classifies
    // as weekly is deleted.
    let policy = RetentionPolicy::Tiered { daily: 1, weekly: 0, monthly: 1, yearly: 1 };
    let victims = rotation_victims(&objs, &policy, now);
    assert_eq!(victims.len(), 1);
    assert_eq!(victims[0].time_stamp.secs, now.secs - DAY - 1);
}

#[test]
fn tiered_boundary_seven_days_is_weekly_not_monthly() {
    let now = Timestamp::new(400 * DAY);
    let objs = vec![
        artifact("db", "h", now.secs - 7 * DAY),
        artifact("db", "h", now.secs - 7 * DAY - 1),
    ];
    let policy = RetentionPolicy::Tiered { daily: 1, weekly: 1, monthly: 0, yearly: 1 };
    let victims = rotation_victims(&objs, &policy, now);
    assert_eq!(victims.len(), 1);
    assert_eq!(victims[0].time_stamp.secs, now.secs - 7 * DAY - 1);
}

#[test]
fn tiered_keeps_the_oldest_per_bucket() {
    let now = Timestamp::new(1000 * DAY);
    let half_day = artifact("db", "h", now.secs - DAY / 2);
    let one_day = artifact("db", "h", now.secs - DAY);
    let three_days = artifact("db", "h", now.secs - 3 * DAY);
    let objs = vec![half_day, one_day, three_days];
    let policy = RetentionPolicy::Tiered { daily: 1, weekly: 1, monthly: 1, yearly: 1 };
    let victims = rotation_victims(&objs, &policy, now);
    // Both day-old artifacts are daily; the older one survives, the
    // younger one crowds the bucket.
    assert_eq!(victims.len(), 1);
    assert_eq!(victims[0].time_stamp.secs, now.secs - DAY / 2);
}

#[test]
fn tiered_never_deletes_beyond_a_year() {
    let now = Timestamp::new(1000 * DAY);
    let objs = vec![
        artifact("db", "h", now.secs - 366 * DAY),
        artifact("db", "h", now.secs - 500 * DAY),
    ];
    let policy = RetentionPolicy::Tiered { daily: 0, weekly: 0, monthly: 0, yearly: 1 };
    let victims = rotation_victims(&objs, &policy, now);
    assert_eq!(victims.len(), 0);
}

#[test]
fn tiered_all_zero_policy_is_a_no_op() {
    let now = Timestamp::new(1000 * DAY);
    let objs = vec![
        artifact("db", "h", now.secs - DAY),
        artifact("db", "h", now.secs - 2 * DAY),
        artifact("db", "h", now.secs - 3 * DAY),
    ];
    let policy = RetentionPolicy::Tiered { daily: 0, weekly: 0, monthly: 0, yearly: 0 };
    assert_eq!(rotation_victims(&objs, &policy, now).len(), 0);
}

#[test]
fn flat_policy_through_the_dispatcher() {
    let now = Timestamp::new(1000 * DAY);
    let objs = vec![
        artifact("db", "h", 100),
        artifact("db", "h", 200),
        artifact("db", "h", 300),
    ];
    let victims = rotation_victims(&objs, &RetentionPolicy::FlatCount(1), now);
    let mut times: Vec<i64> = victims.iter().map(|v| v.time_stamp.secs).collect();
    times.sort();
    assert_eq!(times, vec![100, 200]);
}
