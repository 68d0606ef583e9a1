//! Parsing the hypervisor CLI's output and building its command lines.

use xenbakd::config::XenConfig;
use xenbakd::timestamp::parse_timestamp;
use xenbakd::xapi::{
    clean_stdout, exclude_uuids, parse_uuid, parse_uuids, SnapshotType, XApiCliClient, VM,
};

#[test]
fn clean_stdout_strips_margins_and_line_breaks() {
    assert_eq!(clean_stdout("  abc\n"), "abc");
    assert_eq!(clean_stdout("a\nb\r\nc"), "abc");
    assert_eq!(clean_stdout("\n\r\n  \n"), "");
    assert_eq!(clean_stdout("plain"), "plain");
}

#[test]
fn parses_a_single_identifier() {
    let u = parse_uuid("  12345678-aaaa-bbbb-cccc-1234567890ab\n").unwrap();
    assert_eq!(u, "12345678-aaaa-bbbb-cccc-1234567890ab");
    assert!(parse_uuid("").is_err());
    assert!(parse_uuid("not a uuid").is_err());
}

#[test]
fn parses_a_minimal_identifier_list() {
    let us = parse_uuids(
        "12345678-aaaa-bbbb-cccc-1234567890ab,00000000-1111-2222-3333-444444444444\n",
    )
    .unwrap();
    assert_eq!(us.len(), 2);
    assert_eq!(us[1], "00000000-1111-2222-3333-444444444444");
    assert!(parse_uuids("one,two,three").is_err());
}

#[test]
fn excludes_identifiers_carrying_excluded_tags() {
    let tagged = vec!["a".to_string(), "b".to_string(), "c".to_string()];
    let excluded = vec!["b".to_string(), "d".to_string()];
    assert_eq!(
        exclude_uuids(tagged, &excluded),
        vec!["a".to_string(), "c".to_string()]
    );
}

#[test]
fn parses_vm_param_list_output() {
    let output = "\
uuid ( RO)           : 11111111-2222-3333-4444-555555555555
name-label ( RW): web-01
name-description ( RW): main web server
is-a-template ( RW): false
is-default-template ( RW): false
is-a-snapshot ( RO): true
snapshot-time ( RO): 20240209T10:19:02Z
other-key ( RO): ignored
";
    let vm = VM::parse_cli_output(output).unwrap();
    assert_eq!(vm.uuid, "11111111-2222-3333-4444-555555555555");
    assert_eq!(vm.name_label, "web-01");
    assert_eq!(vm.name_description, "main web server");
    assert!(!vm.is_a_template);
    assert!(!vm.is_default_template);
    assert!(vm.is_a_snapshot);
    assert_eq!(vm.snapshot_time.secs, 1707473942);
}

#[test]
fn rejects_a_malformed_boolean() {
    let output = "is-a-template ( RW): maybe";
    assert!(VM::parse_cli_output(output).is_err());
}

#[test]
fn rejects_a_malformed_timestamp() {
    let output = "snapshot-time ( RO): yesterday";
    assert!(VM::parse_cli_output(output).is_err());
}

#[test]
fn lines_without_a_colon_are_skipped() {
    let vm = VM::parse_cli_output("no colon here\nname-label ( RW): db").unwrap();
    assert_eq!(vm.name_label, "db");
}

fn client() -> XApiCliClient {
    let mut cfg = XenConfig::default();
    cfg.name = "xen01".to_string();
    cfg.server = "xen01.example".to_string();
    cfg.username = "root".to_string();
    cfg.password = "SECRET-REDACTED".to_string();
    XApiCliClient::new(cfg)
}

#[test]
fn remote_servers_get_credential_arguments() {
    let c = client();
    assert_eq!(c.get_config().name, "xen01");
    assert_eq!(
        c.get_base_command(),
        vec![
            "-s".to_string(),
            "xen01.example".to_string(),
            "-u".to_string(),
            "root".to_string(),
            "-pw".to_string(),
            "SECRET-REDACTED".to_string(),
        ]
    );
}

#[test]
fn loopback_servers_need_no_credentials() {
    let mut cfg = XenConfig::default();
    cfg.server = "localhost".to_string();
    let c = XApiCliClient::new(cfg);
    assert_eq!(
        c.get_base_command(),
        vec!["-s".to_string(), "127.0.0.1".to_string()]
    );
}

#[test]
fn builds_the_tag_restricted_vm_list() {
    let c = client();
    let args = c.vm_list_args(&vec!["prod".to_string(), "nightly".to_string()]);
    let tail = &args[6..];
    assert_eq!(
        tail,
        &[
            "vm-list".to_string(),
            "tags:contains=prod,nightly".to_string(),
            "is-a-template=false".to_string(),
            "is-a-snapshot=false".to_string(),
            "is-control-domain=false".to_string(),
            "--minimal".to_string(),
        ]
    );
}

#[test]
fn builds_snapshot_and_export_commands() {
    let c = client();
    let uuid = "11111111-2222-3333-4444-555555555555".to_string();
    let args = c.snapshot_args(&uuid, SnapshotType::Normal);
    assert_eq!(
        &args[6..],
        &[
            "vm-snapshot".to_string(),
            format!("vm={}", uuid),
            "new-name-label=xenbakd-snapshot".to_string(),
        ]
    );
    let args = c.snapshot_args(&uuid, SnapshotType::Memory);
    assert_eq!(args[6], "vm-checkpoint");

    assert_eq!(
        &c.snapshot_list_args(&uuid)[6..],
        &[
            "snapshot-list".to_string(),
            format!("snapshot-of={}", uuid),
            "--minimal".to_string(),
        ]
    );
    assert_eq!(
        &c.set_snapshot_param_not_template_args(&uuid)[6..],
        &[
            "snapshot-param-set".to_string(),
            "is-a-template=false".to_string(),
            format!("uuid={}", uuid),
        ]
    );
    assert_eq!(
        &c.set_snapshot_name_args(&uuid, "web__label")[6..],
        &[
            "snapshot-param-set".to_string(),
            format!("uuid={}", uuid),
            "name-label=web__label".to_string(),
        ]
    );
    assert_eq!(
        &c.delete_snapshot_args(&uuid)[6..],
        &[
            "snapshot-uninstall".to_string(),
            format!("uuid={}", uuid),
            "force=true".to_string(),
        ]
    );
    assert_eq!(
        &c.vm_param_list_args(&uuid)[6..],
        &["vm-param-list".to_string(), format!("uuid={}", uuid)]
    );
    assert_eq!(
        &c.vm_export_args(&uuid)[6..],
        &[
            "vm-export".to_string(),
            format!("vm={}", uuid),
            "filename=".to_string(),
        ]
    );
}

#[test]
fn snapshot_type_tokens() {
    assert_eq!(SnapshotType::Normal.to_string(), "basic");
    assert_eq!(SnapshotType::Memory.to_string(), "memory");
}

#[test]
fn xe_timestamps_parse_to_utc_seconds() {
    assert_eq!(
        parse_timestamp("20240209T10:19:02Z").unwrap().secs,
        1707473942
    );
    assert!(parse_timestamp("not a time").is_err());
}
