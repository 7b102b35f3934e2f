use codexhub::daemon_process::{daemon_lock_path, daemon_metadata_path, lock_held_message, DaemonIdentity, DaemonMetadata};
use std::path::PathBuf;

#[test]
fn daemon_lock_path_follows_config_directory() {
    let config = PathBuf::from("root").join("config.toml");
    let config = config.to_str().unwrap();
    assert_eq!(
        PathBuf::from(daemon_lock_path(config)),
        PathBuf::from("root").join("codexhub-daemon.lock")
    );
    assert_eq!(
        PathBuf::from(daemon_metadata_path(config)),
        PathBuf::from("root").join("codexhub-daemon.json")
    );
}

#[test]
fn daemon_identity_requires_codexhub_service_and_instance() {
    let mut identity = DaemonIdentity::from_process(None, 4242, 1_700_000_000_000);
    assert!(identity.is_codexhub());
    identity.service = "other".to_string();
    assert!(!identity.is_codexhub());
}

#[test]
fn daemon_files_sit_in_current_directory_for_bare_config_name() {
    assert_eq!(PathBuf::from(daemon_lock_path("config.toml")), PathBuf::from(".").join("codexhub-daemon.lock"));
}

#[test]
fn daemon_identity_prefers_non_blank_environment_instance() {
    let identity = DaemonIdentity::from_process(Some("  abc  "), 7, 5);
    assert_eq!(identity.instance_id, "abc");
    assert_eq!(identity.service, "codexhub");
    assert_eq!(identity.pid, 7);
    assert_eq!(identity.started_at_ms, 5);
    let generated = DaemonIdentity::from_process(Some("   "), 7, u128::MAX);
    assert_eq!(generated.instance_id.len(), 36);
    assert_eq!(generated.started_at_ms, u64::MAX);
    assert!(generated.is_codexhub());
    let zero_pid = DaemonIdentity::from_process(None, 0, 0);
    assert!(!zero_pid.is_codexhub());
}

#[test]
fn daemon_metadata_sits_beside_the_lock() {
    for config in ["root/config.toml", "config.toml", "/etc/codexhub/config.toml", "a/b/c.toml"] {
        assert_eq!(
            PathBuf::from(daemon_metadata_path(config)),
            PathBuf::from(daemon_lock_path(config)).with_file_name("codexhub-daemon.json")
        );
    }
}

#[test]
fn lock_held_message_names_the_owner_when_known() {
    let metadata = DaemonMetadata {
        identity: DaemonIdentity {
            service: "codexhub".to_string(),
            pid: 4242,
            instance_id: "inst-1".to_string(),
            started_at_ms: 7,
        },
        executable: "/usr/bin/codexhub".to_string(),
        config_path: "/etc/codexhub/config.toml".to_string(),
    };
    assert_eq!(
        lock_held_message("/etc/codexhub/codexhub-daemon.lock", Some(&metadata), "would block"),
        "another CodexHub daemon holds `/etc/codexhub/codexhub-daemon.lock` (pid=4242 instance_id=inst-1): would block"
    );
    assert_eq!(
        lock_held_message("x.lock", None, "busy"),
        "another CodexHub daemon holds `x.lock` (owner=unknown): busy"
    );
}
