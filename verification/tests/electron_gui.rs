use codexhub::bridge::attachment_root;
use codexhub::electron_gui::{daemon_base_url, npm_command};
use std::path::PathBuf;

#[test]
fn daemon_base_url_adds_scheme_and_drops_trailing_slashes() {
    assert_eq!(daemon_base_url("127.0.0.1:3847"), "http://127.0.0.1:3847");
    assert_eq!(daemon_base_url("127.0.0.1:3847//"), "http://127.0.0.1:3847");
    assert_eq!(daemon_base_url("https://example.com/"), "https://example.com");
    assert_eq!(daemon_base_url("http://h"), "http://h");
    assert_eq!(npm_command(true), "npm.cmd");
    assert_eq!(npm_command(false), "npm");
}

#[test]
fn attachments_sit_next_to_state() {
    let state = PathBuf::from("root").join("codexhub-state.json");
    assert_eq!(
        PathBuf::from(attachment_root(state.to_str().unwrap())),
        PathBuf::from("root").join(".im").join("attachments")
    );
    assert_eq!(PathBuf::from(attachment_root("state.json")), PathBuf::from(".im").join("attachments"));
}

#[test]
fn base_url_is_stable_once_normalized() {
    for bind in ["127.0.0.1:3847/", "https://example.com//", "http://h/x/"] {
        let once = daemon_base_url(bind);
        assert_eq!(daemon_base_url(&once), once);
    }
    assert_eq!(daemon_base_url("http://"), "http:");
}
