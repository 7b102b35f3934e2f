use codexhub::chain_log::{
    active_path, diagnostic_enabled, format_line, is_codexhub_log_path, rotated_file_name, rotated_path,
    should_flush, should_write_default, utf8_len_saturating, write_diagnostic_lazy, write_line, ChainLog,
};
use std::path::PathBuf;

#[test]
fn default_filter_keeps_problems_only() {
    assert!(should_write_default("[event] level=WARN kind=x", false));
    assert!(should_write_default("request failed", false));
    assert!(should_write_default("got an Error here", false));
    assert!(!should_write_default("connected", false));
    assert!(should_write_default("connected", true));
    assert!(should_flush("Timeout waiting"));
    assert!(!should_flush("got an error here"));
}

#[test]
fn write_line_decides_write_and_flush() {
    let log = ChainLog::new("codexhub-chain.log".to_string(), false, 100, 0);
    assert_eq!(write_line(Some(&log), "connected"), None);
    assert_eq!(write_line(Some(&log), "x err=boom"), Some(true));
    assert_eq!(write_line(Some(&log), "an error occurred"), Some(false));
    assert_eq!(write_line(None, "x err=boom"), None);
    let diag = ChainLog::new("p".to_string(), true, 0, 0);
    assert_eq!(write_line(Some(&diag), "connected"), Some(false));
    assert!(diagnostic_enabled(Some(&diag)));
    assert!(!diagnostic_enabled(Some(&log)));
    assert!(!diagnostic_enabled(None));
    assert_eq!(active_path(Some(&log)), Some("codexhub-chain.log".to_string()));
    assert_eq!(write_diagnostic_lazy(Some(&diag), || "built".to_string()), Some("built".to_string()));
    assert_eq!(write_diagnostic_lazy(Some(&log), || panic!("must not build")), None);
}

#[test]
fn rotation_and_written_bytes() {
    let mut log = ChainLog::new("p".to_string(), false, 30, 0);
    assert!(!log.needs_rotation());
    log.record_write("héllo");
    assert_eq!(log.written_bytes, 6 + 24);
    assert!(log.needs_rotation());
    log.rotated(false);
    assert_eq!(log.written_bytes, 0);
    log.record_write("ignored while no file is open");
    assert_eq!(log.written_bytes, 0);
    log.cleared();
    assert!(log.file_open);
    let mut full = ChainLog::new("p".to_string(), false, 0, u64::MAX - 3);
    full.record_write("abc");
    assert_eq!(full.written_bytes, u64::MAX);
    assert!(!full.needs_rotation());
    assert_eq!(utf8_len_saturating("a😀"), 5);
}

#[test]
fn line_text_and_file_names() {
    assert_eq!(format_line(1700000000123, "hello"), "[ts_ms=1700000000123] hello");
    assert!(is_codexhub_log_path(Some("codexhub-chain.log.1")));
    assert!(!is_codexhub_log_path(Some("CodexHub-chain.log")));
    assert!(!is_codexhub_log_path(None));
    assert_eq!(rotated_file_name(Some("codexhub-chain.log")), "codexhub-chain.log.1");
    assert_eq!(rotated_file_name(None), "codexhub-chain.log.1");
    let path = PathBuf::from("dir").join("codexhub-chain.log");
    assert_eq!(
        PathBuf::from(rotated_path(path.to_str().unwrap())),
        PathBuf::from("dir").join("codexhub-chain.log.1")
    );
}
