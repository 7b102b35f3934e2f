use codexhub::diagnostics_export::{
    connection_status_snapshot, is_codexhub_connection_log, is_im_runtime_status_key, is_sensitive_key,
    log_dir_for_state_path, redact_key_value_field, redact_sensitive_line, redact_sensitive_string,
    redact_value, sanitize_log_text, strip_im_runtime_status_fields,
};
use codexhub::diagnostics_export::{
    diagnostics_documents, log_tail_start, log_tail_text, select_logs, ConnectionDiagnosticsInput, LogCandidate,
};
use codexhub::json::Json;
use serde_json::Value;
use std::path::PathBuf;

fn to_json(v: &Value) -> Json {
    match v {
        Value::Null => Json::Null,
        Value::Bool(b) => Json::Bool(*b),
        Value::Number(n) => Json::Number(n.to_string()),
        Value::String(s) => Json::Str(s.clone()),
        Value::Array(items) => Json::Array(items.iter().map(to_json).collect()),
        Value::Object(map) => Json::Object(map.iter().map(|(k, v)| (k.clone(), to_json(v))).collect()),
    }
}

fn from_json(j: &Json) -> Value {
    match j {
        Json::Null => Value::Null,
        Json::Bool(b) => Value::Bool(*b),
        Json::Number(n) => serde_json::from_str(n).unwrap(),
        Json::Str(s) => Value::String(s.clone()),
        Json::Array(items) => Value::Array(items.iter().map(from_json).collect()),
        Json::Object(members) => {
            Value::Object(members.iter().map(|(k, v)| (k.clone(), from_json(v))).collect())
        }
    }
}

fn value(text: &str) -> Value {
    serde_json::from_str::<Value>(text).unwrap()
}

fn chars(s: &str) -> Vec<char> {
    s.chars().collect()
}

#[test]
fn connection_status_snapshot_records_api_errors() {
    let snapshot = connection_status_snapshot("/api/remote-control/status", Err("request timed out".to_string()));

    assert_eq!(
        from_json(&snapshot),
        value(r#"{"path": "/api/remote-control/status", "ok": false, "error": "request timed out"}"#)
    );
}

#[test]
fn connection_status_snapshot_records_responses() {
    let snapshot = connection_status_snapshot("/api/status", Ok(to_json(&value(r#"{"bind": "x"}"#))));
    assert_eq!(from_json(&snapshot), value(r#"{"path": "/api/status", "ok": true, "response": {"bind": "x"}}"#));
}

#[test]
fn chain_log_secrets_are_redacted() {
    let log = sanitize_log_text("connected\napi_key=sk-secret\nAuthorization: Bearer abc\n");
    assert!(log.contains("connected"));
    assert!(log.contains("api_key=<redacted>"));
    assert!(log.contains("Authorization:<redacted>"));
    assert!(!log.contains("sk-secret"));
    assert!(!log.contains("Bearer abc"));
    assert_eq!(log, "connected\napi_key=<redacted>\nAuthorization:<redacted>");
}

#[test]
fn im_lines_are_dropped_and_remote_control_lines_kept_with_identifiers_redacted() {
    let text = [
        "[remote_control] event=ws_open client_id=codexhub-feishu stream_id=stream-secret installation_id=install-secret source_kind=codex_app",
        "[remote_control] event=request_send client_key=im:feishu:bf166bbba9dc50bf method=turn/start thread=thread-abc123",
        "[event] level=warn kind=remote_control_request_timeout message=client_key=im:feishu:bf166bbba9dc50bf method=turn/start id=200069 timeout_secs=45",
        "[wechat_api] event=request url=https://ilinkai.weixin.qq.com/ilink/bot/getupdates account=wechat-account",
        "[event] level=info kind=bridge_running message=bridge running feishu=0 telegram=0 wechat=1",
        "[im_route] event=bind platform=wechat account=wechat-account chat=chat-secret conversation=wechat:secret",
        "[codex_app_config] event=remote_control_switch_done configured=true",
    ]
    .join("\n");
    let log = sanitize_log_text(&text);
    assert!(log.contains("[remote_control] event=ws_open"));
    assert!(log.contains("[codex_app_config] event=remote_control_switch_done"));
    assert!(log.contains("client_id=<redacted>"));
    assert!(log.contains("stream_id=<redacted>"));
    assert!(log.contains("installation_id=<redacted>"));
    assert!(log.contains("[remote_control] event=request_send"));
    assert!(log.contains("kind=remote_control_request_timeout"));
    assert!(log.contains("method=turn/start"));
    assert!(log.contains("timeout_secs=45"));
    assert!(log.contains("im:feishu:<redacted>"));
    assert!(!log.contains("bf166bbba9dc50bf"));
    let lower = log.to_ascii_lowercase();
    assert!(!lower.contains("wechat-account"));
    assert!(!lower.contains("ilinkai.weixin"));
    assert!(!lower.contains("telegram"));
    assert!(!lower.contains("im_route"));
    assert!(!lower.contains("codexhub-feishu"));
    assert!(!lower.contains("stream-secret"));
    assert!(!lower.contains("install-secret"));
    assert_eq!(log.lines().count(), 4);
}

#[test]
fn crlf_lines_and_empty_text() {
    assert_eq!(sanitize_log_text(""), "");
    assert_eq!(sanitize_log_text("a\r\nb\r\n"), "a\nb");
    assert_eq!(sanitize_log_text("a\rb"), "a\rb");
    assert_eq!(sanitize_log_text("\n\nx"), "\n\nx");
    assert_eq!(sanitize_log_text("key=secret\n"), "key=<redacted>");
}

#[test]
fn line_redaction_keeps_prefix_through_first_separator() {
    assert_eq!(redact_sensitive_line(&chars("token: a=b")), chars("token:<redacted>"));
    assert_eq!(redact_sensitive_line(&chars("password")), chars("password<redacted>"));
    assert_eq!(
        redact_key_value_field(&chars("a client_id=x y client_id=zz\tq"), "client_id"),
        chars("a client_id=<redacted> y client_id=<redacted>\tq")
    );
    assert_eq!(redact_key_value_field(&chars("stream_id="), "stream_id"), chars("stream_id=<redacted>"));
}

#[test]
fn status_documents_are_redacted_and_stripped() {
    let remote = to_json(&value(
        r#"{"connected": true, "authToken": "secret", "connections": [{"sourceKind": "vscode", "connected": true, "token": "secret", "id": 3}], "who": "x@im.bot"}"#,
    ));
    assert_eq!(
        from_json(&redact_value(&remote)),
        value(
            r#"{"connected": true, "authToken": "<redacted>", "connections": [{"sourceKind": "vscode", "connected": true, "token": "<redacted>", "id": "<redacted>"}], "who": "<redacted>"}"#
        )
    );
    let service = to_json(&value(
        r#"{"response": {"bind": "127.0.0.1:3847", "wechat": {"connected": true}, "Telegram": {}, "feishuWs": {}, "imAccounts": [], "im_x": 1}}"#,
    ));
    assert_eq!(
        from_json(&strip_im_runtime_status_fields(&service)),
        value(r#"{"response": {"bind": "127.0.0.1:3847"}}"#)
    );
}

#[test]
fn key_and_file_classification() {
    assert!(is_sensitive_key("providerKey") == false);
    assert!(is_sensitive_key("provider_key"));
    assert!(is_sensitive_key("AuthPath"));
    assert!(!is_sensitive_key("secretFieldsRedacted"));
    assert!(is_sensitive_key("ID"));
    assert!(!is_sensitive_key("bind"));
    assert!(is_im_runtime_status_key("IM_Accounts"));
    assert!(!is_im_runtime_status_key("bind"));
    assert_eq!(redact_sensitive_string("codexhub-feishu"), "<redacted>");
    assert_eq!(redact_sensitive_string("plain"), "plain");
    assert!(is_codexhub_connection_log(Some("CodexHub-chain.log")));
    assert!(is_codexhub_connection_log(Some("codexhub-daemon-startup.log.1")));
    assert!(!is_codexhub_connection_log(Some("codexhub-ai-gateway.log")));
    assert!(!is_codexhub_connection_log(Some("ai-gateway-request-log.sqlite")));
    assert!(!is_codexhub_connection_log(None));
    assert_eq!(
        PathBuf::from(log_dir_for_state_path(PathBuf::from("root").join("codexhub-state.json").to_str().unwrap())),
        PathBuf::from("root").join("logs")
    );
}

#[test]
fn log_dir_of_bare_state_file_is_relative() {
    assert_eq!(PathBuf::from(log_dir_for_state_path("codexhub-state.json")), PathBuf::from("logs"));
}

#[test]
fn redacting_twice_changes_nothing() {
    let doc = to_json(&value(r#"{"token": "a", "nested": [{"api_key": "b", "who": "x@im.bot"}], "name": "codexhub-feishu"}"#));
    let once = redact_value(&doc);
    let twice = redact_value(&once);
    assert_eq!(from_json(&once), from_json(&twice));
}

#[test]
fn bundle_documents_are_the_summary_then_given_statuses_redacted() {
    let input = ConnectionDiagnosticsInput {
        app_version: "0.3.1".to_string(),
        base_url: "http://127.0.0.1:8787".to_string(),
        config_path: "/home/u/.codexhub/config.toml".to_string(),
        state_path: "/home/u/.codexhub/state.json".to_string(),
        remote_status: Some(to_json(&value(r#"{"ok":true,"api_key":"sk-live-123"}"#))),
        codex_app_status: None,
        service_status: Some(to_json(&value(r#"{"bind":"127.0.0.1","imAccounts":[1,2]}"#))),
        dashboard: None,
    };
    let docs = diagnostics_documents(&input, 1700000000123, "linux", "x86_64");
    let names: Vec<&str> = docs.iter().map(|(n, _)| n.as_str()).collect();
    assert_eq!(names, vec!["summary.json", "remote-control-status.json", "service-status.json"]);
    assert_eq!(
        from_json(&docs[0].1),
        value(
            r#"{"kind":"codexhub_connection_diagnostics","exportedAtMs":1700000000123,"appVersion":"0.3.1",
            "baseUrl":"http://127.0.0.1:8787","configPath":"/home/u/.codexhub/config.toml",
            "statePath":"/home/u/.codexhub/state.json","platform":"linux","arch":"x86_64",
            "included":{"remoteStatus":true,"codexAppStatus":false,"serviceStatus":true,"dashboard":false,
            "aiGatewayRequestLogs":false},"logLimits":{"maxFiles":4,"maxBytesPerFile":262144},
            "privacy":{"secretFieldsRedacted":true,"requestLogsIncluded":false,"authFilesIncluded":false,
            "imRuntimeStateIncluded":false}}"#
        )
    );
    assert_eq!(from_json(&docs[1].1), value(r#"{"ok":true,"api_key":"<redacted>"}"#));
    assert_eq!(from_json(&docs[2].1), value(r#"{"bind":"127.0.0.1"}"#));
}

fn candidate(name: &str, modified_ns: u128) -> LogCandidate {
    LogCandidate { file_name: name.to_string(), modified_ns, len: 10 }
}

#[test]
fn newest_four_logs_are_taken_ties_by_name() {
    let candidates = vec![
        candidate("codexhub-connection.log.1", 100),
        candidate("codexhub-connection.log", 300),
        candidate("codexhub-connection.log.4", 50),
        candidate("codexhub-connection.log.3", 200),
        candidate("codexhub-connection.log.2", 200),
        candidate("codexhub-connection.log.5", 10),
    ];
    let picked: Vec<String> = select_logs(&candidates).into_iter().map(|c| c.file_name).collect();
    assert_eq!(
        picked,
        vec![
            "codexhub-connection.log",
            "codexhub-connection.log.2",
            "codexhub-connection.log.3",
            "codexhub-connection.log.1",
        ]
    );
    let two: Vec<LogCandidate> = candidates[..2].iter().map(|c| c.copy()).collect();
    let few: Vec<String> = select_logs(&two).into_iter().map(|c| c.file_name).collect();
    assert_eq!(few, vec!["codexhub-connection.log", "codexhub-connection.log.1"]);
    assert!(select_logs(&Vec::new()).is_empty());
}

#[test]
fn long_logs_are_cut_to_their_tail_with_a_note() {
    assert_eq!(log_tail_start(100), 0);
    assert_eq!(log_tail_start(262144), 0);
    assert_eq!(log_tail_start(262144 + 5), 5);
    assert_eq!(log_tail_text(0, 3, 3, "abc"), "abc");
    assert_eq!(
        log_tail_text(5, 262144, 262149, "tail"),
        "[codexhub diagnostics] log truncated; showing last 262144 bytes of 262149 bytes\ntail"
    );
}
