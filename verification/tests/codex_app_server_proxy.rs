use codexhub::codex_app_server_proxy::{
    account_read_request_id, command_path_candidates, is_usable_real_cli, is_windows_store_package_path,
    line_ending_of, paths_equivalent, resolve_platform_codex_cli, rewrite_account_read_response,
    with_local_account,
};
use codexhub::json::{json_string_text, Json};
use serde_json::Value;

fn to_json(v: &Value) -> Json {
    match v {
        Value::Null => Json::Null,
        Value::Bool(b) => Json::Bool(*b),
        Value::Number(n) => Json::Number(n.to_string()),
        Value::String(s) => Json::Str(s.clone()),
        Value::Array(items) => Json::Array(items.iter().map(to_json).collect()),
        Value::Object(map) => Json::Object(map.iter().map(|(k, v)| (k.clone(), to_json(v))).collect()),
    }
}

fn from_json(j: &Json) -> Value {
    match j {
        Json::Null => Value::Null,
        Json::Bool(b) => Value::Bool(*b),
        Json::Number(n) => serde_json::from_str(n).unwrap(),
        Json::Str(s) => Value::String(s.clone()),
        Json::Array(items) => Value::Array(items.iter().map(from_json).collect()),
        Json::Object(members) => {
            Value::Object(members.iter().map(|(k, v)| (k.clone(), from_json(v))).collect())
        }
    }
}

fn parse(line: &str) -> Json {
    to_json(&serde_json::from_str::<Value>(line.trim()).unwrap())
}

#[test]
fn recognizes_string_and_numeric_account_read_ids() {
    assert_eq!(
        account_read_request_id(r#"{"method":"account/read","id":"auth-1","params":{}}"#),
        Some("\"auth-1\"".to_string())
    );
    assert_eq!(
        account_read_request_id(r#"{"method":"account/read","id":42,"params":{}}"#),
        Some("42".to_string())
    );
    assert_eq!(account_read_request_id(r#"{"method":"model/list","id":42,"params":{}}"#), None);
}

#[test]
fn id_keys_match_serde_json_text() {
    for text in ["a\"b", "tab\there", "nl\n", "ctl\u{1}", "back\\slash", "é"] {
        assert_eq!(json_string_text(text), serde_json::to_string(text).unwrap());
    }
    assert_eq!(account_read_request_id(r#"{"method":"account/read","id":null}"#), None);
}

#[test]
fn account_read_response_claims_local_account() {
    let response = parse("{\"id\":7,\"result\":{\"account\":null,\"requiresOpenaiAuth\":true}}\n");
    let rewritten = from_json(&with_local_account(&response).expect("object result"));
    assert_eq!(rewritten["result"]["account"]["type"], "chatgpt");
    assert_eq!(rewritten["result"]["account"]["email"], "codexhub-local@example.local");
    assert_eq!(rewritten["result"]["account"]["planType"], "pro");
    assert_eq!(rewritten["result"]["requiresOpenaiAuth"], false);
    assert_eq!(rewritten["id"], 7);
    assert!(with_local_account(&parse(r#"{"id":7,"result":[]}"#)).is_none());
    assert!(with_local_account(&parse(r#"{"id":7}"#)).is_none());
    let added = from_json(&with_local_account(&parse(r#"{"result":{}}"#)).unwrap());
    assert_eq!(added["result"]["requiresOpenaiAuth"], false);
}

#[test]
fn line_endings_are_kept() {
    assert_eq!(line_ending_of("{}\r\n"), "\r\n");
    assert_eq!(line_ending_of("{}\n"), "\n");
    assert_eq!(line_ending_of("{}"), "");
}

#[test]
fn real_cli_selection() {
    assert!(is_windows_store_package_path("C:/Program Files/WindowsApps/OpenAI/codex.exe", true));
    assert!(!is_windows_store_package_path("C:/Program Files/WindowsApps/OpenAI/codex.exe", false));
    assert!(!is_windows_store_package_path("C:\\Tools\\codex.exe", true));
    assert!(paths_equivalent("C:\\A\\codex.EXE", "c:\\a\\codex.exe", true));
    assert!(paths_equivalent("/usr/bin/codex", "/usr/bin/codex", false));
    assert!(!paths_equivalent("/usr/bin/codex", "/usr/local/bin/codex", false));
    assert!(is_usable_real_cli(true, false, false));
    assert!(!is_usable_real_cli(true, true, false));
    let candidates = vec!["a".to_string(), "b".to_string(), "c".to_string()];
    assert_eq!(resolve_platform_codex_cli(&candidates, &vec![false, true, true]), Some("b".to_string()));
    assert_eq!(resolve_platform_codex_cli(&candidates, &vec![false, false, false]), None);
    assert_eq!(command_path_candidates("/usr/bin/codex\n\n  /opt/codex  \r\n"), vec!["/usr/bin/codex", "/opt/codex"]);
}

#[test]
fn rewrites_only_matching_account_read_response() {
    let mut pending = vec!["7".to_string()];
    let line = "{\"id\":7,\"result\":{\"account\":null,\"requiresOpenaiAuth\":false}}\n";
    let rewritten = rewrite_account_read_response(line, &mut pending);
    let value: Value = serde_json::from_str(rewritten.trim()).expect("valid JSON");

    assert_eq!(value["result"]["account"]["type"], "chatgpt");
    assert_eq!(value["result"]["account"]["planType"], "pro");
    assert_eq!(value["result"]["requiresOpenaiAuth"], false);
    assert!(pending.is_empty());
}

#[test]
fn leaves_unrelated_messages_byte_for_byte_unchanged() {
    let mut pending = vec!["7".to_string()];
    let line = "{ \"id\": 8, \"result\": { \"models\": [] } }\r\n";

    assert_eq!(rewrite_account_read_response(line, &mut pending), line);
    assert!(pending.contains(&"7".to_string()));
}

#[test]
fn rewritten_line_keeps_its_ending_and_other_lines_pass() {
    let mut pending = vec!["\"a\"".to_string(), "9".to_string()];
    let rewritten = rewrite_account_read_response("{\"id\":\"a\",\"result\":{}}\r\n", &mut pending);
    assert!(rewritten.ends_with("}\r\n"));
    assert_eq!(pending, vec!["9".to_string()]);
    assert_eq!(rewrite_account_read_response("not json\n", &mut pending), "not json\n");
    let kept = "{\"id\":9,\"result\":[]}";
    assert_eq!(rewrite_account_read_response(kept, &mut pending), kept);
    assert!(pending.is_empty());
}
