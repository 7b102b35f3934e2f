use codexhub::json::{parse_json, to_json_text, Json};
use codexhub::responses_compat::{first_line, normalize_json_body, normalize_response_value, rewrite_sse_line};
use serde_json::Value;

fn to_value(j: &Json) -> Value {
    serde_json::from_str(&to_json_text(j)).unwrap()
}

#[test]
fn removes_namespace_only_from_exec_custom_tool_calls() {
    let mut event = parse_json(
        r#"{
            "type": "response.output_item.done",
            "item": {
                "type": "custom_tool_call",
                "name": "exec",
                "namespace": "exec",
                "call_id": "call_1",
                "input": "text('ok')",
                "future_field": {"kept": true}
            },
            "response": {
                "output": [
                    {"type": "custom_tool_call", "name": "lookup", "namespace": "lookup",
                     "call_id": "call_2", "input": "payload"},
                    {"type": "function_call", "name": "read_file", "namespace": "fs"}
                ],
                "future_response_field": [1, 2, 3]
            }
        }"#,
    )
    .unwrap();

    assert!(normalize_response_value(&mut event));
    let v = to_value(&event);
    assert!(v["item"].get("namespace").is_none());
    assert_eq!(v["item"]["future_field"]["kept"], true);
    assert_eq!(v["response"]["output"][0]["namespace"], "lookup");
    assert_eq!(v["response"]["output"][1]["namespace"], "fs");
    let expected: Value = serde_json::from_str("[1, 2, 3]").unwrap();
    assert_eq!(v["response"]["future_response_field"], expected);

    let normalized_once = to_json_text(&event);
    assert!(!normalize_response_value(&mut event));
    assert_eq!(to_json_text(&event), normalized_once);
}

#[test]
fn json_body_preserves_original_bytes_when_no_rule_matches() {
    let body = r#"{ "output": [{"type":"custom_tool_call","name":"lookup","namespace":"lookup","opaque":7}] }"#;
    let (normalized, parsed) = normalize_json_body(body);
    assert_eq!(normalized, body);
    assert_eq!(to_value(&parsed.expect("parsed response"))["output"][0]["opaque"], 7);
}

#[test]
fn invalid_json_body_is_unchanged() {
    let body = "{not-json";
    let (normalized, parsed) = normalize_json_body(body);
    assert_eq!(normalized, body);
    assert!(parsed.is_none());
}

#[test]
fn changed_body_is_rewritten_compactly() {
    let body = r#"{ "item": {"type": "custom_tool_call", "name": " exec ", "namespace": "exec"} }"#;
    let (normalized, parsed) = normalize_json_body(body);
    assert!(!normalized.contains(' '.to_string().repeat(2).as_str()));
    let got: Value = serde_json::from_str(&normalized).unwrap();
    let expected: Value = serde_json::from_str(r#"{"item":{"name":" exec ","type":"custom_tool_call"}}"#).unwrap();
    assert_eq!(got, expected);
    assert!(normalized.starts_with("{\"item\":{"));
    assert!(parsed.is_some());
}

#[test]
fn sse_lines_are_rewritten_only_when_the_rule_applies() {
    let line = r#"data: {"type":"response.output_item.done","item":{"type":"custom_tool_call","name":"exec","namespace":"exec","call_id":"call_1","future_field":true}}"#;
    let out = rewrite_sse_line(line);
    assert!(out.starts_with("data: {"));
    assert!(out.contains("\"name\":\"exec\""));
    assert!(!out.contains("\"namespace\":\"exec\""));
    assert!(out.contains("\"future_field\":true"));

    let other = r#"data:{"item":{"type":"function_call","name":"read_file","namespace":"fs"}}"#;
    assert_eq!(rewrite_sse_line(other), other);
    assert_eq!(rewrite_sse_line("data: [DONE]"), "data: [DONE]");
    assert_eq!(rewrite_sse_line("event: response.output_item.done"), "event: response.output_item.done");
    assert_eq!(rewrite_sse_line("data: {broken"), "data: {broken");
}

#[test]
fn first_line_splits_at_newline_and_drops_carriage_return() {
    assert_eq!(first_line(b"abc"), None);
    assert_eq!(first_line(b"ab\r\ncd"), Some((b"ab".to_vec(), 4)));
    assert_eq!(first_line(b"\nrest"), Some((Vec::new(), 1)));
    let text = "data: \u{4f60}\u{597d}\n\n";
    let bytes = text.as_bytes();
    let (line, used) = first_line(bytes).unwrap();
    assert_eq!(String::from_utf8(line).unwrap(), "data: \u{4f60}\u{597d}");
    assert_eq!(first_line(&bytes[used..]), Some((Vec::new(), 1)));
}
