use codexhub::json::{to_json_text, Json};
use codexhub::responses_to_chat::{apply_reasoning, Reasoning};

fn applied(effort: Option<&str>, budget: Option<u64>, deepseek: bool) -> serde_json::Value {
    let mut body = vec![("model".to_string(), Json::Str("m".to_string()))];
    let reasoning = Reasoning { effort: effort.map(str::to_string), budget_tokens: budget };
    apply_reasoning(&mut body, &reasoning, deepseek);
    serde_json::from_str(&to_json_text(&Json::Object(body))).unwrap()
}

fn v(text: &str) -> serde_json::Value {
    serde_json::from_str(text).unwrap()
}

#[test]
fn deepseek_effort_none_disables_thinking() {
    assert_eq!(applied(Some("none"), Some(100), true), v(r#"{"model":"m","thinking":{"type":"disabled"}}"#));
}

#[test]
fn deepseek_efforts_enable_thinking_and_are_mapped() {
    assert_eq!(applied(Some("high"), None, true), v(r#"{"model":"m","thinking":{"type":"enabled"},"reasoning_effort":"high"}"#));
    assert_eq!(applied(Some("low"), Some(2048), true), v(r#"{"model":"m","thinking":{"type":"enabled","budget_tokens":2048},"reasoning_effort":"high"}"#));
    assert_eq!(applied(Some("medium"), None, true)["reasoning_effort"], "high");
    assert_eq!(applied(Some("xhigh"), None, true)["reasoning_effort"], "max");
    assert_eq!(applied(Some("max"), None, true)["reasoning_effort"], "max");
    assert_eq!(applied(None, None, true), v(r#"{"model":"m","thinking":{"type":"enabled"}}"#));
}

#[test]
fn other_providers_get_the_effort_as_is() {
    assert_eq!(applied(Some("low"), Some(5), false), v(r#"{"model":"m","reasoning_effort":"low"}"#));
    assert_eq!(applied(None, Some(5), false), v(r#"{"model":"m"}"#));
}
