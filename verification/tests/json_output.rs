use codexhub::json::{parse_json, to_json_text};
use codexhub::output_schema::{apply_response_format, build_json_output_instruction, inject_json_output_instruction, TextFormat};

const SENTENCE: &str = "You must respond with a valid JSON object only. Do not output markdown, code fences, commentary, or whitespace outside the JSON object.";

fn format(name: Option<&str>, schema: Option<&str>) -> TextFormat {
    TextFormat {
        format_type: "json_schema".to_string(),
        name: name.map(str::to_string),
        schema: schema.map(|s| parse_json(s).unwrap()),
    }
}

#[test]
fn instruction_without_a_schema_shows_an_empty_example() {
    assert_eq!(build_json_output_instruction(&format(None, None)), format!("{SENTENCE}\nExample JSON output:\n{{}}"));
}

#[test]
fn instruction_names_the_schema_and_shows_an_example() {
    let text = build_json_output_instruction(&format(
        Some("answer"),
        Some(r#"{"type":"object","properties":{"ok":{"type":"boolean"}}}"#),
    ));
    assert!(text.starts_with(&format!("{SENTENCE}\nThe JSON object must conform to this JSON Schema named answer:\n{{\n")));
    assert!(text.ends_with("\nExample JSON output:\n{\n  \"ok\": false\n}"));
    let unnamed = build_json_output_instruction(&format(Some(""), Some(r#"{"type":"string"}"#)));
    assert!(unnamed.contains("\nThe JSON object must conform to this JSON Schema:\n{\n  \"type\": \"string\"\n}"));
}

#[test]
fn instruction_joins_a_leading_system_message_or_comes_first() {
    let mut messages = vec![parse_json(r#"{"role":"system","content":"Be brief."}"#).unwrap()];
    inject_json_output_instruction(&mut messages, &format(None, None));
    assert_eq!(messages.len(), 1);
    let v: serde_json::Value = serde_json::from_str(&to_json_text(&messages[0])).unwrap();
    assert_eq!(v["content"], format!("Be brief.\n\n{SENTENCE}\nExample JSON output:\n{{}}"));

    let mut messages = vec![parse_json(r#"{"role":"user","content":"hi"}"#).unwrap()];
    inject_json_output_instruction(&mut messages, &format(None, None));
    assert_eq!(messages.len(), 2);
    let v: serde_json::Value = serde_json::from_str(&to_json_text(&messages[0])).unwrap();
    assert_eq!(v["role"], "system");
}

fn body_with(format_type: &str, name: Option<&str>, schema: Option<&str>, deepseek: bool) -> serde_json::Value {
    let mut body = parse_json(r#"{"model":"m","messages":[{"role":"user","content":"hi"}]}"#).unwrap();
    let mut f = format(name, schema);
    f.format_type = format_type.to_string();
    apply_response_format(&mut body, &f, deepseek);
    serde_json::from_str(&to_json_text(&body)).unwrap()
}

#[test]
fn openai_json_schema_is_passed_on() {
    let v = body_with("json_schema", Some("result"), Some(r#"{"type":"object"}"#), false);
    assert_eq!(v["response_format"]["type"], "json_schema");
    assert_eq!(v["response_format"]["json_schema"]["name"], "result");
    assert_eq!(v["response_format"]["json_schema"]["schema"]["type"], "object");
    assert_eq!(v["messages"].as_array().unwrap().len(), 1);
    let unnamed = body_with("json_schema", None, Some(r#"{"type":"object"}"#), false);
    assert_eq!(unnamed["response_format"]["json_schema"]["name"], "response");
}

#[test]
fn deepseek_json_schema_is_downgraded_with_an_instruction() {
    let v = body_with("json_schema", Some("result"), Some(r#"{"type":"object"}"#), true);
    assert_eq!(v["response_format"]["type"], "json_object");
    let msgs = v["messages"].as_array().unwrap();
    assert_eq!(msgs.len(), 2);
    assert_eq!(msgs[0]["role"], "system");
    assert!(msgs[0]["content"].as_str().unwrap().contains("JSON Schema named result"));
}

#[test]
fn deepseek_json_object_injects_an_instruction() {
    let v = body_with("json_object", None, None, true);
    assert_eq!(v["response_format"]["type"], "json_object");
    assert_eq!(v["messages"][0]["role"], "system");
    let plain = body_with("json_object", None, None, false);
    assert_eq!(plain["messages"].as_array().unwrap().len(), 1);
    let text = body_with("text", None, None, true);
    assert!(text.get("response_format").is_none());
}
