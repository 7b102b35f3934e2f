use codexhub::chat_tools::{build_chat_function_object, build_chat_tool_search_object, convert_tool_choice_to_chat};
use codexhub::json::{parse_json, to_json_text, Json};
use codexhub::output_schema::{json_schema_example, json_schema_object_example, schema_type_exec};
use codexhub::tool_names::{ToolCallTarget, ToolNameMap};
use serde_json::Value;

fn json(text: &str) -> Json {
    parse_json(text).unwrap()
}

fn to_value(j: &Json) -> Value {
    serde_json::from_str(&to_json_text(j)).unwrap()
}

fn value(text: &str) -> Value {
    serde_json::from_str(text).unwrap()
}

#[test]
fn schema_example_follows_const_enum_and_alternatives() {
    assert_eq!(to_value(&json_schema_example(&json(r#"{"const": 7}"#))), value("7"));
    assert_eq!(to_value(&json_schema_example(&json(r#"{"enum": ["a", "b"]}"#))), value(r#""a""#));
    assert_eq!(
        to_value(&json_schema_example(&json(r#"{"anyOf": [{"type": "boolean"}, {"type": "string"}]}"#))),
        value("false")
    );
    assert_eq!(to_value(&json_schema_example(&json(r#"{"type": "integer"}"#))), value("0"));
    assert_eq!(to_value(&json_schema_example(&json(r#"{"type": ["null", "number"]}"#))), value("0"));
    assert_eq!(to_value(&json_schema_example(&json(r#"{"type": "null"}"#))), value("null"));
    assert_eq!(to_value(&json_schema_example(&json(r#"{}"#))), value(r#""string""#));
    assert_eq!(
        to_value(&json_schema_example(&json(r#"{"type": "array", "items": {"type": "boolean"}}"#))),
        value("[false]")
    );
    assert_eq!(to_value(&json_schema_example(&json(r#"{"type": "array"}"#))), value(r#"["string"]"#));
}

#[test]
fn object_example_shows_required_properties_or_all() {
    let schema = json(
        r#"{"type": "object", "properties": {"title": {"type": "string"}, "count": {"type": "integer"}},
            "required": ["title"], "additionalProperties": false}"#,
    );
    assert_eq!(to_value(&json_schema_example(&schema)), value(r#"{"title": "string"}"#));
    let all = json(r#"{"properties": {"a": {"type": "boolean"}, "b": {"type": "object"}}}"#);
    assert_eq!(to_value(&json_schema_object_example(&all)), value(r#"{"a": false, "b": {}}"#));
    assert_eq!(to_value(&json_schema_object_example(&json(r#"{"type": "object"}"#))), value("{}"));
}

#[test]
fn schema_type_skips_null() {
    assert_eq!(schema_type_exec(&json(r#"{"type": ["null", "object"]}"#)), Some("object".to_string()));
    assert_eq!(schema_type_exec(&json(r#"{"type": ["null"]}"#)), None);
    assert_eq!(schema_type_exec(&json(r#"{"type": 3}"#)), None);
}

#[test]
fn function_object_takes_missing_fields_from_the_tool() {
    let mut map = ToolNameMap::default();
    let tool = json(
        r#"{"type": "function", "name": "open", "description": "Open a page",
            "parameters": {"type": "object"}, "strict": true}"#,
    );
    let f = build_chat_function_object(&tool, Some("browser"), &mut map).unwrap();
    let v = to_value(&f);
    let encoded = v["name"].as_str().unwrap().to_string();
    assert_eq!(v["description"], "Open a page");
    assert_eq!(v["parameters"], value(r#"{"type": "object"}"#));
    assert_eq!(v["strict"], true);
    assert_eq!(map.decode(&encoded), ToolCallTarget::function(Some("browser"), "open"));
}

#[test]
fn function_object_without_a_name_is_none() {
    let mut map = ToolNameMap::default();
    assert!(build_chat_function_object(&json(r#"{"type": "function"}"#), None, &mut map).is_none());
    assert!(map.is_empty());
}

#[test]
fn function_object_prefers_the_nested_function() {
    let mut map = ToolNameMap::default();
    let tool = json(r#"{"type": "function", "name": "outer", "function": {"name": "inner", "description": "d"}}"#);
    let v = to_value(&build_chat_function_object(&tool, None, &mut map).unwrap());
    assert_eq!(v["name"], "inner");
    assert_eq!(v["description"], "d");
}

#[test]
fn tool_search_object_has_its_fixed_name() {
    let mut map = ToolNameMap::default();
    let v = to_value(&build_chat_tool_search_object(
        &json(r#"{"type": "tool_search", "description": "find tools"}"#),
        &mut map,
    ));
    assert_eq!(v["name"], "tool_search");
    assert_eq!(v["description"], "find tools");
    assert!(v.get("parameters").is_none());
    assert!(!map.is_empty());
}

#[test]
fn tool_choices_convert_to_chat_form() {
    let mut map = ToolNameMap::default();
    assert_eq!(to_value(&convert_tool_choice_to_chat(&json(r#""auto""#), &mut map)), value(r#""auto""#));
    assert_eq!(
        to_value(&convert_tool_choice_to_chat(&json(r#"{"type": "allowed_tools", "mode": "required"}"#), &mut map)),
        value(r#""required""#)
    );
    let f = to_value(&convert_tool_choice_to_chat(&json(r#"{"type": "function", "name": "wait"}"#), &mut map));
    assert_eq!(f["type"], "function");
    assert_eq!(f["function"]["name"], "wait");
    let c = to_value(&convert_tool_choice_to_chat(&json(r#"{"type": "custom", "name": "exec"}"#), &mut map));
    assert_eq!(c["function"]["name"], "exec");
    let s = to_value(&convert_tool_choice_to_chat(&json(r#"{"type": "tool_search"}"#), &mut map));
    assert_eq!(s["function"]["name"], "tool_search");
    let other = to_value(&convert_tool_choice_to_chat(&json(r#"{"type": "web_search"}"#), &mut map));
    assert_eq!(other, value(r#"{"type": "web_search"}"#));
    let nameless = to_value(&convert_tool_choice_to_chat(&json(r#"{"type": "function"}"#), &mut map));
    assert_eq!(nameless, value(r#"{"type": "function"}"#));
}
