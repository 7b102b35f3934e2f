use codexhub::json::{parse_json, to_json_text, Json};
use codexhub::responses_lite_tools::{prepare_for_provider, ProviderType};
use serde_json::Value;

fn body(text: &str) -> Json {
    parse_json(text).unwrap()
}

fn to_value(j: &Json) -> Value {
    serde_json::from_str(&to_json_text(j)).unwrap()
}

#[test]
fn openai_keeps_additional_tools_native() {
    let mut b = body(r#"{"input": [{"type":"additional_tools","tools":[{"type":"custom","name":"exec"}]}]}"#);
    let before = to_value(&b);

    let preparation = prepare_for_provider(&mut b, &ProviderType::OpenAiResponses).unwrap();

    assert!(!preparation.changed());
    assert_eq!(to_value(&b), before);
}

#[test]
fn chat_provider_merges_deduplicates_and_removes_carriers() {
    let mut b = body(
        r#"{
            "tools": [{"type":"function","name":"wait","parameters":{"type":"object"}}],
            "input": [
                {"type":"additional_tools","role":"developer","tools":[
                    {"type":"function","name":"wait","parameters":{"type":"object"}},
                    {"type":"custom","name":"exec"}
                ]},
                {"type":"message","role":"user","content":"run it"}
            ]
        }"#,
    );

    let preparation = prepare_for_provider(&mut b, &ProviderType::ChatCompletions).unwrap();
    let v = to_value(&b);

    assert_eq!(preparation.carriers_removed, 1);
    assert_eq!(preparation.tools_added, 1);
    assert_eq!(preparation.duplicates_removed, 1);
    assert_eq!(v["tools"].as_array().unwrap().len(), 2);
    assert_eq!(v["tools"][0]["name"], "wait");
    assert_eq!(v["tools"][1]["name"], "exec");
    assert_eq!(v["input"].as_array().unwrap().len(), 1);
    assert_eq!(v["input"][0]["type"], "message");
}

#[test]
fn duplicate_namespaces_merge_children_in_order() {
    let mut b = body(
        r#"{
            "tools": [{"type":"namespace","name":"browser","tools":[
                {"type":"function","name":"open"}
            ]}],
            "input": [{"type":"additional_tools","tools":[
                {"type":"namespace","name":"browser","tools":[
                    {"type":"function","name":"open"},
                    {"type":"function","name":"click"}
                ]}
            ]}]
        }"#,
    );

    prepare_for_provider(&mut b, &ProviderType::AnthropicMessages).unwrap();
    let v = to_value(&b);

    let children = v["tools"][0]["tools"].as_array().unwrap();
    assert_eq!(children.len(), 2);
    assert_eq!(children[0]["name"], "open");
    assert_eq!(children[1]["name"], "click");
}

#[test]
fn namespace_duplicates_count_their_children() {
    let mut b = body(
        r#"{
            "tools": [{"type":"namespace","name":"browser","tools":[{"type":"function","name":"open"}]}],
            "input": [{"type":"additional_tools","tools":[
                {"type":"namespace","name":"browser","tools":[
                    {"type":"function","name":"open"},
                    {"type":"function","name":"click"}
                ]}
            ]}]
        }"#,
    );
    let preparation = prepare_for_provider(&mut b, &ProviderType::ChatCompletions).unwrap();
    assert_eq!(preparation.duplicates_removed, 2);
    assert_eq!(preparation.tools_added, 0);
    assert!(preparation.changed());
}

#[test]
fn function_name_inside_function_object_identifies_the_tool() {
    let mut b = body(
        r#"{
            "tools": [{"type":"function","function":{"name":"wait"}}],
            "input": [{"type":"additional_tools","tools":[{"type":"function","name":"wait"}]}]
        }"#,
    );
    let preparation = prepare_for_provider(&mut b, &ProviderType::ChatCompletions).unwrap();
    let v = to_value(&b);
    assert_eq!(preparation.duplicates_removed, 1);
    assert_eq!(v["tools"].as_array().unwrap().len(), 1);
}

#[test]
fn carrier_with_non_array_tools_is_an_error() {
    let mut b = body(r#"{"input": [{"type":"additional_tools","tools":"exec"}]}"#);
    let err = prepare_for_provider(&mut b, &ProviderType::ChatCompletions).unwrap_err();
    assert_eq!(err, "additional_tools.tools must be an array");
}

#[test]
fn non_array_top_level_tools_is_an_error() {
    let mut b = body(r#"{"tools": "none", "input": []}"#);
    let err = prepare_for_provider(&mut b, &ProviderType::ChatCompletions).unwrap_err();
    assert_eq!(err, "Responses tools must be an array");
    assert_eq!(to_value(&b)["tools"], "none");
}

#[test]
fn non_object_request_is_an_error() {
    let mut b = body("[1, 2]");
    let err = prepare_for_provider(&mut b, &ProviderType::ChatCompletions).unwrap_err();
    assert_eq!(err, "Responses request must be a JSON object");
}

#[test]
fn explicit_empty_tools_stay_and_carriers_with_null_tools_go() {
    let mut b = body(r#"{"tools": null, "input": [{"type":"additional_tools","tools":null}]}"#);
    let preparation = prepare_for_provider(&mut b, &ProviderType::ChatCompletions).unwrap();
    let v = to_value(&b);
    assert_eq!(preparation.carriers_removed, 1);
    assert_eq!(v["tools"].as_array().unwrap().len(), 0);
    assert_eq!(v["input"].as_array().unwrap().len(), 0);

    let mut plain = body(r#"{"input": []}"#);
    prepare_for_provider(&mut plain, &ProviderType::ChatCompletions).unwrap();
    assert!(to_value(&plain).get("tools").is_none());
}

use codexhub::responses_lite_tools::{grok_function_tool, normalize_grok_tool_choice, normalize_grok_web_search_tool};
use codexhub::tool_names::{ToolCallTarget, ToolNameMap};

#[test]
fn grok_web_search_uses_xai_field_names() {
    let tool = body(
        r#"{
            "type": "web_search",
            "external_web_access": true,
            "indexed_web_access": true,
            "search_context_size": "high",
            "search_content_types": ["text", "image"],
            "filters": {"allowed_domains": ["docs.x.ai"], "blocked_domains": ["example.com"]}
        }"#,
    );
    let (search, changed) = normalize_grok_web_search_tool(tool);
    let v = to_value(&search);
    assert!(changed);
    assert_eq!(v["type"], "web_search");
    assert_eq!(v["enable_image_search"], true);
    assert_eq!(v["filters"]["allowed_domains"][0], "docs.x.ai");
    assert_eq!(v["filters"]["excluded_domains"][0], "example.com");
    assert!(v["filters"].get("blocked_domains").is_none());
    for removed in ["external_web_access", "indexed_web_access", "search_context_size", "search_content_types"] {
        assert!(v.get(removed).is_none(), "unexpected field: {removed}");
    }
}

#[test]
fn grok_web_search_preview_does_not_force_image_search() {
    let tool = body(r#"{"type": "web_search_preview", "external_web_access": true, "search_content_types": ["text"]}"#);
    let (search, changed) = normalize_grok_web_search_tool(tool);
    let v = to_value(&search);
    assert!(changed);
    assert_eq!(v["type"], "web_search");
    assert!(v.get("enable_image_search").is_none());
}

#[test]
fn grok_web_search_already_in_shape_is_unchanged() {
    let (search, changed) = normalize_grok_web_search_tool(body(r#"{"type": "web_search"}"#));
    assert!(!changed);
    assert_eq!(to_value(&search)["type"], "web_search");
    let (other, changed) = normalize_grok_web_search_tool(body(r#""web_search""#));
    assert!(!changed);
    assert_eq!(to_value(&other), "web_search");
}

#[test]
fn grok_function_tool_flattens_nested_function_and_encodes_name() {
    let mut map = ToolNameMap::default();
    let tool = body(
        r#"{"type": "function", "namespace": "browser", "function": {"name": "open", "description": "Open",
            "input_schema": {"type": "object"}}}"#,
    );
    let f = grok_function_tool(&tool, Some("browser"), &mut map).unwrap();
    let v = to_value(&f);
    assert_eq!(v["type"], "function");
    assert!(v.get("function").is_none());
    assert!(v.get("namespace").is_none());
    assert_eq!(v["description"], "Open");
    assert_eq!(v["parameters"]["type"], "object");
    assert!(v.get("input_schema").is_none());
    let name = v["name"].as_str().unwrap();
    assert_eq!(map.decode(name), ToolCallTarget::function(Some("browser"), "open"));
}

#[test]
fn grok_function_tool_without_a_name_is_none() {
    let mut map = ToolNameMap::default();
    assert!(grok_function_tool(&body(r#"{"type": "function"}"#), None, &mut map).is_none());
    assert!(grok_function_tool(&body("[1]"), None, &mut map).is_none());
    assert!(map.is_empty());
}

#[test]
fn grok_tool_choice_names_are_encoded() {
    let mut map = ToolNameMap::default();
    let mut b = body(r#"{"tool_choice": {"type": "custom", "name": "exec", "namespace": "x"}}"#);
    normalize_grok_tool_choice(&mut b, &mut map);
    let v = to_value(&b);
    assert_eq!(v["tool_choice"]["type"], "function");
    assert_eq!(v["tool_choice"]["name"], "exec");
    assert!(v["tool_choice"].get("namespace").is_none());
    assert_eq!(map.decode("exec"), ToolCallTarget::custom("exec"));

    let mut f = body(r#"{"tool_choice": {"type": "function", "function": {"name": "open"}, "namespace": "browser"}}"#);
    normalize_grok_tool_choice(&mut f, &mut map);
    let fv = to_value(&f);
    let name = fv["tool_choice"]["name"].as_str().unwrap();
    assert_eq!(map.decode(name), ToolCallTarget::function(Some("browser"), "open"));
    assert!(fv["tool_choice"].get("function").is_none());

    let mut auto = body(r#"{"tool_choice": "auto"}"#);
    normalize_grok_tool_choice(&mut auto, &mut map);
    assert_eq!(to_value(&auto)["tool_choice"], "auto");
}

#[test]
fn preparing_again_finds_nothing_to_move() {
    let mut b = body(
        r#"{
            "tools": [{"type":"function","name":"wait"}],
            "input": [{"type":"additional_tools","tools":[{"type":"custom","name":"exec"}]},
                      {"type":"message","role":"user","content":"go"}]
        }"#,
    );
    let first = prepare_for_provider(&mut b, &ProviderType::ChatCompletions).unwrap();
    assert_eq!(first.carriers_removed, 1);
    assert_eq!(first.tools_added, 1);
    let second = prepare_for_provider(&mut b, &ProviderType::ChatCompletions).unwrap();
    assert_eq!(second.carriers_removed, 0);
    assert_eq!(second.tools_added, 0);
    assert_eq!(second.duplicates_removed, 0);
    assert_eq!(to_value(&b)["tools"].as_array().unwrap().len(), 2);
}
