use codexhub::chat_to_responses::{
    convert_chat_response, convert_chat_response_with_tool_names, ItemContent, ItemType, JsonString,
};
use codexhub::json::{parse_json, Json};
use codexhub::tool_names::{ToolCallTarget, ToolNameMap};
use serde_json::Value;

fn chat(text: &str) -> Json {
    parse_json(text).unwrap()
}

fn to_value(j: &Json) -> Value {
    match j {
        Json::Null => Value::Null,
        Json::Bool(b) => Value::Bool(*b),
        Json::Number(n) => serde_json::from_str(n).unwrap(),
        Json::Str(s) => Value::String(s.clone()),
        Json::Array(a) => Value::Array(a.iter().map(to_value).collect()),
        Json::Object(m) => {
            let mut out = serde_json::Map::new();
            for (k, v) in m {
                out.insert(k.clone(), to_value(v));
            }
            Value::Object(out)
        }
    }
}

#[test]
fn test_simple_content_response() {
    let chat_resp = chat(
        r#"{"id": "chatcmpl-123", "model": "deepseek-v4-flash", "created": 1700000000,
            "choices": [{"index": 0, "message": {"role": "assistant", "content": "Hello world!"},
                "finish_reason": "stop"}],
            "usage": {"prompt_tokens": 10, "completion_tokens": 5, "total_tokens": 15}}"#,
    );
    let resp = convert_chat_response(&chat_resp, "deepseek-v4-flash").unwrap();
    assert_eq!(resp.id, "chatcmpl-123");
    assert_eq!(resp.status, "completed");
    assert_eq!(resp.output.len(), 1);
    assert_eq!(resp.output[0].item_type, ItemType::Message);
    assert_eq!(resp.output[0].role.as_deref(), Some("assistant"));
    assert!(resp.usage.is_some());
    let usage = resp.usage.unwrap();
    assert_eq!(usage.input_tokens, 10);
    assert_eq!(usage.output_tokens, 5);
}

#[test]
fn test_missing_chat_response_id_generates_response_id() {
    let chat_resp = chat(
        r#"{"model": "deepseek-v4-flash", "created": 1700000000,
            "choices": [{"index": 0, "message": {"role": "assistant", "content": "Hello world!"},
                "finish_reason": "stop"}]}"#,
    );
    let resp = convert_chat_response(&chat_resp, "deepseek-v4-flash").unwrap();
    assert!(resp.id.starts_with("gwresp_"));
}

#[test]
fn test_reasoning_content_response() {
    let chat_resp = chat(
        r#"{"model": "deepseek-v4-pro", "created": 1700000000,
            "choices": [{"message": {"role": "assistant", "content": "The answer is 42.",
                "reasoning_content": "Let me think step by step..."}, "finish_reason": "stop"}],
            "usage": {"prompt_tokens": 10, "completion_tokens": 20, "total_tokens": 30}}"#,
    );
    let resp = convert_chat_response(&chat_resp, "deepseek-v4-pro").unwrap();
    assert_eq!(resp.output.len(), 2);
    assert_eq!(resp.output[0].item_type, ItemType::Reasoning);
    let summary = resp.output[0].summary.as_ref().unwrap();
    assert_eq!(summary[0].text, "Let me think step by step...");
    assert_eq!(resp.output[1].item_type, ItemType::Message);
}

#[test]
fn test_tool_calls_response() {
    let chat_resp = chat(
        r#"{"model": "deepseek-v4-flash", "created": 1700000000,
            "choices": [{"message": {"role": "assistant", "content": null,
                "tool_calls": [{"id": "call_abc", "type": "function",
                    "function": {"name": "get_weather", "arguments": "{\"city\":\"NYC\"}"}}]},
                "finish_reason": "tool_calls"}],
            "usage": {"prompt_tokens": 10, "completion_tokens": 8, "total_tokens": 18}}"#,
    );
    let resp = convert_chat_response(&chat_resp, "deepseek-v4-flash").unwrap();
    assert_eq!(resp.status, "completed");
    assert_eq!(resp.output.len(), 1);
    assert_eq!(resp.output[0].item_type, ItemType::FunctionCall);
    assert_eq!(resp.output[0].name.as_deref(), Some("get_weather"));
    assert_eq!(resp.output[0].call_id.as_deref(), Some("call_abc"));
}

#[test]
fn test_namespaced_tool_call_response_restores_responses_namespace() {
    let chat_resp = chat(
        r#"{"model": "deepseek-v4-flash", "created": 1700000000,
            "choices": [{"message": {"role": "assistant", "content": null,
                "tool_calls": [{"id": "call_abc", "type": "function",
                    "function": {"name": "mcp__arthas__responses_unit__excelPeek",
                        "arguments": "{\"path\":\"a.xlsx\"}"}}]},
                "finish_reason": "tool_calls"}]}"#,
    );
    let resp = convert_chat_response(&chat_resp, "deepseek-v4-flash").unwrap();
    assert_eq!(resp.output.len(), 1);
    assert_eq!(resp.output[0].item_type, ItemType::FunctionCall);
    assert_eq!(resp.output[0].namespace.as_deref(), Some("mcp__arthas__"));
    assert_eq!(resp.output[0].name.as_deref(), Some("excelPeek"));
}

#[test]
fn test_codex_app_namespace_restored_from_tool_name_map() {
    let mut tool_name_map = ToolNameMap::default();
    tool_name_map.insert(
        "codex_app__codexns__read_thread_terminal".to_string(),
        ToolCallTarget::function(Some("codex_app"), "read_thread_terminal"),
    );
    let chat_resp = chat(
        r#"{"model": "deepseek-v4-flash", "created": 1700000000,
            "choices": [{"message": {"role": "assistant", "content": null,
                "tool_calls": [{"id": "call_app", "type": "function",
                    "function": {"name": "codex_app__codexns__read_thread_terminal",
                        "arguments": "{\"limit\":20}"}}]},
                "finish_reason": "tool_calls"}]}"#,
    );
    let resp = convert_chat_response_with_tool_names(&chat_resp, "deepseek-v4-flash", &tool_name_map).unwrap();
    assert_eq!(resp.output[0].item_type, ItemType::FunctionCall);
    assert_eq!(resp.output[0].namespace.as_deref(), Some("codex_app"));
    assert_eq!(resp.output[0].name.as_deref(), Some("read_thread_terminal"));
}

#[test]
fn test_tool_search_tool_call_response_restores_tool_search_call() {
    let mut tool_name_map = ToolNameMap::default();
    tool_name_map.insert("tool_search".to_string(), ToolCallTarget::tool_search());
    let chat_resp = chat(
        r#"{"model": "deepseek-v4-flash", "created": 1700000000,
            "choices": [{"message": {"role": "assistant", "content": null,
                "tool_calls": [{"id": "search_1", "type": "function",
                    "function": {"name": "tool_search",
                        "arguments": "{\"query\":\"chrome browser\",\"limit\":2}"}}]},
                "finish_reason": "tool_calls"}]}"#,
    );
    let resp = convert_chat_response_with_tool_names(&chat_resp, "deepseek-v4-flash", &tool_name_map).unwrap();
    assert_eq!(resp.output[0].item_type, ItemType::ToolSearchCall);
    assert_eq!(resp.output[0].call_id.as_deref(), Some("search_1"));
    assert_eq!(resp.output[0].execution.as_deref(), Some("client"));
    let expected: Value = serde_json::from_str(r#"{"query": "chrome browser", "limit": 2}"#).unwrap();
    assert_eq!(to_value(&resp.output[0].arguments.as_ref().unwrap().to_value()), expected);
}

#[test]
fn chat_to_responses_test_length_finish_reason_incomplete() {
    let chat_resp = chat(
        r#"{"model": "deepseek-v4-flash", "created": 1700000000,
            "choices": [{"message": {"role": "assistant", "content": "truncated..."}, "finish_reason": "length"}],
            "usage": {"prompt_tokens": 10, "completion_tokens": 4096, "total_tokens": 4106}}"#,
    );
    let resp = convert_chat_response(&chat_resp, "deepseek-v4-flash").unwrap();
    assert_eq!(resp.status, "incomplete");
    let expected: Value = serde_json::from_str(r#"{ "reason": "max_output_tokens" }"#).unwrap();
    assert_eq!(resp.incomplete_details.as_ref().map(to_value), Some(expected));
}

#[test]
fn test_no_choices_errors() {
    let chat_resp = chat(r#"{"model": "x", "choices": []}"#);
    assert!(convert_chat_response(&chat_resp, "x").is_err());
}

#[test]
fn test_usage_with_details() {
    let chat_resp = chat(
        r#"{"model": "deepseek-v4-flash", "created": 1700000000,
            "choices": [{"message": {"role": "assistant", "content": "ok"}, "finish_reason": "stop"}],
            "usage": {"prompt_tokens": 100, "completion_tokens": 50, "total_tokens": 150,
                "prompt_tokens_details": {"cached_tokens": 80},
                "completion_tokens_details": {"reasoning_tokens": 30}}}"#,
    );
    let resp = convert_chat_response(&chat_resp, "deepseek-v4-flash").unwrap();
    let usage = resp.usage.unwrap();
    assert_eq!(usage.input_tokens_details.unwrap().cached_tokens, 80);
    assert_eq!(usage.output_tokens_details.unwrap().reasoning_tokens, 30);
}

#[test]
fn test_multiple_tool_calls_response() {
    let chat_resp = chat(
        r#"{"model": "deepseek-v4-flash", "created": 1700000000,
            "choices": [{"message": {"role": "assistant", "content": null, "tool_calls": [
                {"id": "call_1", "type": "function",
                    "function": {"name": "get_weather", "arguments": "{\"city\":\"NYC\"}"}},
                {"id": "call_2", "type": "function",
                    "function": {"name": "get_time", "arguments": "{\"tz\":\"EST\"}"}}]},
                "finish_reason": "tool_calls"}],
            "usage": {"prompt_tokens": 20, "completion_tokens": 15, "total_tokens": 35}}"#,
    );
    let resp = convert_chat_response(&chat_resp, "deepseek-v4-flash").unwrap();
    assert_eq!(resp.status, "completed");
    assert_eq!(resp.output.len(), 2);
    assert_eq!(resp.output[0].item_type, ItemType::FunctionCall);
    assert_eq!(resp.output[0].name.as_deref(), Some("get_weather"));
    assert_eq!(resp.output[0].call_id.as_deref(), Some("call_1"));
    assert_eq!(resp.output[1].item_type, ItemType::FunctionCall);
    assert_eq!(resp.output[1].name.as_deref(), Some("get_time"));
    assert_eq!(resp.output[1].call_id.as_deref(), Some("call_2"));
}

#[test]
fn test_reasoning_plus_tool_calls_response() {
    let chat_resp = chat(
        r#"{"model": "deepseek-v4-pro", "created": 1700000000,
            "choices": [{"message": {"role": "assistant", "content": null,
                "reasoning_content": "I need to search for this.",
                "tool_calls": [{"id": "call_s", "type": "function",
                    "function": {"name": "search", "arguments": "{\"q\":\"rust\"}"}}]},
                "finish_reason": "tool_calls"}],
            "usage": {"prompt_tokens": 10, "completion_tokens": 20, "total_tokens": 30}}"#,
    );
    let resp = convert_chat_response(&chat_resp, "deepseek-v4-pro").unwrap();
    assert_eq!(resp.output.len(), 2);
    assert_eq!(resp.output[0].item_type, ItemType::Reasoning);
    assert_eq!(resp.output[0].summary.as_ref().unwrap()[0].text, "I need to search for this.");
    assert_eq!(resp.output[1].item_type, ItemType::FunctionCall);
    assert_eq!(resp.output[1].name.as_deref(), Some("search"));
}

#[test]
fn test_empty_reasoning_content_skipped() {
    let chat_resp = chat(
        r#"{"model": "deepseek-v4-flash", "created": 1700000000,
            "choices": [{"message": {"role": "assistant", "content": "hello", "reasoning_content": ""},
                "finish_reason": "stop"}],
            "usage": {"prompt_tokens": 5, "completion_tokens": 1, "total_tokens": 6}}"#,
    );
    let resp = convert_chat_response(&chat_resp, "deepseek-v4-flash").unwrap();
    assert_eq!(resp.output.len(), 1);
    assert_eq!(resp.output[0].item_type, ItemType::Message);
}

#[test]
fn test_empty_content_no_message_item() {
    let chat_resp = chat(
        r#"{"model": "deepseek-v4-flash", "created": 1700000000,
            "choices": [{"message": {"role": "assistant", "content": "",
                "tool_calls": [{"id": "call_1", "type": "function", "function": {"name": "foo", "arguments": "{}"}}]},
                "finish_reason": "tool_calls"}],
            "usage": {"prompt_tokens": 5, "completion_tokens": 5, "total_tokens": 10}}"#,
    );
    let resp = convert_chat_response(&chat_resp, "deepseek-v4-flash").unwrap();
    assert_eq!(resp.output.len(), 1);
    assert_eq!(resp.output[0].item_type, ItemType::FunctionCall);
}

#[test]
fn test_no_usage_field() {
    let chat_resp = chat(
        r#"{"model": "deepseek-v4-flash", "created": 1700000000,
            "choices": [{"message": {"role": "assistant", "content": "hi"}, "finish_reason": "stop"}]}"#,
    );
    let resp = convert_chat_response(&chat_resp, "deepseek-v4-flash").unwrap();
    assert!(resp.usage.is_none());
}

#[test]
fn chat_to_responses_test_null_usage_is_ignored() {
    let chat_resp = chat(
        r#"{"model": "deepseek-v4-flash", "created": 1700000000,
            "choices": [{"message": {"role": "assistant", "content": "hi"}, "finish_reason": "stop"}],
            "usage": null}"#,
    );
    let resp = convert_chat_response(&chat_resp, "deepseek-v4-flash").unwrap();
    assert!(resp.usage.is_none());
}

#[test]
fn chat_to_responses_test_empty_usage_object_is_ignored() {
    let chat_resp = chat(
        r#"{"model": "deepseek-v4-flash", "created": 1700000000,
            "choices": [{"message": {"role": "assistant", "content": "hi"}, "finish_reason": "stop"}],
            "usage": {}}"#,
    );
    let resp = convert_chat_response(&chat_resp, "deepseek-v4-flash").unwrap();
    assert!(resp.usage.is_none());
}

#[test]
fn chat_to_responses_test_deepseek_prompt_cache_hit_tokens_are_mapped() {
    let chat_resp = chat(
        r#"{"model": "deepseek-v4-pro", "created": 1700000000,
            "choices": [{"message": {"role": "assistant", "content": "hi"}, "finish_reason": "stop"}],
            "usage": {"prompt_tokens": 16, "completion_tokens": 645, "total_tokens": 661,
                "prompt_cache_hit_tokens": 4}}"#,
    );
    let resp = convert_chat_response(&chat_resp, "deepseek-v4-pro").unwrap();
    let usage = resp.usage.unwrap();
    assert_eq!(usage.input_tokens_details.unwrap().cached_tokens, 4);
}

#[test]
fn missing_message_errors_and_items_get_fresh_ids() {
    let no_message = chat(r#"{"choices": [{"finish_reason": "stop"}]}"#);
    assert_eq!(convert_chat_response(&no_message, "m").unwrap_err(), "no message in choice");
    let no_choices = chat(r#"{"id": "x"}"#);
    assert_eq!(convert_chat_response(&no_choices, "m").unwrap_err(), "no choices in chat response");

    let chat_resp = chat(
        r#"{"created": 42, "choices": [{"message": {"content": "hi", "reasoning_content": "r",
            "reasoning_signature": "sig", "tool_calls": [{"id": "c", "function": {"name": "apply_patch"}},
            {"function": {"name": "f", "arguments": "{\"input\":\"x\"}"}}]}}]}"#,
    );
    let mut map = ToolNameMap::default();
    map.insert("apply_patch".to_string(), ToolCallTarget::custom("apply_patch"));
    let resp = convert_chat_response_with_tool_names(&chat_resp, "fallback-model", &map).unwrap();
    assert_eq!(resp.model, "fallback-model");
    assert_eq!(resp.created_at, 42);
    assert_eq!(resp.object_type, "response");
    assert_eq!(resp.output.len(), 4);
    for item in &resp.output {
        assert!(item.id.as_deref().unwrap().starts_with("gwitem_"));
        assert_eq!(item.status.as_deref(), Some("completed"));
    }
    assert_ne!(resp.output[0].id, resp.output[1].id);
    assert_eq!(resp.output[0].encrypted_content.as_deref(), Some("sig"));
    match resp.output[1].content.as_ref().unwrap() {
        ItemContent::Parts(parts) => {
            assert_eq!(parts.len(), 1);
            assert_eq!(parts[0].part_type, "output_text");
            assert_eq!(parts[0].text, "hi");
        }
    }
    assert_eq!(resp.output[2].item_type, ItemType::CustomToolCall);
    assert_eq!(resp.output[2].input.as_deref(), Some("{}"));
    assert_eq!(resp.output[2].call_id.as_deref(), Some("c"));
    assert_eq!(resp.output[3].item_type, ItemType::FunctionCall);
    assert!(resp.output[3].call_id.is_none());
    match resp.output[3].arguments.as_ref().unwrap() {
        JsonString::String(s) => assert_eq!(s, "{\"input\":\"x\"}"),
        JsonString::Value(_) => panic!("function arguments stay text"),
    }
}
