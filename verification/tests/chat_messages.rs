use codexhub::chat_messages::{
    chat_message_content_to_string, drop_invalid_assistant_messages, ensure_thinking_tool_call_reasoning_content,
    normalize_developer_messages, pad_reasoning_content, repair_tool_call_turns,
    should_drop_message_after_tool_filtering,
};
use codexhub::json::{parse_json, to_json_text, Json};
use serde_json::Value;

fn body(text: &str) -> Json {
    parse_json(text).unwrap()
}

fn to_value(j: &Json) -> Value {
    serde_json::from_str(&to_json_text(j)).unwrap()
}

#[test]
fn padding_adds_empty_reasoning_to_assistants_only() {
    let mut b = body(
        r#"{"messages": [
            {"role": "user", "content": "hi"},
            {"role": "assistant", "content": "hello"},
            {"role": "assistant", "content": "again", "reasoning_content": "kept"}
        ]}"#,
    );
    pad_reasoning_content(&mut b);
    let v = to_value(&b);
    let msgs = v["messages"].as_array().unwrap();
    assert!(msgs[0].get("reasoning_content").is_none());
    assert_eq!(msgs[1]["reasoning_content"], "");
    assert_eq!(msgs[2]["reasoning_content"], "kept");
    assert_eq!(msgs[1]["content"], "hello");
}

#[test]
fn padding_leaves_a_body_without_messages_alone() {
    let mut b = body(r#"{"model": "deepseek-chat"}"#);
    pad_reasoning_content(&mut b);
    let expected: Value = serde_json::from_str(r#"{"model": "deepseek-chat"}"#).unwrap();
    assert_eq!(to_value(&b), expected);
}

#[test]
fn developer_messages_become_system_or_user() {
    let mut b = body(
        r#"{"messages": [
            {"role": "developer", "content": "You are helpful."},
            {"role": "developer", "content": "Meta_Kim memory status: MCP Memory Service is healthy."},
            {"role": "user", "content": "hi"}
        ]}"#,
    );
    normalize_developer_messages(&mut b);
    let v = to_value(&b);
    let msgs = v["messages"].as_array().unwrap();
    assert_eq!(msgs[0]["role"], "system");
    assert_eq!(msgs[1]["role"], "user");
    assert_eq!(msgs[2]["role"], "user");
    assert_eq!(msgs[0]["content"], "You are helpful.");
}

#[test]
fn content_to_string_handles_each_kind() {
    assert_eq!(chat_message_content_to_string(&body(r#""text""#)), "text");
    assert_eq!(chat_message_content_to_string(&body("null")), "");
    let arr = chat_message_content_to_string(&body(r#"[{"type":"text","text":"a"}]"#));
    let parsed: Value = serde_json::from_str(&arr).unwrap();
    let expected: Value = serde_json::from_str(r#"[{"type": "text", "text": "a"}]"#).unwrap();
    assert_eq!(parsed, expected);
}

#[test]
fn reasoning_only_assistant_messages_are_dropped() {
    let mut b = body(
        r#"{"messages": [
            {"role": "user", "content": "hello"},
            {"role": "assistant", "content": null, "reasoning_content": "just thinking..."},
            {"role": "assistant", "content": ""},
            {"role": "assistant", "content": "answer"},
            {"role": "assistant", "content": null, "tool_calls": [{"id": "call_1"}]}
        ]}"#,
    );
    drop_invalid_assistant_messages(&mut b);
    let v = to_value(&b);
    let msgs = v["messages"].as_array().unwrap();
    assert_eq!(msgs.len(), 3);
    assert_eq!(msgs[0]["role"], "user");
    assert_eq!(msgs[1]["content"], "answer");
    assert_eq!(msgs[2]["tool_calls"][0]["id"], "call_1");
}

#[test]
fn message_without_anything_left_is_dropped_after_filtering() {
    assert!(should_drop_message_after_tool_filtering(&body(r#"{"role": "assistant", "content": null}"#)));
    assert!(should_drop_message_after_tool_filtering(&body(r#"{"role": "assistant", "content": []}"#)));
    assert!(!should_drop_message_after_tool_filtering(&body(
        r#"{"role": "assistant", "content": null, "reasoning_content": "r"}"#
    )));
    assert!(!should_drop_message_after_tool_filtering(&body(r#"{"role": "assistant", "content": "x"}"#)));
    assert!(!should_drop_message_after_tool_filtering(&body(
        r#"{"role": "assistant", "tool_calls": [{"id": "c"}]}"#
    )));
}

#[test]
fn tool_call_turns_get_the_latest_reasoning() {
    let mut b = body(
        r#"{"messages": [
            {"role": "assistant", "content": null, "reasoning_content": "I need to search",
             "tool_calls": [{"id": "call_1"}]},
            {"role": "tool", "tool_call_id": "call_1", "content": "found results"},
            {"role": "assistant", "content": null, "tool_calls": [{"id": "call_2"}]},
            {"role": "tool", "tool_call_id": "call_2", "content": "page content"},
            {"role": "assistant", "content": "Here's what I found."}
        ]}"#,
    );
    ensure_thinking_tool_call_reasoning_content(&mut b);
    let v = to_value(&b);
    let msgs = v["messages"].as_array().unwrap();
    assert_eq!(msgs[2]["reasoning_content"], "I need to search");
    assert!(msgs[4].get("reasoning_content").is_none());
}

#[test]
fn tool_call_turn_without_earlier_reasoning_stays_as_is() {
    let mut b = body(r#"{"messages": [{"role": "assistant", "content": null, "tool_calls": [{"id": "c"}]}]}"#);
    ensure_thinking_tool_call_reasoning_content(&mut b);
    let v = to_value(&b);
    assert!(v["messages"][0].get("reasoning_content").is_none());
}

#[test]
fn unanswered_parallel_tool_calls_are_filtered() {
    let mut b = body(
        r#"{"messages": [
            {"role": "assistant", "content": null, "tool_calls": [
                {"id": "call_1", "type": "function", "function": {"name": "get_weather", "arguments": "{\"city\":\"NYC\"}"}},
                {"id": "call_2", "type": "function", "function": {"name": "get_weather", "arguments": "{\"city\":\"SF\"}"}}
            ]},
            {"role": "tool", "tool_call_id": "call_1", "content": "72°F sunny"}
        ]}"#,
    );
    repair_tool_call_turns(&mut b);
    let v = to_value(&b);
    let msgs = v["messages"].as_array().unwrap();
    assert_eq!(msgs.len(), 2);
    let tool_calls = msgs[0]["tool_calls"].as_array().unwrap();
    assert_eq!(tool_calls.len(), 1);
    assert_eq!(tool_calls[0]["id"], "call_1");
    assert_eq!(msgs[1]["role"], "tool");
    assert_eq!(msgs[1]["tool_call_id"], "call_1");
}

#[test]
fn interleaved_tool_output_moves_next_to_its_call() {
    let mut b = body(
        r#"{"messages": [
            {"role": "assistant", "content": null, "tool_calls": [{"id": "call_1"}]},
            {"role": "assistant", "content": "Checking that now."},
            {"role": "tool", "tool_call_id": "call_1", "content": "72°F sunny"}
        ]}"#,
    );
    repair_tool_call_turns(&mut b);
    let v = to_value(&b);
    let msgs = v["messages"].as_array().unwrap();
    assert_eq!(msgs.len(), 3);
    assert_eq!(msgs[0]["role"], "assistant");
    assert_eq!(msgs[0]["tool_calls"][0]["id"], "call_1");
    assert_eq!(msgs[1]["role"], "tool");
    assert_eq!(msgs[1]["tool_call_id"], "call_1");
    assert_eq!(msgs[2]["content"], "Checking that now.");
}

#[test]
fn orphan_tool_output_becomes_a_user_message() {
    let mut b = body(
        r#"{"messages": [
            {"role": "tool", "tool_call_id": "call_9", "content": "late"},
            {"role": "tool", "content": "nameless"}
        ]}"#,
    );
    repair_tool_call_turns(&mut b);
    let v = to_value(&b);
    let msgs = v["messages"].as_array().unwrap();
    assert_eq!(msgs[0]["role"], "user");
    assert_eq!(msgs[0]["content"], "Function call output (call_9): late");
    assert_eq!(msgs[1]["content"], "Function call output (<missing>): nameless");
}

#[test]
fn assistant_with_no_answered_call_loses_its_tool_calls() {
    let mut b = body(r#"{"messages": [{"role": "assistant", "content": "x", "tool_calls": [{"id": "call_1"}]}]}"#);
    repair_tool_call_turns(&mut b);
    let v = to_value(&b);
    let msgs = v["messages"].as_array().unwrap();
    assert_eq!(msgs.len(), 1);
    assert!(msgs[0].get("tool_calls").is_none());
    assert_eq!(msgs[0]["content"], "x");
}
