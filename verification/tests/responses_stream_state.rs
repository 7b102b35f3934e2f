use codexhub::json::parse_json;
use codexhub::responses_stream::sse_data_value;
use codexhub::stream_events::{sse_frame, StreamEvent};
use codexhub::stream_state::ResponsesStreamState;
use codexhub::tool_names::{ToolCallTarget, ToolNameMap};
use serde_json::Value;

fn feed_chunks(chunks: &[&str]) -> Vec<(String, Value)> {
    feed_chunks_with_tool_names(chunks, ToolNameMap::default())
}

fn feed_chunks_with_tool_names(chunks: &[&str], tool_name_map: ToolNameMap) -> Vec<(String, Value)> {
    let mut state = ResponsesStreamState::new("test-model".to_string(), tool_name_map);
    let mut queue: Vec<StreamEvent> = Vec::new();
    for chunk in chunks {
        let value = parse_json(chunk).unwrap();
        state.process_chunk(&value, &mut queue);
    }
    state.handle_done(&mut queue);
    parse_events(&queue)
}

fn parse_events(queue: &[StreamEvent]) -> Vec<(String, Value)> {
    let mut events = Vec::new();
    for event in queue {
        let text = sse_frame(event);
        let mut event_type = String::new();
        let mut data = String::new();
        for line in text.lines() {
            if let Some(et) = line.strip_prefix("event: ") {
                event_type = et.to_string();
            } else if let Some(d) = sse_data_value(line) {
                data = d;
            }
        }
        if !event_type.is_empty() && !data.is_empty() {
            let val: Value = serde_json::from_str(&data).unwrap();
            events.push((event_type, val));
        }
    }
    events
}

fn event_types(events: &[(String, Value)]) -> Vec<&str> {
    events.iter().map(|(t, _)| t.as_str()).collect()
}

fn assert_codex_active_item_invariants(events: &[(String, Value)]) {
    let mut active: Option<(String, String)> = None;
    for (event_type, event) in events {
        match event_type.as_str() {
            "response.output_item.added" => {
                let item_type = event["item"]["type"].as_str().unwrap_or("");
                if matches!(item_type, "message" | "reasoning") {
                    assert!(active.is_none(), "started {item_type} before closing active item {:?}", active);
                    active = Some((item_type.to_string(), event["item"]["id"].as_str().unwrap_or("").to_string()));
                }
            }
            "response.output_item.done" => {
                let item_type = event["item"]["type"].as_str().unwrap_or("");
                if matches!(item_type, "message" | "reasoning") {
                    let item_id = event["item"]["id"].as_str().unwrap_or("");
                    assert_eq!(active.as_ref().map(|(kind, _)| kind.as_str()), Some(item_type));
                    assert_eq!(active.as_ref().map(|(_, id)| id.as_str()), Some(item_id));
                    active = None;
                }
            }
            "response.output_text.delta" => {
                assert_eq!(active.as_ref().map(|(kind, _)| kind.as_str()), Some("message"));
            }
            "response.reasoning_summary_part.added" | "response.reasoning_summary_text.delta" => {
                assert_eq!(active.as_ref().map(|(kind, _)| kind.as_str()), Some("reasoning"));
            }
            _ => {}
        }
    }
}

#[test]
fn test_simple_text_stream() {
    let chunks = [
        r#"{"id": "chatcmpl_123", "model": "deepseek-v4-flash", "created": 1700000000,
            "choices": [{"index": 0, "delta": {"content": "Hello"}}]}"#,
        r#"{"choices": [{"index": 0, "delta": {"content": " world"}}]}"#,
        r#"{"choices": [{"index": 0, "delta": {}, "finish_reason": "stop"}],
            "usage": {"prompt_tokens": 5, "completion_tokens": 2, "total_tokens": 7}}"#,
    ];
    let events = feed_chunks(&chunks);
    let types = event_types(&events);

    assert!(types.contains(&"response.created"));
    assert!(types.contains(&"response.in_progress"));
    assert_eq!(types[0], "response.created");
    assert_eq!(types[1], "response.in_progress");
    assert_eq!(events[0].1["response"]["id"], "chatcmpl_123");
    assert_eq!(events[1].1["response"]["id"], "chatcmpl_123");
    assert!(types.contains(&"response.output_item.added"));
    assert!(types.contains(&"response.content_part.added"));

    let deltas: Vec<&Value> =
        events.iter().filter(|(t, _)| t == "response.output_text.delta").map(|(_, v)| v).collect();
    assert_eq!(deltas.len(), 2);
    assert_eq!(deltas[0]["delta"], "Hello");
    assert_eq!(deltas[1]["delta"], " world");
    assert_eq!(deltas[0]["logprobs"], Value::Array(vec![]));

    assert!(types.contains(&"response.output_text.done"));
    let output_text_done = events.iter().find(|(event_type, _)| event_type == "response.output_text.done").unwrap();
    assert_eq!(output_text_done.1["logprobs"], Value::Array(vec![]));
    assert!(types.contains(&"response.content_part.done"));
    assert!(types.contains(&"response.output_item.done"));
    assert!(types.contains(&"response.completed"));
    let completed = events.iter().find(|(event_type, _)| event_type == "response.completed").unwrap();
    assert_eq!(completed.1["response"]["output"][0]["content"][0]["text"], "Hello world");

    for (i, (_, ev)) in events.iter().enumerate() {
        assert_eq!(ev["sequence_number"].as_u64().unwrap(), i as u64);
    }
}

#[test]
fn test_reasoning_then_text_stream() {
    let chunks = [
        r#"{"model": "deepseek-v4-pro", "created": 1700000000,
            "choices": [{"index": 0, "delta": {"reasoning_content": "Let me think"}}]}"#,
        r#"{"choices": [{"index": 0, "delta": {"reasoning_content": "..."}}]}"#,
        r#"{"choices": [{"index": 0, "delta": {"content": "The answer"}}]}"#,
        r#"{"choices": [{"index": 0, "delta": {"content": " is 42."}}]}"#,
        r#"{"choices": [{"index": 0, "delta": {}, "finish_reason": "stop"}],
            "usage": {"prompt_tokens": 10, "completion_tokens": 20, "total_tokens": 30}}"#,
    ];
    let events = feed_chunks(&chunks);
    let types = event_types(&events);

    assert!(types.contains(&"response.reasoning_summary_part.added"));
    assert!(types.contains(&"response.reasoning_summary_text.delta"));
    assert!(types.contains(&"response.reasoning_summary_text.done"));
    assert!(types.contains(&"response.reasoning_summary_part.done"));

    let reasoning_done_idx = types.iter().position(|&t| t == "response.reasoning_summary_text.done").unwrap();
    let message_added_idx = types.iter().rposition(|&t| t == "response.output_item.added").unwrap();
    assert!(reasoning_done_idx < message_added_idx);

    let text_deltas: Vec<&str> = events
        .iter()
        .filter(|(t, _)| t == "response.output_text.delta")
        .map(|(_, v)| v["delta"].as_str().unwrap())
        .collect();
    assert_eq!(text_deltas, vec!["The answer", " is 42."]);

    assert!(types.contains(&"response.completed"));
    let completed = events.iter().find(|(event_type, _)| event_type == "response.completed").unwrap();
    assert_eq!(completed.1["response"]["output"][0]["summary"][0]["text"], "Let me think...");
    assert_eq!(completed.1["response"]["output"][1]["content"][0]["text"], "The answer is 42.");
    assert_codex_active_item_invariants(&events);
}

#[test]
fn test_interleaved_text_and_reasoning_closes_active_items() {
    let chunks = [
        r#"{"model": "deepseek-v4-pro", "created": 1700000000,
            "choices": [{"index": 0, "delta": {"content": "First"}}]}"#,
        r#"{"choices": [{"index": 0, "delta": {"reasoning_content": "think"}}]}"#,
        r#"{"choices": [{"index": 0, "delta": {"content": " second"}}]}"#,
        r#"{"choices": [{"index": 0, "delta": {}, "finish_reason": "stop"}],
            "usage": {"prompt_tokens": 10, "completion_tokens": 20, "total_tokens": 30}}"#,
    ];
    let events = feed_chunks(&chunks);
    assert_codex_active_item_invariants(&events);

    let message_items: Vec<&Value> = events
        .iter()
        .filter(|(t, v)| t == "response.output_item.done" && v["item"]["type"].as_str() == Some("message"))
        .map(|(_, v)| v)
        .collect();
    assert_eq!(message_items.len(), 2);
    assert_eq!(message_items[0]["item"]["content"][0]["text"], "First");
    assert_eq!(message_items[1]["item"]["content"][0]["text"], " second");
}

#[test]
fn test_tool_call_stream() {
    let chunks = [
        r#"{"model": "deepseek-v4-flash", "created": 1700000000,
            "choices": [{"index": 0, "delta": {"tool_calls": [{"index": 0, "id": "call_abc", "type": "function",
                "function": {"name": "get_weather", "arguments": ""}}]}}]}"#,
        r#"{"choices": [{"index": 0, "delta": {"tool_calls": [{"index": 0, "function": {"arguments": "{\"city\""}}]}}]}"#,
        r#"{"choices": [{"index": 0, "delta": {"tool_calls": [{"index": 0, "function": {"arguments": ":\"NYC\"}"}}]}}]}"#,
        r#"{"choices": [{"index": 0, "delta": {}, "finish_reason": "tool_calls"}],
            "usage": {"prompt_tokens": 10, "completion_tokens": 15, "total_tokens": 25}}"#,
    ];
    let events = feed_chunks(&chunks);
    let types = event_types(&events);

    let fc_added: Vec<&Value> =
        events.iter().filter(|(t, _)| t == "response.output_item.added").map(|(_, v)| v).collect();
    assert_eq!(fc_added.len(), 1);
    assert_eq!(fc_added[0]["item"]["type"], "function_call");
    assert_eq!(fc_added[0]["item"]["name"], "get_weather");

    let arg_deltas: Vec<&str> = events
        .iter()
        .filter(|(t, _)| t == "response.function_call_arguments.delta")
        .map(|(_, v)| v["delta"].as_str().unwrap())
        .collect();
    assert_eq!(arg_deltas, vec!["{\"city\"", ":\"NYC\"}"]);

    let arg_done: Vec<&Value> =
        events.iter().filter(|(t, _)| t == "response.function_call_arguments.done").map(|(_, v)| v).collect();
    assert_eq!(arg_done.len(), 1);
    assert_eq!(arg_done[0]["name"], "get_weather");
    assert_eq!(arg_done[0]["arguments"], "{\"city\":\"NYC\"}");

    assert!(types.contains(&"response.completed"));
}

#[test]
fn test_custom_tool_call_stream_uses_custom_input_events() {
    let mut tool_name_map = ToolNameMap::default();
    tool_name_map.insert("apply_patch".to_string(), ToolCallTarget::custom("apply_patch"));
    let chunks = [
        r#"{"model": "deepseek-v4-flash", "created": 1700000000,
            "choices": [{"index": 0, "delta": {"tool_calls": [{"index": 0, "id": "call_patch", "type": "function",
                "function": {"name": "apply_patch", "arguments": ""}}]}}]}"#,
        r#"{"choices": [{"index": 0, "delta": {"tool_calls": [{"index": 0,
            "function": {"arguments": "{\"input\":\"*** Begin Patch\\n"}}]}}]}"#,
        r#"{"choices": [{"index": 0, "delta": {"tool_calls": [{"index": 0,
            "function": {"arguments": "*** End Patch\\n\"}"}}]}}]}"#,
        r#"{"choices": [{"index": 0, "delta": {}, "finish_reason": "tool_calls"}],
            "usage": {"prompt_tokens": 10, "completion_tokens": 4, "total_tokens": 14}}"#,
    ];
    let events = feed_chunks_with_tool_names(&chunks, tool_name_map);
    let types = event_types(&events);

    assert!(types.contains(&"response.custom_tool_call_input.delta"));
    assert!(types.contains(&"response.custom_tool_call_input.done"));
    assert!(!types.contains(&"response.function_call_arguments.delta"));
    assert!(!types.contains(&"response.function_call_arguments.done"));

    let input_deltas: Vec<&str> = events
        .iter()
        .filter(|(t, _)| t == "response.custom_tool_call_input.delta")
        .map(|(_, v)| v["delta"].as_str().unwrap())
        .collect();
    assert_eq!(input_deltas, vec!["*** Begin Patch\n", "*** End Patch\n"]);

    let input_done =
        events.iter().find(|(event_type, _)| event_type == "response.custom_tool_call_input.done").unwrap();
    assert_eq!(input_done.1["input"], "*** Begin Patch\n*** End Patch\n");

    let done = events
        .iter()
        .find(|(event_type, v)| {
            event_type == "response.output_item.done" && v["item"]["type"].as_str() == Some("custom_tool_call")
        })
        .unwrap();
    assert_eq!(done.1["item"]["call_id"], "call_patch");
    assert_eq!(done.1["item"]["name"], "apply_patch");
    assert_eq!(done.1["item"]["input"], "*** Begin Patch\n*** End Patch\n");
}

#[test]
fn test_stream_restores_namespaced_tool_from_tool_name_map() {
    let mut tool_name_map = ToolNameMap::default();
    tool_name_map.insert(
        "codex_app__codexns__read_thread_terminal".to_string(),
        ToolCallTarget::function(Some("codex_app"), "read_thread_terminal"),
    );
    let chunks = [
        r#"{"model": "deepseek-v4-flash", "created": 1700000000,
            "choices": [{"index": 0, "delta": {"tool_calls": [{"index": 0, "id": "call_app", "type": "function",
                "function": {"name": "codex_app__codexns__read_thread_terminal", "arguments": ""}}]}}]}"#,
        r#"{"choices": [{"index": 0, "delta": {"tool_calls": [{"index": 0, "function": {"arguments": "{\"limit\":20}"}}]}}]}"#,
        r#"{"choices": [{"index": 0, "delta": {}, "finish_reason": "tool_calls"}],
            "usage": {"prompt_tokens": 10, "completion_tokens": 4, "total_tokens": 14}}"#,
    ];
    let events = feed_chunks_with_tool_names(&chunks, tool_name_map);
    let done = events.iter().find(|(event_type, _)| event_type == "response.output_item.done").unwrap();

    assert_eq!(done.1["item"]["type"], "function_call");
    assert_eq!(done.1["item"]["namespace"], "codex_app");
    assert_eq!(done.1["item"]["name"], "read_thread_terminal");
    assert_eq!(done.1["item"]["arguments"], "{\"limit\":20}");
}

#[test]
fn test_stream_restores_tool_search_call_from_tool_name_map() {
    let mut tool_name_map = ToolNameMap::default();
    tool_name_map.insert("tool_search".to_string(), ToolCallTarget::tool_search());
    let chunks = [
        r#"{"model": "deepseek-v4-flash", "created": 1700000000,
            "choices": [{"index": 0, "delta": {"tool_calls": [{"index": 0, "id": "search_1", "type": "function",
                "function": {"name": "tool_search", "arguments": ""}}]}}]}"#,
        r#"{"choices": [{"index": 0, "delta": {"tool_calls": [{"index": 0,
            "function": {"arguments": "{\"query\":\"chrome\",\"limit\":1}"}}]}}]}"#,
        r#"{"choices": [{"index": 0, "delta": {}, "finish_reason": "tool_calls"}],
            "usage": {"prompt_tokens": 10, "completion_tokens": 4, "total_tokens": 14}}"#,
    ];
    let events = feed_chunks_with_tool_names(&chunks, tool_name_map);
    let done = events.iter().find(|(event_type, _)| event_type == "response.output_item.done").unwrap();

    assert_eq!(done.1["item"]["type"], "tool_search_call");
    assert_eq!(done.1["item"]["call_id"], "search_1");
    assert_eq!(done.1["item"]["execution"], "client");
    let expected: Value = serde_json::from_str(r#"{"query": "chrome", "limit": 1}"#).unwrap();
    assert_eq!(done.1["item"]["arguments"], expected);
}

#[test]
fn test_usage_in_separate_chunk() {
    let chunks = [
        r#"{"model": "deepseek-v4-flash", "created": 1700000000,
            "choices": [{"index": 0, "delta": {"content": "hi"}}]}"#,
        r#"{"choices": [{"index": 0, "delta": {}, "finish_reason": "stop"}]}"#,
        r#"{"usage": {"prompt_tokens": 10, "completion_tokens": 1, "total_tokens": 11}}"#,
    ];
    let events = feed_chunks(&chunks);
    let types = event_types(&events);
    assert!(types.contains(&"response.completed"));
}

#[test]
fn responses_stream_test_null_usage_is_ignored() {
    let chunks = [
        r#"{"model": "deepseek-v4-flash", "created": 1700000000,
            "choices": [{"index": 0, "delta": {"content": "hi"}, "usage": null}]}"#,
        r#"{"choices": [{"index": 0, "delta": {}, "finish_reason": "stop"}], "usage": null}"#,
    ];
    let events = feed_chunks(&chunks);
    let completed = events.iter().find(|(event_type, _)| event_type == "response.completed").unwrap();
    assert!(completed.1["response"].get("usage").is_none());
}

#[test]
fn responses_stream_test_empty_usage_object_is_ignored() {
    let chunks = [
        r#"{"model": "deepseek-v4-flash", "created": 1700000000,
            "choices": [{"index": 0, "delta": {"content": "hi"}}]}"#,
        r#"{"choices": [{"index": 0, "delta": {}, "finish_reason": "stop"}], "usage": {}}"#,
    ];
    let events = feed_chunks(&chunks);
    let completed = events.iter().find(|(event_type, _)| event_type == "response.completed").unwrap();
    assert!(completed.1["response"].get("usage").is_none());
}

#[test]
fn responses_stream_test_deepseek_prompt_cache_hit_tokens_are_mapped() {
    let chunks = [
        r#"{"model": "deepseek-v4-pro", "created": 1700000000,
            "choices": [{"index": 0, "delta": {"content": "hi"}}]}"#,
        r#"{"choices": [{"index": 0, "delta": {}, "finish_reason": "stop"}],
            "usage": {"prompt_tokens": 16, "completion_tokens": 645, "total_tokens": 661,
                "prompt_cache_hit_tokens": 4}}"#,
    ];
    let events = feed_chunks(&chunks);
    let completed = events.iter().find(|(event_type, _)| event_type == "response.completed").unwrap();
    assert_eq!(completed.1["response"]["usage"]["input_tokens_details"]["cached_tokens"], 4);
}

#[test]
fn responses_stream_test_length_finish_reason_incomplete() {
    let chunks = [
        r#"{"model": "deepseek-v4-flash", "created": 1700000000,
            "choices": [{"index": 0, "delta": {"content": "truncated"}}]}"#,
        r#"{"choices": [{"index": 0, "delta": {}, "finish_reason": "length"}],
            "usage": {"prompt_tokens": 10, "completion_tokens": 4096, "total_tokens": 4106}}"#,
    ];
    let events = feed_chunks(&chunks);
    let incomplete: Vec<&Value> =
        events.iter().filter(|(t, _)| t == "response.incomplete").map(|(_, v)| v).collect();
    assert_eq!(incomplete.len(), 1);
    assert_eq!(incomplete[0]["response"]["status"], "incomplete");
    assert_eq!(incomplete[0]["response"]["incomplete_details"]["reason"], "max_output_tokens");
}

#[test]
fn test_empty_stream() {
    let events = feed_chunks(&[]);
    assert!(events.is_empty());
}

#[test]
fn test_parallel_tool_calls_stream() {
    let chunks = [
        r#"{"model": "deepseek-v4-flash", "created": 1700000000,
            "choices": [{"index": 0, "delta": {"tool_calls": [
                {"index": 0, "id": "call_1", "type": "function", "function": {"name": "get_weather", "arguments": ""}},
                {"index": 1, "id": "call_2", "type": "function", "function": {"name": "get_time", "arguments": ""}}
            ]}}]}"#,
        r#"{"choices": [{"index": 0, "delta": {"tool_calls": [
                {"index": 0, "function": {"arguments": "{\"city\""}},
                {"index": 1, "function": {"arguments": "{\"tz\""}}
            ]}}]}"#,
        r#"{"choices": [{"index": 0, "delta": {"tool_calls": [
                {"index": 0, "function": {"arguments": ":\"NYC\"}"}},
                {"index": 1, "function": {"arguments": ":\"EST\"}"}}
            ]}}]}"#,
        r#"{"choices": [{"index": 0, "delta": {}, "finish_reason": "tool_calls"}],
            "usage": {"prompt_tokens": 20, "completion_tokens": 15, "total_tokens": 35}}"#,
    ];
    let events = feed_chunks(&chunks);

    let items_added: Vec<&Value> =
        events.iter().filter(|(t, _)| t == "response.output_item.added").map(|(_, v)| v).collect();
    assert_eq!(items_added.len(), 2);
    assert_eq!(items_added[0]["item"]["name"], "get_weather");
    assert_eq!(items_added[1]["item"]["name"], "get_time");

    let arg_deltas: Vec<&Value> =
        events.iter().filter(|(t, _)| t == "response.function_call_arguments.delta").map(|(_, v)| v).collect();
    assert_eq!(arg_deltas.len(), 4);

    let arg_dones: Vec<&Value> =
        events.iter().filter(|(t, _)| t == "response.function_call_arguments.done").map(|(_, v)| v).collect();
    assert_eq!(arg_dones.len(), 2);
    let mut final_args: Vec<&str> = arg_dones.iter().map(|v| v["arguments"].as_str().unwrap()).collect();
    final_args.sort();
    assert_eq!(final_args, vec![r#"{"city":"NYC"}"#, r#"{"tz":"EST"}"#]);

    assert!(event_types(&events).contains(&"response.completed"));
}

#[test]
fn test_reasoning_then_tool_call_stream() {
    let chunks = [
        r#"{"model": "deepseek-v4-pro", "created": 1700000000,
            "choices": [{"index": 0, "delta": {"reasoning_content": "I should call a tool"}}]}"#,
        r#"{"choices": [{"index": 0, "delta": {"tool_calls": [{"index": 0, "id": "call_1", "type": "function",
            "function": {"name": "search", "arguments": ""}}]}}]}"#,
        r#"{"choices": [{"index": 0, "delta": {"tool_calls": [{"index": 0,
            "function": {"arguments": "{\"q\":\"rust\"}"}}]}}]}"#,
        r#"{"choices": [{"index": 0, "delta": {}, "finish_reason": "tool_calls"}],
            "usage": {"prompt_tokens": 10, "completion_tokens": 20, "total_tokens": 30}}"#,
    ];
    let events = feed_chunks(&chunks);
    let types = event_types(&events);

    assert!(types.contains(&"response.reasoning_summary_text.delta"));
    assert!(types.contains(&"response.reasoning_summary_text.done"));

    let reasoning_done_pos = types.iter().position(|&t| t == "response.reasoning_summary_text.done").unwrap();
    let fc_added_pos = types.iter().rposition(|&t| t == "response.output_item.added").unwrap();
    assert!(reasoning_done_pos < fc_added_pos);

    assert!(types.contains(&"response.function_call_arguments.delta"));
    assert!(types.contains(&"response.function_call_arguments.done"));
    assert!(types.contains(&"response.completed"));
}

#[test]
fn test_text_then_tool_call_stream() {
    let chunks = [
        r#"{"model": "deepseek-v4-flash", "created": 1700000000,
            "choices": [{"index": 0, "delta": {"content": "Let me check"}}]}"#,
        r#"{"choices": [{"index": 0, "delta": {"tool_calls": [{"index": 0, "id": "call_1", "type": "function",
            "function": {"name": "lookup", "arguments": "{}"}}]}}]}"#,
        r#"{"choices": [{"index": 0, "delta": {}, "finish_reason": "tool_calls"}],
            "usage": {"prompt_tokens": 5, "completion_tokens": 10, "total_tokens": 15}}"#,
    ];
    let events = feed_chunks(&chunks);
    let types = event_types(&events);

    assert!(types.contains(&"response.output_text.delta"));
    assert!(types.contains(&"response.output_text.done"));
    assert!(types.contains(&"response.output_item.done"));

    let msg_done_pos = types.iter().position(|&t| t == "response.output_item.done").unwrap();
    let fc_added_pos = types.iter().rposition(|&t| t == "response.output_item.added").unwrap();
    assert!(msg_done_pos < fc_added_pos);

    assert!(types.contains(&"response.function_call_arguments.done"));
    assert!(types.contains(&"response.completed"));
}

#[test]
fn test_sequence_numbers_monotonic() {
    let chunks = [
        r#"{"model": "test", "created": 1700000000,
            "choices": [{"index": 0, "delta": {"reasoning_content": "think"}}]}"#,
        r#"{"choices": [{"index": 0, "delta": {"content": "answer"}}]}"#,
        r#"{"choices": [{"index": 0, "delta": {}, "finish_reason": "stop"}],
            "usage": {"prompt_tokens": 1, "completion_tokens": 1, "total_tokens": 2}}"#,
    ];
    let events = feed_chunks(&chunks);
    let seq_nums: Vec<u64> = events.iter().map(|(_, v)| v["sequence_number"].as_u64().unwrap()).collect();
    for i in 1..seq_nums.len() {
        assert!(seq_nums[i] == seq_nums[i - 1] + 1, "sequence_number not monotonic at index {}", i);
    }
}

#[test]
fn test_standalone_usage_chunk() {
    let chunks = [
        r#"{"model": "deepseek-v4-flash", "created": 1700000000,
            "choices": [{"index": 0, "delta": {"content": "hi"}}]}"#,
        r#"{"choices": [{"index": 0, "delta": {}, "finish_reason": "stop"}]}"#,
        r#"{"usage": {"prompt_tokens": 100, "completion_tokens": 50, "total_tokens": 150}}"#,
    ];
    let events = feed_chunks(&chunks);
    let types = event_types(&events);
    assert!(types.contains(&"response.completed"));

    let completed = events.iter().find(|(t, _)| t == "response.completed").unwrap();
    assert_eq!(completed.1["response"]["usage"]["input_tokens"], 100);
    assert_eq!(completed.1["response"]["usage"]["output_tokens"], 50);
}

#[test]
fn frames_write_event_type_and_compact_json() {
    let mut state = ResponsesStreamState::new("m".to_string(), ToolNameMap::default());
    let mut queue: Vec<StreamEvent> = Vec::new();
    let chunk = parse_json(r#"{"id": "r1", "model": "m2", "created": -5, "choices": [{"delta": {"content": "a\"b"}}]}"#)
        .unwrap();
    state.process_chunk(&chunk, &mut queue);
    assert_eq!(queue.len(), 5);
    let created = sse_frame(&queue[0]);
    assert!(created.starts_with("event: response.created\ndata: {\"type\":\"response.created\",\"sequence_number\":0,"));
    assert!(created.ends_with("\n\n"));
    assert!(created.contains("\"created_at\":-5"));
    assert!(created.contains("\"id\":\"r1\""));
    assert!(created.contains("\"model\":\"m2\""));
    let delta = sse_frame(&queue[4]);
    assert!(delta.contains("\"delta\":\"a\\\"b\""));
    assert_eq!(queue[4].event_type(), "response.output_text.delta");
    assert_eq!(queue[4].sequence_number(), 4);
}

#[test]
fn new_state_has_fresh_ids() {
    let a = ResponsesStreamState::new("m".to_string(), ToolNameMap::default());
    let b = ResponsesStreamState::new("m".to_string(), ToolNameMap::default());
    assert!(a.response_id.starts_with("gwresp_"));
    assert_ne!(a.response_id, b.response_id);
    assert!(a.created_at > 1_600_000_000);
    assert!(codexhub::stream_state::generate_item_id().starts_with("gwitem_"));
}

#[test]
fn second_chunk_without_usage_total_sums_tokens() {
    let events = feed_chunks(&[
        r#"{"choices": [{"delta": {"content": "x"}, "finish_reason": "stop"}],
            "usage": {"prompt_tokens": 3, "completion_tokens": 4, "completion_tokens_details": {"reasoning_tokens": 2},
                "prompt_tokens_details": {"cached_tokens": 1}}}"#,
    ]);
    let completed = events.iter().find(|(t, _)| t == "response.completed").unwrap();
    assert_eq!(completed.1["response"]["usage"]["total_tokens"], 7);
    assert_eq!(completed.1["response"]["usage"]["input_tokens_details"]["cached_tokens"], 1);
    assert_eq!(completed.1["response"]["usage"]["output_tokens_details"]["reasoning_tokens"], 2);
    assert_eq!(completed.1["response"]["model"], "test-model");
}
