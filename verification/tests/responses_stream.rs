use codexhub::responses_stream::{
    decode_json_unicode_escape, extract_custom_tool_input, is_first_token_event,
    parse_json_string_prefix, partial_custom_tool_input, partial_wrapped_input_prefix,
    read_hex_u16, sse_data_value, tool_delta_event, ToolCallState,
};
use codexhub::responses_stream::{classify_chat_sse_line, ChatSseLine, SseLineBuffer};
use codexhub::tool_names::ToolCallTarget;

fn chars(s: &str) -> Vec<char> {
    s.chars().collect()
}

#[test]
fn partial_wrapped_input_prefix_decodes_complete_prefix() {
    assert_eq!(
        partial_wrapped_input_prefix("{\"input\":\"line 1\\nline 2"),
        Some("line 1\nline 2".to_string())
    );
    assert_eq!(
        partial_wrapped_input_prefix("{\"input\":\"snowman: \\u2603"),
        Some("snowman: \u{2603}".to_string())
    );
    assert_eq!(
        partial_wrapped_input_prefix("{\"input\":\"emoji: \\ud83d\\ude03"),
        Some("emoji: \u{1f603}".to_string())
    );
    assert_eq!(partial_wrapped_input_prefix("{\"input\":\"bad \\"), None);
    assert_eq!(partial_wrapped_input_prefix("{\"other\":\"value"), None);
}

#[test]
fn json_string_prefix_returns_rest_after_closing_quote() {
    let (text, rest) = parse_json_string_prefix(&chars("\"a\\\"b\" tail")).unwrap();
    assert_eq!(text.iter().collect::<String>(), "a\"b");
    assert_eq!(rest.iter().collect::<String>(), " tail");
    assert!(parse_json_string_prefix(&chars("no quote")).is_none());
    let (text, rest) = parse_json_string_prefix(&chars("\"unfinished")).unwrap();
    assert_eq!(text.iter().collect::<String>(), "unfinished");
    assert!(rest.is_empty());
    let (text, _) = parse_json_string_prefix(&chars("\"\\b\\f\\r\\t\\/\\x\"")).unwrap();
    assert_eq!(text.iter().collect::<String>(), "\u{8}\u{c}\r\t/x");
}

#[test]
fn unicode_escapes_and_hex_reading() {
    assert_eq!(read_hex_u16(&chars("00e9"), 0), Some(0xe9));
    assert_eq!(read_hex_u16(&chars("+0e9"), 0), Some(0xe9));
    assert_eq!(read_hex_u16(&chars("00g9"), 0), None);
    assert_eq!(read_hex_u16(&chars("00e"), 0), None);
    assert_eq!(decode_json_unicode_escape(&chars("00e9!"), 0), Some(('\u{e9}', 4)));
    // lone low surrogate is not a character
    assert_eq!(decode_json_unicode_escape(&chars("dc00"), 0), None);
    // high surrogate needs a following \u escape
    assert_eq!(decode_json_unicode_escape(&chars("d83dxx"), 0), None);
    assert_eq!(
        decode_json_unicode_escape(&chars("d83d\\ude03"), 0),
        Some(('\u{1f603}', 10))
    );
}

#[test]
fn custom_tool_input_extraction() {
    assert_eq!(extract_custom_tool_input("{\"input\":\"ls\"}"), "ls");
    assert_eq!(extract_custom_tool_input("raw text"), "raw text");
    assert_eq!(
        partial_custom_tool_input("{\"input\":\"par"),
        Some("par".to_string())
    );
    assert_eq!(partial_custom_tool_input("{\"other\":1"), None);
}

fn state(target: ToolCallTarget, arguments: &str) -> ToolCallState {
    ToolCallState {
        id: "call_1".to_string(),
        target,
        arguments: arguments.to_string(),
        custom_emitted_input: String::new(),
        item_id: "fc_1".to_string(),
        output_index: 2,
    }
}

#[test]
fn custom_tool_deltas_are_incremental() {
    let mut st = state(ToolCallTarget::custom("exec"), "{\"input\":\"ab");
    let e = tool_delta_event(&mut st, "ignored").unwrap();
    assert_eq!(e.event_type, "response.custom_tool_call_input.delta");
    assert_eq!(e.delta, "ab");
    assert_eq!(e.output_index, 2);
    st.arguments.push_str("cd");
    let e = tool_delta_event(&mut st, "").unwrap();
    assert_eq!(e.delta, "cd");
    assert!(tool_delta_event(&mut st, "").is_none());
    let mut st = state(ToolCallTarget::custom("exec"), "{\"in");
    assert!(tool_delta_event(&mut st, "").is_none());
    let mut st = state(ToolCallTarget::custom("exec"), "plain");
    assert_eq!(tool_delta_event(&mut st, "").unwrap().delta, "plain");
}

#[test]
fn function_and_search_deltas() {
    let mut st = state(ToolCallTarget::function(None, "f"), "");
    let e = tool_delta_event(&mut st, "{\"a\"").unwrap();
    assert_eq!(e.event_type, "response.function_call_arguments.delta");
    assert_eq!(e.delta, "{\"a\"");
    assert_eq!(e.item_id, "fc_1");
    let mut st = state(ToolCallTarget::tool_search(), "");
    assert!(tool_delta_event(&mut st, "x").is_none());
}

#[test]
fn sse_helpers() {
    assert_eq!(sse_data_value("data: {}"), Some("{}".to_string()));
    assert_eq!(sse_data_value("data:{}"), Some("{}".to_string()));
    assert_eq!(sse_data_value("data:  x"), Some(" x".to_string()));
    assert_eq!(sse_data_value("event: x"), None);
    assert!(is_first_token_event("response.output_text.delta"));
    assert!(!is_first_token_event("response.completed"));
    assert!(!is_first_token_event("other.delta"));
}

#[test]
fn sse_line_buffer_splits_complete_lines() {
    let mut buf = SseLineBuffer::new();
    buf.push_text("data: {\"a\":1}\r");
    assert_eq!(buf.next_line(), None);
    buf.push_text("\r\nda");
    assert_eq!(buf.next_line(), Some("data: {\"a\":1}".to_string()));
    assert_eq!(buf.next_line(), None);
    buf.push_text("ta: [DONE]\n\n");
    assert_eq!(buf.next_line(), Some("data: [DONE]".to_string()));
    assert_eq!(buf.next_line(), Some(String::new()));
    assert_eq!(buf.next_line(), None);
}

#[test]
fn chat_sse_lines_are_classified() {
    assert!(matches!(classify_chat_sse_line("data: [DONE]"), ChatSseLine::Done));
    assert!(matches!(classify_chat_sse_line("data:  [DONE] "), ChatSseLine::Done));
    assert!(matches!(classify_chat_sse_line(": keep-alive"), ChatSseLine::Ignore));
    assert!(matches!(classify_chat_sse_line("data: not json"), ChatSseLine::Ignore));
    match classify_chat_sse_line("data: {\"id\":\"x\"}") {
        ChatSseLine::Chunk(j) => assert_eq!(codexhub::json::to_json_text(&j), "{\"id\":\"x\"}"),
        _ => panic!("expected a chunk"),
    }
}
