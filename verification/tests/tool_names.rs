use codexhub::tool_names::{
    decode_provider_tool_name, encode_provider_tool_name, ToolCallKind, ToolCallTarget,
    ToolNameMap, TOOL_SEARCH_NAME,
};

#[test]
fn roundtrips_any_responses_namespace() {
    let encoded = encode_provider_tool_name(Some("codex_app"), "read_thread_terminal");
    assert_eq!(encoded, "codex_app__codexns__read_thread_terminal");

    let decoded = decode_provider_tool_name(&encoded);
    assert_eq!(decoded.kind, ToolCallKind::Function);
    assert_eq!(decoded.namespace.as_deref(), Some("codex_app"));
    assert_eq!(decoded.name, "read_thread_terminal");
}

#[test]
fn decodes_legacy_responses_unit_marker() {
    let decoded = decode_provider_tool_name("multi_agent_v1responses_unit__spawn_agent");
    assert_eq!(decoded.kind, ToolCallKind::Function);
    assert_eq!(decoded.namespace.as_deref(), Some("multi_agent_v1"));
    assert_eq!(decoded.name, "spawn_agent");
}

#[test]
fn encodes_names_for_strict_provider_tool_name_regex() {
    let mut map = ToolNameMap::default();
    let encoded = map.encode_function(Some("browser:control-in-app-browser"), "open page");

    assert!(encoded.len() <= 64);
    assert!(encoded
        .chars()
        .all(|ch| ch.is_ascii_alphanumeric() || ch == '_' || ch == '-'));

    let decoded = map.decode(&encoded);
    assert_eq!(decoded.kind, ToolCallKind::Function);
    assert_eq!(
        decoded.namespace.as_deref(),
        Some("browser:control-in-app-browser")
    );
    assert_eq!(decoded.name, "open page");
}

#[test]
fn hashes_long_or_colliding_tool_names_but_keeps_roundtrip() {
    let mut map = ToolNameMap::default();
    let first = map.encode_function(None, "a:b");
    let second = map.encode_function(None, "a_b");
    let long = map.encode_function(
        Some("very_long_namespace_with_many_segments_and_symbols"),
        "very_long_tool_name_that_would_exceed_the_provider_limit",
    );

    assert_ne!(first, second);
    assert!(long.len() <= 64);
    assert_eq!(map.decode(&first).name, "a:b");
    assert_eq!(map.decode(&second).name, "a_b");
    assert_eq!(
        map.decode(&long).namespace.as_deref(),
        Some("very_long_namespace_with_many_segments_and_symbols")
    );
}

#[test]
fn colliding_name_gets_hash_suffix_of_ten_hex_digits() {
    let mut map = ToolNameMap::default();
    let first = map.encode_function(None, "a:b");
    let second = map.encode_function(None, "a_b");
    assert_eq!(first, "a_b");
    assert!(second.starts_with("a_b_h"));
    assert_eq!(second.len(), "a_b_h".len() + 10);
    assert!(second["a_b_h".len()..]
        .chars()
        .all(|c| c.is_ascii_hexdigit() && !c.is_ascii_uppercase()));
}

#[test]
fn encode_is_stable_for_the_same_target() {
    let mut map = ToolNameMap::default();
    assert!(map.is_empty());
    let a = map.encode_function(Some("ns"), "tool");
    let b = map.encode_function(Some(" ns "), "tool");
    assert_eq!(a, b);
    assert_eq!(a, "ns__codexns__tool");
    assert!(!map.is_empty());
    assert!(map.has_encoded(&a));
    assert!(!map.has_encoded("other"));
}

#[test]
fn tool_search_and_custom_targets_roundtrip() {
    let mut map = ToolNameMap::default();
    let search = map.encode_tool_search();
    assert_eq!(search, TOOL_SEARCH_NAME);
    assert_eq!(map.decode(&search), ToolCallTarget::tool_search());
    let custom = map.encode_custom("apply patch");
    assert_eq!(custom, "apply_patch");
    assert_eq!(map.decode(&custom), ToolCallTarget::custom("apply patch"));
}

#[test]
fn decode_unknown_name_falls_back_to_provider_decoding() {
    let map = ToolNameMap::default();
    assert_eq!(map.decode("tool_search"), ToolCallTarget::tool_search());
    let t = map.decode("plain");
    assert_eq!(t, ToolCallTarget::function(None, "plain"));
    let t = map.decode("__codexns__x");
    assert_eq!(t.namespace, None);
    assert_eq!(t.name, "__codexns__x");
}

#[test]
fn function_target_trims_and_drops_blank_namespace() {
    let t = ToolCallTarget::function(Some("   "), " name ");
    assert_eq!(t.namespace, None);
    assert_eq!(t.name, " name ");
    let t = ToolCallTarget::function(Some(" ns "), "n");
    assert_eq!(t.namespace.as_deref(), Some("ns"));
}

#[test]
fn blank_name_is_encoded_as_tool() {
    let mut map = ToolNameMap::default();
    assert_eq!(map.encode_function(None, "   "), "tool");
    assert_eq!(encode_provider_tool_name(Some("ns"), "  "), "");
}

#[test]
fn explicit_insert_is_decoded() {
    let mut map = ToolNameMap::default();
    map.insert("x".to_string(), ToolCallTarget::custom("y"));
    assert_eq!(map.decode("x"), ToolCallTarget::custom("y"));
}
