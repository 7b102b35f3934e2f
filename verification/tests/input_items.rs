use codexhub::input_items::{convert_input_to_messages, tool_search_output_tools, ItemContent, ItemType, ResponseItem};
use codexhub::json::Json;
use codexhub::json::to_json_text;
use serde_json::Value;

fn values(texts: Vec<String>) -> Vec<Value> {
    texts.iter().map(|t| serde_json::from_str(t).unwrap()).collect()
}

fn expected(texts: &[&str]) -> Vec<Value> {
    texts.iter().map(|t| serde_json::from_str(t).unwrap()).collect()
}
use codexhub::tool_names::ToolNameMap;

fn make_item(item_type: ItemType) -> ResponseItem {
    ResponseItem {
        item_type,
        role: None,
        text: None,
        content: None,
        image_url: None,
        detail: None,
        id: None,
        call_id: None,
        name: None,
        namespace: None,
        input: None,
        chat_arguments: None,
        chat_output: None,
        status: None,
        execution: None,
        tools: None,
        summary: None,
    }
}

fn convert(items: Vec<ResponseItem>) -> Result<Vec<String>, String> {
    let mut messages = Vec::new();
    let mut names = ToolNameMap::default();
    convert_input_to_messages(&items, &mut messages, &mut names)?;
    Ok(messages.iter().map(to_json_text).collect())
}

fn call(id: &str, name: &str, args: &str) -> ResponseItem {
    let mut item = make_item(ItemType::FunctionCall);
    item.call_id = Some(id.to_string());
    item.name = Some(name.to_string());
    item.chat_arguments = Some(args.to_string());
    item
}

fn output(id: &str, out: &str) -> ResponseItem {
    let mut item = make_item(ItemType::FunctionCallOutput);
    item.call_id = Some(id.to_string());
    item.chat_output = Some(out.to_string());
    item
}

#[test]
fn input_text_becomes_a_user_message() {
    let mut item = make_item(ItemType::InputText);
    item.content = Some(ItemContent::Text("hello".to_string()));
    assert_eq!(values(convert(vec![item]).unwrap()), expected(&[r#"{"role":"user","content":"hello"}"#]));
}

#[test]
fn message_items_keep_their_roles() {
    let mut user = make_item(ItemType::Message);
    user.role = Some("user".to_string());
    user.content = Some(ItemContent::Text("hi".to_string()));
    let mut asst = make_item(ItemType::Message);
    asst.role = Some("assistant".to_string());
    asst.content = Some(ItemContent::Text("hello".to_string()));
    assert_eq!(
        values(convert(vec![user, asst]).unwrap()),
        expected(&[r#"{"role":"user","content":"hi"}"#, r#"{"role":"assistant","content":"hello"}"#])
    );
}

#[test]
fn consecutive_function_calls_share_one_message_and_outputs_follow() {
    let msgs = convert(vec![
        call("call_1", "get_weather", r#"{"city":"NYC"}"#),
        call("call_2", "get_time", "{}"),
        output("call_1", "sunny"),
    ])
    .unwrap();
    assert_eq!(
        values(msgs),
        expected(&[
            r#"{"role":"assistant","content":null,"tool_calls":[{"index":0,"id":"call_1","type":"function","function":{"name":"get_weather","arguments":"{\"city\":\"NYC\"}"}},{"index":1,"id":"call_2","type":"function","function":{"name":"get_time","arguments":"{}"}}]}"#,
            r#"{"role":"tool","tool_call_id":"call_1","content":"sunny"}"#,
        ])
    );
}

#[test]
fn outputs_without_their_call_become_user_messages() {
    assert_eq!(
        values(convert(vec![output("call_1", "sunny")]).unwrap()),
        expected(&[r#"{"role":"user","content":"Function call output (call_1): sunny"}"#])
    );
}

#[test]
fn a_missing_output_is_an_error() {
    let mut item = make_item(ItemType::FunctionCallOutput);
    item.call_id = Some("call_1".to_string());
    assert_eq!(convert(vec![item]), Err("function_call_output missing output".to_string()));
}

#[test]
fn reasoning_joins_the_following_calls_or_answer() {
    let mut reasoning = make_item(ItemType::Reasoning);
    reasoning.summary = Some(vec!["think".to_string(), "ing".to_string()]);
    let msgs = values(convert(vec![reasoning, call("c", "f", "{}")]).unwrap());
    assert_eq!(msgs.len(), 1);
    assert_eq!(msgs[0]["reasoning_content"], "thinking");
    assert_eq!(msgs[0]["tool_calls"][0]["id"], "c");
    assert_eq!(msgs[0]["tool_calls"][0]["function"]["name"], "f");

    let mut reasoning = make_item(ItemType::Reasoning);
    reasoning.summary = Some(vec!["why".to_string()]);
    let mut answer = make_item(ItemType::Message);
    answer.role = Some("assistant".to_string());
    answer.content = Some(ItemContent::Text("because".to_string()));
    assert_eq!(
        values(convert(vec![reasoning, answer]).unwrap()),
        expected(&[r#"{"role":"assistant","content":"because","reasoning_content":"why"}"#])
    );

    let mut alone = make_item(ItemType::Reasoning);
    alone.summary = Some(vec!["solo".to_string()]);
    assert_eq!(
        values(convert(vec![alone]).unwrap()),
        expected(&[r#"{"role":"assistant","content":null,"reasoning_content":"solo"}"#])
    );
}

#[test]
fn builtin_tool_calls_and_their_outputs_are_dropped() {
    let mut search = make_item(ItemType::WebSearchCall);
    search.id = Some("ws_1".to_string());
    let msgs = convert(vec![search, output("ws_1", "results")]).unwrap();
    assert!(msgs.is_empty());
}

#[test]
fn custom_tool_calls_wrap_their_input() {
    let mut custom = make_item(ItemType::CustomToolCall);
    custom.call_id = Some("c1".to_string());
    custom.name = Some("apply_patch".to_string());
    custom.input = Some("*** Begin".to_string());
    let msgs = values(convert(vec![custom]).unwrap());
    assert_eq!(msgs[0]["tool_calls"][0]["function"]["arguments"], r#"{"input":"*** Begin"}"#);
}

#[test]
fn images_use_the_first_url() {
    let mut image = make_item(ItemType::InputImage);
    image.image_url = Some("data:image/png;base64,abc".to_string());
    image.detail = Some("high".to_string());
    assert_eq!(
        values(convert(vec![image]).unwrap()),
        expected(&[r#"{"role":"user","content":[{"type":"image_url","image_url":{"url":"data:image/png;base64,abc","detail":"high"}}]}"#])
    );
    let empty = make_item(ItemType::InputImage);
    assert!(convert(vec![empty]).unwrap().is_empty());
}

#[test]
fn tool_search_outputs_expose_their_tools() {
    let mut out = make_item(ItemType::ToolSearchOutput);
    out.tools = Some(vec![Json::Str("a".to_string()), Json::Str("b".to_string())]);
    let mut other = make_item(ItemType::Message);
    other.tools = Some(vec![Json::Str("ignored".to_string())]);
    let tools = tool_search_output_tools(&vec![out, other]);
    assert_eq!(tools.len(), 2);
    assert_eq!(to_json_text(&tools[1]), "\"b\"");
}
