use codexhub::codex::{
    approval_decision_by_input, approval_request_view, approval_response, concise_command, decision_option,
    extract_agent_delta, extract_agent_message_text, extract_turn_reply_text, is_agent_message_item,
    is_turn_completed, notification_thread_id, non_empty_text, CodexNotification, PendingApproval,
};
use codexhub::json::Json;
use serde_json::Value;

fn to_json(v: &Value) -> Json {
    match v {
        Value::Null => Json::Null,
        Value::Bool(b) => Json::Bool(*b),
        Value::Number(n) => Json::Number(n.to_string()),
        Value::String(s) => Json::Str(s.clone()),
        Value::Array(items) => Json::Array(items.iter().map(to_json).collect()),
        Value::Object(map) => Json::Object(map.iter().map(|(k, v)| (k.clone(), to_json(v))).collect()),
    }
}

fn from_json(j: &Json) -> Value {
    match j {
        Json::Null => Value::Null,
        Json::Bool(b) => Value::Bool(*b),
        Json::Number(n) => serde_json::from_str(n).unwrap(),
        Json::Str(s) => Value::String(s.clone()),
        Json::Array(items) => Value::Array(items.iter().map(from_json).collect()),
        Json::Object(members) => {
            Value::Object(members.iter().map(|(k, v)| (k.clone(), from_json(v))).collect())
        }
    }
}

fn json(text: &str) -> Json {
    to_json(&serde_json::from_str::<Value>(text).unwrap())
}

fn value(text: &str) -> Value {
    serde_json::from_str::<Value>(text).unwrap()
}

fn pending(kind: &str, method: &str, decisions: Vec<(&str, &str)>) -> PendingApproval {
    PendingApproval {
        request_id: json("7"),
        request_kind: kind.to_string(),
        method: method.to_string(),
        params: json("{}"),
        summary: "summary".to_string(),
        decisions: decisions.into_iter().map(|(label, d)| decision_option(label, json(d))).collect(),
        message_id: None,
        remote_client_key: None,
    }
}

#[test]
fn yes_no_reply_maps_to_permissions_decisions() {
    let pending = pending(
        "permissions",
        "item/permissions/requestApproval",
        vec![
            (
                "Yes",
                r#"{"__codexRemotePermissionsResponse": {"permissions": {"network": {"enabled": true}}, "scope": "turn", "strictAutoReview": null}}"#,
            ),
            (
                "No",
                r#"{"__codexRemotePermissionsResponse": {"permissions": {}, "scope": "turn", "strictAutoReview": null}}"#,
            ),
        ],
    );

    let (yes_index, yes) = approval_decision_by_input(&pending, "/y").expect("yes");
    let (no_index, no) = approval_decision_by_input(&pending, "/n").expect("no");

    assert_eq!(yes_index, 1);
    assert_eq!(
        from_json(&approval_response(yes.decision)),
        value(r#"{"permissions": {"network": {"enabled": true}}, "scope": "turn", "strictAutoReview": null}"#)
    );
    assert_eq!(no_index, 2);
    assert_eq!(
        from_json(&approval_response(no.decision)),
        value(r#"{"permissions": {}, "scope": "turn", "strictAutoReview": null}"#)
    );
}

#[test]
fn yes_no_reply_maps_to_current_protocol_decisions() {
    let pending = pending(
        "command",
        "item/commandExecution/requestApproval",
        vec![("Yes", r#""accept""#), ("No", r#""cancel""#)],
    );

    let (yes_index, yes) = approval_decision_by_input(&pending, "/y").expect("yes");
    let (no_index, no) = approval_decision_by_input(&pending, "/n").expect("no");

    assert_eq!(yes_index, 1);
    assert_eq!(from_json(&yes.decision), value(r#""accept""#));
    assert_eq!(no_index, 2);
    assert_eq!(from_json(&no.decision), value(r#""cancel""#));
}

#[test]
fn numbered_replies_pick_by_position() {
    let pending = pending(
        "command",
        "item/commandExecution/requestApproval",
        vec![("A", r#""accept""#), ("B", r#""acceptForSession""#), ("C", r#""cancel""#)],
    );
    let (i, d) = approval_decision_by_input(&pending, " 2 ").expect("two");
    assert_eq!((i, d.label.as_str()), (2, "B"));
    let (i, d) = approval_decision_by_input(&pending, "/3").expect("three");
    assert_eq!((i, d.label.as_str()), (3, "C"));
    let (i, _) = approval_decision_by_input(&pending, "+1").expect("plus one");
    assert_eq!(i, 1);
    assert!(approval_decision_by_input(&pending, "4").is_none());
    assert!(approval_decision_by_input(&pending, "0").is_none());
    assert!(approval_decision_by_input(&pending, "maybe").is_none());
    let (i, _) = approval_decision_by_input(&pending, "  YES ").expect("yes");
    assert_eq!(i, 1);
    let (i, _) = approval_decision_by_input(&pending, "No").expect("no");
    assert_eq!(i, 3);
}

#[test]
fn review_and_elicitation_decisions_are_recognised() {
    let pending = pending(
        "review",
        "applyPatchApproval",
        vec![
            ("Later", r#"{"applyNetworkPolicyAmendment": {"networkPolicyAmendment": {"action": "deny"}}}"#),
            ("Once", r#"{"__codexRemoteMcpElicitationResponse": {"action": "accept", "content": null, "_meta": null}}"#),
        ],
    );
    let (i, _) = approval_decision_by_input(&pending, "y").expect("yes");
    assert_eq!(i, 2);
    let (i, _) = approval_decision_by_input(&pending, "n").expect("no");
    assert_eq!(i, 1);
    assert_eq!(
        from_json(&approval_response(json(r#""approved""#))),
        value(r#"{"decision": "approved"}"#)
    );
}

fn notification(method: &str, params: &str) -> CodexNotification {
    CodexNotification {
        method: method.to_string(),
        params: Some(json(params)),
        request_id: Some(json("1")),
        remote_client_key: None,
        remote_client_id: None,
        remote_stream_id: None,
    }
}

fn response_of(j: &Json) -> Value {
    from_json(&approval_response(j.clone()))
}

#[test]
fn command_approval_uses_available_decisions_verbatim() {
    let view = approval_request_view(&notification(
        "item/commandExecution/requestApproval",
        r#"{
            "threadId": "thread",
            "turnId": "turn",
            "itemId": "item",
            "command": ["npm", "test"],
            "cwd": "D:\\repo",
            "availableDecisions": [
                "accept",
                "acceptForSession",
                {"acceptWithExecpolicyAmendment": {"execpolicy_amendment": ["npm", "test"]}},
                "cancel"
            ]
        }"#,
    ))
    .expect("approval view");

    assert_eq!(
        view.decisions.iter().map(|option| from_json(&option.decision)).collect::<Vec<_>>(),
        vec![
            value(r#""accept""#),
            value(r#""acceptForSession""#),
            value(r#"{"acceptWithExecpolicyAmendment": {"execpolicy_amendment": ["npm", "test"]}}"#),
            value(r#""cancel""#),
        ]
    );
}

#[test]
fn v1_approval_keeps_review_decision_values() {
    let view = approval_request_view(&notification(
        "execCommandApproval",
        r#"{"command": "cargo test", "cwd": "D:\\repo"}"#,
    ))
    .expect("approval view");

    assert_eq!(from_json(&view.decisions[0].decision), value(r#""approved""#));
    assert_eq!(from_json(&view.decisions[1].decision), value(r#""denied""#));
    assert_eq!(response_of(&view.decisions[0].decision), value(r#"{"decision": "approved"}"#));
    assert_eq!(view.summary, "command: `cargo test`\ncwd: `D:\\repo`");
}

#[test]
fn permissions_approval_builds_protocol_response_options() {
    let view = approval_request_view(&notification(
        "item/permissions/requestApproval",
        r#"{
            "threadId": "thread",
            "turnId": "turn",
            "itemId": "item",
            "startedAtMs": 1,
            "cwd": "D:\\repo",
            "reason": "Need website access",
            "permissions": {"network": {"enabled": true}}
        }"#,
    ))
    .expect("approval view");

    assert_eq!(view.request_kind, "permissions");
    assert!(view.summary.contains("Need website access"));
    assert!(view.summary.contains("permissions: network"));
    assert_eq!(view.decisions.len(), 3);
    assert_eq!(
        response_of(&view.decisions[0].decision),
        value(r#"{"permissions": {"network": {"enabled": true}}, "scope": "turn", "strictAutoReview": null}"#)
    );
    assert_eq!(
        response_of(&view.decisions[1].decision),
        value(r#"{"permissions": {"network": {"enabled": true}}, "scope": "session", "strictAutoReview": null}"#)
    );
    assert_eq!(
        response_of(&view.decisions[2].decision),
        value(r#"{"permissions": {}, "scope": "turn", "strictAutoReview": null}"#)
    );
}

#[test]
fn mcp_url_elicitation_builds_protocol_response_options() {
    let view = approval_request_view(&notification(
        "mcpServer/elicitation/request",
        r#"{
            "threadId": "thread",
            "turnId": "turn",
            "serverName": "Browser",
            "mode": "url",
            "message": "Allow Browser Use to access https://www.xiaohongshu.com?",
            "url": "https://www.xiaohongshu.com",
            "elicitationId": "browser-access"
        }"#,
    ))
    .expect("approval view");

    assert_eq!(view.request_kind, "mcpElicitation");
    assert!(view.summary.contains("Browser"));
    assert!(view.summary.contains("https://www.xiaohongshu.com"));
    assert_eq!(view.decisions.len(), 4);
    assert_eq!(
        response_of(&view.decisions[0].decision),
        value(r#"{"action": "accept", "content": null, "_meta": null}"#)
    );
    assert_eq!(
        response_of(&view.decisions[1].decision),
        value(r#"{"action": "accept", "content": null, "_meta": {"persist": "always"}}"#)
    );
    assert_eq!(
        response_of(&view.decisions[2].decision),
        value(r#"{"action": "decline", "content": null, "_meta": null}"#)
    );
    assert_eq!(
        response_of(&view.decisions[3].decision),
        value(r#"{"action": "cancel", "content": null, "_meta": null}"#)
    );
}

#[test]
fn mcp_form_elicitation_accepts_boolean_confirmation() {
    let view = approval_request_view(&notification(
        "mcpServer/elicitation/request",
        r#"{
            "threadId": "thread",
            "turnId": "turn",
            "serverName": "codex_apps",
            "mode": "form",
            "message": "Allow this request?",
            "_meta": {"persist": ["session", "always"]},
            "requestedSchema": {
                "type": "object",
                "properties": {"confirmed": {"type": "boolean"}},
                "required": ["confirmed"]
            }
        }"#,
    ))
    .expect("approval view");

    assert_eq!(view.decisions.len(), 5);
    assert_eq!(
        response_of(&view.decisions[0].decision),
        value(r#"{"action": "accept", "content": {"confirmed": true}, "_meta": null}"#)
    );
    assert_eq!(
        response_of(&view.decisions[1].decision),
        value(r#"{"action": "accept", "content": {"confirmed": true}, "_meta": {"persist": "session"}}"#)
    );
    assert_eq!(
        response_of(&view.decisions[2].decision),
        value(r#"{"action": "accept", "content": {"confirmed": true}, "_meta": {"persist": "always"}}"#)
    );
}

#[test]
fn agent_message_text_supports_response_message_content() {
    let item = json(
        r#"{"type": "message", "role": "assistant", "content": [{"type": "output_text", "text": "hello"}, {"type": "output_text", "text": "world"}]}"#,
    );

    assert_eq!(extract_agent_message_text(&item).as_deref(), Some("hello\n\nworld"));
}

#[test]
fn turn_reply_text_supports_task_complete_last_agent_message() {
    let params = json(r#"{"threadId": "thread", "payload": {"type": "task_complete", "last_agent_message": "done"}}"#);

    assert_eq!(extract_turn_reply_text(&params).as_deref(), Some("done"));
}

#[test]
fn turn_reply_text_supports_not_loaded_turn_with_direct_message() {
    let params = json(
        r#"{"threadId": "thread", "turn": {"items": [], "itemsView": "notLoaded", "lastAgentMessage": "final"}}"#,
    );

    assert_eq!(extract_turn_reply_text(&params).as_deref(), Some("final"));
}

#[test]
fn command_approval_summary_and_default_decisions() {
    let view = approval_request_view(&notification(
        "item/commandExecution/requestApproval",
        r#"{
            "reason": "  run tests ",
            "command": ["bash", "-lc", "npm test"],
            "cwd": "/repo",
            "commandActions": [{"type": "read", "command": "cat", "path": "a.txt"}, {"type": "x"}],
            "proposedExecpolicyAmendment": ["/bin/bash", "-lc", "npm test"]
        }"#,
    ))
    .expect("approval view");
    assert_eq!(
        view.summary,
        "reason: run tests\ncommand: `bash -lc npm test`\ncwd: `/repo`\ncommandActions:\n- `read` `cat` → `a.txt`\nproposedExecpolicyAmendment: `npm test`"
    );
    let labels = view.decisions.iter().map(|d| d.label.clone()).collect::<Vec<_>>();
    assert_eq!(
        labels,
        vec![
            "Yes, proceed",
            "Yes, and don't ask again for commands that start with `npm test`",
            "No, and tell Codex what to do differently",
        ]
    );
    assert_eq!(
        from_json(&view.decisions[1].decision),
        value(r#"{"acceptWithExecpolicyAmendment": {"execpolicy_amendment": ["/bin/bash", "-lc", "npm test"]}}"#)
    );
}

#[test]
fn network_approval_offers_host_decisions() {
    let view = approval_request_view(&notification(
        "item/commandExecution/requestApproval",
        r#"{
            "networkApprovalContext": {"host": "example.com", "protocol": "https"},
            "proposedNetworkPolicyAmendments": [{"host": "a", "action": "deny"}, {"host": "example.com", "action": "allow"}]
        }"#,
    ))
    .expect("approval view");
    assert_eq!(
        view.summary,
        "networkApprovalContext: `https://example.com`\nproposedNetworkPolicyAmendments:\n- `deny` `a`\n- `allow` `example.com`"
    );
    let labels = view.decisions.iter().map(|d| d.label.clone()).collect::<Vec<_>>();
    assert_eq!(
        labels,
        vec![
            "Yes, just this once",
            "Yes, and allow this host for this conversation",
            "Yes, and allow this host in the future",
            "No, and tell Codex what to do differently",
        ]
    );
}

#[test]
fn other_approval_kinds() {
    let file = approval_request_view(&notification("item/fileChange/requestApproval", r#"{"itemId": "i1", "grantRoot": " /r "}"#))
        .expect("file change");
    assert_eq!(file.request_kind, "fileChange");
    assert_eq!(file.summary, "itemId: `i1`\ngrantRoot: `/r`");
    assert_eq!(file.decisions.len(), 3);
    let empty = approval_request_view(&notification("item/fileChange/requestApproval", "{}")).unwrap();
    assert_eq!(empty.summary, "fileChange approval requested");
    let patch = approval_request_view(&notification("applyPatchApproval", "{}")).unwrap();
    assert_eq!(patch.summary, "reason: ");
    assert!(approval_request_view(&notification("other/method", "{}")).is_none());
    let mut no_params = notification("applyPatchApproval", "{}");
    no_params.params = None;
    assert!(approval_request_view(&no_params).is_none());
    let perms = approval_request_view(&notification(
        "item/permissions/requestApproval",
        r#"{"permissions": {"fileSystem": {"read": ["/a", 3], "write": [], "entries": [{"path": "/b"}, {"access": "write", "path": {"glob": "*"}}]}}}"#,
    ))
    .unwrap();
    assert_eq!(perms.summary, "permissions: read `/a`; access `/b`, write {\"glob\":\"*\"}");
    let mcp = approval_request_view(&notification(
        "mcpServer/elicitation/request",
        r#"{"_meta": {"tool_params_display": [{"display_name": "Query", "value": "x"}, {"name": "n", "value": 5}]}}"#,
    ))
    .unwrap();
    assert_eq!(mcp.summary, "tool params:\n- `Query`: `x`\n- `n`: 5");
}

#[test]
fn notification_fields() {
    let delta = notification("item/agentMessage/delta", r#"{"delta": "hi", "text": "no"}"#);
    assert_eq!(extract_agent_delta(&delta).as_deref(), Some("hi"));
    let text = notification("item/reasoning/summaryTextDelta", r#"{"text": "t"}"#);
    assert_eq!(extract_agent_delta(&text).as_deref(), Some("t"));
    assert_eq!(extract_agent_delta(&notification("turn/completed", r#"{"delta": "x"}"#)), None);
    let done = notification("turn/completed", r#"{"turn": {"id": "t1", "threadId": "th"}}"#);
    assert!(is_turn_completed(&done, "t1"));
    assert!(!is_turn_completed(&done, "t2"));
    assert_eq!(notification_thread_id(&done).as_deref(), Some("th"));
    assert_eq!(notification_thread_id(&notification("x", r#"{"thread": {"id": "a"}}"#)).as_deref(), Some("a"));
    assert!(is_agent_message_item(&json(r#"{"type": "event_msg", "payload": {"type": "agent_message"}}"#)));
    assert!(!is_agent_message_item(&json(r#"{"type": "message", "role": "user"}"#)));
    assert_eq!(concise_command(&json(r#"{"command": ["git", 1, "status"]}"#)), "git status".chars().collect::<Vec<_>>());
    assert_eq!(non_empty_text("  x "), Some("x".to_string()));
    assert_eq!(non_empty_text("   "), None);
}
