use codexhub::app_state::ImPlatformKind;
use codexhub::codex::CodexNotification;
use codexhub::event_router::{
    approval_resolved_line, approval_route_step, router_step, ApprovalRoute, FollowUp, RouteDecision, RouterAction,
    RouterEvent,
};
use codexhub::json::Json;

fn obj(members: Vec<(&str, Json)>) -> Json {
    Json::Object(members.into_iter().map(|(k, v)| (k.to_string(), v)).collect())
}

fn notification(method: &str, params: Option<Json>, request_id: Option<Json>, key: Option<&str>) -> CodexNotification {
    CodexNotification {
        method: method.to_string(),
        params,
        request_id,
        remote_client_key: key.map(str::to_string),
        remote_client_id: None,
        remote_stream_id: None,
    }
}

fn file_change_request(key: Option<&str>) -> RouterEvent {
    let params = obj(vec![
        ("threadId", Json::Str("thread-1".to_string())),
        ("reason", Json::Str("write files".to_string())),
    ]);
    RouterEvent::Notification(notification(
        "item/fileChange/requestApproval",
        Some(params),
        Some(Json::Number("5".to_string())),
        key,
    ))
}

#[test]
fn channel_events_are_logged() {
    match router_step(true, &RouterEvent::Lagged(12)) {
        RouterAction::Log(l) => {
            assert_eq!(l.level, "warn");
            assert_eq!(l.kind, "codex_event_router_lagged");
            assert_eq!(l.message, "skipped=12");
        }
        _ => panic!("expected a log line"),
    }
    match router_step(true, &RouterEvent::Closed) {
        RouterAction::StopAndLog(l) => assert_eq!(l.kind, "codex_event_router_closed"),
        _ => panic!("expected to stop"),
    }
}

#[test]
fn a_stale_router_stops() {
    assert!(matches!(router_step(false, &file_change_request(Some("k"))), RouterAction::Stop));
}

#[test]
fn resolved_requests_are_resolved() {
    let params = obj(vec![("requestId", Json::Number("9".to_string()))]);
    let event = RouterEvent::Notification(notification("serverRequest/resolved", Some(params), None, None));
    match router_step(true, &event) {
        RouterAction::Handle(FollowUp::ResolveApproval(id)) => {
            assert_eq!(approval_resolved_line(&id).message, "request_id=9");
        }
        _ => panic!("expected a resolution"),
    }
    let plain = RouterEvent::Notification(notification("turn/started", None, None, None));
    assert!(matches!(router_step(true, &plain), RouterAction::Handle(FollowUp::Nothing)));
}

#[test]
fn approval_requests_are_routed_and_queued() {
    let plan = match router_step(true, &file_change_request(Some("client-1"))) {
        RouterAction::Handle(FollowUp::RouteApproval(plan)) => plan,
        _ => panic!("expected an approval plan"),
    };
    assert_eq!(plan.thread_id, "thread-1");
    assert_eq!(plan.view.request_kind, "fileChange");
    match approval_route_step(plan, None, false) {
        RouteDecision::Log(l) => {
            assert_eq!(l.kind, "approval_no_route");
            assert_eq!(l.message, "thread=thread-1 kind=fileChange");
        }
        _ => panic!("expected a log line"),
    }
    let plan = match router_step(true, &file_change_request(Some("client-1"))) {
        RouterAction::Handle(FollowUp::RouteApproval(plan)) => plan,
        _ => panic!("expected an approval plan"),
    };
    let route = ApprovalRoute {
        platform: ImPlatformKind::Feishu,
        account_id: "acct".to_string(),
        chat_id: "chat".to_string(),
        conversation_key: "conv".to_string(),
    };
    match approval_route_step(plan, Some(route), false) {
        RouteDecision::Queue { route, approval, send_now, requested, replayed } => {
            assert_eq!(route.conversation_key, "conv");
            assert!(send_now);
            assert_eq!(approval.request_kind, "fileChange");
            assert_eq!(approval.remote_client_key.as_deref(), Some("client-1"));
            assert!(requested.message.starts_with("thread=thread-1 platform=feishu account=acct chat=chat kind=fileChange request_id=5"));
            assert_eq!(replayed.message, "thread=thread-1 request_id=5");
        }
        _ => panic!("expected the approval to be queued"),
    }
}

#[test]
fn approvals_without_a_client_key_are_refused() {
    let plan = match router_step(true, &file_change_request(None)) {
        RouterAction::Handle(FollowUp::RouteApproval(plan)) => plan,
        _ => panic!("expected an approval plan"),
    };
    let route = ApprovalRoute {
        platform: ImPlatformKind::Telegram,
        account_id: "a".to_string(),
        chat_id: "c".to_string(),
        conversation_key: "k".to_string(),
    };
    match approval_route_step(plan, Some(route), true) {
        RouteDecision::Log(l) => {
            assert_eq!(l.level, "error");
            assert_eq!(l.message, "thread=thread-1 kind=fileChange request_id=5");
        }
        _ => panic!("expected an error line"),
    }
}
