//! Decisions of the bridge's Codex event router: what each event of the
//! remote-control notification channel leads to. The runtime state, the
//! chat handlers and the event log belong to the caller; each step here
//! takes what the caller looked up and says what to do next.
use vstd::prelude::*;
use crate::app_state::ImPlatformKind;
use crate::bridge::{approval_event_details, approval_event_text};
use crate::codex::{
    approval_request_view, approval_view, command_decisions_fail, notification_thread_id, params_view,
    thread_id, view_of, ApprovalRequestView, CodexNotification, PendingApproval,
};
use crate::json::{jget, json_text, to_json_text, Json, JsonV};
use crate::text::{append_str, append_vec, to_chars};
use crate::tool_names::{decimal, decimal_u64};

verus! {

/// One entry for the app's event log: level, kind and message.
#[derive(Debug)]
pub struct LogLine {
    pub level: String,
    pub kind: String,
    pub message: String,
}

impl View for LogLine {
    type V = (Seq<char>, Seq<char>, Seq<char>);

    open spec fn view(&self) -> (Seq<char>, Seq<char>, Seq<char>) {
        (self.level@, self.kind@, self.message@)
    }
}

fn log_line(level: &str, kind: &str, message: &Vec<char>) -> (r: LogLine)
    ensures
        r@ == (level@, kind@, message@),
{
    LogLine {
        level: String::from_str(level),
        kind: String::from_str(kind),
        message: crate::text::from_chars(message),
    }
}

/// What the router receives from the notification channel.
pub enum RouterEvent {
    /// The router fell behind and this many notifications were dropped.
    Lagged(u64),
    /// The channel closed.
    Closed,
    Notification(CodexNotification),
}

/// An approval request on its way to a chat: what the notification said.
pub struct ApprovalPlan {
    pub thread_id: String,
    pub request_id: Json,
    pub method: String,
    pub params: Option<Json>,
    pub remote_client_key: Option<String>,
    pub view: ApprovalRequestView,
}

/// What follows once the chat handlers have seen a notification.
pub enum FollowUp {
    Nothing,
    /// An approval request was answered elsewhere: resolve it in the
    /// runtime state.
    ResolveApproval(Json),
    Log(LogLine),
    /// An approval request: look up the route of its thread.
    RouteApproval(ApprovalPlan),
}

/// The router's next move.
pub enum RouterAction {
    /// The bridge was restarted: this router stops.
    Stop,
    /// Stop after logging.
    StopAndLog(LogLine),
    /// Log and wait for the next event.
    Log(LogLine),
    /// Hand the notification to the chat handlers, then do the follow-up.
    Handle(FollowUp),
}

pub open spec fn resolved_method() -> Seq<char> {
    "serverRequest/resolved"@
}

/// The router may look at the notification: an approval request the
/// view cannot be built for is refused.
pub open spec fn routable(n: CodexNotification) -> bool {
    n.request_id is Some && n.method@ == "item/commandExecution/requestApproval"@ ==> match params_view(n) {
        Some(p) => !command_decisions_fail(p),
        None => true,
    }
}

/// The plan carries the notification's fields and its approval view.
pub open spec fn plan_of(plan: ApprovalPlan, n: CodexNotification, t: Seq<char>) -> bool {
    &&& plan.thread_id@ == t
    &&& n.request_id matches Some(rid) && plan.request_id@ == rid@
    &&& plan.method@ == n.method@
    &&& crate::json::opt_json_view(plan.params) == params_view(n)
    &&& crate::tool_names::opt_view(plan.remote_client_key) == crate::tool_names::opt_view(n.remote_client_key)
    &&& approval_view(n.method@, params_view(n)) == Some(view_of(plan.view))
}

/// What the router does with a notification while its bridge is current.
pub open spec fn follow_up_of(n: CodexNotification, f: FollowUp) -> bool {
    if n.method@ == resolved_method() {
        match params_view(n) {
            Some(p) => match jget(p, "requestId"@) {
                Some(id) => f matches FollowUp::ResolveApproval(j) && j@ == id,
                None => f is Nothing,
            },
            None => f is Nothing,
        }
    } else {
        match n.request_id {
            None => f is Nothing,
            Some(rid) => match approval_view(n.method@, params_view(n)) {
                None => f is Nothing,
                Some((kind, _summary, _decisions)) => match thread_id(params_view(n)) {
                    None => f matches FollowUp::Log(l) && l@ == (
                        "warn"@,
                        "approval_no_thread"@,
                        "kind="@ + kind + " request_id="@ + json_text(rid@),
                    ),
                    Some(t) => f matches FollowUp::RouteApproval(plan) && plan_of(plan, n, t),
                },
            },
        }
    }
}

fn copy_opt_string(s: &Option<String>) -> (r: Option<String>)
    ensures
        crate::tool_names::opt_view(r) == crate::tool_names::opt_view(*s),
{
    match s {
        Some(t) => Some(t.clone()),
        None => None,
    }
}

fn copy_opt_json(j: &Option<Json>) -> (r: Option<Json>)
    ensures
        crate::json::opt_json_view(r) == crate::json::opt_json_view(*j),
{
    match j {
        Some(v) => Some(v.deep_clone()),
        None => None,
    }
}

fn notification_follow_up(n: &CodexNotification) -> (r: FollowUp)
    requires
        routable(*n),
    ensures
        follow_up_of(*n, r),
{
    let method = to_chars(n.method.as_str());
    if crate::text::eq_str(&method, "serverRequest/resolved") {
        return match &n.params {
            Some(p) => match p.get("requestId") {
                Some(id) => FollowUp::ResolveApproval(id.deep_clone()),
                None => FollowUp::Nothing,
            },
            None => FollowUp::Nothing,
        };
    }
    let rid = match &n.request_id {
        Some(rid) => rid,
        None => return FollowUp::Nothing,
    };
    let view = match approval_request_view(n) {
        Some(v) => v,
        None => return FollowUp::Nothing,
    };
    match notification_thread_id(n) {
        None => {
            let mut msg = to_chars("kind=");
            append_str(&mut msg, view.request_kind.as_str());
            append_str(&mut msg, " request_id=");
            append_str(&mut msg, to_json_text(rid).as_str());
            FollowUp::Log(log_line("warn", "approval_no_thread", &msg))
        },
        Some(t) => FollowUp::RouteApproval(
            ApprovalPlan {
                thread_id: t,
                request_id: rid.deep_clone(),
                method: n.method.clone(),
                params: copy_opt_json(&n.params),
                remote_client_key: copy_opt_string(&n.remote_client_key),
                view,
            },
        ),
    }
}

/// One step of the router: `current` says whether the router's bridge is
/// still the running one when the event is looked at.
pub fn router_step(current: bool, event: &RouterEvent) -> (r: RouterAction)
    requires
        event matches RouterEvent::Notification(n) ==> routable(*n),
    ensures
        match event {
            RouterEvent::Lagged(skipped) => r matches RouterAction::Log(l) && l@ == (
                "warn"@,
                "codex_event_router_lagged"@,
                "skipped="@ + decimal(*skipped as nat),
            ),
            RouterEvent::Closed => r matches RouterAction::StopAndLog(l) && l@ == (
                "warn"@,
                "codex_event_router_closed"@,
                "notification channel closed"@,
            ),
            RouterEvent::Notification(n) => if !current {
                r is Stop
            } else {
                r matches RouterAction::Handle(f) && follow_up_of(*n, f)
            },
        },
{
    match event {
        RouterEvent::Lagged(skipped) => {
            let mut msg = to_chars("skipped=");
            let digits = decimal_u64(*skipped);
            append_vec(&mut msg, &digits);
            RouterAction::Log(log_line("warn", "codex_event_router_lagged", &msg))
        },
        RouterEvent::Closed => {
            let msg = to_chars("notification channel closed");
            RouterAction::StopAndLog(log_line("warn", "codex_event_router_closed", &msg))
        },
        RouterEvent::Notification(n) => {
            if !current {
                RouterAction::Stop
            } else {
                RouterAction::Handle(notification_follow_up(n))
            }
        },
    }
}

/// The log entry for an approval request resolved in the runtime state.
pub fn approval_resolved_line(request_id: &Json) -> (r: LogLine)
    ensures
        r@ == ("info"@, "approval_resolved"@, "request_id="@ + json_text(request_id@)),
{
    let mut msg = to_chars("request_id=");
    append_str(&mut msg, to_json_text(request_id).as_str());
    log_line("info", "approval_resolved", &msg)
}

/// The chat an approval is routed to.
pub struct ApprovalRoute {
    pub platform: ImPlatformKind,
    pub account_id: String,
    pub chat_id: String,
    pub conversation_key: String,
}

/// What to do with a planned approval once its route has been looked up.
pub enum RouteDecision {
    Log(LogLine),
    /// Queue the approval for the route's conversation (sending it at once
    /// when nothing else waits there); log `requested` when the queue takes
    /// it and `replayed` when it already held the request.
    Queue {
        route: ApprovalRoute,
        approval: PendingApproval,
        send_now: bool,
        requested: LogLine,
        replayed: LogLine,
    },
}

pub open spec fn pending_of(a: PendingApproval, plan: ApprovalPlan) -> bool {
    &&& a.request_id@ == plan.request_id@
    &&& a.request_kind@ == plan.view.request_kind@
    &&& a.method@ == plan.method@
    &&& a.params@ == match plan.params {
        Some(p) => p@,
        None => JsonV::Null,
    }
    &&& a.summary@ == plan.view.summary@
    &&& crate::codex::options_view(a.decisions@) == crate::codex::options_view(plan.view.decisions@)
    &&& a.message_id is None
    &&& crate::tool_names::opt_view(a.remote_client_key) == crate::tool_names::opt_view(plan.remote_client_key)
}

/// `thread={t} platform={p} account={a} chat={c} {details}`.
pub open spec fn requested_text(plan: ApprovalPlan, route: ApprovalRoute) -> Seq<char> {
    "thread="@ + plan.thread_id@ + " platform="@ + route.platform.key_spec() + " account="@ + route.account_id@
        + " chat="@ + route.chat_id@ + " "@ + approval_event_text(
        plan.view.request_kind@,
        plan.request_id@,
        crate::json::opt_json_view(plan.params),
        plan.view.summary@,
    )
}

/// Routes a planned approval: no route or no remote client to answer
/// through is logged; otherwise the approval is queued.
pub fn approval_route_step(plan: ApprovalPlan, route: Option<ApprovalRoute>, has_pending: bool) -> (r: RouteDecision)
    ensures
        match route {
            None => r matches RouteDecision::Log(l) && l@ == (
                "warn"@,
                "approval_no_route"@,
                "thread="@ + plan.thread_id@ + " kind="@ + plan.view.request_kind@,
            ),
            Some(rt) => match plan.remote_client_key {
                None => r matches RouteDecision::Log(l) && l@ == (
                    "error"@,
                    "approval_remote_client_key_missing"@,
                    "thread="@ + plan.thread_id@ + " kind="@ + plan.view.request_kind@ + " request_id="@
                        + json_text(plan.request_id@),
                ),
                Some(_) => r matches RouteDecision::Queue { route: q, approval, send_now, requested, replayed } && {
                    &&& q == rt
                    &&& pending_of(approval, plan)
                    &&& send_now == !has_pending
                    &&& requested@ == ("info"@, "approval_requested"@, requested_text(plan, rt))
                    &&& replayed@ == (
                        "info"@,
                        "approval_replayed"@,
                        "thread="@ + plan.thread_id@ + " request_id="@ + json_text(plan.request_id@),
                    )
                },
            },
        },
{
    let rt = match route {
        Some(rt) => rt,
        None => {
            let mut msg = to_chars("thread=");
            append_str(&mut msg, plan.thread_id.as_str());
            append_str(&mut msg, " kind=");
            append_str(&mut msg, plan.view.request_kind.as_str());
            return RouteDecision::Log(log_line("warn", "approval_no_route", &msg));
        },
    };
    let rid_text = to_json_text(&plan.request_id);
    if plan.remote_client_key.is_none() {
        let mut msg = to_chars("thread=");
        append_str(&mut msg, plan.thread_id.as_str());
        append_str(&mut msg, " kind=");
        append_str(&mut msg, plan.view.request_kind.as_str());
        append_str(&mut msg, " request_id=");
        append_str(&mut msg, rid_text.as_str());
        return RouteDecision::Log(log_line("error", "approval_remote_client_key_missing", &msg));
    }
    let details = approval_event_details(
        plan.view.request_kind.as_str(),
        &plan.request_id,
        plan.params.as_ref(),
        plan.view.summary.as_str(),
    );
    let mut req = to_chars("thread=");
    append_str(&mut req, plan.thread_id.as_str());
    append_str(&mut req, " platform=");
    append_str(&mut req, rt.platform.key());
    append_str(&mut req, " account=");
    append_str(&mut req, rt.account_id.as_str());
    append_str(&mut req, " chat=");
    append_str(&mut req, rt.chat_id.as_str());
    append_str(&mut req, " ");
    append_str(&mut req, details.as_str());
    let mut rep = to_chars("thread=");
    append_str(&mut rep, plan.thread_id.as_str());
    append_str(&mut rep, " request_id=");
    append_str(&mut rep, rid_text.as_str());
    let requested = log_line("info", "approval_requested", &req);
    let replayed = log_line("info", "approval_replayed", &rep);
    let ghost p = plan;
    let params = match plan.params {
        Some(v) => v,
        None => Json::Null,
    };
    let approval = PendingApproval {
        request_id: plan.request_id,
        request_kind: plan.view.request_kind,
        method: plan.method,
        params,
        summary: plan.view.summary,
        decisions: plan.view.decisions,
        message_id: None,
        remote_client_key: plan.remote_client_key,
    };
    assert(pending_of(approval, p));
    RouteDecision::Queue { route: rt, approval, send_now: !has_pending, requested, replayed }
}

} // verus!
