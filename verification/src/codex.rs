//! Reading Codex app-server notifications: agent text, turn completion,
//! thread ids, and the approval requests that the bridge relays to chat
//! users together with the replies they may give.
use vstd::prelude::*;
use crate::json::{
    as_str_opt, get_opt, get_str, jget, jget_opt, jget_str, jstr, jstr_opt, lemma_jget_decreases, ref_view,
    str_view, Json, JsonV,
};
use crate::text::{
    append_str, append_vec, digit_value, digits_value, eq_str, eq_vec, lower, lower_str, parse_unsigned,
    parse_usize, slice_from, to_chars, trim, trim_str,
};

verus! {

/// One answer a user may give to an approval request: what is shown and
/// what is sent back to Codex.
#[derive(Debug)]
pub struct ApprovalDecisionOption {
    pub label: String,
    pub decision: Json,
}

impl Clone for ApprovalDecisionOption {
    fn clone(&self) -> (r: Self)
        ensures
            r.label@ == self.label@,
            r.decision@ == self.decision@,
    {
        ApprovalDecisionOption { label: self.label.clone(), decision: self.decision.clone() }
    }
}

/// An approval request waiting for a chat user's answer.
#[derive(Debug)]
pub struct PendingApproval {
    pub request_id: Json,
    pub request_kind: String,
    pub method: String,
    pub params: Json,
    pub summary: String,
    pub decisions: Vec<ApprovalDecisionOption>,
    pub message_id: Option<String>,
    pub remote_client_key: Option<String>,
}

pub fn decision_option(label: &str, decision: Json) -> (r: ApprovalDecisionOption)
    ensures
        r.label@ == label@,
        r.decision@ == decision@,
{
    ApprovalDecisionOption { label: String::from_str(label), decision }
}

pub open spec fn permissions_response_key() -> Seq<char> {
    "__codexRemotePermissionsResponse"@
}

pub open spec fn mcp_response_key() -> Seq<char> {
    "__codexRemoteMcpElicitationResponse"@
}

/// The `permissions` object of a permissions response, if the decision is one.
pub open spec fn granted_permissions(d: JsonV) -> Option<JsonV> {
    jget_opt(jget(d, permissions_response_key()), "permissions"@)
}

/// The `action` of an MCP elicitation response, if the decision is one.
pub open spec fn elicitation_action(d: JsonV) -> Option<Seq<char>> {
    jstr_opt(jget_opt(jget(d, mcp_response_key()), "action"@))
}

/// The `action` of a network policy amendment decision.
pub open spec fn network_amendment_action(d: JsonV) -> Option<Seq<char>> {
    let outer = jget(d, "applyNetworkPolicyAmendment"@);
    let inner = match jget_opt(outer, "network_policy_amendment"@) {
        Some(v) => Some(v),
        None => jget_opt(outer, "networkPolicyAmendment"@),
    };
    jstr_opt(jget_opt(inner, "action"@))
}

pub open spec fn is_object_with(j: Option<JsonV>, nonempty: bool) -> bool {
    match j {
        Some(JsonV::Object(m)) => (m.len() > 0) == nonempty,
        _ => false,
    }
}

/// A decision that says yes: `accept`/`approved`, a permissions grant that
/// grants something, or an accepting elicitation answer.
pub open spec fn is_accept_decision(d: JsonV) -> bool {
    ||| jstr(d) == Some("accept"@)
    ||| jstr(d) == Some("approved"@)
    ||| is_object_with(granted_permissions(d), true)
    ||| elicitation_action(d) == Some("accept"@)
}

/// A decision that says no: `decline`/`cancel`/`denied`, a permissions
/// answer that grants nothing, a declining or cancelling elicitation answer,
/// or a network amendment that denies.
pub open spec fn is_negative_decision(d: JsonV) -> bool {
    ||| jstr(d) == Some("decline"@)
    ||| jstr(d) == Some("cancel"@)
    ||| jstr(d) == Some("denied"@)
    ||| is_object_with(granted_permissions(d), false)
    ||| elicitation_action(d) == Some("decline"@)
    ||| elicitation_action(d) == Some("cancel"@)
    ||| network_amendment_action(d) == Some("deny"@)
}

/// A notification from the Codex app server, with the remote client it came through.
#[derive(Debug)]
pub struct CodexNotification {
    pub method: String,
    pub params: Option<Json>,
    pub request_id: Option<Json>,
    pub remote_client_key: Option<String>,
    pub remote_client_id: Option<String>,
    pub remote_stream_id: Option<String>,
}

pub open spec fn params_view(n: CodexNotification) -> Option<JsonV> {
    match n.params {
        Some(p) => Some(p@),
        None => None,
    }
}

/// The first of two lookups that finds something.
pub open spec fn or_else<T>(a: Option<T>, b: Option<T>) -> Option<T> {
    match a {
        Some(x) => Some(x),
        None => b,
    }
}

/// The streamed text of an agent-message or reasoning-summary delta: its
/// `delta`, or `text` when there is no `delta`.
pub open spec fn agent_delta(method: Seq<char>, params: Option<JsonV>) -> Option<Seq<char>> {
    if method == "item/agentMessage/delta"@ || method == "item/reasoning/summaryTextDelta"@ {
        match params {
            Some(p) => jstr_opt(or_else(jget(p, "delta"@), jget(p, "text"@))),
            None => None,
        }
    } else {
        None
    }
}

fn opt_string(s: Option<&str>) -> (r: Option<String>)
    ensures
        crate::tool_names::opt_view(r) == str_view(s),
{
    match s {
        Some(t) => Some(String::from_str(t)),
        None => None,
    }
}

pub fn extract_agent_delta(notification: &CodexNotification) -> (r: Option<String>)
    ensures
        crate::tool_names::opt_view(r) == agent_delta(notification.method@, params_view(*notification)),
{
    let m = to_chars(notification.method.as_str());
    if !(eq_str(&m, "item/agentMessage/delta") || eq_str(&m, "item/reasoning/summaryTextDelta")) {
        return None;
    }
    match &notification.params {
        Some(p) => {
            let v = match p.get("delta") {
                Some(d) => Some(d),
                None => p.get("text"),
            };
            opt_string(as_str_opt(v))
        },
        None => None,
    }
}

/// An item that carries the agent's reply: an agent message, an assistant
/// message, a completed task, or an event wrapping one of these.
pub open spec fn is_agent_item(item: JsonV) -> bool
    decreases item,
{
    let t = jget_str(item, "type"@);
    if t == Some("agentMessage"@) || t == Some("agent_message"@) {
        true
    } else if t == Some("message"@) {
        jget_str(item, "role"@) == Some("assistant"@)
    } else if t == Some("event_msg"@) || t == Some("response_item"@) {
        match jget(item, "payload"@) {
            Some(p) => {
                proof {
                    lemma_jget_decreases(item, "payload"@);
                }
                is_agent_item(p)
            },
            None => false,
        }
    } else {
        t == Some("task_complete"@)
    }
}

pub fn is_agent_message_item(item: &Json) -> (r: bool)
    ensures
        r == is_agent_item(item@),
    decreases item@,
{
    let t = get_str(item, "type");
    if str_is(t, "agentMessage") || str_is(t, "agent_message") {
        true
    } else if str_is(t, "message") {
        str_is(get_str(item, "role"), "assistant")
    } else if str_is(t, "event_msg") || str_is(t, "response_item") {
        match item.get("payload") {
            Some(p) => {
                proof {
                    lemma_jget_decreases(item@, "payload"@);
                }
                is_agent_message_item(p)
            },
            None => false,
        }
    } else {
        str_is(t, "task_complete")
    }
}

/// Trimmed text, unless blank.
pub open spec fn non_empty(text: Seq<char>) -> Option<Seq<char>> {
    if trim(text).len() > 0 {
        Some(trim(text))
    } else {
        None
    }
}

pub fn non_empty_text(text: &str) -> (r: Option<String>)
    ensures
        crate::tool_names::opt_view(r) == non_empty(text@),
{
    let t = trim_str(text);
    if t.as_str().is_empty() {
        None
    } else {
        Some(t)
    }
}

/// Parts joined with a separator between them.
pub open spec fn join_with(parts: Seq<Seq<char>>, sep: Seq<char>) -> Seq<char>
    decreases parts.len(),
{
    if parts.len() == 0 {
        Seq::empty()
    } else if parts.len() == 1 {
        parts[0]
    } else {
        join_with(parts.drop_last(), sep) + sep + parts.last()
    }
}

pub fn join_vecs(parts: &Vec<Vec<char>>, sep: &str) -> (r: Vec<char>)
    ensures
        r@ == join_with(lines_view(parts@), sep@),
{
    let ghost ps = lines_view(parts@);
    let mut out: Vec<char> = Vec::new();
    let mut i: usize = 0;
    while i < parts.len()
        invariant
            i <= parts@.len(),
            ps == lines_view(parts@),
            out@ == join_with(ps.take(i as int), sep@),
        decreases parts@.len() - i,
    {
        assert(ps.take(i + 1).drop_last() =~= ps.take(i as int));
        assert(ps.take(i + 1).last() == parts@[i as int]@);
        if i > 0 {
            append_str(&mut out, sep);
        }
        append_vec(&mut out, &parts[i]);
        proof {
            if i == 0 {
                assert(ps.take(1)[0] == parts@[0]@);
            }
        }
        i += 1;
    }
    assert(ps.take(parts@.len() as int) =~= ps);
    out
}

pub open spec fn message_fields() -> Seq<Seq<char>> {
    seq!["text"@, "message"@, "lastAgentMessage"@, "last_agent_message"@, "outputText"@, "output_text"@]
}

pub open spec fn entry_fields() -> Seq<Seq<char>> {
    seq!["text"@, "content"@, "message"@, "value"@]
}

pub open spec fn direct_reply_fields() -> Seq<Seq<char>> {
    seq!["lastAgentMessage"@, "last_agent_message"@, "agentMessage"@, "agent_message"@]
}

/// The text of the first of `fields` whose value yields text.
pub open spec fn text_from_fields(v: JsonV, fields: Seq<Seq<char>>) -> Option<Seq<char>>
    decreases v, 1int, fields.len(),
{
    if fields.len() == 0 {
        None
    } else {
        let rest = text_from_fields(v, fields.drop_first());
        match jget(v, fields[0]) {
            Some(x) => {
                proof {
                    lemma_jget_decreases(v, fields[0]);
                }
                match content_value_text(x) {
                    Some(t) => Some(t),
                    None => rest,
                }
            },
            None => rest,
        }
    }
}

/// The text of a content value: a non-blank string, the texts of an array's
/// entries joined by blank lines, or the text of an object entry.
pub open spec fn content_value_text(v: JsonV) -> Option<Seq<char>>
    decreases v, 3int, 0int,
{
    match v {
        JsonV::Str(t) => non_empty(t),
        JsonV::Array(items) => {
            let parts = content_parts(items);
            if parts.len() > 0 {
                Some(join_with(parts, "\n\n"@))
            } else {
                None
            }
        },
        JsonV::Object(_) => content_entry_text(v),
        _ => None,
    }
}

/// The texts of the entries that yield one, in order.
pub open spec fn content_parts(items: Seq<JsonV>) -> Seq<Seq<char>>
    decreases items, 0int, 0int,
{
    if items.len() == 0 {
        Seq::empty()
    } else {
        let before = content_parts(items.drop_last());
        match content_entry_text(items.last()) {
            Some(t) => before.push(t),
            None => before,
        }
    }
}

/// The text of one content entry: a non-blank string, one of its text
/// fields, or the message it carries as `payload`.
pub open spec fn content_entry_text(e: JsonV) -> Option<Seq<char>>
    decreases e, 2int, 0int,
{
    match e {
        JsonV::Str(t) => non_empty(t),
        _ => match text_from_fields(e, entry_fields()) {
            Some(t) => Some(t),
            None => match jget(e, "payload"@) {
                Some(p) => {
                    proof {
                        lemma_jget_decreases(e, "payload"@);
                    }
                    message_text(p)
                },
                None => None,
            },
        },
    }
}

/// The text of a message: its text fields, its content, or the message it
/// carries as `payload`.
pub open spec fn message_text(v: JsonV) -> Option<Seq<char>>
    decreases v, 2int, 0int,
{
    match text_from_fields(v, message_fields()) {
        Some(t) => Some(t),
        None => {
            let from_content = match jget(v, "content"@) {
                Some(c) => {
                    proof {
                        lemma_jget_decreases(v, "content"@);
                    }
                    content_value_text(c)
                },
                None => None,
            };
            match from_content {
                Some(t) => Some(t),
                None => match jget(v, "payload"@) {
                    Some(p) => {
                        proof {
                            lemma_jget_decreases(v, "payload"@);
                        }
                        message_text(p)
                    },
                    None => None,
                },
            }
        },
    }
}

pub open spec fn names_view(fields: Seq<&str>) -> Seq<Seq<char>> {
    fields.map_values(|f: &str| f@)
}

fn text_from_fields_exec(v: &Json, fields: &Vec<&str>) -> (r: Option<Vec<char>>)
    ensures
        opt_chars(r) == text_from_fields(v@, names_view(fields@)),
    decreases v@, 1int, 0int,
{
    let ghost fs = names_view(fields@);
    let mut i: usize = 0;
    assert(fs.skip(0) =~= fs);
    while i < fields.len()
        invariant
            i <= fields@.len(),
            fs == names_view(fields@),
            text_from_fields(v@, fs) == text_from_fields(v@, fs.skip(i as int)),
        decreases fields@.len() - i,
    {
        let ghost t = fs.skip(i as int);
        assert(t[0] == fields@[i as int]@);
        assert(t.drop_first() =~= fs.skip(i + 1));
        match v.get(fields[i]) {
            Some(x) => {
                proof {
                    lemma_jget_decreases(v@, fields@[i as int]@);
                }
                match content_value_text_exec(x) {
                    Some(text) => return Some(text),
                    None => {},
                }
            },
            None => {},
        }
        i += 1;
    }
    None
}

pub open spec fn opt_chars(o: Option<Vec<char>>) -> Option<Seq<char>> {
    match o {
        Some(v) => Some(v@),
        None => None,
    }
}

fn non_empty_chars(t: &str) -> (r: Option<Vec<char>>)
    ensures
        opt_chars(r) == non_empty(t@),
{
    let v = to_chars(t);
    let tr = crate::text::trim_vec(&v);
    if tr.len() > 0 {
        Some(tr)
    } else {
        None
    }
}

fn content_value_text_exec(v: &Json) -> (r: Option<Vec<char>>)
    ensures
        opt_chars(r) == content_value_text(v@),
    decreases v@, 3int, 0int,
{
    match v {
        Json::Str(t) => non_empty_chars(t.as_str()),
        Json::Array(items) => {
            let mut parts: Vec<Vec<char>> = Vec::new();
            let mut i: usize = 0;
            proof {
                crate::json::lemma_views(items@);
            }
            while i < items.len()
                invariant
                    i <= items@.len(),
                    *v == Json::Array(*items),
                    lines_view(parts@) == content_parts(crate::json::views(items@).take(i as int)),
                decreases items@.len() - i,
            {
                proof {
                    crate::json::lemma_item_decreases(items@, i as int);
                    crate::json::lemma_views(items@);
                    let vs = crate::json::views(items@);
                    assert(vs.take(i + 1).drop_last() =~= vs.take(i as int));
                    assert(vs.take(i + 1).last() == items@[i as int]@);
                }
                let ghost before = parts@;
                match content_entry_text_exec(&items[i]) {
                    Some(t) => {
                        parts.push(t);
                        assert(lines_view(parts@) =~= lines_view(before).push(
                            parts@.last()@,
                        ));
                    },
                    None => {},
                }
                i += 1;
            }
            proof {
                crate::json::lemma_views(items@);
                assert(crate::json::views(items@).take(items@.len() as int) =~= crate::json::views(items@));
            }
            if parts.len() > 0 {
                Some(join_vecs(&parts, "\n\n"))
            } else {
                None
            }
        },
        Json::Object(_) => content_entry_text_exec(v),
        _ => None,
    }
}

fn content_entry_text_exec(e: &Json) -> (r: Option<Vec<char>>)
    ensures
        opt_chars(r) == content_entry_text(e@),
    decreases e@, 2int, 0int,
{
    match e {
        Json::Str(t) => non_empty_chars(t.as_str()),
        _ => {
            let fields = vec!["text", "content", "message", "value"];
            assert(names_view(fields@) =~= entry_fields());
            match text_from_fields_exec(e, &fields) {
                Some(t) => Some(t),
                None => match e.get("payload") {
                    Some(p) => {
                        proof {
                            lemma_jget_decreases(e@, "payload"@);
                        }
                        message_text_exec(p)
                    },
                    None => None,
                },
            }
        },
    }
}

fn message_text_exec(v: &Json) -> (r: Option<Vec<char>>)
    ensures
        opt_chars(r) == message_text(v@),
    decreases v@, 2int, 0int,
{
    let fields = vec!["text", "message", "lastAgentMessage", "last_agent_message", "outputText", "output_text"];
    assert(names_view(fields@) =~= message_fields());
    match text_from_fields_exec(v, &fields) {
        Some(t) => Some(t),
        None => {
            let from_content = match v.get("content") {
                Some(c) => {
                    proof {
                        lemma_jget_decreases(v@, "content"@);
                    }
                    content_value_text_exec(c)
                },
                None => None,
            };
            match from_content {
                Some(t) => Some(t),
                None => match v.get("payload") {
                    Some(p) => {
                        proof {
                            lemma_jget_decreases(v@, "payload"@);
                        }
                        message_text_exec(p)
                    },
                    None => None,
                },
            }
        },
    }
}

/// The reply text of an agent item.
pub open spec fn agent_message_text(item: JsonV) -> Option<Seq<char>> {
    if is_agent_item(item) {
        message_text(item)
    } else {
        None
    }
}

fn chars_to_string(o: Option<Vec<char>>) -> (r: Option<String>)
    ensures
        crate::tool_names::opt_view(r) == opt_chars(o),
{
    match o {
        Some(v) => Some(crate::text::from_chars(&v)),
        None => None,
    }
}

fn agent_message_text_exec(item: &Json) -> (r: Option<Vec<char>>)
    ensures
        opt_chars(r) == agent_message_text(item@),
{
    if !is_agent_message_item(item) {
        return None;
    }
    message_text_exec(item)
}

pub fn extract_agent_message_text(item: &Json) -> (r: Option<String>)
    ensures
        crate::tool_names::opt_view(r) == agent_message_text(item@),
{
    chars_to_string(agent_message_text_exec(item))
}

/// The reply text of the last agent item of a sequence.
pub open spec fn last_agent_text(items: Seq<JsonV>) -> Option<Seq<char>>
    decreases items.len(),
{
    if items.len() == 0 {
        None
    } else {
        match agent_message_text(items.last()) {
            Some(t) => Some(t),
            None => last_agent_text(items.drop_last()),
        }
    }
}

/// The reply found among items is the text of an agent message that no
/// later agent message follows: the search takes the latest one. There is
/// none exactly when no item is an agent message with text.
pub proof fn law_reply_is_latest_agent_message(items: Seq<JsonV>)
    ensures
        match last_agent_text(items) {
            Some(t) => exists|i: int|
                {
                    &&& 0 <= i < items.len()
                    &&& #[trigger] agent_message_text(items[i]) == Some(t)
                    &&& forall|j: int| i < j < items.len() ==> (#[trigger] agent_message_text(items[j])) is None
                },
            None => forall|i: int| 0 <= i < items.len() ==> (#[trigger] agent_message_text(items[i])) is None,
        },
    decreases items.len(),
{
    if items.len() > 0 {
        let before = items.drop_last();
        law_reply_is_latest_agent_message(before);
        let n = items.len() - 1;
        match agent_message_text(items.last()) {
            Some(t) => {
                assert(agent_message_text(items[n]) == Some(t));
            },
            None => {
                match last_agent_text(before) {
                    Some(t) => {
                        let i = choose|i: int|
                            {
                                &&& 0 <= i < before.len()
                                &&& #[trigger] agent_message_text(before[i]) == Some(t)
                                &&& forall|j: int| i < j < before.len() ==> (#[trigger] agent_message_text(before[j])) is None
                            };
                        assert(items[i] == before[i]);
                        assert forall|j: int| i < j < items.len() implies (#[trigger] agent_message_text(items[j])) is None by {
                            if j < n {
                                assert(items[j] == before[j]);
                            }
                        }
                    },
                    None => {
                        assert forall|i: int| 0 <= i < items.len() implies (#[trigger] agent_message_text(items[i])) is None by {
                            if i < n {
                                assert(items[i] == before[i]);
                            }
                        }
                    },
                }
            },
        }
    }
}

/// Appending an agent message with text makes it the reply.
pub proof fn law_appended_agent_message_is_the_reply(items: Seq<JsonV>, x: JsonV)
    requires
        agent_message_text(x) is Some,
    ensures
        last_agent_text(items.push(x)) == agent_message_text(x),
{
    law_reply_is_latest_agent_message(items.push(x));
    let t = last_agent_text(items.push(x));
    if let Some(tt) = t {
        let i = choose|i: int|
            {
                &&& 0 <= i < items.push(x).len()
                &&& #[trigger] agent_message_text(items.push(x)[i]) == Some(tt)
                &&& forall|j: int| i < j < items.push(x).len() ==> (#[trigger] agent_message_text(items.push(x)[j])) is None
            };
        if i < items.len() {
            assert(items.push(x)[items.len() as int] == x);
        }
    } else {
        assert(items.push(x)[items.len() as int] == x);
    }
}

/// A turn's reply, when the turn carries its items, is the latest agent
/// message among them.
pub proof fn law_turn_items_reply_is_latest(v: JsonV, items: Seq<JsonV>)
    requires
        jget_opt(jget(v, "turn"@), "items"@) == Some(JsonV::Array(items)),
    ensures
        match latest_agent_message_in_items(v) {
            Some(t) => exists|i: int|
                {
                    &&& 0 <= i < items.len()
                    &&& #[trigger] agent_message_text(items[i]) == Some(t)
                    &&& forall|j: int| i < j < items.len() ==> (#[trigger] agent_message_text(items[j])) is None
                },
            None => forall|i: int| 0 <= i < items.len() ==> (#[trigger] agent_message_text(items[i])) is None,
        },
{
    law_reply_is_latest_agent_message(items);
}

/// The reply of the latest agent item in `turn.items`, or in `items`.
pub open spec fn latest_agent_message_in_items(v: JsonV) -> Option<Seq<char>> {
    match or_else(jget_opt(jget(v, "turn"@), "items"@), jget(v, "items"@)) {
        Some(JsonV::Array(items)) => last_agent_text(items),
        _ => None,
    }
}

fn latest_agent_message_exec(v: &Json) -> (r: Option<Vec<char>>)
    ensures
        opt_chars(r) == latest_agent_message_in_items(v@),
{
    let items = match get_opt(v.get("turn"), "items") {
        Some(x) => Some(x),
        None => v.get("items"),
    };
    match items {
        Some(Json::Array(a)) => {
            proof {
                crate::json::lemma_views(a@);
            }
            let ghost vs = crate::json::views(a@);
            let mut i: usize = a.len();
            assert(vs.take(i as int) =~= vs);
            assert(latest_agent_message_in_items(v@) == last_agent_text(vs));
            while i > 0
                invariant
                    i <= a@.len(),
                    latest_agent_message_in_items(v@) == last_agent_text(vs),
                    vs == crate::json::views(a@),
                    vs.len() == a@.len(),
                    forall|k: int| 0 <= k < a@.len() ==> #[trigger] vs[k] == a@[k]@,
                    last_agent_text(vs) == last_agent_text(vs.take(i as int)),
                decreases i,
            {
                assert(vs.take(i as int).last() == a@[i - 1]@);
                assert(vs.take(i as int).drop_last() =~= vs.take(i - 1));
                match agent_message_text_exec(&a[i - 1]) {
                    Some(t) => return Some(t),
                    None => {},
                }
                i -= 1;
            }
            None
        },
        _ => None,
    }
}

/// The text a turn replied with: a direct last-agent-message field of the
/// notification, its payload or its turn; else an agent item itself; else
/// the latest agent item listed. Trimmed, and nothing when blank.
pub open spec fn turn_reply_text(params: JsonV) -> Option<Seq<char>> {
    let direct = direct_reply_fields();
    let found = or_else(
        text_from_fields(params, direct),
        or_else(
            match jget(params, "payload"@) {
                Some(p) => text_from_fields(p, direct),
                None => None,
            },
            or_else(
                match jget(params, "turn"@) {
                    Some(t) => text_from_fields(t, direct),
                    None => None,
                },
                or_else(
                    agent_message_text(params),
                    or_else(
                        latest_agent_message_in_items(params),
                        match jget(params, "turn"@) {
                            Some(t) => latest_agent_message_in_items(t),
                            None => None,
                        },
                    ),
                ),
            ),
        ),
    );
    match found {
        Some(t) => non_empty(t),
        None => None,
    }
}

/// A completed turn without a reply field (in the notification, its
/// payload or its turn) is answered with the latest agent message among
/// the turn's items, when that text is not blank.
pub proof fn law_turn_reply_comes_from_latest_item(params: JsonV, items: Seq<JsonV>)
    requires
        text_from_fields(params, direct_reply_fields()) is None,
        jget(params, "payload"@) matches Some(p) ==> text_from_fields(p, direct_reply_fields()) is None,
        jget(params, "turn"@) matches Some(t) ==> text_from_fields(t, direct_reply_fields()) is None,
        agent_message_text(params) is None,
        jget_opt(jget(params, "turn"@), "items"@) == Some(JsonV::Array(items)),
    ensures
        turn_reply_text(params) == match last_agent_text(items) {
            Some(t) => non_empty(t),
            None => match jget(params, "turn"@) {
                Some(t) => match latest_agent_message_in_items(t) {
                    Some(x) => non_empty(x),
                    None => None,
                },
                None => None,
            },
        },
{
}

pub fn extract_turn_reply_text(params: &Json) -> (r: Option<String>)
    ensures
        crate::tool_names::opt_view(r) == turn_reply_text(params@),
{
    let fields = vec!["lastAgentMessage", "last_agent_message", "agentMessage", "agent_message"];
    assert(names_view(fields@) =~= direct_reply_fields());
    let mut found = text_from_fields_exec(params, &fields);
    if found.is_none() {
        found = match params.get("payload") {
            Some(p) => text_from_fields_exec(p, &fields),
            None => None,
        };
    }
    if found.is_none() {
        found = match params.get("turn") {
            Some(t) => text_from_fields_exec(t, &fields),
            None => None,
        };
    }
    if found.is_none() {
        found = agent_message_text_exec(params);
    }
    if found.is_none() {
        found = latest_agent_message_exec(params);
    }
    if found.is_none() {
        found = match params.get("turn") {
            Some(t) => latest_agent_message_exec(t),
            None => None,
        };
    }
    match found {
        Some(t) => {
            let tr = crate::text::trim_vec(&t);
            if tr.len() > 0 {
                Some(crate::text::from_chars(&tr))
            } else {
                None
            }
        },
        None => None,
    }
}

/// A `turn/completed` notification for the given turn (by `turnId`, or by
/// the id of its `turn`).
pub open spec fn turn_completed(method: Seq<char>, params: Option<JsonV>, turn_id: Seq<char>) -> bool {
    method == "turn/completed"@ && match params {
        Some(p) => or_else(jget_str(p, "turnId"@), jstr_opt(jget_opt(jget(p, "turn"@), "id"@))) == Some(turn_id),
        None => false,
    }
}

pub fn is_turn_completed(notification: &CodexNotification, turn_id: &str) -> (r: bool)
    ensures
        r == turn_completed(notification.method@, params_view(*notification), turn_id@),
{
    let m = to_chars(notification.method.as_str());
    if !eq_str(&m, "turn/completed") {
        return false;
    }
    match &notification.params {
        Some(p) => {
            let id = match get_str(p, "turnId") {
                Some(x) => Some(x),
                None => as_str_opt(get_opt(p.get("turn"), "id")),
            };
            match id {
                Some(x) => {
                    let a = to_chars(x);
                    eq_str(&a, turn_id)
                },
                None => false,
            }
        },
        None => false,
    }
}

/// The thread a notification belongs to: `threadId`, `thread_id`, the id of
/// its `thread`, or the `threadId` of its `turn`.
pub open spec fn thread_id(params: Option<JsonV>) -> Option<Seq<char>> {
    match params {
        Some(p) => or_else(
            jget_str(p, "threadId"@),
            or_else(
                jget_str(p, "thread_id"@),
                or_else(jstr_opt(jget_opt(jget(p, "thread"@), "id"@)), jstr_opt(jget_opt(jget(p, "turn"@), "threadId"@))),
            ),
        ),
        None => None,
    }
}

pub fn notification_thread_id(notification: &CodexNotification) -> (r: Option<String>)
    ensures
        crate::tool_names::opt_view(r) == thread_id(params_view(*notification)),
{
    match &notification.params {
        Some(p) => {
            let mut id = get_str(p, "threadId");
            if id.is_none() {
                id = get_str(p, "thread_id");
            }
            if id.is_none() {
                id = as_str_opt(get_opt(p.get("thread"), "id"));
            }
            if id.is_none() {
                id = as_str_opt(get_opt(p.get("turn"), "threadId"));
            }
            opt_string(id)
        },
        None => None,
    }
}

/// The strings of an array, in order.
pub open spec fn array_strings(items: Seq<JsonV>) -> Seq<Seq<char>>
    decreases items.len(),
{
    if items.len() == 0 {
        Seq::empty()
    } else {
        match jstr(items.last()) {
            Some(t) => array_strings(items.drop_last()).push(t),
            None => array_strings(items.drop_last()),
        }
    }
}

/// The strings of an array, in order.
pub fn array_strings_of(a: &Vec<Json>) -> (r: Vec<Vec<char>>)
    ensures
        lines_view(r@) == array_strings(crate::json::views(a@)),
{
    array_strings_exec(a)
}

fn array_strings_exec(a: &Vec<Json>) -> (r: Vec<Vec<char>>)
    ensures
        lines_view(r@) == array_strings(crate::json::views(a@)),
{
    proof {
        crate::json::lemma_views(a@);
    }
    let ghost vs = crate::json::views(a@);
    let mut out: Vec<Vec<char>> = Vec::new();
    let mut i: usize = 0;
    while i < a.len()
        invariant
            i <= a@.len(),
            vs == crate::json::views(a@),
            vs.len() == a@.len(),
            forall|k: int| 0 <= k < a@.len() ==> #[trigger] vs[k] == a@[k]@,
            lines_view(out@) == array_strings(vs.take(i as int)),
        decreases a@.len() - i,
    {
        assert(vs.take(i + 1).drop_last() =~= vs.take(i as int));
        assert(vs.take(i + 1).last() == a@[i as int]@);
        let ghost before = out@;
        match a[i].as_str() {
            Some(t) => {
                out.push(to_chars(t));
                assert(lines_view(out@) =~= lines_view(before).push(t@));
            },
            None => {},
        }
        i += 1;
    }
    assert(vs.take(a@.len() as int) =~= vs);
    out
}

/// The command of an approval request: a string as given, the strings of
/// an array joined by spaces, or empty text.
pub open spec fn concise_command_spec(params: JsonV) -> Seq<char> {
    match jget(params, "command"@) {
        Some(JsonV::Str(t)) => t,
        Some(JsonV::Array(items)) => join_with(array_strings(items), " "@),
        _ => Seq::empty(),
    }
}

pub fn concise_command(params: &Json) -> (r: Vec<char>)
    ensures
        r@ == concise_command_spec(params@),
{
    match params.get("command") {
        Some(Json::Str(t)) => to_chars(t.as_str()),
        Some(Json::Array(items)) => {
            let parts = array_strings_exec(items);
            join_vecs(&parts, " ")
        },
        _ => Vec::new(),
    }
}

fn str_is(s: Option<&str>, lit: &str) -> (r: bool)
    ensures
        r == (crate::json::str_view(s) == Some(lit@)),
{
    match s {
        Some(t) => {
            let v = crate::text::to_chars(t);
            eq_str(&v, lit)
        },
        None => false,
    }
}

fn object_with(j: Option<&Json>, nonempty: bool) -> (r: bool)
    ensures
        r == is_object_with(crate::json::ref_view(j), nonempty),
{
    match j {
        Some(Json::Object(m)) => {
            proof {
                crate::json::lemma_member_views(m@);
            }
            (m.len() > 0) == nonempty
        },
        _ => false,
    }
}

pub fn accepts(decision: &Json) -> (r: bool)
    ensures
        r == is_accept_decision(decision@),
{
    let s = decision.as_str();
    let perms = get_opt(decision.get("__codexRemotePermissionsResponse"), "permissions");
    let action = as_str_opt(get_opt(decision.get("__codexRemoteMcpElicitationResponse"), "action"));
    str_is(s, "accept") || str_is(s, "approved") || object_with(perms, true) || str_is(action, "accept")
}

pub fn declines(decision: &Json) -> (r: bool)
    ensures
        r == is_negative_decision(decision@),
{
    let s = decision.as_str();
    let perms = get_opt(decision.get("__codexRemotePermissionsResponse"), "permissions");
    let action = as_str_opt(get_opt(decision.get("__codexRemoteMcpElicitationResponse"), "action"));
    let outer = decision.get("applyNetworkPolicyAmendment");
    let inner = match get_opt(outer, "network_policy_amendment") {
        Some(v) => Some(v),
        None => get_opt(outer, "networkPolicyAmendment"),
    };
    let net = as_str_opt(get_opt(inner, "action"));
    str_is(s, "decline") || str_is(s, "cancel") || str_is(s, "denied") || object_with(perms, false)
        || str_is(action, "decline") || str_is(action, "cancel") || str_is(net, "deny")
}

/// The first decision that says yes (`accept`) or no (otherwise).
pub open spec fn matches_kind(o: ApprovalDecisionOption, accept: bool) -> bool {
    if accept {
        is_accept_decision(o.decision@)
    } else {
        is_negative_decision(o.decision@)
    }
}

pub open spec fn is_first_of_kind(ds: Seq<ApprovalDecisionOption>, accept: bool, i: int) -> bool {
    &&& 0 <= i < ds.len()
    &&& matches_kind(ds[i], accept)
    &&& forall|j: int| 0 <= j < i ==> !matches_kind(#[trigger] ds[j], accept)
}

pub open spec fn first_of_kind(ds: Seq<ApprovalDecisionOption>, accept: bool) -> Option<int> {
    if exists|i: int| is_first_of_kind(ds, accept, i) {
        Some(choose|i: int| is_first_of_kind(ds, accept, i))
    } else {
        None
    }
}

/// The number a reply names, as `N` or `/N`.
pub open spec fn reply_number(normalized: Seq<char>) -> Option<nat> {
    if normalized.len() > 0 && normalized[0] == '/' {
        parse_unsigned(normalized.drop_first(), usize::MAX as nat)
    } else {
        parse_unsigned(normalized, usize::MAX as nat)
    }
}

pub open spec fn is_yes_reply(n: Seq<char>) -> bool {
    n == "/y"@ || n == "/yes"@ || n == "y"@ || n == "yes"@
}

pub open spec fn is_no_reply(n: Seq<char>) -> bool {
    n == "/n"@ || n == "/no"@ || n == "n"@ || n == "no"@
}

/// The position (counted from 0) of the decision a reply picks: a positive
/// number picks that entry (and nothing when there is none); otherwise a
/// yes or no word picks the first decision of that kind.
pub open spec fn chosen_decision(ds: Seq<ApprovalDecisionOption>, input: Seq<char>) -> Option<int> {
    let n = lower(trim(input));
    match reply_number(n) {
        Some(k) if k > 0 => if k <= ds.len() {
            Some(k - 1)
        } else {
            None
        },
        _ => if is_yes_reply(n) {
            first_of_kind(ds, true)
        } else if is_no_reply(n) {
            first_of_kind(ds, false)
        } else {
            None
        },
    }
}

fn first_kind(ds: &Vec<ApprovalDecisionOption>, accept: bool) -> (r: Option<usize>)
    ensures
        match r {
            Some(i) => first_of_kind(ds@, accept) == Some(i as int) && i < ds@.len(),
            None => first_of_kind(ds@, accept) is None,
        },
{
    let mut i: usize = 0;
    while i < ds.len()
        invariant
            i <= ds@.len(),
            forall|j: int| 0 <= j < i ==> !matches_kind(#[trigger] ds@[j], accept),
        decreases ds@.len() - i,
    {
        let hit = if accept {
            accepts(&ds[i].decision)
        } else {
            declines(&ds[i].decision)
        };
        if hit {
            proof {
                assert(is_first_of_kind(ds@, accept, i as int));
                assert forall|k: int| is_first_of_kind(ds@, accept, k) implies k == i by {
                    if k < i {
                        assert(!matches_kind(ds@[k], accept));
                    } else if k > i {
                        assert(!matches_kind(ds@[i as int], accept));
                    }
                }
            }
            return Some(i);
        }
        i += 1;
    }
    proof {
        assert forall|k: int| !is_first_of_kind(ds@, accept, k) by {
            if 0 <= k < ds@.len() {
                assert(!matches_kind(ds@[k], accept));
            }
        }
    }
    None
}

fn is_one_of(v: &Vec<char>, a: &str, b: &str, c: &str, d: &str) -> (r: bool)
    ensures
        r == (v@ == a@ || v@ == b@ || v@ == c@ || v@ == d@),
{
    eq_str(v, a) || eq_str(v, b) || eq_str(v, c) || eq_str(v, d)
}

/// `approval_decision_by_input`: the decision a chat reply selects, with its
/// position counted from 1.
pub fn approval_decision_by_input(pending: &PendingApproval, input: &str) -> (r: Option<(usize, ApprovalDecisionOption)>)
    ensures
        match r {
            Some((k, d)) => {
                &&& chosen_decision(pending.decisions@, input@) == Some(k - 1)
                &&& k >= 1
                &&& d.label@ == pending.decisions@[k - 1].label@
                &&& d.decision@ == pending.decisions@[k - 1].decision@
            },
            None => chosen_decision(pending.decisions@, input@) is None,
        },
{
    let t = trim_str(input);
    let normalized = lower_str(t.as_str());
    let number = if normalized.len() > 0 && normalized[0] == '/' {
        let rest = slice_from(&normalized, 1);
        assert(rest@ =~= normalized@.drop_first());
        parse_usize(&rest)
    } else {
        parse_usize(&normalized)
    };
    if let Some(index) = number {
        if index > 0 {
            if index <= pending.decisions.len() {
                let d = pending.decisions[index - 1].clone();
                return Some((index, d));
            }
            return None;
        }
    }
    let picked = if is_one_of(&normalized, "/y", "/yes", "y", "yes") {
        first_kind(&pending.decisions, true)
    } else if is_one_of(&normalized, "/n", "/no", "n", "no") {
        first_kind(&pending.decisions, false)
    } else {
        None
    };
    match picked {
        Some(i) => {
            let d = pending.decisions[i].clone();
            assert(i < pending.decisions.len());
            Some((i + 1, d))
        },
        None => None,
    }
}

proof fn lemma_first_of_kind_exists(ds: Seq<ApprovalDecisionOption>, accept: bool, j: int)
    requires
        0 <= j < ds.len(),
        matches_kind(ds[j], accept),
    ensures
        exists|i: int| is_first_of_kind(ds, accept, i),
    decreases j,
{
    if exists|k: int| 0 <= k < j && matches_kind(#[trigger] ds[k], accept) {
        let k = choose|k: int| 0 <= k < j && matches_kind(#[trigger] ds[k], accept);
        lemma_first_of_kind_exists(ds, accept, k);
    } else {
        assert(is_first_of_kind(ds, accept, j));
    }
}

/// The first decision of a kind is the earliest one of that kind, and
/// there is none exactly when no decision is of that kind.
proof fn lemma_first_of_kind(ds: Seq<ApprovalDecisionOption>, accept: bool)
    ensures
        match first_of_kind(ds, accept) {
            Some(i) => {
                &&& 0 <= i < ds.len()
                &&& matches_kind(ds[i], accept)
                &&& forall|j: int| 0 <= j < i ==> !matches_kind(#[trigger] ds[j], accept)
            },
            None => forall|j: int| 0 <= j < ds.len() ==> !matches_kind(#[trigger] ds[j], accept),
        },
{
    if first_of_kind(ds, accept) is None {
        assert forall|j: int| 0 <= j < ds.len() implies !matches_kind(#[trigger] ds[j], accept) by {
            if matches_kind(ds[j], accept) {
                lemma_first_of_kind_exists(ds, accept, j);
            }
        }
    }
}

proof fn lemma_reply_words()
    ensures
        "n"@ =~= seq!['n'],
        "no"@ =~= seq!['n', 'o'],
        "/n"@ =~= seq!['/', 'n'],
        "/no"@ =~= seq!['/', 'n', 'o'],
        "y"@ =~= seq!['y'],
        "yes"@ =~= seq!['y', 'e', 's'],
        "/y"@ =~= seq!['/', 'y'],
        "/yes"@ =~= seq!['/', 'y', 'e', 's'],
{
    reveal_strlit("n");
    reveal_strlit("no");
    reveal_strlit("/n");
    reveal_strlit("/no");
    reveal_strlit("y");
    reveal_strlit("yes");
    reveal_strlit("/y");
    reveal_strlit("/yes");
}

/// A reply word names no decision by number: it is a word, not digits.
proof fn lemma_word_is_no_number(w: Seq<char>)
    requires
        w.len() > 0,
        w[w.len() - 1] == 'n' || w[w.len() - 1] == 'o' || w[w.len() - 1] == 'y' || w[w.len() - 1] == 's',
    ensures
        reply_number(w) is None,
{
    let body = if w.len() > 0 && w[0] == '/' { w.drop_first() } else { w };
    let d = crate::text::unsigned_digits(body);
    if d.len() > 0 && crate::text::all_ascii_digits(d) {
        assert(d[d.len() - 1] == w[w.len() - 1]);
        assert(crate::text::is_ascii_digit(d[d.len() - 1]));
    }
}

/// A no-reply (`n`, `no`, `/n` or `/no`, in any case and with blanks
/// around it) selects the first decision that declines, and nothing when
/// none declines; it never selects a decision before that one.
pub proof fn law_no_reply_selects_first_declining(ds: Seq<ApprovalDecisionOption>, input: Seq<char>)
    requires
        lower(trim(input)) == "n"@ || lower(trim(input)) == "no"@ || lower(trim(input)) == "/n"@ || lower(trim(input))
            == "/no"@,
    ensures
        match chosen_decision(ds, input) {
            Some(i) => {
                &&& 0 <= i < ds.len()
                &&& is_negative_decision(ds[i].decision@)
                &&& forall|j: int| 0 <= j < i ==> !is_negative_decision(#[trigger] ds[j].decision@)
            },
            None => forall|j: int| 0 <= j < ds.len() ==> !is_negative_decision(#[trigger] ds[j].decision@),
        },
{
    lemma_reply_words();
    let n = lower(trim(input));
    lemma_word_is_no_number(n);
    assert(!is_yes_reply(n));
    assert(is_no_reply(n));
    lemma_first_of_kind(ds, false);
}

/// A yes-reply (`y`, `yes`, `/y` or `/yes`, in any case and with blanks
/// around it) selects the first decision that accepts, and nothing when
/// none accepts.
pub proof fn law_yes_reply_selects_first_accepting(ds: Seq<ApprovalDecisionOption>, input: Seq<char>)
    requires
        lower(trim(input)) == "y"@ || lower(trim(input)) == "yes"@ || lower(trim(input)) == "/y"@ || lower(trim(input))
            == "/yes"@,
    ensures
        match chosen_decision(ds, input) {
            Some(i) => {
                &&& 0 <= i < ds.len()
                &&& is_accept_decision(ds[i].decision@)
                &&& forall|j: int| 0 <= j < i ==> !is_accept_decision(#[trigger] ds[j].decision@)
            },
            None => forall|j: int| 0 <= j < ds.len() ==> !is_accept_decision(#[trigger] ds[j].decision@),
        },
{
    lemma_reply_words();
    let n = lower(trim(input));
    lemma_word_is_no_number(n);
    assert(is_yes_reply(n));
    lemma_first_of_kind(ds, true);
}

/// A reply that is a number `k`, bare or after `/`, selects the `k`-th
/// decision (counted from 1), and nothing when there is no such decision.
pub proof fn law_numbered_reply_selects_that_entry(ds: Seq<ApprovalDecisionOption>, input: Seq<char>, d: Seq<char>)
    requires
        d.len() > 0,
        crate::text::all_ascii_digits(d),
        digits_value(d) <= usize::MAX,
        lower(trim(input)) == d || lower(trim(input)) == seq!['/'] + d,
    ensures
        chosen_decision(ds, input) == if 1 <= digits_value(d) <= ds.len() {
            Some(digits_value(d) - 1)
        } else {
            None::<int>
        },
{
    lemma_reply_words();
    let n = lower(trim(input));
    assert(crate::text::is_ascii_digit(d[0]));
    assert(crate::text::unsigned_digits(d) == d);
    if n == seq!['/'] + d {
        assert(n.drop_first() =~= d);
    }
    assert(reply_number(n) == Some(digits_value(d)));
    if digits_value(d) == 0 {
        let last = d[d.len() - 1];
        assert(crate::text::is_ascii_digit(last));
        assert(n[n.len() - 1] == last);
        assert(!is_yes_reply(n));
        assert(!is_no_reply(n));
    }
}

/// `approval_response`: the reply sent to Codex for a decision. Permission
/// and elicitation answers carry their own response object; anything else
/// is wrapped as `{"decision": ...}`.
pub open spec fn approval_response_view(d: JsonV) -> JsonV {
    match jget(d, permissions_response_key()) {
        Some(r) => r,
        None => match jget(d, mcp_response_key()) {
            Some(r) => r,
            None => JsonV::Object(seq![("decision"@, d)]),
        },
    }
}

pub fn approval_response(decision: Json) -> (r: Json)
    ensures
        r@ == approval_response_view(decision@),
{
    if let Some(response) = decision.get("__codexRemotePermissionsResponse") {
        return response.clone();
    }
    if let Some(response) = decision.get("__codexRemoteMcpElicitationResponse") {
        return response.clone();
    }
    let key = String::from_str("decision");
    let ghost dv = decision@;
    let members = vec![(key, decision)];
    proof {
        crate::json::lemma_member_views(members@);
        assert(crate::json::member_views(members@) =~= seq![("decision"@, dv)]);
    }
    Json::Object(members)
}


// ─── approval requests ─────────────────────────────────────────────────

/// What an approval request is shown as: its kind, a summary, and the
/// answers offered.
#[derive(Debug)]
pub struct ApprovalRequestView {
    pub request_kind: String,
    pub summary: String,
    pub decisions: Vec<ApprovalDecisionOption>,
}

pub open spec fn option_view(o: ApprovalDecisionOption) -> (Seq<char>, JsonV) {
    (o.label@, o.decision@)
}

pub open spec fn options_view(v: Seq<ApprovalDecisionOption>) -> Seq<(Seq<char>, JsonV)> {
    v.map_values(|o: ApprovalDecisionOption| option_view(o))
}

pub open spec fn tick(x: Seq<char>) -> Seq<char> {
    "`"@ + x + "`"@
}

pub open spec fn opt_line(o: Option<Seq<char>>) -> Seq<Seq<char>> {
    match o {
        Some(l) => seq![l],
        None => Seq::empty(),
    }
}

pub open spec fn prefixed(o: Option<Seq<char>>, prefix: Seq<char>) -> Option<Seq<char>> {
    match o {
        Some(x) => Some(prefix + x),
        None => None,
    }
}

pub open spec fn ticked(o: Option<Seq<char>>, prefix: Seq<char>) -> Option<Seq<char>> {
    match o {
        Some(x) => Some(prefix + tick(x)),
        None => None,
    }
}

pub open spec fn nonblank(o: Option<Seq<char>>) -> Option<Seq<char>> {
    match o {
        Some(x) => non_empty(x),
        None => None,
    }
}

pub open spec fn or_default(o: Option<Seq<char>>, d: Seq<char>) -> Seq<char> {
    match o {
        Some(x) => x,
        None => d,
    }
}

/// Summary lines joined by line breaks, or the fallback when there are none.
/// The first `n` elements (all of them when there are fewer): `take(n)` of
/// an iterator.
pub open spec fn at_most(s: Seq<JsonV>, n: int) -> Seq<JsonV> {
    if s.len() <= n {
        s
    } else {
        s.take(n)
    }
}

pub open spec fn lines_or(lines: Seq<Seq<char>>, fallback: Seq<char>) -> Seq<char> {
    if lines.len() == 0 {
        fallback
    } else {
        join_with(lines, "\n"@)
    }
}

/// The values that `f` gives something for, in order.
pub open spec fn collect_some(s: Seq<JsonV>, f: spec_fn(JsonV) -> Option<Seq<char>>) -> Seq<Seq<char>>
    decreases s.len(),
{
    if s.len() == 0 {
        Seq::empty()
    } else {
        match f(s.last()) {
            Some(x) => collect_some(s.drop_last(), f).push(x),
            None => collect_some(s.drop_last(), f),
        }
    }
}

pub proof fn lemma_collect_step(s: Seq<JsonV>, i: int, f: spec_fn(JsonV) -> Option<Seq<char>>)
    requires
        0 <= i < s.len(),
    ensures
        collect_some(s.take(i + 1), f) == collect_some(s.take(i), f) + opt_line(f(s[i])),
{
    let t = s.take(i + 1);
    assert(t.drop_last() =~= s.take(i));
    assert(t.last() == s[i]);
    match f(s[i]) {
        Some(x) => {
            assert(collect_some(s.take(i), f).push(x) =~= collect_some(s.take(i), f) + opt_line(f(s[i])));
        },
        None => {
            assert(collect_some(s.take(i), f) =~= collect_some(s.take(i), f) + opt_line(f(s[i])));
        },
    }
}

/// How a value is shown inline: a string in backticks, anything else as
/// compact JSON.
pub open spec fn compact_value(v: JsonV) -> Seq<char> {
    match v {
        JsonV::Str(t) => tick(t),
        _ => crate::json::json_text(v),
    }
}

pub open spec fn reason_line(p: JsonV) -> Option<Seq<char>> {
    prefixed(nonblank(jget_str(p, "reason"@)), "reason: "@)
}

pub open spec fn network_context_line(p: JsonV) -> Option<Seq<char>> {
    match jget(p, "networkApprovalContext"@) {
        Some(nw) => Some(
            "networkApprovalContext: `"@ + or_default(jget_str(nw, "protocol"@), Seq::empty()) + "://"@ + or_default(
                jget_str(nw, "host"@),
                Seq::empty(),
            ) + "`"@,
        ),
        None => None,
    }
}

pub open spec fn command_line(p: JsonV) -> Option<Seq<char>> {
    let c = concise_command_spec(p);
    if trim(c).len() > 0 {
        Some("command: "@ + tick(c))
    } else {
        None
    }
}

pub open spec fn action_line(a: JsonV) -> Option<Seq<char>> {
    let ty = or_default(jget_str(a, "type"@), "unknown"@);
    let cmd = or_default(jget_str(a, "command"@), Seq::empty());
    let detail = or_default(
        or_else(jget_str(a, "path"@), or_else(jget_str(a, "query"@), jget_str(a, "name"@))),
        Seq::empty(),
    );
    if cmd.len() == 0 && detail.len() == 0 {
        None
    } else if detail.len() == 0 {
        Some("- "@ + tick(ty) + " "@ + tick(cmd))
    } else {
        Some("- "@ + tick(ty) + " "@ + tick(cmd) + " → "@ + tick(detail))
    }
}

pub open spec fn action_line_fn() -> spec_fn(JsonV) -> Option<Seq<char>> {
    |a: JsonV| action_line(a)
}

pub open spec fn command_actions_summary(p: JsonV) -> Option<Seq<char>> {
    match jget(p, "commandActions"@) {
        Some(JsonV::Array(actions)) => if actions.len() == 0 {
            None
        } else {
            let ls = collect_some(at_most(actions, 4), action_line_fn());
            if ls.len() > 0 {
                Some("commandActions:\n"@ + join_with(ls, "\n"@))
            } else {
                None
            }
        },
        _ => None,
    }
}

/// The strings of an array value, each in backticks.
pub open spec fn ticked_strings(items: Seq<JsonV>) -> Seq<Seq<char>> {
    array_strings(items).map_values(|t: Seq<char>| tick(t))
}

pub open spec fn access_part(v: Option<JsonV>, word: Seq<char>) -> Seq<Seq<char>> {
    match v {
        Some(JsonV::Array(items)) => if ticked_strings(items).len() > 0 {
            seq![word + " "@ + join_with(ticked_strings(items), ", "@)]
        } else {
            Seq::empty()
        },
        _ => Seq::empty(),
    }
}

pub open spec fn entry_text(entry: JsonV) -> Option<Seq<char>> {
    match jget(entry, "path"@) {
        Some(path) => Some(or_default(jget_str(entry, "access"@), "access"@) + " "@ + compact_value(path)),
        None => None,
    }
}

pub open spec fn entry_text_fn() -> spec_fn(JsonV) -> Option<Seq<char>> {
    |e: JsonV| entry_text(e)
}

pub open spec fn file_system_parts(fs: JsonV) -> Seq<Seq<char>> {
    let entries = match jget(fs, "entries"@) {
        Some(JsonV::Array(es)) => {
            let ts = collect_some(at_most(es, 6), entry_text_fn());
            if ts.len() > 0 {
                seq![join_with(ts, ", "@)]
            } else {
                Seq::empty()
            }
        },
        _ => Seq::empty(),
    };
    access_part(jget(fs, "read"@), "read"@) + access_part(jget(fs, "write"@), "write"@) + entries
}

/// What a permission profile grants, after its label.
pub open spec fn permission_profile_summary(label: Seq<char>, perms: JsonV) -> Option<Seq<char>> {
    let network = if jget_opt(jget(perms, "network"@), "enabled"@) == Some(JsonV::Bool(true)) {
        seq!["network"@]
    } else {
        Seq::empty()
    };
    let fs = match jget(perms, "fileSystem"@) {
        Some(f) => file_system_parts(f),
        None => Seq::empty(),
    };
    let parts = network + fs;
    if parts.len() > 0 {
        Some(label + ": "@ + join_with(parts, "; "@))
    } else {
        None
    }
}

pub open spec fn additional_permissions_summary(p: JsonV) -> Option<Seq<char>> {
    match jget(p, "additionalPermissions"@) {
        Some(x) => permission_profile_summary("additionalPermissions"@, x),
        None => None,
    }
}

/// The last component of a command path (after the last `/` or `\`).
pub open spec fn last_component(s: Seq<char>) -> Seq<char>
    decreases s.len(),
{
    if s.len() == 0 {
        s
    } else if s.last() == '/' || s.last() == '\\' {
        Seq::empty()
    } else {
        last_component(s.drop_last()).push(s.last())
    }
}

/// The command prefix of an exec-policy amendment: the script of a
/// `bash|zsh|sh -lc SCRIPT` call, otherwise its words joined by spaces.
pub open spec fn decision_prefix(v: JsonV) -> Option<Seq<char>> {
    match v {
        JsonV::Array(items) => {
            let parts = array_strings(items);
            if parts.len() == 0 {
                None
            } else if parts.len() >= 3 && (last_component(parts[0]) == "bash"@ || last_component(parts[0]) == "zsh"@
                || last_component(parts[0]) == "sh"@) && parts[1] == "-lc"@ {
                Some(parts[2])
            } else {
                Some(join_with(parts, " "@))
            }
        },
        _ => None,
    }
}

pub open spec fn execpolicy_amendment_summary(p: JsonV) -> Option<Seq<char>> {
    match jget(p, "proposedExecpolicyAmendment"@) {
        Some(a) => ticked(decision_prefix(a), "proposedExecpolicyAmendment: "@),
        None => None,
    }
}

pub open spec fn amendment_line(a: JsonV) -> Option<Seq<char>> {
    match jget_str(a, "host"@) {
        Some(h) => Some("- "@ + tick(or_default(jget_str(a, "action"@), "allow"@)) + " "@ + tick(h)),
        None => None,
    }
}

pub open spec fn amendment_line_fn() -> spec_fn(JsonV) -> Option<Seq<char>> {
    |a: JsonV| amendment_line(a)
}

pub open spec fn network_policy_amendments_summary(p: JsonV) -> Option<Seq<char>> {
    match jget(p, "proposedNetworkPolicyAmendments"@) {
        Some(JsonV::Array(am)) => {
            let ls = collect_some(at_most(am, 4), amendment_line_fn());
            if ls.len() > 0 {
                Some("proposedNetworkPolicyAmendments:\n"@ + join_with(ls, "\n"@))
            } else {
                None
            }
        },
        _ => None,
    }
}

pub open spec fn command_approval_summary(p: JsonV) -> Seq<char> {
    lines_or(
        opt_line(reason_line(p)) + opt_line(network_context_line(p)) + opt_line(command_line(p)) + opt_line(
            ticked(jget_str(p, "cwd"@), "cwd: "@),
        ) + opt_line(command_actions_summary(p)) + opt_line(additional_permissions_summary(p)) + opt_line(
            execpolicy_amendment_summary(p),
        ) + opt_line(network_policy_amendments_summary(p)),
        "approval requested"@,
    )
}

pub open spec fn file_change_approval_summary(p: JsonV) -> Seq<char> {
    lines_or(
        opt_line(ticked(jget_str(p, "itemId"@), "itemId: "@)) + opt_line(reason_line(p)) + opt_line(
            ticked(nonblank(jget_str(p, "grantRoot"@)), "grantRoot: "@),
        ),
        "fileChange approval requested"@,
    )
}

pub open spec fn permissions_approval_summary(p: JsonV) -> Seq<char> {
    lines_or(
        opt_line(reason_line(p)) + opt_line(ticked(jget_str(p, "cwd"@), "cwd: "@)) + opt_line(
            match jget(p, "permissions"@) {
                Some(x) => permission_profile_summary("permissions"@, x),
                None => None,
            },
        ) + opt_line(ticked(jget_str(p, "itemId"@), "itemId: "@)),
        "permissions approval requested"@,
    )
}

pub open spec fn param_line(q: JsonV) -> Option<Seq<char>> {
    match jstr_opt(or_else(jget(q, "display_name"@), or_else(jget(q, "displayName"@), jget(q, "name"@)))) {
        Some(n) => match jget(q, "value"@) {
            Some(v) => Some("- "@ + tick(n) + ": "@ + compact_value(v)),
            None => None,
        },
        None => None,
    }
}

pub open spec fn param_line_fn() -> spec_fn(JsonV) -> Option<Seq<char>> {
    |q: JsonV| param_line(q)
}

pub open spec fn mcp_tool_display_summary(p: JsonV) -> Option<Seq<char>> {
    match jget_opt(jget(p, "_meta"@), "tool_params_display"@) {
        Some(JsonV::Array(ps)) => {
            let ls = collect_some(at_most(ps, 4), param_line_fn());
            if ls.len() > 0 {
                Some("tool params:\n"@ + join_with(ls, "\n"@))
            } else {
                None
            }
        },
        _ => None,
    }
}

pub open spec fn mcp_elicitation_summary(p: JsonV) -> Seq<char> {
    lines_or(
        opt_line(ticked(jget_str(p, "serverName"@), "serverName: "@)) + opt_line(nonblank(jget_str(p, "message"@)))
            + opt_line(ticked(jget_str(p, "url"@), "url: "@)) + opt_line(
            ticked(jget_str(p, "elicitationId"@), "elicitationId: "@),
        ) + opt_line(ticked(jget_str(p, "mode"@), "mode: "@)) + opt_line(mcp_tool_display_summary(p)),
        "MCP elicitation requested"@,
    )
}


pub open spec fn lines_view(v: Seq<Vec<char>>) -> Seq<Seq<char>> {
    v.map_values(|l: Vec<char>| l@)
}

fn push_opt_line(lines: &mut Vec<Vec<char>>, o: Option<Vec<char>>)
    ensures
        lines_view(final(lines)@) == lines_view(old(lines)@) + opt_line(opt_chars(o)),
{
    let ghost before = lines@;
    match o {
        Some(l) => {
            lines.push(l);
            assert(lines_view(lines@) =~= lines_view(before) + opt_line(opt_chars(o)));
        },
        None => {
            assert(lines_view(lines@) =~= lines_view(before) + opt_line(opt_chars(o)));
        },
    }
}

fn finish_lines(lines: &Vec<Vec<char>>, fallback: &str) -> (r: String)
    ensures
        r@ == lines_or(lines_view(lines@), fallback@),
{
    if lines.len() == 0 {
        String::from_str(fallback)
    } else {
        let j = join_vecs(lines, "\n");
        crate::text::from_chars(&j)
    }
}

fn tick_vec(x: &[char]) -> (r: Vec<char>)
    ensures
        r@ == tick(x@),
{
    let mut r: Vec<char> = Vec::new();
    append_str(&mut r, "`");
    append_vec(&mut r, x);
    append_str(&mut r, "`");
    r
}

fn with_prefix(prefix: &str, x: &[char]) -> (r: Vec<char>)
    ensures
        r@ == prefix@ + x@,
{
    let mut r = to_chars(prefix);
    append_vec(&mut r, x);
    r
}

fn prefixed_exec(o: Option<Vec<char>>, prefix: &str) -> (r: Option<Vec<char>>)
    ensures
        opt_chars(r) == prefixed(opt_chars(o), prefix@),
{
    match o {
        Some(x) => Some(with_prefix(prefix, &x)),
        None => None,
    }
}

fn ticked_exec(o: Option<&str>, prefix: &str) -> (r: Option<Vec<char>>)
    ensures
        opt_chars(r) == ticked(str_view(o), prefix@),
{
    match o {
        Some(x) => {
            let t = tick_vec(&to_chars(x));
            Some(with_prefix(prefix, &t))
        },
        None => None,
    }
}

fn ticked_chars(o: Option<Vec<char>>, prefix: &str) -> (r: Option<Vec<char>>)
    ensures
        opt_chars(r) == ticked(opt_chars(o), prefix@),
{
    match o {
        Some(x) => {
            let t = tick_vec(&x);
            Some(with_prefix(prefix, &t))
        },
        None => None,
    }
}

fn nonblank_exec(o: Option<&str>) -> (r: Option<Vec<char>>)
    ensures
        opt_chars(r) == nonblank(str_view(o)),
{
    match o {
        Some(x) => non_empty_chars(x),
        None => None,
    }
}

fn or_default_exec(o: Option<&str>, d: &str) -> (r: Vec<char>)
    ensures
        r@ == or_default(str_view(o), d@),
{
    match o {
        Some(x) => to_chars(x),
        None => to_chars(d),
    }
}

fn compact_value_exec(v: &Json) -> (r: Vec<char>)
    ensures
        r@ == compact_value(v@),
{
    match v {
        Json::Str(t) => tick_vec(&to_chars(t.as_str())),
        _ => {
            let s = crate::json::to_json_text(v);
            to_chars(s.as_str())
        },
    }
}

fn reason_line_exec(p: &Json) -> (r: Option<Vec<char>>)
    ensures
        opt_chars(r) == reason_line(p@),
{
    prefixed_exec(nonblank_exec(get_str(p, "reason")), "reason: ")
}

fn network_context_line_exec(p: &Json) -> (r: Option<Vec<char>>)
    ensures
        opt_chars(r) == network_context_line(p@),
{
    match p.get("networkApprovalContext") {
        Some(nw) => {
            let mut l = to_chars("networkApprovalContext: `");
            append_vec(&mut l, &or_default_exec(get_str(nw, "protocol"), ""));
            append_str(&mut l, "://");
            append_vec(&mut l, &or_default_exec(get_str(nw, "host"), ""));
            append_str(&mut l, "`");
            proof {
                reveal_strlit("");
                assert(""@ =~= Seq::<char>::empty());
            }
            Some(l)
        },
        None => None,
    }
}

fn command_line_exec(p: &Json) -> (r: Option<Vec<char>>)
    ensures
        opt_chars(r) == command_line(p@),
{
    let c = concise_command(p);
    let t = crate::text::trim_vec(&c);
    if t.len() > 0 {
        Some(with_prefix("command: ", &tick_vec(&c)))
    } else {
        None
    }
}

fn action_line_exec(a: &Json) -> (r: Option<Vec<char>>)
    ensures
        opt_chars(r) == action_line(a@),
{
    let ty = or_default_exec(get_str(a, "type"), "unknown");
    let cmd = or_default_exec(get_str(a, "command"), "");
    let mut d = get_str(a, "path");
    if d.is_none() {
        d = get_str(a, "query");
    }
    if d.is_none() {
        d = get_str(a, "name");
    }
    let detail = or_default_exec(d, "");
    proof {
        reveal_strlit("");
        assert(""@ =~= Seq::<char>::empty());
    }
    if cmd.len() == 0 && detail.len() == 0 {
        return None;
    }
    let mut l = to_chars("- ");
    append_vec(&mut l, &tick_vec(&ty));
    append_str(&mut l, " ");
    append_vec(&mut l, &tick_vec(&cmd));
    if detail.len() > 0 {
        append_str(&mut l, " → ");
        append_vec(&mut l, &tick_vec(&detail));
    }
    Some(l)
}

fn command_actions_summary_exec(p: &Json) -> (r: Option<Vec<char>>)
    ensures
        opt_chars(r) == command_actions_summary(p@),
{
    match p.get("commandActions") {
        Some(Json::Array(actions)) => {
            if actions.len() == 0 {
                return None;
            }
            proof {
                crate::json::lemma_views(actions@);
            }
            let ghost vs = crate::json::views(actions@);
            let n: usize = if actions.len() < 4 { actions.len() } else { 4 };
            let ghost f = action_line_fn();
            let mut ls: Vec<Vec<char>> = Vec::new();
            let mut i: usize = 0;
            while i < n
                invariant
                    i <= n <= actions@.len(),
                    vs == crate::json::views(actions@),
                    vs.len() == actions@.len(),
                    forall|k: int| 0 <= k < actions@.len() ==> #[trigger] vs[k] == actions@[k]@,
                    f == action_line_fn(),
                    lines_view(ls@) == collect_some(vs.take(i as int), f),
                decreases n - i,
            {
                proof {
                    lemma_collect_step(vs, i as int, f);
                    assert(f(vs[i as int]) == action_line(actions@[i as int]@));
                }
                push_opt_line(&mut ls, action_line_exec(&actions[i]));
                i += 1;
            }
            assert(at_most(vs, 4) =~= vs.take(n as int));
            if ls.len() > 0 {
                let j = join_vecs(&ls, "\n");
                Some(with_prefix("commandActions:\n", &j))
            } else {
                None
            }
        },
        _ => None,
    }
}


fn ticked_strings_exec(items: &Vec<Json>) -> (r: Vec<Vec<char>>)
    ensures
        lines_view(r@) == ticked_strings(crate::json::views(items@)),
{
    let raw = array_strings_exec(items);
    let mut out: Vec<Vec<char>> = Vec::new();
    let mut i: usize = 0;
    while i < raw.len()
        invariant
            i <= raw@.len(),
            lines_view(raw@) == array_strings(crate::json::views(items@)),
            lines_view(out@) == lines_view(raw@).take(i as int).map_values(|t: Seq<char>| tick(t)),
        decreases raw@.len() - i,
    {
        let ghost before = out@;
        let t = tick_vec(&raw[i]);
        out.push(t);
        assert(lines_view(out@) =~= lines_view(before).push(tick(raw@[i as int]@)));
        assert(lines_view(raw@)[i as int] == raw@[i as int]@);
        assert(lines_view(raw@).take(i + 1) =~= lines_view(raw@).take(i as int).push(raw@[i as int]@));
        assert(lines_view(out@) =~= lines_view(raw@).take(i + 1).map_values(|t: Seq<char>| tick(t)));
        i += 1;
    }
    assert(lines_view(raw@).take(raw@.len() as int) =~= lines_view(raw@));
    out
}

fn access_part_exec(parts: &mut Vec<Vec<char>>, v: Option<&Json>, word: &str)
    ensures
        lines_view(final(parts)@) == lines_view(old(parts)@) + access_part(ref_view(v), word@),
{
    let ghost before = parts@;
    match v {
        Some(Json::Array(items)) => {
            let ts = ticked_strings_exec(items);
            if ts.len() > 0 {
                let mut l = to_chars(word);
                append_str(&mut l, " ");
                append_vec(&mut l, &join_vecs(&ts, ", "));
                parts.push(l);
            }
        },
        _ => {},
    }
    assert(lines_view(parts@) =~= lines_view(before) + access_part(ref_view(v), word@));
}

fn entry_text_exec(e: &Json) -> (r: Option<Vec<char>>)
    ensures
        opt_chars(r) == entry_text(e@),
{
    match e.get("path") {
        Some(path) => {
            let mut l = or_default_exec(get_str(e, "access"), "access");
            append_str(&mut l, " ");
            append_vec(&mut l, &compact_value_exec(path));
            Some(l)
        },
        None => None,
    }
}

fn file_system_parts_exec(parts: &mut Vec<Vec<char>>, fs: &Json)
    ensures
        lines_view(final(parts)@) == lines_view(old(parts)@) + file_system_parts(fs@),
{
    let ghost before = parts@;
    access_part_exec(parts, fs.get("read"), "read");
    access_part_exec(parts, fs.get("write"), "write");
    let ghost mid = parts@;
    match fs.get("entries") {
        Some(Json::Array(es)) => {
            proof {
                crate::json::lemma_views(es@);
            }
            let ghost vs = crate::json::views(es@);
            let ghost f = entry_text_fn();
            let n: usize = if es.len() < 6 { es.len() } else { 6 };
            let mut ts: Vec<Vec<char>> = Vec::new();
            let mut i: usize = 0;
            while i < n
                invariant
                    i <= n <= es@.len(),
                    vs == crate::json::views(es@),
                    vs.len() == es@.len(),
                    forall|k: int| 0 <= k < es@.len() ==> #[trigger] vs[k] == es@[k]@,
                    f == entry_text_fn(),
                    parts@ == mid,
                    lines_view(ts@) == collect_some(vs.take(i as int), f),
                decreases n - i,
            {
                proof {
                    lemma_collect_step(vs, i as int, f);
                    assert(f(vs[i as int]) == entry_text(es@[i as int]@));
                }
                push_opt_line(&mut ts, entry_text_exec(&es[i]));
                i += 1;
            }
            assert(at_most(vs, 6) =~= vs.take(n as int));
            if ts.len() > 0 {
                let j = join_vecs(&ts, ", ");
                parts.push(j);
                assert(lines_view(parts@) =~= lines_view(mid).push(j@));
            }
            let ghost entries = if lines_view(ts@).len() > 0 {
                seq![join_with(lines_view(ts@), ", "@)]
            } else {
                Seq::<Seq<char>>::empty()
            };
            assert(lines_view(parts@) =~= lines_view(mid) + entries);
        },
        _ => {
            assert(lines_view(parts@) =~= lines_view(mid) + Seq::<Seq<char>>::empty());
        },
    }
    assert(lines_view(parts@) =~= lines_view(before) + file_system_parts(fs@));
}

fn permission_profile_summary_exec(label: &str, perms: &Json) -> (r: Option<Vec<char>>)
    ensures
        opt_chars(r) == permission_profile_summary(label@, perms@),
{
    let mut parts: Vec<Vec<char>> = Vec::new();
    let enabled = match get_opt(perms.get("network"), "enabled") {
        Some(Json::Bool(b)) => *b,
        _ => false,
    };
    if enabled {
        parts.push(to_chars("network"));
    }
    let ghost net = lines_view(parts@);
    assert(net =~= (if jget_opt(jget(perms@, "network"@), "enabled"@) == Some(JsonV::Bool(true)) {
        seq!["network"@]
    } else {
        Seq::<Seq<char>>::empty()
    }));
    match perms.get("fileSystem") {
        Some(f) => file_system_parts_exec(&mut parts, f),
        None => {
            assert(lines_view(parts@) =~= net + Seq::<Seq<char>>::empty());
        },
    }
    if parts.len() > 0 {
        let mut l = to_chars(label);
        append_str(&mut l, ": ");
        append_vec(&mut l, &join_vecs(&parts, "; "));
        Some(l)
    } else {
        None
    }
}

fn additional_permissions_summary_exec(p: &Json) -> (r: Option<Vec<char>>)
    ensures
        opt_chars(r) == additional_permissions_summary(p@),
{
    match p.get("additionalPermissions") {
        Some(x) => permission_profile_summary_exec("additionalPermissions", x),
        None => None,
    }
}

fn last_component_exec(s: &Vec<char>) -> (r: Vec<char>)
    ensures
        r@ == last_component(s@),
{
    let mut k: usize = s.len();
    assert(s@.take(k as int) =~= s@);
    while k > 0 && s[k - 1] != '/' && s[k - 1] != '\\'
        invariant
            k <= s@.len(),
            last_component(s@) == last_component(s@.take(k as int)) + s@.skip(k as int),
        decreases k,
    {
        let ghost t = s@.take(k as int);
        assert(t.drop_last() =~= s@.take(k - 1));
        assert(t.last() == s@[k - 1]);
        assert(last_component(t) == last_component(s@.take(k - 1)).push(s@[k - 1]));
        assert(s@.skip(k - 1) =~= seq![s@[k - 1]] + s@.skip(k as int));
        k -= 1;
    }
    proof {
        if k > 0 {
            let t = s@.take(k as int);
            assert(t.last() == s@[k - 1]);
            assert(last_component(t) == Seq::<char>::empty());
        } else {
            assert(s@.take(0) =~= Seq::<char>::empty());
        }
        assert(Seq::<char>::empty() + s@.skip(k as int) =~= s@.skip(k as int));
    }
    slice_from(s, k)
}

fn decision_prefix_exec(v: &Json) -> (r: Option<Vec<char>>)
    ensures
        opt_chars(r) == decision_prefix(v@),
{
    match v {
        Json::Array(items) => {
            let parts = array_strings_exec(items);
            if parts.len() == 0 {
                return None;
            }
            if parts.len() >= 3 {
                let first = last_component_exec(&parts[0]);
                let shell = eq_str(&first, "bash") || eq_str(&first, "zsh") || eq_str(&first, "sh");
                if shell && eq_str(&parts[1], "-lc") {
                    return Some(crate::text::slice_from(&parts[2], 0));
                }
            }
            Some(join_vecs(&parts, " "))
        },
        _ => None,
    }
}

fn execpolicy_amendment_summary_exec(p: &Json) -> (r: Option<Vec<char>>)
    ensures
        opt_chars(r) == execpolicy_amendment_summary(p@),
{
    match p.get("proposedExecpolicyAmendment") {
        Some(a) => ticked_chars(decision_prefix_exec(a), "proposedExecpolicyAmendment: "),
        None => None,
    }
}

fn amendment_line_exec(a: &Json) -> (r: Option<Vec<char>>)
    ensures
        opt_chars(r) == amendment_line(a@),
{
    match get_str(a, "host") {
        Some(h) => {
            let mut l = to_chars("- ");
            append_vec(&mut l, &tick_vec(&or_default_exec(get_str(a, "action"), "allow")));
            append_str(&mut l, " ");
            append_vec(&mut l, &tick_vec(&to_chars(h)));
            Some(l)
        },
        None => None,
    }
}

fn network_policy_amendments_summary_exec(p: &Json) -> (r: Option<Vec<char>>)
    ensures
        opt_chars(r) == network_policy_amendments_summary(p@),
{
    match p.get("proposedNetworkPolicyAmendments") {
        Some(Json::Array(am)) => {
            proof {
                crate::json::lemma_views(am@);
            }
            let ghost vs = crate::json::views(am@);
            let ghost f = amendment_line_fn();
            let n: usize = if am.len() < 4 { am.len() } else { 4 };
            let mut ls: Vec<Vec<char>> = Vec::new();
            let mut i: usize = 0;
            while i < n
                invariant
                    i <= n <= am@.len(),
                    vs == crate::json::views(am@),
                    vs.len() == am@.len(),
                    forall|k: int| 0 <= k < am@.len() ==> #[trigger] vs[k] == am@[k]@,
                    f == amendment_line_fn(),
                    lines_view(ls@) == collect_some(vs.take(i as int), f),
                decreases n - i,
            {
                proof {
                    lemma_collect_step(vs, i as int, f);
                    assert(f(vs[i as int]) == amendment_line(am@[i as int]@));
                }
                push_opt_line(&mut ls, amendment_line_exec(&am[i]));
                i += 1;
            }
            assert(at_most(vs, 4) =~= vs.take(n as int));
            if ls.len() > 0 {
                Some(with_prefix("proposedNetworkPolicyAmendments:\n", &join_vecs(&ls, "\n")))
            } else {
                None
            }
        },
        _ => None,
    }
}

fn command_approval_summary_exec(p: &Json) -> (r: String)
    ensures
        r@ == command_approval_summary(p@),
{
    let mut lines: Vec<Vec<char>> = Vec::new();
    push_opt_line(&mut lines, reason_line_exec(p));
    push_opt_line(&mut lines, network_context_line_exec(p));
    push_opt_line(&mut lines, command_line_exec(p));
    push_opt_line(&mut lines, ticked_exec(get_str(p, "cwd"), "cwd: "));
    push_opt_line(&mut lines, command_actions_summary_exec(p));
    push_opt_line(&mut lines, additional_permissions_summary_exec(p));
    push_opt_line(&mut lines, execpolicy_amendment_summary_exec(p));
    push_opt_line(&mut lines, network_policy_amendments_summary_exec(p));
    assert(lines_view(lines@) =~= opt_line(reason_line(p@)) + opt_line(network_context_line(p@)) + opt_line(
        command_line(p@),
    ) + opt_line(ticked(jget_str(p@, "cwd"@), "cwd: "@)) + opt_line(command_actions_summary(p@)) + opt_line(
        additional_permissions_summary(p@),
    ) + opt_line(execpolicy_amendment_summary(p@)) + opt_line(network_policy_amendments_summary(p@)));
    finish_lines(&lines, "approval requested")
}

fn file_change_approval_summary_exec(p: &Json) -> (r: String)
    ensures
        r@ == file_change_approval_summary(p@),
{
    let mut lines: Vec<Vec<char>> = Vec::new();
    push_opt_line(&mut lines, ticked_exec(get_str(p, "itemId"), "itemId: "));
    push_opt_line(&mut lines, reason_line_exec(p));
    push_opt_line(&mut lines, ticked_chars(nonblank_exec(get_str(p, "grantRoot")), "grantRoot: "));
    assert(lines_view(lines@) =~= opt_line(ticked(jget_str(p@, "itemId"@), "itemId: "@)) + opt_line(reason_line(p@))
        + opt_line(ticked(nonblank(jget_str(p@, "grantRoot"@)), "grantRoot: "@)));
    finish_lines(&lines, "fileChange approval requested")
}

fn permissions_approval_summary_exec(p: &Json) -> (r: String)
    ensures
        r@ == permissions_approval_summary(p@),
{
    let mut lines: Vec<Vec<char>> = Vec::new();
    push_opt_line(&mut lines, reason_line_exec(p));
    push_opt_line(&mut lines, ticked_exec(get_str(p, "cwd"), "cwd: "));
    let profile = match p.get("permissions") {
        Some(x) => permission_profile_summary_exec("permissions", x),
        None => None,
    };
    push_opt_line(&mut lines, profile);
    push_opt_line(&mut lines, ticked_exec(get_str(p, "itemId"), "itemId: "));
    assert(lines_view(lines@) =~= opt_line(reason_line(p@)) + opt_line(ticked(jget_str(p@, "cwd"@), "cwd: "@))
        + opt_line(
        match jget(p@, "permissions"@) {
            Some(x) => permission_profile_summary("permissions"@, x),
            None => None,
        },
    ) + opt_line(ticked(jget_str(p@, "itemId"@), "itemId: "@)));
    finish_lines(&lines, "permissions approval requested")
}

fn param_line_exec(q: &Json) -> (r: Option<Vec<char>>)
    ensures
        opt_chars(r) == param_line(q@),
{
    let mut named = q.get("display_name");
    if named.is_none() {
        named = q.get("displayName");
    }
    if named.is_none() {
        named = q.get("name");
    }
    match as_str_opt(named) {
        Some(n) => match q.get("value") {
            Some(v) => {
                let mut l = to_chars("- ");
                append_vec(&mut l, &tick_vec(&to_chars(n)));
                append_str(&mut l, ": ");
                append_vec(&mut l, &compact_value_exec(v));
                Some(l)
            },
            None => None,
        },
        None => None,
    }
}

fn mcp_tool_display_summary_exec(p: &Json) -> (r: Option<Vec<char>>)
    ensures
        opt_chars(r) == mcp_tool_display_summary(p@),
{
    match get_opt(p.get("_meta"), "tool_params_display") {
        Some(Json::Array(ps)) => {
            proof {
                crate::json::lemma_views(ps@);
            }
            let ghost vs = crate::json::views(ps@);
            let ghost f = param_line_fn();
            let n: usize = if ps.len() < 4 { ps.len() } else { 4 };
            let mut ls: Vec<Vec<char>> = Vec::new();
            let mut i: usize = 0;
            while i < n
                invariant
                    i <= n <= ps@.len(),
                    vs == crate::json::views(ps@),
                    vs.len() == ps@.len(),
                    forall|k: int| 0 <= k < ps@.len() ==> #[trigger] vs[k] == ps@[k]@,
                    f == param_line_fn(),
                    lines_view(ls@) == collect_some(vs.take(i as int), f),
                decreases n - i,
            {
                proof {
                    lemma_collect_step(vs, i as int, f);
                    assert(f(vs[i as int]) == param_line(ps@[i as int]@));
                }
                push_opt_line(&mut ls, param_line_exec(&ps[i]));
                i += 1;
            }
            assert(at_most(vs, 4) =~= vs.take(n as int));
            if ls.len() > 0 {
                Some(with_prefix("tool params:\n", &join_vecs(&ls, "\n")))
            } else {
                None
            }
        },
        _ => None,
    }
}

fn mcp_elicitation_summary_exec(p: &Json) -> (r: String)
    ensures
        r@ == mcp_elicitation_summary(p@),
{
    let mut lines: Vec<Vec<char>> = Vec::new();
    push_opt_line(&mut lines, ticked_exec(get_str(p, "serverName"), "serverName: "));
    push_opt_line(&mut lines, nonblank_exec(get_str(p, "message")));
    push_opt_line(&mut lines, ticked_exec(get_str(p, "url"), "url: "));
    push_opt_line(&mut lines, ticked_exec(get_str(p, "elicitationId"), "elicitationId: "));
    push_opt_line(&mut lines, ticked_exec(get_str(p, "mode"), "mode: "));
    push_opt_line(&mut lines, mcp_tool_display_summary_exec(p));
    assert(lines_view(lines@) =~= opt_line(ticked(jget_str(p@, "serverName"@), "serverName: "@)) + opt_line(
        nonblank(jget_str(p@, "message"@)),
    ) + opt_line(ticked(jget_str(p@, "url"@), "url: "@)) + opt_line(
        ticked(jget_str(p@, "elicitationId"@), "elicitationId: "@),
    ) + opt_line(ticked(jget_str(p@, "mode"@), "mode: "@)) + opt_line(mcp_tool_display_summary(p@)));
    finish_lines(&lines, "MCP elicitation requested")
}


// ─── the answers offered ───────────────────────────────────────────────

pub open spec fn obj1(k: Seq<char>, v: JsonV) -> JsonV {
    JsonV::Object(seq![(k, v)])
}

pub open spec fn has_field(p: JsonV, k: Seq<char>) -> bool {
    jget(p, k) is Some
}

pub open spec fn nac() -> Seq<char> {
    "networkApprovalContext"@
}

/// The label a command decision is offered with, or nothing for a decision
/// that is not offered.
pub open spec fn command_decision_label(d: JsonV, p: JsonV) -> Option<Seq<char>> {
    match jstr(d) {
        Some(name) => if name == "accept"@ {
            Some(
                if has_field(p, nac()) {
                    "Yes, just this once"@
                } else {
                    "Yes, proceed"@
                },
            )
        } else if name == "acceptForSession"@ {
            Some(
                if has_field(p, nac()) {
                    "Yes, and allow this host for this conversation"@
                } else if has_field(p, "additionalPermissions"@) {
                    "Yes, and allow these permissions for this session"@
                } else {
                    "Yes, and don't ask again for this command in this session"@
                },
            )
        } else if name == "decline"@ {
            Some("No, continue without running it"@)
        } else if name == "cancel"@ {
            Some("No, and tell Codex what to do differently"@)
        } else {
            None
        },
        None => match jget(d, "acceptWithExecpolicyAmendment"@) {
            Some(a) => {
                let prefix = or_default(
                    match or_else(jget(a, "execpolicy_amendment"@), jget(a, "execpolicyAmendment"@)) {
                        Some(x) => decision_prefix(x),
                        None => None,
                    },
                    "this command"@,
                );
                if prefix.contains('\n') || prefix.contains('\r') {
                    None
                } else {
                    Some("Yes, and don't ask again for commands that start with `"@ + prefix + "`"@)
                }
            },
            None => match jget(d, "applyNetworkPolicyAmendment"@) {
                Some(a) => {
                    let action = or_default(
                        jstr_opt(
                            jget_opt(
                                or_else(jget(a, "network_policy_amendment"@), jget(a, "networkPolicyAmendment"@)),
                                "action"@,
                            ),
                        ),
                        "allow"@,
                    );
                    Some(
                        if action == "deny"@ {
                            "No, and block this host in the future"@
                        } else {
                            "Yes, and allow this host in the future"@
                        },
                    )
                },
                None => None,
            },
        },
    }
}

/// The offered decisions among the given ones, in order.
pub open spec fn offered_decisions(ds: Seq<JsonV>, p: JsonV) -> Seq<(Seq<char>, JsonV)>
    decreases ds.len(),
{
    if ds.len() == 0 {
        Seq::empty()
    } else {
        match command_decision_label(ds.last(), p) {
            Some(l) => offered_decisions(ds.drop_last(), p).push((l, ds.last())),
            None => offered_decisions(ds.drop_last(), p),
        }
    }
}

/// The first proposed network amendment that allows.
pub open spec fn first_allow(items: Seq<JsonV>) -> Option<JsonV>
    decreases items.len(),
{
    if items.len() == 0 {
        None
    } else if jget_str(items[0], "action"@) == Some("allow"@) {
        Some(items[0])
    } else {
        first_allow(items.drop_first())
    }
}

pub open spec fn apply_network(am: JsonV) -> JsonV {
    obj1("applyNetworkPolicyAmendment"@, obj1("network_policy_amendment"@, am))
}

pub open spec fn accept_with_execpolicy(a: JsonV) -> JsonV {
    obj1("acceptWithExecpolicyAmendment"@, obj1("execpolicy_amendment"@, a))
}

pub open spec fn labelled(d: JsonV, p: JsonV) -> (Seq<char>, JsonV) {
    (command_decision_label(d, p)->0, d)
}

/// The decisions offered when Codex lists none that can be offered.
pub open spec fn default_command_decisions(p: JsonV) -> Seq<(Seq<char>, JsonV)> {
    let middle = if has_field(p, nac()) {
        seq![labelled(JsonV::Str("acceptForSession"@), p)] + match jget(p, "proposedNetworkPolicyAmendments"@) {
            Some(JsonV::Array(items)) => match first_allow(items) {
                Some(am) => seq![labelled(apply_network(am), p)],
                None => Seq::empty(),
            },
            _ => Seq::empty(),
        }
    } else if !has_field(p, "additionalPermissions"@) {
        match jget(p, "proposedExecpolicyAmendment"@) {
            Some(a) => seq![labelled(accept_with_execpolicy(a), p)],
            None => Seq::empty(),
        }
    } else {
        Seq::empty()
    };
    seq![labelled(JsonV::Str("accept"@), p)] + middle + seq![labelled(JsonV::Str("cancel"@), p)]
}

pub open spec fn listed_decisions(p: JsonV) -> Seq<(Seq<char>, JsonV)> {
    match jget(p, "availableDecisions"@) {
        Some(JsonV::Array(ds)) => offered_decisions(ds, p),
        _ => Seq::empty(),
    }
}

pub open spec fn command_approval_decisions(p: JsonV) -> Seq<(Seq<char>, JsonV)> {
    if listed_decisions(p).len() > 0 {
        listed_decisions(p)
    } else {
        default_command_decisions(p)
    }
}

/// The request on which building the view fails: it falls back to the
/// default decisions and offers an exec-policy amendment whose command
/// prefix spans several lines.
pub open spec fn command_decisions_fail(p: JsonV) -> bool {
    &&& listed_decisions(p).len() == 0
    &&& !has_field(p, nac())
    &&& !has_field(p, "additionalPermissions"@)
    &&& match jget(p, "proposedExecpolicyAmendment"@) {
        Some(a) => command_decision_label(accept_with_execpolicy(a), p) is None,
        None => false,
    }
}

pub open spec fn file_change_decisions() -> Seq<(Seq<char>, JsonV)> {
    seq![
        ("Yes, proceed"@, JsonV::Str("accept"@)),
        ("Yes, and don't ask again for these files"@, JsonV::Str("acceptForSession"@)),
        ("No, and tell Codex what to do differently"@, JsonV::Str("cancel"@)),
    ]
}

pub open spec fn permissions_decision(scope: Seq<char>, p: JsonV) -> JsonV {
    obj1(
        permissions_response_key(),
        JsonV::Object(
            seq![
                ("permissions"@, or_default_json(jget(p, "permissions"@), JsonV::Object(Seq::empty()))),
                ("scope"@, JsonV::Str(scope)),
                ("strictAutoReview"@, JsonV::Null),
            ],
        ),
    )
}

pub open spec fn or_default_json(o: Option<JsonV>, d: JsonV) -> JsonV {
    match o {
        Some(x) => x,
        None => d,
    }
}

pub open spec fn permissions_denial() -> JsonV {
    obj1(
        permissions_response_key(),
        JsonV::Object(
            seq![
                ("permissions"@, JsonV::Object(Seq::empty())),
                ("scope"@, JsonV::Str("turn"@)),
                ("strictAutoReview"@, JsonV::Null),
            ],
        ),
    )
}

pub open spec fn permissions_decisions(p: JsonV) -> Seq<(Seq<char>, JsonV)> {
    seq![
        ("Yes, allow these permissions for this turn"@, permissions_decision("turn"@, p)),
        ("Yes, allow these permissions for this session"@, permissions_decision("session"@, p)),
        ("No, continue without granting them"@, permissions_denial()),
    ]
}

pub open spec fn mcp_decision(action: Seq<char>, content: JsonV, persist: Option<Seq<char>>) -> JsonV {
    obj1(
        mcp_response_key(),
        JsonV::Object(
            seq![
                ("action"@, JsonV::Str(action)),
                ("content"@, content),
                ("_meta"@, match persist {
                    Some(x) => obj1("persist"@, JsonV::Str(x)),
                    None => JsonV::Null,
                }),
            ],
        ),
    )
}

pub open spec fn supports_persist(p: JsonV, expected: Seq<char>) -> bool {
    match jget_opt(jget(p, "_meta"@), "persist"@) {
        Some(JsonV::Str(v)) => v == expected,
        Some(JsonV::Array(vs)) => array_strings(vs).contains(expected),
        _ => false,
    }
}

/// The content filled in for required schema fields: their default, or
/// `true` for booleans.
pub open spec fn accept_fold(props: Seq<(Seq<char>, JsonV)>, names: Seq<Seq<char>>) -> Seq<(Seq<char>, JsonV)>
    decreases names.len(),
{
    if names.len() == 0 {
        Seq::empty()
    } else {
        let acc = accept_fold(props, names.drop_last());
        let name = names.last();
        match crate::json::member_lookup(props, name) {
            Some(schema) => match jget(schema, "default"@) {
                Some(d) => crate::json::insert_member(acc, name, d),
                None => if jget_str(schema, "type"@) == Some("boolean"@) {
                    crate::json::insert_member(acc, name, JsonV::Bool(true))
                } else {
                    acc
                },
            },
            None => acc,
        }
    }
}

pub open spec fn mcp_accept_content(p: JsonV) -> JsonV {
    let schema = jget(p, "requestedSchema"@);
    match jget_opt(schema, "properties"@) {
        Some(JsonV::Object(props)) => {
            let required = match jget_opt(schema, "required"@) {
                Some(JsonV::Array(items)) => array_strings(items),
                _ => Seq::empty(),
            };
            let content = accept_fold(props, required);
            if content.len() == 0 {
                JsonV::Null
            } else {
                JsonV::Object(content)
            }
        },
        _ => JsonV::Null,
    }
}

pub open spec fn mcp_decisions(p: JsonV) -> Seq<(Seq<char>, JsonV)> {
    let content = mcp_accept_content(p);
    seq![("Yes, allow once"@, mcp_decision("accept"@, content, None))] + (if supports_persist(p, "session"@) {
        seq![("Yes, allow for this session"@, mcp_decision("accept"@, content, Some("session"@)))]
    } else {
        Seq::empty()
    }) + (if supports_persist(p, "always"@) || jget_str(p, "mode"@) == Some("url"@) {
        seq![("Yes, always allow"@, mcp_decision("accept"@, content, Some("always"@)))]
    } else {
        Seq::empty()
    }) + seq![
        ("No, continue without it"@, mcp_decision("decline"@, JsonV::Null, None)),
        ("Cancel this request"@, mcp_decision("cancel"@, JsonV::Null, None)),
    ]
}

pub open spec fn review_decisions() -> Seq<(Seq<char>, JsonV)> {
    seq![
        ("Yes, proceed"@, JsonV::Str("approved"@)),
        ("No, and tell Codex what to do differently"@, JsonV::Str("denied"@)),
    ]
}

/// What an approval request is shown as: kind, summary and answers.
pub open spec fn approval_view(method: Seq<char>, params: Option<JsonV>) -> Option<
    (Seq<char>, Seq<char>, Seq<(Seq<char>, JsonV)>),
> {
    match params {
        None => None,
        Some(p) => if method == "item/commandExecution/requestApproval"@ {
            Some(("command"@, command_approval_summary(p), command_approval_decisions(p)))
        } else if method == "item/fileChange/requestApproval"@ {
            Some(("fileChange"@, file_change_approval_summary(p), file_change_decisions()))
        } else if method == "item/permissions/requestApproval"@ {
            Some(("permissions"@, permissions_approval_summary(p), permissions_decisions(p)))
        } else if method == "mcpServer/elicitation/request"@ {
            Some(("mcpElicitation"@, mcp_elicitation_summary(p), mcp_decisions(p)))
        } else if method == "applyPatchApproval"@ {
            Some(("review"@, "reason: "@ + or_default(jget_str(p, "reason"@), Seq::empty()), review_decisions()))
        } else if method == "execCommandApproval"@ {
            Some(
                (
                    "review"@,
                    "command: `"@ + concise_command_spec(p) + "`\ncwd: `"@ + or_default(jget_str(p, "cwd"@), Seq::empty())
                        + "`"@,
                    review_decisions(),
                ),
            )
        } else {
            None
        },
    }
}

pub open spec fn view_of(v: ApprovalRequestView) -> (Seq<char>, Seq<char>, Seq<(Seq<char>, JsonV)>) {
    (v.request_kind@, v.summary@, options_view(v.decisions@))
}


fn str_json(s: &str) -> (r: Json)
    ensures
        r@ == JsonV::Str(s@),
{
    Json::Str(String::from_str(s))
}

fn obj1_exec(k: &str, v: Json) -> (r: Json)
    ensures
        r@ == obj1(k@, v@),
{
    let ghost vv = v@;
    let members = vec![(String::from_str(k), v)];
    proof {
        crate::json::lemma_member_views(members@);
        assert(crate::json::member_views(members@) =~= seq![(k@, vv)]);
    }
    Json::Object(members)
}

fn obj3_exec(k1: &str, v1: Json, k2: &str, v2: Json, k3: &str, v3: Json) -> (r: Json)
    ensures
        r@ == JsonV::Object(seq![(k1@, v1@), (k2@, v2@), (k3@, v3@)]),
{
    let ghost (a, b, c) = (v1@, v2@, v3@);
    let members = vec![(String::from_str(k1), v1), (String::from_str(k2), v2), (String::from_str(k3), v3)];
    proof {
        crate::json::lemma_member_views(members@);
        assert(crate::json::member_views(members@) =~= seq![(k1@, a), (k2@, b), (k3@, c)]);
    }
    Json::Object(members)
}

fn has_field_exec(p: &Json, k: &str) -> (r: bool)
    ensures
        r == has_field(p@, k@),
{
    p.get(k).is_some()
}

fn contains_char(v: &Vec<char>, c: char) -> (r: bool)
    ensures
        r == v@.contains(c),
{
    let mut i: usize = 0;
    while i < v.len()
        invariant
            i <= v@.len(),
            forall|k: int| 0 <= k < i ==> v@[k] != c,
        decreases v@.len() - i,
    {
        if v[i] == c {
            assert(v@[i as int] == c);
            return true;
        }
        i += 1;
    }
    false
}

fn command_decision_label_exec(d: &Json, p: &Json) -> (r: Option<Vec<char>>)
    ensures
        opt_chars(r) == command_decision_label(d@, p@),
{
    let network = has_field_exec(p, "networkApprovalContext");
    match d.as_str() {
        Some(name) => {
            let n = to_chars(name);
            if eq_str(&n, "accept") {
                Some(to_chars(if network { "Yes, just this once" } else { "Yes, proceed" }))
            } else if eq_str(&n, "acceptForSession") {
                Some(
                    to_chars(
                        if network {
                            "Yes, and allow this host for this conversation"
                        } else if has_field_exec(p, "additionalPermissions") {
                            "Yes, and allow these permissions for this session"
                        } else {
                            "Yes, and don't ask again for this command in this session"
                        },
                    ),
                )
            } else if eq_str(&n, "decline") {
                Some(to_chars("No, continue without running it"))
            } else if eq_str(&n, "cancel") {
                Some(to_chars("No, and tell Codex what to do differently"))
            } else {
                None
            }
        },
        None => match d.get("acceptWithExecpolicyAmendment") {
            Some(a) => {
                let inner = match a.get("execpolicy_amendment") {
                    Some(x) => Some(x),
                    None => a.get("execpolicyAmendment"),
                };
                let found = match inner {
                    Some(x) => decision_prefix_exec(x),
                    None => None,
                };
                let prefix = match found {
                    Some(x) => x,
                    None => to_chars("this command"),
                };
                if contains_char(&prefix, '\n') || contains_char(&prefix, '\r') {
                    None
                } else {
                    let mut l = to_chars("Yes, and don't ask again for commands that start with `");
                    append_vec(&mut l, &prefix);
                    append_str(&mut l, "`");
                    Some(l)
                }
            },
            None => match d.get("applyNetworkPolicyAmendment") {
                Some(a) => {
                    let inner = match a.get("network_policy_amendment") {
                        Some(x) => Some(x),
                        None => a.get("networkPolicyAmendment"),
                    };
                    let action = or_default_exec(as_str_opt(get_opt(inner, "action")), "allow");
                    Some(
                        to_chars(
                            if eq_str(&action, "deny") {
                                "No, and block this host in the future"
                            } else {
                                "Yes, and allow this host in the future"
                            },
                        ),
                    )
                },
                None => None,
            },
        },
    }
}

fn labelled_exec(d: Json, p: &Json) -> (r: ApprovalDecisionOption)
    requires
        command_decision_label(d@, p@) is Some,
    ensures
        option_view(r) == labelled(d@, p@),
{
    let label = command_decision_label_exec(&d, p);
    let l = match label {
        Some(l) => l,
        None => Vec::new(),
    };
    ApprovalDecisionOption { label: crate::text::from_chars(&l), decision: d }
}

fn push_option(v: &mut Vec<ApprovalDecisionOption>, o: ApprovalDecisionOption)
    ensures
        options_view(final(v)@) == options_view(old(v)@).push(option_view(o)),
{
    let ghost before = v@;
    let ghost ov = option_view(o);
    v.push(o);
    assert(options_view(v@) =~= options_view(before).push(ov));
}

fn listed_decisions_exec(p: &Json) -> (r: Vec<ApprovalDecisionOption>)
    ensures
        options_view(r@) == listed_decisions(p@),
{
    let mut out: Vec<ApprovalDecisionOption> = Vec::new();
    match p.get("availableDecisions") {
        Some(Json::Array(ds)) => {
            proof {
                crate::json::lemma_views(ds@);
            }
            let ghost vs = crate::json::views(ds@);
            let mut i: usize = 0;
            while i < ds.len()
                invariant
                    i <= ds@.len(),
                    vs == crate::json::views(ds@),
                    vs.len() == ds@.len(),
                    forall|k: int| 0 <= k < ds@.len() ==> #[trigger] vs[k] == ds@[k]@,
                    options_view(out@) == offered_decisions(vs.take(i as int), p@),
                decreases ds@.len() - i,
            {
                assert(vs.take(i + 1).drop_last() =~= vs.take(i as int));
                assert(vs.take(i + 1).last() == ds@[i as int]@);
                match command_decision_label_exec(&ds[i], p) {
                    Some(l) => {
                        let o = ApprovalDecisionOption { label: crate::text::from_chars(&l), decision: ds[i].clone() };
                        push_option(&mut out, o);
                    },
                    None => {},
                }
                i += 1;
            }
            assert(vs.take(ds@.len() as int) =~= vs);
        },
        _ => {},
    }
    out
}

fn first_allow_exec(items: &Vec<Json>) -> (r: Option<&Json>)
    ensures
        ref_view(r) == first_allow(crate::json::views(items@)),
{
    proof {
        crate::json::lemma_views(items@);
    }
    let ghost vs = crate::json::views(items@);
    let mut i: usize = 0;
    assert(vs.skip(0) =~= vs);
    while i < items.len()
        invariant
            i <= items@.len(),
            vs == crate::json::views(items@),
            vs.len() == items@.len(),
            forall|k: int| 0 <= k < items@.len() ==> #[trigger] vs[k] == items@[k]@,
            first_allow(vs) == first_allow(vs.skip(i as int)),
        decreases items@.len() - i,
    {
        assert(vs.skip(i as int)[0] == items@[i as int]@);
        if str_is(get_str(&items[i], "action"), "allow") {
            return Some(&items[i]);
        }
        assert(vs.skip(i as int).drop_first() =~= vs.skip(i + 1));
        i += 1;
    }
    None
}

fn command_approval_decisions_exec(p: &Json) -> (r: Vec<ApprovalDecisionOption>)
    requires
        !command_decisions_fail(p@),
    ensures
        options_view(r@) == command_approval_decisions(p@),
{
    let listed = listed_decisions_exec(p);
    assert(options_view(listed@).len() == listed@.len());
    if listed.len() > 0 {
        return listed;
    }
    let mut out: Vec<ApprovalDecisionOption> = Vec::new();
    push_option(&mut out, labelled_exec(str_json("accept"), p));
    let ghost first = options_view(out@);
    if has_field_exec(p, "networkApprovalContext") {
        push_option(&mut out, labelled_exec(str_json("acceptForSession"), p));
        match p.get("proposedNetworkPolicyAmendments") {
            Some(Json::Array(items)) => match first_allow_exec(items) {
                Some(am) => {
                    let d = obj1_exec("applyNetworkPolicyAmendment", obj1_exec("network_policy_amendment", am.clone()));
                    proof {
                        reveal_strlit("applyNetworkPolicyAmendment");
                        reveal_strlit("acceptWithExecpolicyAmendment");
                        assert("applyNetworkPolicyAmendment"@[1] != "acceptWithExecpolicyAmendment"@[1]);
                        reveal_with_fuel(crate::json::member_lookup, 2);
                    }
                    push_option(&mut out, labelled_exec(d, p));
                },
                None => {},
            },
            _ => {},
        }
    } else if !has_field_exec(p, "additionalPermissions") {
        match p.get("proposedExecpolicyAmendment") {
            Some(a) => {
                let d = obj1_exec("acceptWithExecpolicyAmendment", obj1_exec("execpolicy_amendment", a.clone()));
                push_option(&mut out, labelled_exec(d, p));
            },
            None => {},
        }
    }
    push_option(&mut out, labelled_exec(str_json("cancel"), p));
    assert(options_view(out@) =~= default_command_decisions(p@));
    out
}

fn option_of(label: &str, d: Json) -> (r: ApprovalDecisionOption)
    ensures
        option_view(r) == (label@, d@),
{
    ApprovalDecisionOption { label: String::from_str(label), decision: d }
}

fn file_change_decisions_exec() -> (r: Vec<ApprovalDecisionOption>)
    ensures
        options_view(r@) == file_change_decisions(),
{
    let mut out: Vec<ApprovalDecisionOption> = Vec::new();
    push_option(&mut out, option_of("Yes, proceed", str_json("accept")));
    push_option(&mut out, option_of("Yes, and don't ask again for these files", str_json("acceptForSession")));
    push_option(&mut out, option_of("No, and tell Codex what to do differently", str_json("cancel")));
    assert(options_view(out@) =~= file_change_decisions());
    out
}

fn empty_object() -> (r: Json)
    ensures
        r@ == JsonV::Object(Seq::empty()),
{
    let members: Vec<(String, Json)> = Vec::new();
    proof {
        assert(crate::json::member_views(members@) =~= Seq::<(Seq<char>, JsonV)>::empty());
    }
    Json::Object(members)
}

fn permissions_decision_exec(scope: &str, p: &Json) -> (r: Json)
    ensures
        r@ == permissions_decision(scope@, p@),
{
    let perms = match p.get("permissions") {
        Some(x) => x.clone(),
        None => empty_object(),
    };
    obj1_exec(
        "__codexRemotePermissionsResponse",
        obj3_exec("permissions", perms, "scope", str_json(scope), "strictAutoReview", Json::Null),
    )
}

fn permissions_decisions_exec(p: &Json) -> (r: Vec<ApprovalDecisionOption>)
    ensures
        options_view(r@) == permissions_decisions(p@),
{
    let mut out: Vec<ApprovalDecisionOption> = Vec::new();
    push_option(
        &mut out,
        option_of("Yes, allow these permissions for this turn", permissions_decision_exec("turn", p)),
    );
    push_option(
        &mut out,
        option_of("Yes, allow these permissions for this session", permissions_decision_exec("session", p)),
    );
    let denial = obj1_exec(
        "__codexRemotePermissionsResponse",
        obj3_exec("permissions", empty_object(), "scope", str_json("turn"), "strictAutoReview", Json::Null),
    );
    push_option(&mut out, option_of("No, continue without granting them", denial));
    assert(options_view(out@) =~= permissions_decisions(p@));
    out
}

fn mcp_decision_exec(action: &str, content: Json, persist: Option<&str>) -> (r: Json)
    ensures
        r@ == mcp_decision(action@, content@, str_view(persist)),
{
    let meta = match persist {
        Some(x) => obj1_exec("persist", str_json(x)),
        None => Json::Null,
    };
    let ghost cv = content@;
    let inner = obj3_exec("action", str_json(action), "content", content, "_meta", meta);
    let r = obj1_exec("__codexRemoteMcpElicitationResponse", inner);
    let ghost want = mcp_decision(action@, cv, str_view(persist));
    assert(inner@->Object_0 =~= want->Object_0[0].1->Object_0);
    assert(r@->Object_0 =~= want->Object_0);
    r
}

fn supports_persist_exec(p: &Json, expected: &str) -> (r: bool)
    ensures
        r == supports_persist(p@, expected@),
{
    let found = get_opt(p.get("_meta"), "persist");
    assert(ref_view(found) == jget_opt(jget(p@, "_meta"@), "persist"@));
    match found {
        Some(Json::Str(v)) => {
            let a = to_chars(v.as_str());
            eq_str(&a, expected)
        },
        Some(Json::Array(vs)) => {
            assert(ref_view(found) == Some(JsonV::Array(crate::json::views(vs@))));
            let xs = array_strings_exec(vs);
            assert(lines_view(xs@) == array_strings(crate::json::views(vs@)));
            let e = to_chars(expected);
            let mut i: usize = 0;
            while i < xs.len()
                invariant
                    i <= xs@.len(),
                    e@ == expected@,
                    lines_view(xs@) == array_strings(crate::json::views(vs@)),
                    ref_view(found) == Some(JsonV::Array(crate::json::views(vs@))),
                    ref_view(found) == jget_opt(jget(p@, "_meta"@), "persist"@),
                    forall|k: int| 0 <= k < i ==> lines_view(xs@)[k] != expected@,
                decreases xs@.len() - i,
            {
                if crate::text::eq_vec(&xs[i], &e) {
                    assert(lines_view(xs@)[i as int] == expected@);
                    return true;
                }
                i += 1;
            }
            assert(!lines_view(xs@).contains(expected@));
            false
        },
        _ => false,
    }
}

proof fn lemma_accept_fold_step(props: Seq<(Seq<char>, JsonV)>, names: Seq<Seq<char>>, i: int)
    requires
        0 <= i < names.len(),
    ensures
        accept_fold(props, names.take(i + 1)) == ({
            let acc = accept_fold(props, names.take(i));
            let name = names[i];
            match crate::json::member_lookup(props, name) {
                Some(schema) => match jget(schema, "default"@) {
                    Some(d) => crate::json::insert_member(acc, name, d),
                    None => if jget_str(schema, "type"@) == Some("boolean"@) {
                        crate::json::insert_member(acc, name, JsonV::Bool(true))
                    } else {
                        acc
                    },
                },
                None => acc,
            }
        }),
{
    assert(names.take(i + 1).drop_last() =~= names.take(i));
    assert(names.take(i + 1).last() == names[i]);
}

fn mcp_accept_content_exec(p: &Json) -> (r: Json)
    ensures
        r@ == mcp_accept_content(p@),
{
    let schema = p.get("requestedSchema");
    let props = match get_opt(schema, "properties") {
        Some(Json::Object(m)) => m,
        _ => return Json::Null,
    };
    let props_json = get_opt(schema, "properties").unwrap();
    let required: Vec<Vec<char>> = match get_opt(schema, "required") {
        Some(Json::Array(items)) => array_strings_exec(items),
        _ => Vec::new(),
    };
    let ghost names = lines_view(required@);
    assert(names =~= match jget_opt(crate::json::ref_view(schema), "required"@) {
        Some(JsonV::Array(items)) => array_strings(items),
        _ => Seq::<Seq<char>>::empty(),
    });
    let ghost pv = crate::json::member_views(props@);
    let mut content: Vec<(String, Json)> = Vec::new();
    let mut i: usize = 0;
    assert(names.take(0) =~= Seq::<Seq<char>>::empty());
    assert(crate::json::member_views(content@) =~= Seq::<(Seq<char>, JsonV)>::empty());
    while i < required.len()
        invariant
            i <= required@.len(),
            names == lines_view(required@),
            props_json@ == JsonV::Object(pv),
            pv == crate::json::member_views(props@),
            crate::json::member_views(content@) == accept_fold(pv, names.take(i as int)),
        decreases required@.len() - i,
    {
        proof {
            lemma_accept_fold_step(pv, names, i as int);
        }
        let name = crate::text::from_chars(&required[i]);
        assert(name@ == names[i as int]);
        match props_json.get(name.as_str()) {
            Some(sch) => match sch.get("default") {
                Some(d) => {
                    crate::json::set_member(&mut content, name.as_str(), d.clone());
                },
                None => {
                    if str_is(get_str(sch, "type"), "boolean") {
                        crate::json::set_member(&mut content, name.as_str(), Json::Bool(true));
                    }
                },
            },
            None => {},
        }
        i += 1;
    }
    assert(names.take(names.len() as int) =~= names);
    proof {
        crate::json::lemma_member_views(content@);
    }
    if content.len() == 0 {
        Json::Null
    } else {
        Json::Object(content)
    }
}

fn mcp_decisions_exec(p: &Json) -> (r: Vec<ApprovalDecisionOption>)
    ensures
        options_view(r@) == mcp_decisions(p@),
{
    let content = mcp_accept_content_exec(p);
    let mut out: Vec<ApprovalDecisionOption> = Vec::new();
    push_option(&mut out, option_of("Yes, allow once", mcp_decision_exec("accept", content.clone(), None)));
    let ghost a = options_view(out@);
    if supports_persist_exec(p, "session") {
        push_option(
            &mut out,
            option_of("Yes, allow for this session", mcp_decision_exec("accept", content.clone(), Some("session"))),
        );
    }
    let ghost b = options_view(out@);
    if supports_persist_exec(p, "always") || str_is(get_str(p, "mode"), "url") {
        push_option(
            &mut out,
            option_of("Yes, always allow", mcp_decision_exec("accept", content.clone(), Some("always"))),
        );
    }
    push_option(&mut out, option_of("No, continue without it", mcp_decision_exec("decline", Json::Null, None)));
    push_option(&mut out, option_of("Cancel this request", mcp_decision_exec("cancel", Json::Null, None)));
    assert(options_view(out@) =~= mcp_decisions(p@));
    out
}

fn review_decisions_exec() -> (r: Vec<ApprovalDecisionOption>)
    ensures
        options_view(r@) == review_decisions(),
{
    let mut out: Vec<ApprovalDecisionOption> = Vec::new();
    push_option(&mut out, option_of("Yes, proceed", str_json("approved")));
    push_option(&mut out, option_of("No, and tell Codex what to do differently", str_json("denied")));
    assert(options_view(out@) =~= review_decisions());
    out
}

/// The request a chat user is asked about: `approval_request_view`.
pub fn approval_request_view(notification: &CodexNotification) -> (r: Option<ApprovalRequestView>)
    requires
        notification.method@ == "item/commandExecution/requestApproval"@ ==> match params_view(*notification) {
            Some(p) => !command_decisions_fail(p),
            None => true,
        },
    ensures
        match r {
            Some(v) => approval_view(notification.method@, params_view(*notification)) == Some(view_of(v)),
            None => approval_view(notification.method@, params_view(*notification)) is None,
        },
{
    let p = match &notification.params {
        Some(p) => p,
        None => return None,
    };
    let m = to_chars(notification.method.as_str());
    if eq_str(&m, "item/commandExecution/requestApproval") {
        let summary = command_approval_summary_exec(p);
        let decisions = command_approval_decisions_exec(p);
        Some(ApprovalRequestView { request_kind: String::from_str("command"), summary, decisions })
    } else if eq_str(&m, "item/fileChange/requestApproval") {
        Some(
            ApprovalRequestView {
                request_kind: String::from_str("fileChange"),
                summary: file_change_approval_summary_exec(p),
                decisions: file_change_decisions_exec(),
            },
        )
    } else if eq_str(&m, "item/permissions/requestApproval") {
        Some(
            ApprovalRequestView {
                request_kind: String::from_str("permissions"),
                summary: permissions_approval_summary_exec(p),
                decisions: permissions_decisions_exec(p),
            },
        )
    } else if eq_str(&m, "mcpServer/elicitation/request") {
        Some(
            ApprovalRequestView {
                request_kind: String::from_str("mcpElicitation"),
                summary: mcp_elicitation_summary_exec(p),
                decisions: mcp_decisions_exec(p),
            },
        )
    } else if eq_str(&m, "applyPatchApproval") {
        let mut s = to_chars("reason: ");
        append_vec(&mut s, &or_default_exec(get_str(p, "reason"), ""));
        proof {
            reveal_strlit("");
            assert(""@ =~= Seq::<char>::empty());
        }
        Some(
            ApprovalRequestView {
                request_kind: String::from_str("review"),
                summary: crate::text::from_chars(&s),
                decisions: review_decisions_exec(),
            },
        )
    } else if eq_str(&m, "execCommandApproval") {
        let mut s = to_chars("command: `");
        append_vec(&mut s, &concise_command(p));
        append_str(&mut s, "`\ncwd: `");
        append_vec(&mut s, &or_default_exec(get_str(p, "cwd"), ""));
        append_str(&mut s, "`");
        proof {
            reveal_strlit("");
            assert(""@ =~= Seq::<char>::empty());
        }
        Some(
            ApprovalRequestView {
                request_kind: String::from_str("review"),
                summary: crate::text::from_chars(&s),
                decisions: review_decisions_exec(),
            },
        )
    } else {
        None
    }
}



// ─── what a reply picks ────────────────────────────────────────────────

proof fn lemma_decimal_value(n: nat)
    ensures
        digits_value(crate::tool_names::decimal(n)) == n,
        crate::text::all_ascii_digits(crate::tool_names::decimal(n)),
        crate::tool_names::decimal(n).len() > 0,
    decreases n,
{
    crate::tool_names::lemma_decimal_digits(n);
    let d = crate::tool_names::decimal(n);
    if n >= 10 {
        lemma_decimal_value(n / 10);
        assert(d.drop_last() =~= crate::tool_names::decimal(n / 10));
        let r = n % 10;
        assert(digit_value(crate::tool_names::digit_char(r)) == r);
        assert(d.last() == crate::tool_names::digit_char(r));
        assert(digits_value(d) == digits_value(d.drop_last()) * 10 + digit_value(d.last()));
        assert((n / 10) * 10 + n % 10 == n) by (nonlinear_arith);
    } else {
        assert(digit_value(crate::tool_names::digit_char(n)) == n);
        assert(d.drop_last() =~= Seq::<char>::empty());
        assert(d.last() == crate::tool_names::digit_char(n));
        assert(digits_value(d) == digits_value(d.drop_last()) * 10 + digit_value(d.last()));
    }
}

proof fn lemma_digits_plain(s: Seq<char>)
    requires
        crate::text::all_ascii_digits(s),
    ensures
        lower(trim(s)) == s,
{
    if s.len() > 0 {
        assert(!crate::text::is_ws(s[0]));
        assert(!crate::text::is_ws(s.last()));
        crate::text::lemma_trim_solid_ends(s);
    } else {
        assert(trim(s) =~= s);
    }
    assert(lower(s) =~= s);
}

/// A reply that is a position `k` (as `k` or `/k`) picks the `k`-th
/// decision.
pub proof fn law_numbered_reply_picks_that_decision(ds: Seq<ApprovalDecisionOption>, k: nat)
    requires
        1 <= k <= ds.len(),
        k <= usize::MAX,
    ensures
        chosen_decision(ds, crate::tool_names::decimal(k)) == Some(k - 1),
        chosen_decision(ds, seq!['/'] + crate::tool_names::decimal(k)) == Some(k - 1),
{
    let d = crate::tool_names::decimal(k);
    lemma_decimal_value(k);
    lemma_digits_plain(d);
    assert(crate::text::is_ascii_digit(d[0]));
    assert(crate::text::unsigned_digits(d) == d);
    assert(reply_number(d) == Some(k));
    let sd = seq!['/'] + d;
    assert(!crate::text::is_ws(sd[0]));
    assert(sd.last() == d.last());
    assert(crate::text::is_ascii_digit(d.last()));
    crate::text::lemma_trim_solid_ends(sd);
    assert(lower(sd) =~= sd) by {
        assert forall|i: int| 0 <= i < sd.len() implies crate::text::lower_char(sd[i]) == sd[i] by {
            if i > 0 {
                assert(sd[i] == d[i - 1]);
                assert(crate::text::is_ascii_digit(d[i - 1]));
            }
        }
    }
    assert(sd.drop_first() =~= d);
    assert(reply_number(sd) == Some(k));
}

/// A yes reply picks the first decision that says yes, and a no reply the
/// first that says no.
pub proof fn law_yes_and_no_replies_pick_first_of_their_kind(ds: Seq<ApprovalDecisionOption>)
    ensures
        chosen_decision(ds, "y"@) == first_of_kind(ds, true),
        chosen_decision(ds, "n"@) == first_of_kind(ds, false),
        first_of_kind(ds, true) matches Some(i) ==> 0 <= i < ds.len() && is_accept_decision(ds[i].decision@)
            && forall|j: int| 0 <= j < i ==> !is_accept_decision(#[trigger] ds[j].decision@),
        first_of_kind(ds, false) matches Some(i) ==> 0 <= i < ds.len() && is_negative_decision(ds[i].decision@)
            && forall|j: int| 0 <= j < i ==> !is_negative_decision(#[trigger] ds[j].decision@),
{
    reveal_strlit("y");
    reveal_strlit("n");
    reveal_strlit("/y");
    reveal_strlit("/n");
    reveal_strlit("yes");
    reveal_strlit("/yes");
    reveal_strlit("no");
    reveal_strlit("/no");
    let y = "y"@;
    let n = "n"@;
    crate::text::lemma_trim_solid_ends(y);
    crate::text::lemma_trim_solid_ends(n);
    assert(lower(y) =~= y);
    assert(lower(n) =~= n);
    assert(!crate::text::all_ascii_digits(y) && !crate::text::all_ascii_digits(n)) by {
        assert(!crate::text::is_ascii_digit(y[0]));
        assert(!crate::text::is_ascii_digit(n[0]));
    }
    assert(reply_number(y) is None);
    assert(reply_number(n) is None);
    assert(is_yes_reply(y));
    assert(!is_yes_reply(n)) by {
        assert(n != "/y"@ && n != "/yes"@ && n != "yes"@ && n != y) by {
            assert(n[0] != ("/y"@)[0]);
            assert(n.len() != ("/yes"@).len());
            assert(n.len() != ("yes"@).len());
            assert(n[0] != y[0]);
        }
    }
    assert(is_no_reply(n));
    if let Some(i) = first_of_kind(ds, true) {
        assert(exists|x: int| is_first_of_kind(ds, true, x));
        assert(is_first_of_kind(ds, true, i));
        assert forall|j: int| 0 <= j < i implies !is_accept_decision(#[trigger] ds[j].decision@) by {
            assert(!matches_kind(ds[j], true));
        }
    }
    if let Some(i) = first_of_kind(ds, false) {
        assert(exists|x: int| is_first_of_kind(ds, false, x));
        assert(is_first_of_kind(ds, false, i));
        assert forall|j: int| 0 <= j < i implies !is_negative_decision(#[trigger] ds[j].decision@) by {
            assert(!matches_kind(ds[j], false));
        }
    }
}

} // verus!
