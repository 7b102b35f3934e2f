//! The events of a Responses API stream and their server-sent-event frames.
//!
//! The stream state machine emits typed events; `sse_frame` writes one as
//! `event: <type>\ndata: <json>\n\n`, the JSON built exactly as the
//! Responses API streams it.
use vstd::prelude::*;
use crate::json::{Json, JsonV, member_views, to_written_json_text, views, written_json_text};
use crate::text::{append_str, append_vec, from_chars, to_chars};
use crate::tool_names::{decimal, decimal_exec, decimal_u64};

verus! {

// ─── values ─────────────────────────────────────────────────────────────

/// Token usage as a response reports it.
#[derive(Clone, Copy, Debug, PartialEq, Eq)]
pub struct StreamUsage {
    pub input_tokens: i64,
    pub output_tokens: i64,
    pub total_tokens: i64,
    pub cached_tokens: i64,
    pub reasoning_tokens: i64,
}

/// An output item of the response, open (in progress) or completed.
#[derive(Debug)]
pub enum StreamItem {
    Reasoning { id: String, completed: bool, text: String },
    Message { id: String, completed: bool, text: String },
    ToolSearchCall { id: String, call_id: String, completed: bool, arguments: Json },
    CustomToolCall { id: String, call_id: String, name: String, input: String },
    FunctionCall {
        id: String,
        call_id: String,
        name: String,
        namespace: Option<String>,
        arguments: String,
        completed: bool,
    },
}

pub ghost enum ItemV {
    Reasoning { id: Seq<char>, completed: bool, text: Seq<char> },
    Message { id: Seq<char>, completed: bool, text: Seq<char> },
    ToolSearchCall { id: Seq<char>, call_id: Seq<char>, completed: bool, arguments: JsonV },
    CustomToolCall { id: Seq<char>, call_id: Seq<char>, name: Seq<char>, input: Seq<char> },
    FunctionCall {
        id: Seq<char>,
        call_id: Seq<char>,
        name: Seq<char>,
        namespace: Option<Seq<char>>,
        arguments: Seq<char>,
        completed: bool,
    },
}

pub open spec fn opt_str(o: Option<String>) -> Option<Seq<char>> {
    match o {
        Some(s) => Some(s@),
        None => None,
    }
}

impl View for StreamItem {
    type V = ItemV;

    open spec fn view(&self) -> ItemV {
        match self {
            StreamItem::Reasoning { id, completed, text } => ItemV::Reasoning {
                id: id@,
                completed: *completed,
                text: text@,
            },
            StreamItem::Message { id, completed, text } => ItemV::Message {
                id: id@,
                completed: *completed,
                text: text@,
            },
            StreamItem::ToolSearchCall { id, call_id, completed, arguments } => ItemV::ToolSearchCall {
                id: id@,
                call_id: call_id@,
                completed: *completed,
                arguments: arguments@,
            },
            StreamItem::CustomToolCall { id, call_id, name, input } => ItemV::CustomToolCall {
                id: id@,
                call_id: call_id@,
                name: name@,
                input: input@,
            },
            StreamItem::FunctionCall { id, call_id, name, namespace, arguments, completed } =>
                ItemV::FunctionCall {
                id: id@,
                call_id: call_id@,
                name: name@,
                namespace: opt_str(*namespace),
                arguments: arguments@,
                completed: *completed,
            },
        }
    }
}

pub open spec fn items_view(s: Seq<StreamItem>) -> Seq<ItemV> {
    s.map_values(|i: StreamItem| i@)
}

impl StreamItem {
    /// A copy of the item.
    pub fn copy(&self) -> (r: StreamItem)
        ensures
            r@ == self@,
    {
        match self {
            StreamItem::Reasoning { id, completed, text } => StreamItem::Reasoning {
                id: id.clone(),
                completed: *completed,
                text: text.clone(),
            },
            StreamItem::Message { id, completed, text } => StreamItem::Message {
                id: id.clone(),
                completed: *completed,
                text: text.clone(),
            },
            StreamItem::ToolSearchCall { id, call_id, completed, arguments } => StreamItem::ToolSearchCall {
                id: id.clone(),
                call_id: call_id.clone(),
                completed: *completed,
                arguments: arguments.deep_clone(),
            },
            StreamItem::CustomToolCall { id, call_id, name, input } => StreamItem::CustomToolCall {
                id: id.clone(),
                call_id: call_id.clone(),
                name: name.clone(),
                input: input.clone(),
            },
            StreamItem::FunctionCall { id, call_id, name, namespace, arguments, completed } =>
                StreamItem::FunctionCall {
                id: id.clone(),
                call_id: call_id.clone(),
                name: name.clone(),
                namespace: match namespace {
                    Some(n) => Some(n.clone()),
                    None => None,
                },
                arguments: arguments.clone(),
                completed: *completed,
            },
        }
    }
}

/// A copy of a list of items.
pub fn copy_items(v: &Vec<StreamItem>) -> (r: Vec<StreamItem>)
    ensures
        items_view(r@) == items_view(v@),
{
    let mut out: Vec<StreamItem> = Vec::new();
    let mut i: usize = 0;
    while i < v.len()
        invariant
            i <= v@.len(),
            items_view(out@) =~= items_view(v@.take(i as int)),
        decreases v@.len() - i,
    {
        let ghost before = out@;
        let c = v[i].copy();
        out.push(c);
        assert(out@ =~= before.push(c));
        assert(v@.take(i + 1) =~= v@.take(i as int).push(v@[i as int]));
        assert(items_view(out@) =~= items_view(before).push(c@));
        assert(items_view(v@.take(i + 1)) =~= items_view(v@.take(i as int)).push(v@[i as int]@));
        i += 1;
    }
    assert(v@.take(v@.len() as int) =~= v@);
    out
}

#[derive(Clone, Copy, Debug, PartialEq, Eq, Structural)]
pub enum ResponseStatus {
    InProgress,
    Completed,
    Incomplete,
}

/// The response object as a stream event carries it.
#[derive(Debug)]
pub struct ResponseSnapshot {
    pub id: String,
    pub model: String,
    pub created_at: i64,
    pub status: ResponseStatus,
    pub output: Vec<StreamItem>,
    pub usage: Option<StreamUsage>,
}

pub ghost struct SnapshotV {
    pub id: Seq<char>,
    pub model: Seq<char>,
    pub created_at: int,
    pub status: ResponseStatus,
    pub output: Seq<ItemV>,
    pub usage: Option<StreamUsage>,
}

impl View for ResponseSnapshot {
    type V = SnapshotV;

    open spec fn view(&self) -> SnapshotV {
        SnapshotV {
            id: self.id@,
            model: self.model@,
            created_at: self.created_at as int,
            status: self.status,
            output: items_view(self.output@),
            usage: self.usage,
        }
    }
}

/// An event of the Responses stream. `seq` is its sequence number.
#[derive(Debug)]
pub enum StreamEvent {
    Created { seq: usize, response: ResponseSnapshot },
    InProgress { seq: usize, response: ResponseSnapshot },
    /// `response.completed`, or `response.incomplete` for an incomplete response.
    Finished { seq: usize, response: ResponseSnapshot },
    ItemAdded { seq: usize, output_index: usize, item: StreamItem },
    ItemDone { seq: usize, output_index: usize, item: StreamItem },
    SummaryPartAdded { seq: usize, item_id: String, output_index: usize },
    SummaryTextDelta { seq: usize, item_id: String, output_index: usize, delta: String },
    SummaryTextDone { seq: usize, item_id: String, output_index: usize, text: String },
    SummaryPartDone { seq: usize, item_id: String, output_index: usize, text: String },
    ContentPartAdded { seq: usize, item_id: String, output_index: usize, content_index: usize },
    TextDelta { seq: usize, item_id: String, output_index: usize, content_index: usize, delta: String },
    TextDone { seq: usize, item_id: String, output_index: usize, content_index: usize, text: String },
    ContentPartDone { seq: usize, item_id: String, output_index: usize, content_index: usize, text: String },
    /// `response.custom_tool_call_input.delta` (custom) or
    /// `response.function_call_arguments.delta`.
    ToolDelta { seq: usize, custom: bool, item_id: String, output_index: usize, delta: String },
    CustomInputDone { seq: usize, item_id: String, output_index: usize, input: String },
    ArgumentsDone { seq: usize, item_id: String, output_index: usize, name: String, arguments: String },
}

pub ghost enum EventV {
    Created { seq: nat, response: SnapshotV },
    InProgress { seq: nat, response: SnapshotV },
    Finished { seq: nat, response: SnapshotV },
    ItemAdded { seq: nat, output_index: nat, item: ItemV },
    ItemDone { seq: nat, output_index: nat, item: ItemV },
    SummaryPartAdded { seq: nat, item_id: Seq<char>, output_index: nat },
    SummaryTextDelta { seq: nat, item_id: Seq<char>, output_index: nat, delta: Seq<char> },
    SummaryTextDone { seq: nat, item_id: Seq<char>, output_index: nat, text: Seq<char> },
    SummaryPartDone { seq: nat, item_id: Seq<char>, output_index: nat, text: Seq<char> },
    ContentPartAdded { seq: nat, item_id: Seq<char>, output_index: nat, content_index: nat },
    TextDelta { seq: nat, item_id: Seq<char>, output_index: nat, content_index: nat, delta: Seq<char> },
    TextDone { seq: nat, item_id: Seq<char>, output_index: nat, content_index: nat, text: Seq<char> },
    ContentPartDone { seq: nat, item_id: Seq<char>, output_index: nat, content_index: nat, text: Seq<char> },
    ToolDelta { seq: nat, custom: bool, item_id: Seq<char>, output_index: nat, delta: Seq<char> },
    CustomInputDone { seq: nat, item_id: Seq<char>, output_index: nat, input: Seq<char> },
    ArgumentsDone { seq: nat, item_id: Seq<char>, output_index: nat, name: Seq<char>, arguments: Seq<char> },
}

impl View for StreamEvent {
    type V = EventV;

    open spec fn view(&self) -> EventV {
        match self {
            StreamEvent::Created { seq, response } => EventV::Created { seq: *seq as nat, response: response@ },
            StreamEvent::InProgress { seq, response } => EventV::InProgress {
                seq: *seq as nat,
                response: response@,
            },
            StreamEvent::Finished { seq, response } => EventV::Finished { seq: *seq as nat, response: response@ },
            StreamEvent::ItemAdded { seq, output_index, item } => EventV::ItemAdded {
                seq: *seq as nat,
                output_index: *output_index as nat,
                item: item@,
            },
            StreamEvent::ItemDone { seq, output_index, item } => EventV::ItemDone {
                seq: *seq as nat,
                output_index: *output_index as nat,
                item: item@,
            },
            StreamEvent::SummaryPartAdded { seq, item_id, output_index } => EventV::SummaryPartAdded {
                seq: *seq as nat,
                item_id: item_id@,
                output_index: *output_index as nat,
            },
            StreamEvent::SummaryTextDelta { seq, item_id, output_index, delta } => EventV::SummaryTextDelta {
                seq: *seq as nat,
                item_id: item_id@,
                output_index: *output_index as nat,
                delta: delta@,
            },
            StreamEvent::SummaryTextDone { seq, item_id, output_index, text } => EventV::SummaryTextDone {
                seq: *seq as nat,
                item_id: item_id@,
                output_index: *output_index as nat,
                text: text@,
            },
            StreamEvent::SummaryPartDone { seq, item_id, output_index, text } => EventV::SummaryPartDone {
                seq: *seq as nat,
                item_id: item_id@,
                output_index: *output_index as nat,
                text: text@,
            },
            StreamEvent::ContentPartAdded { seq, item_id, output_index, content_index } =>
                EventV::ContentPartAdded {
                seq: *seq as nat,
                item_id: item_id@,
                output_index: *output_index as nat,
                content_index: *content_index as nat,
            },
            StreamEvent::TextDelta { seq, item_id, output_index, content_index, delta } => EventV::TextDelta {
                seq: *seq as nat,
                item_id: item_id@,
                output_index: *output_index as nat,
                content_index: *content_index as nat,
                delta: delta@,
            },
            StreamEvent::TextDone { seq, item_id, output_index, content_index, text } => EventV::TextDone {
                seq: *seq as nat,
                item_id: item_id@,
                output_index: *output_index as nat,
                content_index: *content_index as nat,
                text: text@,
            },
            StreamEvent::ContentPartDone { seq, item_id, output_index, content_index, text } =>
                EventV::ContentPartDone {
                seq: *seq as nat,
                item_id: item_id@,
                output_index: *output_index as nat,
                content_index: *content_index as nat,
                text: text@,
            },
            StreamEvent::ToolDelta { seq, custom, item_id, output_index, delta } => EventV::ToolDelta {
                seq: *seq as nat,
                custom: *custom,
                item_id: item_id@,
                output_index: *output_index as nat,
                delta: delta@,
            },
            StreamEvent::CustomInputDone { seq, item_id, output_index, input } => EventV::CustomInputDone {
                seq: *seq as nat,
                item_id: item_id@,
                output_index: *output_index as nat,
                input: input@,
            },
            StreamEvent::ArgumentsDone { seq, item_id, output_index, name, arguments } =>
                EventV::ArgumentsDone {
                seq: *seq as nat,
                item_id: item_id@,
                output_index: *output_index as nat,
                name: name@,
                arguments: arguments@,
            },
        }
    }
}

pub open spec fn events_view(s: Seq<StreamEvent>) -> Seq<EventV> {
    s.map_values(|e: StreamEvent| e@)
}

/// The sequence number of an event.
pub open spec fn event_seq(e: EventV) -> nat {
    match e {
        EventV::Created { seq, .. } => seq,
        EventV::InProgress { seq, .. } => seq,
        EventV::Finished { seq, .. } => seq,
        EventV::ItemAdded { seq, .. } => seq,
        EventV::ItemDone { seq, .. } => seq,
        EventV::SummaryPartAdded { seq, .. } => seq,
        EventV::SummaryTextDelta { seq, .. } => seq,
        EventV::SummaryTextDone { seq, .. } => seq,
        EventV::SummaryPartDone { seq, .. } => seq,
        EventV::ContentPartAdded { seq, .. } => seq,
        EventV::TextDelta { seq, .. } => seq,
        EventV::TextDone { seq, .. } => seq,
        EventV::ContentPartDone { seq, .. } => seq,
        EventV::ToolDelta { seq, .. } => seq,
        EventV::CustomInputDone { seq, .. } => seq,
        EventV::ArgumentsDone { seq, .. } => seq,
    }
}

// ─── the JSON of items and events ──────────────────────────────────────

pub open spec fn jstr(s: Seq<char>) -> JsonV {
    JsonV::Str(s)
}

pub open spec fn jnat(n: nat) -> JsonV {
    JsonV::Number(decimal(n))
}

/// The decimal text of an integer, with a `-` when it is negative.
pub open spec fn int_text(i: int) -> Seq<char> {
    if i < 0 {
        seq!['-'] + decimal((-i) as nat)
    } else {
        decimal(i as nat)
    }
}

pub open spec fn jint_v(i: int) -> JsonV {
    JsonV::Number(int_text(i))
}

pub open spec fn empty_array() -> JsonV {
    JsonV::Array(Seq::empty())
}

pub open spec fn status_text(completed: bool) -> Seq<char> {
    if completed {
        "completed"@
    } else {
        "in_progress"@
    }
}

pub open spec fn summary_text_part(text: Seq<char>) -> JsonV {
    JsonV::Object(Seq::empty().push(("type"@, jstr("summary_text"@))).push(("text"@, jstr(text))))
}

pub open spec fn output_text_part(text: Seq<char>) -> JsonV {
    JsonV::Object(Seq::empty().push(("type"@, jstr("output_text"@))).push(("text"@, jstr(text))).push(("annotations"@, empty_array())))
}

/// The JSON of an output item.
pub open spec fn item_json(i: ItemV) -> JsonV {
    match i {
        ItemV::Reasoning { id, completed, text } => JsonV::Object(
            Seq::empty().push(("type"@, jstr("reasoning"@))).push(("id"@, jstr(id))).push(("status"@, jstr(status_text(completed)))).push(("summary"@, if completed {
                    JsonV::Array(seq![summary_text_part(text)])
                } else {
                    empty_array()
                })),
        ),
        ItemV::Message { id, completed, text } => JsonV::Object(
            Seq::empty().push(("type"@, jstr("message"@))).push(("id"@, jstr(id))).push(("role"@, jstr("assistant"@))).push(("status"@, jstr(status_text(completed)))).push(("content"@, if completed {
                    JsonV::Array(seq![output_text_part(text)])
                } else {
                    empty_array()
                })),
        ),
        ItemV::ToolSearchCall { id, call_id, completed, arguments } => JsonV::Object(
            Seq::empty().push(("type"@, jstr("tool_search_call"@))).push(("id"@, jstr(id))).push(("call_id"@, jstr(call_id))).push(("execution"@, jstr("client"@))).push(("arguments"@, arguments)).push(("status"@, jstr(status_text(completed)))),
        ),
        ItemV::CustomToolCall { id, call_id, name, input } => JsonV::Object(
            Seq::empty().push(("type"@, jstr("custom_tool_call"@))).push(("id"@, jstr(id))).push(("call_id"@, jstr(call_id))).push(("name"@, jstr(name))).push(("input"@, jstr(input))),
        ),
        ItemV::FunctionCall { id, call_id, name, namespace, arguments, completed } => {
            let base = Seq::empty().push(("type"@, jstr("function_call"@))).push(("id"@, jstr(id))).push(("call_id"@, jstr(call_id))).push(("name"@, jstr(name))).push(("arguments"@, jstr(arguments))).push(("status"@, jstr(status_text(completed))));
            match namespace {
                Some(ns) => JsonV::Object(base.push(("namespace"@, jstr(ns)))),
                None => JsonV::Object(base),
            }
        },
    }
}

pub open spec fn usage_json(u: StreamUsage) -> JsonV {
    JsonV::Object(
        Seq::empty().push(("input_tokens"@, jint_v(u.input_tokens as int))).push(("output_tokens"@, jint_v(u.output_tokens as int))).push(("total_tokens"@, jint_v(u.total_tokens as int))).push(("input_tokens_details"@, JsonV::Object(seq![("cached_tokens"@, jint_v(u.cached_tokens as int))]))).push(("output_tokens_details"@, JsonV::Object(seq![("reasoning_tokens"@, jint_v(u.reasoning_tokens as int))]))),
    )
}

pub open spec fn response_status_text(s: ResponseStatus) -> Seq<char> {
    match s {
        ResponseStatus::InProgress => "in_progress"@,
        ResponseStatus::Completed => "completed"@,
        ResponseStatus::Incomplete => "incomplete"@,
    }
}

/// The response object: `incomplete_details` names the output limit when
/// the response is incomplete, and `usage` is there once it is known.
pub open spec fn snapshot_json(r: SnapshotV) -> JsonV {
    let base = Seq::empty().push(("id"@, jstr(r.id))).push(("object"@, jstr("response"@))).push(("model"@, jstr(r.model))).push(("created_at"@, jint_v(r.created_at))).push(("status"@, jstr(response_status_text(r.status)))).push(("output"@, JsonV::Array(r.output.map_values(|i: ItemV| item_json(i))))).push(("incomplete_details"@, if r.status == ResponseStatus::Incomplete {
            JsonV::Object(seq![("reason"@, jstr("max_output_tokens"@))])
        } else {
            JsonV::Null
        }));
    match r.usage {
        Some(u) => JsonV::Object(base.push(("usage"@, usage_json(u)))),
        None => JsonV::Object(base),
    }
}

/// The event type written on the `event:` line.
pub open spec fn event_type_name(e: EventV) -> Seq<char> {
    match e {
        EventV::Created { .. } => "response.created"@,
        EventV::InProgress { .. } => "response.in_progress"@,
        EventV::Finished { response, .. } => if response.status == ResponseStatus::Incomplete {
            "response.incomplete"@
        } else {
            "response.completed"@
        },
        EventV::ItemAdded { .. } => "response.output_item.added"@,
        EventV::ItemDone { .. } => "response.output_item.done"@,
        EventV::SummaryPartAdded { .. } => "response.reasoning_summary_part.added"@,
        EventV::SummaryTextDelta { .. } => "response.reasoning_summary_text.delta"@,
        EventV::SummaryTextDone { .. } => "response.reasoning_summary_text.done"@,
        EventV::SummaryPartDone { .. } => "response.reasoning_summary_part.done"@,
        EventV::ContentPartAdded { .. } => "response.content_part.added"@,
        EventV::TextDelta { .. } => "response.output_text.delta"@,
        EventV::TextDone { .. } => "response.output_text.done"@,
        EventV::ContentPartDone { .. } => "response.content_part.done"@,
        EventV::ToolDelta { custom, .. } => if custom {
            "response.custom_tool_call_input.delta"@
        } else {
            "response.function_call_arguments.delta"@
        },
        EventV::CustomInputDone { .. } => "response.custom_tool_call_input.done"@,
        EventV::ArgumentsDone { .. } => "response.function_call_arguments.done"@,
    }
}

pub open spec fn head(e: EventV) -> Seq<(Seq<char>, JsonV)> {
    Seq::empty().push(("type"@, jstr(event_type_name(e)))).push(("sequence_number"@, jnat(event_seq(e))))
}

/// The JSON data of an event.
pub open spec fn event_json(e: EventV) -> JsonV {
    let h = head(e);
    match e {
        EventV::Created { response, .. } => JsonV::Object(h.push(("response"@, snapshot_json(response)))),
        EventV::InProgress { response, .. } => JsonV::Object(h.push(("response"@, snapshot_json(response)))),
        EventV::Finished { response, .. } => JsonV::Object(h.push(("response"@, snapshot_json(response)))),
        EventV::ItemAdded { output_index, item, .. } => JsonV::Object(
            h.push(("output_index"@, jnat(output_index))).push(("item"@, item_json(item))),
        ),
        EventV::ItemDone { output_index, item, .. } => JsonV::Object(
            h.push(("output_index"@, jnat(output_index))).push(("item"@, item_json(item))),
        ),
        EventV::SummaryPartAdded { item_id, output_index, .. } => JsonV::Object(
            h.push(("item_id"@, jstr(item_id))).push(("output_index"@, jnat(output_index))).push(
                ("summary_index"@, jnat(0)),
            ).push(("part"@, summary_text_part(""@))),
        ),
        EventV::SummaryTextDelta { item_id, output_index, delta, .. } => JsonV::Object(
            h.push(("item_id"@, jstr(item_id))).push(("output_index"@, jnat(output_index))).push(
                ("summary_index"@, jnat(0)),
            ).push(("delta"@, jstr(delta))),
        ),
        EventV::SummaryTextDone { item_id, output_index, text, .. } => JsonV::Object(
            h.push(("item_id"@, jstr(item_id))).push(("output_index"@, jnat(output_index))).push(
                ("summary_index"@, jnat(0)),
            ).push(("text"@, jstr(text))),
        ),
        EventV::SummaryPartDone { item_id, output_index, text, .. } => JsonV::Object(
            h.push(("item_id"@, jstr(item_id))).push(("output_index"@, jnat(output_index))).push(
                ("summary_index"@, jnat(0)),
            ).push(("part"@, summary_text_part(text))),
        ),
        EventV::ContentPartAdded { item_id, output_index, content_index, .. } => JsonV::Object(
            h.push(("item_id"@, jstr(item_id))).push(("output_index"@, jnat(output_index))).push(
                ("content_index"@, jnat(content_index)),
            ).push(("part"@, output_text_part(""@))),
        ),
        EventV::TextDelta { item_id, output_index, content_index, delta, .. } => JsonV::Object(
            h.push(("item_id"@, jstr(item_id))).push(("output_index"@, jnat(output_index))).push(
                ("content_index"@, jnat(content_index)),
            ).push(("delta"@, jstr(delta))).push(("logprobs"@, empty_array())),
        ),
        EventV::TextDone { item_id, output_index, content_index, text, .. } => JsonV::Object(
            h.push(("item_id"@, jstr(item_id))).push(("output_index"@, jnat(output_index))).push(
                ("content_index"@, jnat(content_index)),
            ).push(("text"@, jstr(text))).push(("logprobs"@, empty_array())),
        ),
        EventV::ContentPartDone { item_id, output_index, content_index, text, .. } => JsonV::Object(
            h.push(("item_id"@, jstr(item_id))).push(("output_index"@, jnat(output_index))).push(
                ("content_index"@, jnat(content_index)),
            ).push(("part"@, output_text_part(text))),
        ),
        EventV::ToolDelta { item_id, output_index, delta, .. } => JsonV::Object(
            h.push(("item_id"@, jstr(item_id))).push(("output_index"@, jnat(output_index))).push(
                ("delta"@, jstr(delta)),
            ),
        ),
        EventV::CustomInputDone { item_id, output_index, input, .. } => JsonV::Object(
            h.push(("item_id"@, jstr(item_id))).push(("output_index"@, jnat(output_index))).push(
                ("input"@, jstr(input)),
            ),
        ),
        EventV::ArgumentsDone { item_id, output_index, name, arguments, .. } => JsonV::Object(
            h.push(("item_id"@, jstr(item_id))).push(("output_index"@, jnat(output_index))).push(
                ("name"@, jstr(name)),
            ).push(("arguments"@, jstr(arguments))),
        ),
    }
}

/// The server-sent-event frame of an event.
pub open spec fn frame_text(e: EventV) -> Seq<char> {
    "event: "@ + event_type_name(e) + "\ndata: "@ + written_json_text(event_json(e)) + "\n\n"@
}

// ─── building the JSON ─────────────────────────────────────────────────

fn push_member(m: &mut Vec<(String, Json)>, k: &str, v: Json)
    ensures
        member_views(final(m)@) == member_views(old(m)@).push((k@, v@)),
{
    let ghost vv = v@;
    m.push((String::from_str(k), v));
    assert(m@.drop_last() =~= old(m)@);
}

fn object_json(m: Vec<(String, Json)>) -> (r: Json)
    ensures
        r@ == JsonV::Object(member_views(m@)),
{
    let r = Json::Object(m);
    assert(r@ == JsonV::Object(member_views(m@)));
    r
}

fn string_json(s: &str) -> (r: Json)
    ensures
        r@ == jstr(s@),
{
    Json::Str(String::from_str(s))
}

fn nat_json(n: usize) -> (r: Json)
    ensures
        r@ == jnat(n as nat),
{
    let d = decimal_exec(n);
    Json::Number(from_chars(&d))
}

fn int_json(i: i64) -> (r: Json)
    ensures
        r@ == jint_v(i as int),
{
    if i < 0 {
        let m: u64 = (0i128 - (i as i128)) as u64;
        let d = decimal_u64(m);
        let mut t: Vec<char> = vec!['-'];
        append_vec(&mut t, &d);
        assert(t@ =~= int_text(i as int));
        Json::Number(from_chars(&t))
    } else {
        let d = decimal_u64(i as u64);
        Json::Number(from_chars(&d))
    }
}

fn empty_array_json() -> (r: Json)
    ensures
        r@ == empty_array(),
{
    let v: Vec<Json> = Vec::new();
    assert(views(v@) =~= Seq::<JsonV>::empty());
    let r = Json::Array(v);
    assert(r@ == JsonV::Array(views(v@)));
    r
}

fn single_array_json(j: Json) -> (r: Json)
    ensures
        r@ == JsonV::Array(seq![j@]),
{
    let ghost jv = j@;
    let v: Vec<Json> = vec![j];
    proof {
        crate::json::lemma_views(v@);
    }
    assert(views(v@) =~= seq![jv]);
    let r = Json::Array(v);
    assert(r@ == JsonV::Array(views(v@)));
    r
}

fn summary_part_json(text: &str) -> (r: Json)
    ensures
        r@ == summary_text_part(text@),
{
    let mut m: Vec<(String, Json)> = Vec::new();
    push_member(&mut m, "type", string_json("summary_text"));
    push_member(&mut m, "text", string_json(text));
    object_json(m)
}

fn output_part_json(text: &str) -> (r: Json)
    ensures
        r@ == output_text_part(text@),
{
    let mut m: Vec<(String, Json)> = Vec::new();
    push_member(&mut m, "type", string_json("output_text"));
    push_member(&mut m, "text", string_json(text));
    push_member(&mut m, "annotations", empty_array_json());
    object_json(m)
}

fn status_json(completed: bool) -> (r: Json)
    ensures
        r@ == jstr(status_text(completed)),
{
    if completed {
        string_json("completed")
    } else {
        string_json("in_progress")
    }
}

/// The JSON of an output item.
pub fn item_data(i: &StreamItem) -> (r: Json)
    ensures
        r@ == item_json(i@),
{
    let mut m: Vec<(String, Json)> = Vec::new();
    match i {
        StreamItem::Reasoning { id, completed, text } => {
            push_member(&mut m, "type", string_json("reasoning"));
            push_member(&mut m, "id", string_json(id.as_str()));
            push_member(&mut m, "status", status_json(*completed));
            let s = if *completed {
                single_array_json(summary_part_json(text.as_str()))
            } else {
                empty_array_json()
            };
            push_member(&mut m, "summary", s);
        },
        StreamItem::Message { id, completed, text } => {
            push_member(&mut m, "type", string_json("message"));
            push_member(&mut m, "id", string_json(id.as_str()));
            push_member(&mut m, "role", string_json("assistant"));
            push_member(&mut m, "status", status_json(*completed));
            let c = if *completed {
                single_array_json(output_part_json(text.as_str()))
            } else {
                empty_array_json()
            };
            push_member(&mut m, "content", c);
        },
        StreamItem::ToolSearchCall { id, call_id, completed, arguments } => {
            push_member(&mut m, "type", string_json("tool_search_call"));
            push_member(&mut m, "id", string_json(id.as_str()));
            push_member(&mut m, "call_id", string_json(call_id.as_str()));
            push_member(&mut m, "execution", string_json("client"));
            push_member(&mut m, "arguments", arguments.deep_clone());
            push_member(&mut m, "status", status_json(*completed));
        },
        StreamItem::CustomToolCall { id, call_id, name, input } => {
            push_member(&mut m, "type", string_json("custom_tool_call"));
            push_member(&mut m, "id", string_json(id.as_str()));
            push_member(&mut m, "call_id", string_json(call_id.as_str()));
            push_member(&mut m, "name", string_json(name.as_str()));
            push_member(&mut m, "input", string_json(input.as_str()));
        },
        StreamItem::FunctionCall { id, call_id, name, namespace, arguments, completed } => {
            push_member(&mut m, "type", string_json("function_call"));
            push_member(&mut m, "id", string_json(id.as_str()));
            push_member(&mut m, "call_id", string_json(call_id.as_str()));
            push_member(&mut m, "name", string_json(name.as_str()));
            push_member(&mut m, "arguments", string_json(arguments.as_str()));
            push_member(&mut m, "status", status_json(*completed));
            match namespace {
                Some(ns) => {
                    push_member(&mut m, "namespace", string_json(ns.as_str()));
                },
                None => {},
            }
        },
    }
    object_json(m)
}

fn usage_data(u: &StreamUsage) -> (r: Json)
    ensures
        r@ == usage_json(*u),
{
    let mut m: Vec<(String, Json)> = Vec::new();
    push_member(&mut m, "input_tokens", int_json(u.input_tokens));
    push_member(&mut m, "output_tokens", int_json(u.output_tokens));
    push_member(&mut m, "total_tokens", int_json(u.total_tokens));
    let mut c: Vec<(String, Json)> = Vec::new();
    push_member(&mut c, "cached_tokens", int_json(u.cached_tokens));
    push_member(&mut m, "input_tokens_details", object_json(c));
    let mut o: Vec<(String, Json)> = Vec::new();
    push_member(&mut o, "reasoning_tokens", int_json(u.reasoning_tokens));
    push_member(&mut m, "output_tokens_details", object_json(o));
    object_json(m)
}

/// The response object.
pub fn snapshot_data(r: &ResponseSnapshot) -> (j: Json)
    ensures
        j@ == snapshot_json(r@),
{
    let mut m: Vec<(String, Json)> = Vec::new();
    push_member(&mut m, "id", string_json(r.id.as_str()));
    push_member(&mut m, "object", string_json("response"));
    push_member(&mut m, "model", string_json(r.model.as_str()));
    push_member(&mut m, "created_at", int_json(r.created_at));
    let st = match r.status {
        ResponseStatus::InProgress => string_json("in_progress"),
        ResponseStatus::Completed => string_json("completed"),
        ResponseStatus::Incomplete => string_json("incomplete"),
    };
    push_member(&mut m, "status", st);
    let mut out: Vec<Json> = Vec::new();
    let mut i: usize = 0;
    while i < r.output.len()
        invariant
            i <= r.output@.len(),
            views(out@) =~= items_view(r.output@).take(i as int).map_values(|x: ItemV| item_json(x)),
        decreases r.output@.len() - i,
    {
        let ghost before = out@;
        out.push(item_data(&r.output[i]));
        assert(out@.drop_last() =~= before);
        i += 1;
        assert(views(out@) =~= items_view(r.output@).take(i as int).map_values(|x: ItemV| item_json(x)));
    }
    assert(items_view(r.output@).take(r.output@.len() as int) =~= items_view(r.output@));
    let outj = Json::Array(out);
    assert(outj@ == JsonV::Array(views(out@)));
    push_member(&mut m, "output", outj);
    let details = if r.status == ResponseStatus::Incomplete {
        let mut d: Vec<(String, Json)> = Vec::new();
        push_member(&mut d, "reason", string_json("max_output_tokens"));
        object_json(d)
    } else {
        Json::Null
    };
    push_member(&mut m, "incomplete_details", details);
    match &r.usage {
        Some(u) => {
            push_member(&mut m, "usage", usage_data(u));
        },
        None => {},
    }
    object_json(m)
}

impl StreamEvent {
    /// The event type written on the `event:` line.
    pub fn event_type(&self) -> (r: &'static str)
        ensures
            r@ == event_type_name(self@),
    {
        match self {
            StreamEvent::Created { .. } => "response.created",
            StreamEvent::InProgress { .. } => "response.in_progress",
            StreamEvent::Finished { response, .. } => if response.status == ResponseStatus::Incomplete {
                "response.incomplete"
            } else {
                "response.completed"
            },
            StreamEvent::ItemAdded { .. } => "response.output_item.added",
            StreamEvent::ItemDone { .. } => "response.output_item.done",
            StreamEvent::SummaryPartAdded { .. } => "response.reasoning_summary_part.added",
            StreamEvent::SummaryTextDelta { .. } => "response.reasoning_summary_text.delta",
            StreamEvent::SummaryTextDone { .. } => "response.reasoning_summary_text.done",
            StreamEvent::SummaryPartDone { .. } => "response.reasoning_summary_part.done",
            StreamEvent::ContentPartAdded { .. } => "response.content_part.added",
            StreamEvent::TextDelta { .. } => "response.output_text.delta",
            StreamEvent::TextDone { .. } => "response.output_text.done",
            StreamEvent::ContentPartDone { .. } => "response.content_part.done",
            StreamEvent::ToolDelta { custom, .. } => if *custom {
                "response.custom_tool_call_input.delta"
            } else {
                "response.function_call_arguments.delta"
            },
            StreamEvent::CustomInputDone { .. } => "response.custom_tool_call_input.done",
            StreamEvent::ArgumentsDone { .. } => "response.function_call_arguments.done",
        }
    }

    /// The sequence number of the event.
    pub fn sequence_number(&self) -> (r: usize)
        ensures
            r as nat == event_seq(self@),
    {
        match self {
            StreamEvent::Created { seq, .. } => *seq,
            StreamEvent::InProgress { seq, .. } => *seq,
            StreamEvent::Finished { seq, .. } => *seq,
            StreamEvent::ItemAdded { seq, .. } => *seq,
            StreamEvent::ItemDone { seq, .. } => *seq,
            StreamEvent::SummaryPartAdded { seq, .. } => *seq,
            StreamEvent::SummaryTextDelta { seq, .. } => *seq,
            StreamEvent::SummaryTextDone { seq, .. } => *seq,
            StreamEvent::SummaryPartDone { seq, .. } => *seq,
            StreamEvent::ContentPartAdded { seq, .. } => *seq,
            StreamEvent::TextDelta { seq, .. } => *seq,
            StreamEvent::TextDone { seq, .. } => *seq,
            StreamEvent::ContentPartDone { seq, .. } => *seq,
            StreamEvent::ToolDelta { seq, .. } => *seq,
            StreamEvent::CustomInputDone { seq, .. } => *seq,
            StreamEvent::ArgumentsDone { seq, .. } => *seq,
        }
    }

    /// The JSON data of the event.
    pub fn data(&self) -> (r: Json)
        ensures
            r@ == event_json(self@),
    {
        let mut m: Vec<(String, Json)> = Vec::new();
        push_member(&mut m, "type", string_json(self.event_type()));
        push_member(&mut m, "sequence_number", nat_json(self.sequence_number()));
        match self {
            StreamEvent::Created { response, .. } => {
                push_member(&mut m, "response", snapshot_data(response));
            },
            StreamEvent::InProgress { response, .. } => {
                push_member(&mut m, "response", snapshot_data(response));
            },
            StreamEvent::Finished { response, .. } => {
                push_member(&mut m, "response", snapshot_data(response));
            },
            StreamEvent::ItemAdded { output_index, item, .. } => {
                push_member(&mut m, "output_index", nat_json(*output_index));
                push_member(&mut m, "item", item_data(item));
            },
            StreamEvent::ItemDone { output_index, item, .. } => {
                push_member(&mut m, "output_index", nat_json(*output_index));
                push_member(&mut m, "item", item_data(item));
            },
            StreamEvent::SummaryPartAdded { item_id, output_index, .. } => {
                push_member(&mut m, "item_id", string_json(item_id.as_str()));
                push_member(&mut m, "output_index", nat_json(*output_index));
                push_member(&mut m, "summary_index", nat_json(0));
                push_member(&mut m, "part", summary_part_json(""));
            },
            StreamEvent::SummaryTextDelta { item_id, output_index, delta, .. } => {
                push_member(&mut m, "item_id", string_json(item_id.as_str()));
                push_member(&mut m, "output_index", nat_json(*output_index));
                push_member(&mut m, "summary_index", nat_json(0));
                push_member(&mut m, "delta", string_json(delta.as_str()));
            },
            StreamEvent::SummaryTextDone { item_id, output_index, text, .. } => {
                push_member(&mut m, "item_id", string_json(item_id.as_str()));
                push_member(&mut m, "output_index", nat_json(*output_index));
                push_member(&mut m, "summary_index", nat_json(0));
                push_member(&mut m, "text", string_json(text.as_str()));
            },
            StreamEvent::SummaryPartDone { item_id, output_index, text, .. } => {
                push_member(&mut m, "item_id", string_json(item_id.as_str()));
                push_member(&mut m, "output_index", nat_json(*output_index));
                push_member(&mut m, "summary_index", nat_json(0));
                push_member(&mut m, "part", summary_part_json(text.as_str()));
            },
            StreamEvent::ContentPartAdded { item_id, output_index, content_index, .. } => {
                push_member(&mut m, "item_id", string_json(item_id.as_str()));
                push_member(&mut m, "output_index", nat_json(*output_index));
                push_member(&mut m, "content_index", nat_json(*content_index));
                push_member(&mut m, "part", output_part_json(""));
            },
            StreamEvent::TextDelta { item_id, output_index, content_index, delta, .. } => {
                push_member(&mut m, "item_id", string_json(item_id.as_str()));
                push_member(&mut m, "output_index", nat_json(*output_index));
                push_member(&mut m, "content_index", nat_json(*content_index));
                push_member(&mut m, "delta", string_json(delta.as_str()));
                push_member(&mut m, "logprobs", empty_array_json());
            },
            StreamEvent::TextDone { item_id, output_index, content_index, text, .. } => {
                push_member(&mut m, "item_id", string_json(item_id.as_str()));
                push_member(&mut m, "output_index", nat_json(*output_index));
                push_member(&mut m, "content_index", nat_json(*content_index));
                push_member(&mut m, "text", string_json(text.as_str()));
                push_member(&mut m, "logprobs", empty_array_json());
            },
            StreamEvent::ContentPartDone { item_id, output_index, content_index, text, .. } => {
                push_member(&mut m, "item_id", string_json(item_id.as_str()));
                push_member(&mut m, "output_index", nat_json(*output_index));
                push_member(&mut m, "content_index", nat_json(*content_index));
                push_member(&mut m, "part", output_part_json(text.as_str()));
            },
            StreamEvent::ToolDelta { item_id, output_index, delta, .. } => {
                push_member(&mut m, "item_id", string_json(item_id.as_str()));
                push_member(&mut m, "output_index", nat_json(*output_index));
                push_member(&mut m, "delta", string_json(delta.as_str()));
            },
            StreamEvent::CustomInputDone { item_id, output_index, input, .. } => {
                push_member(&mut m, "item_id", string_json(item_id.as_str()));
                push_member(&mut m, "output_index", nat_json(*output_index));
                push_member(&mut m, "input", string_json(input.as_str()));
            },
            StreamEvent::ArgumentsDone { item_id, output_index, name, arguments, .. } => {
                push_member(&mut m, "item_id", string_json(item_id.as_str()));
                push_member(&mut m, "output_index", nat_json(*output_index));
                push_member(&mut m, "name", string_json(name.as_str()));
                push_member(&mut m, "arguments", string_json(arguments.as_str()));
            },
        }
        object_json(m)
    }
}

/// `emit_sse`: the frame `event: <type>\ndata: <json>\n\n` of an event.
pub fn sse_frame(e: &StreamEvent) -> (r: String)
    ensures
        r@ == frame_text(e@),
{
    let mut out: Vec<char> = Vec::new();
    append_str(&mut out, "event: ");
    append_str(&mut out, e.event_type());
    append_str(&mut out, "\ndata: ");
    let data = to_written_json_text(&e.data());
    let d = to_chars(data.as_str());
    append_vec(&mut out, &d);
    append_str(&mut out, "\n\n");
    from_chars(&out)
}

} // verus!
