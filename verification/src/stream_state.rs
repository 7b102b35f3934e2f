//! The state machine that turns a Chat Completions stream into a Responses
//! API stream, verified against the model in `stream_model`.
use vstd::prelude::*;
use crate::json::Json;
use crate::json::{get_str, parse_json, views, Json as JsonValue, JsonV};
use crate::responses_stream::{extract_custom_tool_input, tool_delta_event, ToolCallState};
use crate::stream_events::{
    copy_items, events_view, items_view, EventV, ItemV, ResponseSnapshot, ResponseStatus, StreamEvent, StreamItem,
    StreamUsage,
};
use crate::stream_model::{
    apply_usage, chat_usage, chat_usage_fits, chunk_actions, chunk_event_budget, chunk_item_budget,
    choice_actions, finish_actions, chunk_tool_count, chunk_usage, chunk_usage_fits, delta_text_actions, first_choice, start_actions, jnat, lemma_run_append, lemma_run_empty,
    lemma_run_single, nonempty_text_action, or_null, run, start, step, tool_call_action, tool_calls_of,
    usage_action, StreamAction,
    call_after_arguments, call_position, close_calls, close_open_items, completed_tool_item, empty_object, in_progress_tool_item, close_content, close_message, close_one_call, close_reasoning, close_tool_calls,
    content_delta, emit_created, emit_finished, emit_in_progress, final_status, handle_done, handle_finish,
    has_call, indices_increasing, insert_position, is_insert_position, open_tool_call, reasoning_delta, snapshot,
    tool_arguments, tool_delta, StateV, ToolCallV,
};
use crate::text::{append_str, from_chars, to_chars};
use crate::tool_names::{ToolCallKind, ToolCallTarget, ToolNameMap};

verus! {

// ─── identifiers ───────────────────────────────────────────────────────

/// A fresh identifier for an output item.
pub fn generate_item_id() -> (r: String)
    ensures
        crate::text::starts_with(r@, "gwitem_"@),
{
    let mut v = to_chars("gwitem_");
    let u = crate::daemon_process::new_instance_uuid();
    let uv = to_chars(u.as_str());
    crate::text::append_vec(&mut v, &uv);
    proof {
        reveal_strlit("gwitem_");
        assert(v@.subrange(0, 7) =~= "gwitem_"@);
    }
    from_chars(&v)
}

/// A fresh identifier for a response.
pub fn generate_response_id() -> (r: String)
    ensures
        crate::text::starts_with(r@, "gwresp_"@),
{
    let mut v = to_chars("gwresp_");
    let u = crate::daemon_process::new_instance_uuid();
    let uv = to_chars(u.as_str());
    crate::text::append_vec(&mut v, &uv);
    proof {
        reveal_strlit("gwresp_");
        assert(v@.subrange(0, 7) =~= "gwresp_"@);
    }
    from_chars(&v)
}

// ─── the state ─────────────────────────────────────────────────────────

pub open spec fn tool_call_view(t: ToolCallState) -> ToolCallV {
    ToolCallV {
        id: t.id@,
        target: t.target@,
        arguments: t.arguments@,
        emitted: t.custom_emitted_input@,
        item_id: t.item_id@,
        output_index: t.output_index as nat,
    }
}

pub open spec fn calls_view(v: Seq<(u64, ToolCallState)>) -> Seq<(nat, ToolCallV)> {
    v.map_values(|e: (u64, ToolCallState)| (e.0 as nat, tool_call_view(e.1)))
}

pub open spec fn opt_str_view(o: Option<&str>) -> Option<Seq<char>> {
    match o {
        Some(s) => Some(s@),
        None => None,
    }
}

pub open spec fn opt_text(o: Option<String>) -> Option<Seq<char>> {
    match o {
        Some(s) => Some(s@),
        None => None,
    }
}

/// The state of one Chat-to-Responses stream.
pub struct ResponsesStreamState {
    pub has_started: bool,
    pub response_created: bool,
    pub message_item_started: bool,
    pub reasoning_item_started: bool,
    pub reasoning_summary_part: bool,
    pub content_part_started: bool,
    pub finished: bool,
    pub response_completed: bool,
    pub response_id: String,
    pub model: String,
    pub created_at: i64,
    pub output_index: usize,
    pub content_index: usize,
    pub sequence_number: usize,
    pub message_item_id: String,
    pub message_output_index: usize,
    pub reasoning_item_id: String,
    pub reasoning_output_index: usize,
    pub accumulated_text: String,
    pub accumulated_reasoning: String,
    pub completed_output: Vec<StreamItem>,
    /// Open tool calls with their stream index, in increasing index order.
    pub tool_calls: Vec<(u64, ToolCallState)>,
    pub usage: Option<StreamUsage>,
    pub finish_reason: Option<String>,
    pub tool_name_map: ToolNameMap,
}

impl View for ResponsesStreamState {
    type V = StateV;

    open spec fn view(&self) -> StateV {
        StateV {
            has_started: self.has_started,
            response_created: self.response_created,
            message_item_started: self.message_item_started,
            reasoning_item_started: self.reasoning_item_started,
            reasoning_summary_part: self.reasoning_summary_part,
            content_part_started: self.content_part_started,
            finished: self.finished,
            response_completed: self.response_completed,
            response_id: self.response_id@,
            model: self.model@,
            created_at: self.created_at as int,
            output_index: self.output_index as nat,
            content_index: self.content_index as nat,
            sequence_number: self.sequence_number as nat,
            message_item_id: self.message_item_id@,
            message_output_index: self.message_output_index as nat,
            reasoning_item_id: self.reasoning_item_id@,
            reasoning_output_index: self.reasoning_output_index as nat,
            accumulated_text: self.accumulated_text@,
            accumulated_reasoning: self.accumulated_reasoning@,
            completed_output: items_view(self.completed_output@),
            tool_calls: calls_view(self.tool_calls@),
            usage: self.usage,
            finish_reason: opt_text(self.finish_reason),
            names: self.tool_name_map.encoded_view(),
        }
    }
}

fn push_event(queue: &mut Vec<StreamEvent>, e: StreamEvent)
    ensures
        events_view(final(queue)@) == events_view(old(queue)@).push(e@),
{
    let ghost ev = e@;
    queue.push(e);
    assert(events_view(queue@) =~= events_view(old(queue)@).push(ev));
}

fn push_item(v: &mut Vec<StreamItem>, i: StreamItem)
    ensures
        items_view(final(v)@) == items_view(old(v)@).push(i@),
{
    let ghost iv = i@;
    v.push(i);
    assert(items_view(v@) =~= items_view(old(v)@).push(iv));
}

fn empty_object_json() -> (r: Json)
    ensures
        r@ == empty_object(),
{
    let v: Vec<(String, Json)> = Vec::new();
    assert(crate::json::member_views(v@) =~= Seq::<(Seq<char>, crate::json::JsonV)>::empty());
    let r = Json::Object(v);
    assert(r@ == crate::json::JsonV::Object(crate::json::member_views(v@)));
    r
}

fn copy_namespace(n: &Option<String>) -> (r: Option<String>)
    ensures
        crate::stream_events::opt_str(r) == crate::stream_events::opt_str(*n),
{
    match n {
        Some(s) => Some(s.clone()),
        None => None,
    }
}

/// `in_progress_tool_item`: the item a new tool call opens with.
pub fn in_progress_item(item_id: &str, call_id: &str, target: &ToolCallTarget) -> (r: StreamItem)
    ensures
        r@ == in_progress_tool_item(item_id@, call_id@, target@),
{
    match target.kind {
        ToolCallKind::ToolSearch => StreamItem::ToolSearchCall {
            id: String::from_str(item_id),
            call_id: String::from_str(call_id),
            completed: false,
            arguments: empty_object_json(),
        },
        ToolCallKind::Custom => StreamItem::CustomToolCall {
            id: String::from_str(item_id),
            call_id: String::from_str(call_id),
            name: target.name.clone(),
            input: String::new(),
        },
        ToolCallKind::Function => StreamItem::FunctionCall {
            id: String::from_str(item_id),
            call_id: String::from_str(call_id),
            name: target.name.clone(),
            namespace: copy_namespace(&target.namespace),
            arguments: String::new(),
            completed: false,
        },
    }
}

/// `completed_tool_item`: the item a tool call closes with.
pub fn completed_item(item_id: &str, call_id: &str, target: &ToolCallTarget, arguments: &str) -> (r: StreamItem)
    ensures
        r@ == completed_tool_item(item_id@, call_id@, target@, arguments@),
{
    match target.kind {
        ToolCallKind::ToolSearch => StreamItem::ToolSearchCall {
            id: String::from_str(item_id),
            call_id: String::from_str(call_id),
            completed: true,
            arguments: match parse_json(arguments) {
                Some(v) => v,
                None => empty_object_json(),
            },
        },
        ToolCallKind::Custom => StreamItem::CustomToolCall {
            id: String::from_str(item_id),
            call_id: String::from_str(call_id),
            name: target.name.clone(),
            input: extract_custom_tool_input(arguments),
        },
        ToolCallKind::Function => StreamItem::FunctionCall {
            id: String::from_str(item_id),
            call_id: String::from_str(call_id),
            name: target.name.clone(),
            namespace: copy_namespace(&target.namespace),
            arguments: String::from_str(arguments),
            completed: true,
        },
    }
}

fn append_text(s: &mut String, t: &str)
    ensures
        final(s)@ == old(s)@ + t@,
{
    let mut v = to_chars(s.as_str());
    crate::text::append_str(&mut v, t);
    *s = from_chars(&v);
}

impl ResponsesStreamState {
    /// The tool name table is well formed and the open calls are in
    /// increasing index order.
    pub open spec fn wf(&self) -> bool {
        self.tool_name_map.wf() && indices_increasing(self@.tool_calls)
    }

    /// A new stream for `model`, with a fresh response id and the current
    /// time until the first chunk names them.
    pub fn new(model: String, tool_name_map: ToolNameMap) -> (r: Self)
        requires
            tool_name_map.wf(),
        ensures
            r.wf(),
            !r@.has_started && !r@.response_created && !r@.finished && !r@.response_completed,
            !r@.message_item_started && !r@.reasoning_item_started,
            !r@.reasoning_summary_part && !r@.content_part_started,
            r@.model == model@,
            crate::text::starts_with(r@.response_id, "gwresp_"@),
            r@.output_index == 0 && r@.content_index == 0 && r@.sequence_number == 0,
            r@.message_item_id.len() == 0 && r@.message_output_index == 0,
            r@.reasoning_item_id.len() == 0 && r@.reasoning_output_index == 0,
            r@.accumulated_text.len() == 0 && r@.accumulated_reasoning.len() == 0,
            r@.completed_output.len() == 0,
            r@.tool_calls.len() == 0,
            r@.usage is None && r@.finish_reason is None,
            r@.names == tool_name_map.encoded_view(),
    {
        let ms = crate::request_log::now_ms();
        let created_at: i64 = if ms < 0 {
            0
        } else {
            ms / 1000
        };
        let r = ResponsesStreamState {
            has_started: false,
            response_created: false,
            message_item_started: false,
            reasoning_item_started: false,
            reasoning_summary_part: false,
            content_part_started: false,
            finished: false,
            response_completed: false,
            response_id: generate_response_id(),
            model,
            created_at,
            output_index: 0,
            content_index: 0,
            sequence_number: 0,
            message_item_id: String::new(),
            message_output_index: 0,
            reasoning_item_id: String::new(),
            reasoning_output_index: 0,
            accumulated_text: String::new(),
            accumulated_reasoning: String::new(),
            completed_output: Vec::new(),
            tool_calls: Vec::new(),
            usage: None,
            finish_reason: None,
            tool_name_map,
        };
        assert(items_view(r.completed_output@) =~= Seq::<ItemV>::empty());
        assert(calls_view(r.tool_calls@) =~= Seq::<(nat, ToolCallV)>::empty());
        r
    }

    /// `response_object`: the response as it stands, with `status`.
    fn snapshot(&self, status: ResponseStatus) -> (r: ResponseSnapshot)
        ensures
            r@ == snapshot(self@, status),
    {
        ResponseSnapshot {
            id: self.response_id.clone(),
            model: self.model.clone(),
            created_at: self.created_at,
            status,
            output: copy_items(&self.completed_output),
            usage: self.usage,
        }
    }

    fn emit_response_created(&mut self, queue: &mut Vec<StreamEvent>)
        requires
            old(self).sequence_number < usize::MAX,
        ensures
            final(self).sequence_number == old(self).sequence_number + 1,
            final(self).output_index == old(self).output_index,
            final(self)@ == emit_created(old(self)@).0,
            events_view(final(queue)@) == events_view(old(queue)@) + emit_created(old(self)@).1,
            final(self).tool_name_map == old(self).tool_name_map,
            final(self).tool_calls == old(self).tool_calls,
    {
        reveal(emit_created);
        let seq = self.sequence_number;
        let response = self.snapshot(ResponseStatus::InProgress);
        self.sequence_number = seq + 1;
        push_event(queue, StreamEvent::Created { seq, response });
        self.response_created = true;
        assert(self@ =~= emit_created(old(self)@).0);
    }

    fn emit_response_in_progress(&mut self, queue: &mut Vec<StreamEvent>)
        requires
            old(self).sequence_number < usize::MAX,
        ensures
            final(self).sequence_number == old(self).sequence_number + 1,
            final(self).output_index == old(self).output_index,
            final(self)@ == emit_in_progress(old(self)@).0,
            events_view(final(queue)@) == events_view(old(queue)@) + emit_in_progress(old(self)@).1,
            final(self).tool_name_map == old(self).tool_name_map,
            final(self).tool_calls == old(self).tool_calls,
    {
        reveal(emit_in_progress);
        let seq = self.sequence_number;
        let response = self.snapshot(ResponseStatus::InProgress);
        self.sequence_number = seq + 1;
        push_event(queue, StreamEvent::InProgress { seq, response });
        assert(self@ =~= emit_in_progress(old(self)@).0);
    }

    fn emit_response_completed(&mut self, queue: &mut Vec<StreamEvent>)
        requires
            old(self).sequence_number < usize::MAX,
        ensures
            final(self).sequence_number == old(self).sequence_number + 1,
            final(self).output_index == old(self).output_index,
            final(self)@ == emit_finished(old(self)@).0,
            events_view(final(queue)@) == events_view(old(queue)@) + emit_finished(old(self)@).1,
            final(self).tool_name_map == old(self).tool_name_map,
            final(self).tool_calls == old(self).tool_calls,
    {
        reveal(emit_finished);
        let length = match &self.finish_reason {
            Some(r) => {
                let c = to_chars(r.as_str());
                crate::text::eq_str(&c, "length")
            },
            None => false,
        };
        let status = if length {
            ResponseStatus::Incomplete
        } else {
            ResponseStatus::Completed
        };
        assert(status == final_status(old(self)@));
        let seq = self.sequence_number;
        let response = self.snapshot(status);
        self.sequence_number = seq + 1;
        push_event(queue, StreamEvent::Finished { seq, response });
        self.response_completed = true;
        assert(self@ =~= emit_finished(old(self)@).0);
    }

    fn close_reasoning_item(&mut self, queue: &mut Vec<StreamEvent>)
        requires
            old(self).sequence_number + 3 <= usize::MAX,
        ensures
            final(self).sequence_number <= old(self).sequence_number + 3,
            final(self).output_index == old(self).output_index,
            final(self)@ == close_reasoning(old(self)@).0,
            events_view(final(queue)@) == events_view(old(queue)@) + close_reasoning(old(self)@).1,
            final(self).tool_name_map == old(self).tool_name_map,
            final(self).tool_calls == old(self).tool_calls,
    {
        reveal(close_reasoning);
        if !self.reasoning_item_started {
            assert(events_view(queue@) =~= events_view(old(queue)@) + close_reasoning(old(self)@).1);
            return;
        }
        let seq = self.sequence_number;
        let oi = self.reasoning_output_index;
        push_event(
            queue,
            StreamEvent::SummaryTextDone {
                seq,
                item_id: self.reasoning_item_id.clone(),
                output_index: oi,
                text: self.accumulated_reasoning.clone(),
            },
        );
        push_event(
            queue,
            StreamEvent::SummaryPartDone {
                seq: seq + 1,
                item_id: self.reasoning_item_id.clone(),
                output_index: oi,
                text: self.accumulated_reasoning.clone(),
            },
        );
        let item = StreamItem::Reasoning {
            id: self.reasoning_item_id.clone(),
            completed: true,
            text: self.accumulated_reasoning.clone(),
        };
        push_event(queue, StreamEvent::ItemDone { seq: seq + 2, output_index: oi, item: item.copy() });
        self.sequence_number = seq + 3;
        push_item(&mut self.completed_output, item);
        self.reasoning_item_started = false;
        self.reasoning_summary_part = false;
        self.reasoning_item_id = String::new();
        self.reasoning_output_index = 0;
        self.accumulated_reasoning = String::new();
        assert(self@ =~= close_reasoning(old(self)@).0);
        assert(events_view(queue@) =~= events_view(old(queue)@) + close_reasoning(old(self)@).1);
    }

    fn close_content_part(&mut self, queue: &mut Vec<StreamEvent>)
        requires
            old(self).sequence_number + 2 <= usize::MAX,
        ensures
            final(self).sequence_number <= old(self).sequence_number + 2,
            final(self).output_index == old(self).output_index,
            final(self)@ == close_content(old(self)@).0,
            events_view(final(queue)@) == events_view(old(queue)@) + close_content(old(self)@).1,
            final(self).tool_name_map == old(self).tool_name_map,
            final(self).tool_calls == old(self).tool_calls,
    {
        reveal(close_content);
        if !self.content_part_started {
            assert(events_view(queue@) =~= events_view(old(queue)@) + close_content(old(self)@).1);
            return;
        }
        let seq = self.sequence_number;
        push_event(
            queue,
            StreamEvent::TextDone {
                seq,
                item_id: self.message_item_id.clone(),
                output_index: self.message_output_index,
                content_index: self.content_index,
                text: self.accumulated_text.clone(),
            },
        );
        push_event(
            queue,
            StreamEvent::ContentPartDone {
                seq: seq + 1,
                item_id: self.message_item_id.clone(),
                output_index: self.message_output_index,
                content_index: self.content_index,
                text: self.accumulated_text.clone(),
            },
        );
        self.sequence_number = seq + 2;
        self.content_part_started = false;
        assert(self@ =~= close_content(old(self)@).0);
        assert(events_view(queue@) =~= events_view(old(queue)@) + close_content(old(self)@).1);
    }

    fn close_message_item(&mut self, queue: &mut Vec<StreamEvent>)
        requires
            old(self).sequence_number + 3 <= usize::MAX,
        ensures
            final(self).sequence_number <= old(self).sequence_number + 3,
            final(self).output_index == old(self).output_index,
            final(self)@ == close_message(old(self)@).0,
            events_view(final(queue)@) == events_view(old(queue)@) + close_message(old(self)@).1,
            final(self).tool_name_map == old(self).tool_name_map,
            final(self).tool_calls == old(self).tool_calls,
    {
        reveal(close_message);
        if !self.message_item_started {
            assert(events_view(queue@) =~= events_view(old(queue)@) + close_message(old(self)@).1);
            return;
        }
        self.close_content_part(queue);
        let ghost mid = events_view(queue@);
        let seq = self.sequence_number;
        let oi = self.message_output_index;
        let item = StreamItem::Message {
            id: self.message_item_id.clone(),
            completed: true,
            text: self.accumulated_text.clone(),
        };
        push_event(queue, StreamEvent::ItemDone { seq, output_index: oi, item: item.copy() });
        self.sequence_number = seq + 1;
        push_item(&mut self.completed_output, item);
        self.message_item_started = false;
        self.message_item_id = String::new();
        self.message_output_index = 0;
        self.accumulated_text = String::new();
        assert(self@ =~= close_message(old(self)@).0);
        assert(events_view(queue@) =~= events_view(old(queue)@) + close_message(old(self)@).1);
    }

    #[verifier::spinoff_prover]
    #[verifier::rlimit(40)]
    fn handle_reasoning_delta(&mut self, text: &str, queue: &mut Vec<StreamEvent>) -> (id: Ghost<Seq<char>>)
        requires
            old(self).sequence_number + 6 <= usize::MAX,
            old(self).output_index < usize::MAX,
        ensures
            final(self)@ == reasoning_delta(old(self)@, text@, id@).0,
            final(self).sequence_number <= old(self).sequence_number + 6,
            final(self).output_index <= old(self).output_index + 1,
            events_view(final(queue)@) == events_view(old(queue)@) + reasoning_delta(old(self)@, text@, id@).1,
            final(self).tool_name_map == old(self).tool_name_map,
            final(self).tool_calls == old(self).tool_calls,
    {
        self.close_message_item(queue);
        let ghost s1 = self@;
        let ghost q1 = events_view(queue@);
        assert(s1 == close_message(old(self)@).0);
        assert(q1 =~= events_view(old(queue)@) + close_message(old(self)@).1);
        let ghost mut id: Seq<char> = Seq::empty();
        if !self.reasoning_item_started {
            let new_id = generate_item_id();
            proof {
                id = new_id@;
            }
            self.reasoning_item_id = new_id;
            self.reasoning_output_index = self.output_index;
            let seq = self.sequence_number;
            push_event(
                queue,
                StreamEvent::ItemAdded {
                    seq,
                    output_index: self.reasoning_output_index,
                    item: StreamItem::Reasoning {
                        id: self.reasoning_item_id.clone(),
                        completed: false,
                        text: String::new(),
                    },
                },
            );
            self.sequence_number = seq + 1;
            self.reasoning_item_started = true;
            self.output_index = self.output_index + 1;
        }
        let ghost s2 = self@;
        let ghost q2 = events_view(queue@);
        if !self.reasoning_summary_part {
            let seq = self.sequence_number;
            push_event(
                queue,
                StreamEvent::SummaryPartAdded {
                    seq,
                    item_id: self.reasoning_item_id.clone(),
                    output_index: self.reasoning_output_index,
                },
            );
            self.sequence_number = seq + 1;
            self.reasoning_summary_part = true;
        }
        let ghost s3 = self@;
        append_text(&mut self.accumulated_reasoning, text);
        let seq = self.sequence_number;
        push_event(
            queue,
            StreamEvent::SummaryTextDelta {
                seq,
                item_id: self.reasoning_item_id.clone(),
                output_index: self.reasoning_output_index,
                delta: String::from_str(text),
            },
        );
        self.sequence_number = seq + 1;
        assert(self@ =~= reasoning_delta(old(self)@, text@, id).0);
        assert(events_view(queue@) =~= events_view(old(queue)@) + reasoning_delta(old(self)@, text@, id).1);
        Ghost(id)
    }

    #[verifier::spinoff_prover]
    #[verifier::rlimit(40)]
    fn handle_content_delta(&mut self, text: &str, queue: &mut Vec<StreamEvent>) -> (id: Ghost<Seq<char>>)
        requires
            old(self).sequence_number + 6 <= usize::MAX,
            old(self).output_index < usize::MAX,
        ensures
            final(self)@ == content_delta(old(self)@, text@, id@).0,
            final(self).sequence_number <= old(self).sequence_number + 6,
            final(self).output_index <= old(self).output_index + 1,
            events_view(final(queue)@) == events_view(old(queue)@) + content_delta(old(self)@, text@, id@).1,
            final(self).tool_name_map == old(self).tool_name_map,
            final(self).tool_calls == old(self).tool_calls,
    {
        self.close_reasoning_item(queue);
        let ghost s1 = self@;
        let ghost q1 = events_view(queue@);
        assert(s1 == close_reasoning(old(self)@).0);
        assert(q1 =~= events_view(old(queue)@) + close_reasoning(old(self)@).1);
        let ghost mut id: Seq<char> = Seq::empty();
        if !self.message_item_started {
            let new_id = generate_item_id();
            proof {
                id = new_id@;
            }
            self.message_item_id = new_id;
            self.message_output_index = self.output_index;
            let seq = self.sequence_number;
            push_event(
                queue,
                StreamEvent::ItemAdded {
                    seq,
                    output_index: self.message_output_index,
                    item: StreamItem::Message {
                        id: self.message_item_id.clone(),
                        completed: false,
                        text: String::new(),
                    },
                },
            );
            self.sequence_number = seq + 1;
            self.message_item_started = true;
            self.output_index = self.output_index + 1;
        }
        if !self.content_part_started {
            let seq = self.sequence_number;
            push_event(
                queue,
                StreamEvent::ContentPartAdded {
                    seq,
                    item_id: self.message_item_id.clone(),
                    output_index: self.message_output_index,
                    content_index: self.content_index,
                },
            );
            self.sequence_number = seq + 1;
            self.content_part_started = true;
        }
        append_text(&mut self.accumulated_text, text);
        let seq = self.sequence_number;
        push_event(
            queue,
            StreamEvent::TextDelta {
                seq,
                item_id: self.message_item_id.clone(),
                output_index: self.message_output_index,
                content_index: self.content_index,
                delta: String::from_str(text),
            },
        );
        self.sequence_number = seq + 1;
        assert(self@ =~= content_delta(old(self)@, text@, id).0);
        assert(events_view(queue@) =~= events_view(old(queue)@) + content_delta(old(self)@, text@, id).1);
        Ghost(id)
    }

    /// Where the open call with `index` stands, if there is one.
    fn find_call(&self, index: u64) -> (r: Option<usize>)
        requires
            self.wf(),
        ensures
            r is Some <==> has_call(self@.tool_calls, index as nat),
            r matches Some(p) ==> p < self.tool_calls@.len() && p == call_position(self@.tool_calls, index as nat),
    {
        let ghost calls = self@.tool_calls;
        let mut i: usize = 0;
        while i < self.tool_calls.len()
            invariant
                i <= self.tool_calls@.len(),
                calls == calls_view(self.tool_calls@),
                calls.len() == self.tool_calls@.len(),
                indices_increasing(calls),
                forall|j: int| 0 <= j < i ==> calls[j].0 != index as nat,
            decreases self.tool_calls@.len() - i,
        {
            if self.tool_calls[i].0 == index {
                proof {
                    assert(calls[i as int].0 == index as nat);
                    assert(has_call(calls, index as nat));
                    let c = call_position(calls, index as nat);
                    assert(0 <= c < calls.len() && calls[c].0 == index as nat);
                    if c != i as int {
                        if c < i as int {
                        } else {
                            assert(calls[i as int].0 < calls[c].0);
                        }
                    }
                }
                return Some(i);
            }
            assert(calls[i as int].0 == self.tool_calls@[i as int].0 as nat);
            i += 1;
        }
        proof {
            if has_call(calls, index as nat) {
                let c = choose|c: int| 0 <= c < calls.len() && calls[c].0 == index as nat;
                assert(calls[c].0 != index as nat);
            }
        }
        None
    }

    /// Where a call with a new `index` goes.
    fn insert_index(&self, index: u64) -> (p: usize)
        requires
            self.wf(),
            !has_call(self@.tool_calls, index as nat),
        ensures
            p <= self.tool_calls@.len(),
            p == insert_position(self@.tool_calls, index as nat),
            is_insert_position(self@.tool_calls, index as nat, p as int),
    {
        let ghost calls = self@.tool_calls;
        let mut i: usize = 0;
        while i < self.tool_calls.len() && self.tool_calls[i].0 < index
            invariant
                i <= self.tool_calls@.len(),
                calls == calls_view(self.tool_calls@),
                calls.len() == self.tool_calls@.len(),
                forall|j: int| 0 <= j < i ==> calls[j].0 < index as nat,
            decreases self.tool_calls@.len() - i,
        {
            assert(calls[i as int].0 == self.tool_calls@[i as int].0 as nat);
            i += 1;
        }
        proof {
            if i < calls.len() {
                assert(calls[i as int].0 == self.tool_calls@[i as int].0 as nat);
                assert(calls[i as int].0 != index as nat);
            }
            assert forall|j: int| i <= j < calls.len() implies calls[j].0 > index as nat by {
                assert(calls[i as int].0 == self.tool_calls@[i as int].0 as nat);
                assert(calls[i as int].0 != index as nat);
                if j > i {
                    assert(calls[i as int].0 < calls[j].0);
                }
            }
            assert(is_insert_position(calls, index as nat, i as int));
            let q = insert_position(calls, index as nat);
            assert(is_insert_position(calls, index as nat, q));
            if q < i as int {
                assert(calls[q].0 > index as nat);
            } else if q > i as int {
                assert(calls[i as int].0 < index as nat);
            }
        }
        i
    }

    /// A call with a new index opens.
    #[verifier::spinoff_prover]
    #[verifier::rlimit(40)]
    fn open_new_call(&mut self, index: u64, call_id: &str, name: &str, queue: &mut Vec<StreamEvent>) -> (id: Ghost<
        Seq<char>,
    >)
        requires
            old(self).wf(),
            !has_call(old(self)@.tool_calls, index as nat),
            old(self).sequence_number + 7 <= usize::MAX,
            old(self).output_index < usize::MAX,
        ensures
            final(self).sequence_number <= old(self).sequence_number + 7,
            final(self).output_index == old(self).output_index + 1,
            final(self).wf(),
            has_call(final(self)@.tool_calls, index as nat),
            final(self).tool_calls@.len() == old(self).tool_calls@.len() + 1,
            final(self)@ == open_tool_call(old(self)@, index as nat, call_id@, name@, id@).0,
            events_view(final(queue)@) == events_view(old(queue)@) + open_tool_call(
                old(self)@,
                index as nat,
                call_id@,
                name@,
                id@,
            ).1,
            final(self).tool_name_map == old(self).tool_name_map,
    {
        self.close_message_item(queue);
        self.close_reasoning_item(queue);
        let item_id = generate_item_id();
        let ghost id = item_id@;
        let target = self.tool_name_map.decode(name);
        let added = in_progress_item(item_id.as_str(), call_id, &target);
        let tc = ToolCallState {
            id: String::from_str(call_id),
            target,
            arguments: String::new(),
            custom_emitted_input: String::new(),
            item_id,
            output_index: self.output_index,
        };
        let ghost tcv = tool_call_view(tc);
        let seq = self.sequence_number;
        push_event(queue, StreamEvent::ItemAdded { seq, output_index: self.output_index, item: added });
        proof {
            assert(!has_call(self@.tool_calls, index as nat));
        }
        let p = self.insert_index(index);
        let ghost before = self.tool_calls@;
        self.tool_calls.insert(p, (index, tc));
        proof {
            assert(calls_view(self.tool_calls@) =~= calls_view(before).insert(p as int, (index as nat, tcv)));
            let c = calls_view(self.tool_calls@);
            let b = calls_view(before);
            assert(indices_increasing(b));
            assert forall|i: int, j: int| 0 <= i < j < c.len() implies c[i].0 < c[j].0 by {
                if j < p {
                    assert(c[i] == b[i]);
                    assert(c[j] == b[j]);
                } else if j == p {
                    assert(c[i] == b[i]);
                } else if i < p {
                    assert(c[i] == b[i]);
                    assert(c[j] == b[j - 1]);
                } else if i == p {
                    assert(c[j] == b[j - 1]);
                } else {
                    assert(c[i] == b[i - 1]);
                    assert(c[j] == b[j - 1]);
                }
            }
            assert(c[p as int].0 == index as nat);
        }
        self.sequence_number = seq + 1;
        self.output_index = self.output_index + 1;
        assert(self@ =~= open_tool_call(old(self)@, index as nat, call_id@, name@, id).0);
        assert(events_view(queue@) =~= events_view(old(queue)@) + open_tool_call(
            old(self)@,
            index as nat,
            call_id@,
            name@,
            id,
        ).1);
        Ghost(id)
    }

    /// A piece of arguments for the open call with `index`.
    #[verifier::spinoff_prover]
    #[verifier::rlimit(40)]
    fn add_arguments(&mut self, index: u64, a: &str, queue: &mut Vec<StreamEvent>)
        requires
            old(self).wf(),
            has_call(old(self)@.tool_calls, index as nat),
            old(self).sequence_number < usize::MAX,
        ensures
            final(self).sequence_number <= old(self).sequence_number + 1,
            final(self).output_index == old(self).output_index,
            final(self).wf(),
            final(self)@ == tool_arguments(old(self)@, index as nat, a@).0,
            final(self).tool_calls@.len() == old(self).tool_calls@.len(),
            events_view(final(queue)@) == events_view(old(queue)@) + tool_arguments(old(self)@, index as nat, a@).1,
            final(self).tool_name_map == old(self).tool_name_map,
    {
        let p = match self.find_call(index) {
            Some(p) => p,
            None => {
                assert(false);
                0
            },
        };
        let ghost before = self.tool_calls@;
        let mut entry = self.tool_calls.remove(p);
        let ghost tc0 = tool_call_view(entry.1);
        assert(tc0 == calls_view(before)[p as int].1);
        append_text(&mut entry.1.arguments, a);
        let custom = entry.1.target.kind == ToolCallKind::Custom;
        let ev = tool_delta_event(&mut entry.1, a);
        let ghost tc2 = tool_call_view(entry.1);
        assert(tc2 == call_after_arguments(tc0, a@).0);
        self.tool_calls.insert(p, entry);
        proof {
            assert(calls_view(self.tool_calls@) =~= calls_view(before).update(p as int, (index as nat, tc2)));
            let c = calls_view(self.tool_calls@);
            let b = calls_view(before);
            assert forall|i: int, j: int| 0 <= i < j < c.len() implies c[i].0 < c[j].0 by {
                assert(b[i].0 < b[j].0);
            }
        }
        match ev {
            Some(e) => {
                let seq = self.sequence_number;
                push_event(
                    queue,
                    StreamEvent::ToolDelta { seq, custom, item_id: e.item_id, output_index: e.output_index, delta: e.delta },
                );
                self.sequence_number = seq + 1;
            },
            None => {},
        }
        assert(self@ =~= tool_arguments(old(self)@, index as nat, a@).0);
        assert(events_view(queue@) =~= events_view(old(queue)@) + tool_arguments(old(self)@, index as nat, a@).1);
    }

    fn handle_tool_call_delta(
        &mut self,
        index: u64,
        call_id: &str,
        name: &str,
        arguments: Option<&str>,
        queue: &mut Vec<StreamEvent>,
    ) -> (id: Ghost<Seq<char>>)
        requires
            old(self).wf(),
            old(self).sequence_number + 8 <= usize::MAX,
            old(self).output_index < usize::MAX,
        ensures
            final(self).wf(),
            final(self).sequence_number <= old(self).sequence_number + 8,
            final(self).output_index <= old(self).output_index + 1,
            final(self).tool_calls@.len() <= old(self).tool_calls@.len() + 1,
            final(self)@ == tool_delta(
                old(self)@,
                index as nat,
                call_id@,
                name@,
                opt_str_view(arguments),
                id@,
            ).0,
            events_view(final(queue)@) == events_view(old(queue)@) + tool_delta(
                old(self)@,
                index as nat,
                call_id@,
                name@,
                opt_str_view(arguments),
                id@,
            ).1,
            final(self).tool_name_map == old(self).tool_name_map,
    {
        let ghost mut id: Seq<char> = Seq::empty();
        let found = self.find_call(index);
        if found.is_none() {
            let g = self.open_new_call(index, call_id, name, queue);
            proof {
                id = g@;
            }
        }
        let ghost q1 = events_view(queue@);
        match arguments {
            Some(a) => {
                if !a.is_empty() {
                    self.add_arguments(index, a, queue);
                }
            },
            None => {},
        }
        assert(events_view(queue@) =~= events_view(old(queue)@) + tool_delta(
            old(self)@,
            index as nat,
            call_id@,
            name@,
            opt_str_view(arguments),
            id,
        ).1);
        Ghost(id)
    }

    /// One tool call closes.
    fn close_one(&mut self, tc: &ToolCallState, queue: &mut Vec<StreamEvent>)
        requires
            old(self).sequence_number + 2 <= usize::MAX,
        ensures
            final(self)@ == close_one_call(old(self)@, tool_call_view(*tc)).0,
            events_view(final(queue)@) == events_view(old(queue)@) + close_one_call(old(self)@, tool_call_view(*tc)).1,
            final(self).sequence_number <= old(self).sequence_number + 2,
            final(self).tool_name_map == old(self).tool_name_map,
            final(self).tool_calls == old(self).tool_calls,
    {
        let item = completed_item(tc.item_id.as_str(), tc.id.as_str(), &tc.target, tc.arguments.as_str());
        match tc.target.kind {
            ToolCallKind::Custom => {
                let seq = self.sequence_number;
                push_event(
                    queue,
                    StreamEvent::CustomInputDone {
                        seq,
                        item_id: tc.item_id.clone(),
                        output_index: tc.output_index,
                        input: extract_custom_tool_input(tc.arguments.as_str()),
                    },
                );
                self.sequence_number = seq + 1;
            },
            ToolCallKind::Function => {
                let seq = self.sequence_number;
                push_event(
                    queue,
                    StreamEvent::ArgumentsDone {
                        seq,
                        item_id: tc.item_id.clone(),
                        output_index: tc.output_index,
                        name: tc.target.name.clone(),
                        arguments: tc.arguments.clone(),
                    },
                );
                self.sequence_number = seq + 1;
            },
            ToolCallKind::ToolSearch => {},
        }
        let seq = self.sequence_number;
        push_event(queue, StreamEvent::ItemDone { seq, output_index: tc.output_index, item: item.copy() });
        self.sequence_number = seq + 1;
        push_item(&mut self.completed_output, item);
        assert(self@ =~= close_one_call(old(self)@, tool_call_view(*tc)).0);
        assert(events_view(queue@) =~= events_view(old(queue)@) + close_one_call(old(self)@, tool_call_view(*tc)).1);
    }

    /// `close_tool_calls`: every open call closes, in index order.
    fn close_all_tool_calls(&mut self, queue: &mut Vec<StreamEvent>)
        requires
            old(self).wf(),
            old(self).sequence_number + 2 * old(self).tool_calls@.len() <= usize::MAX,
        ensures
            final(self).wf(),
            final(self)@ == close_tool_calls(old(self)@).0,
            events_view(final(queue)@) == events_view(old(queue)@) + close_tool_calls(old(self)@).1,
            final(self).sequence_number <= old(self).sequence_number + 2 * old(self).tool_calls@.len(),
            final(self).tool_calls@.len() == 0,
            final(self).tool_name_map == old(self).tool_name_map,
    {
        reveal(close_tool_calls);
        let mut calls: Vec<(u64, ToolCallState)> = Vec::new();
        std::mem::swap(&mut calls, &mut self.tool_calls);
        let ghost all = calls_view(calls@);
        let ghost s0 = self@;
        assert(s0 =~= StateV { tool_calls: Seq::empty(), ..old(self)@ });
        let ghost target = close_calls(s0, all);
        let ghost q0 = events_view(queue@);
        let mut i: usize = 0;
        assert(all.skip(0) =~= all);
        while i < calls.len()
            invariant
                i <= calls@.len(),
                all == calls_view(calls@),
                all.len() == calls@.len(),
                target == close_calls(s0, all),
                self.tool_calls@.len() == 0,
                self.tool_name_map.wf(),
                self.tool_name_map == old(self).tool_name_map,
                self.sequence_number + 2 * (calls@.len() - i) <= usize::MAX,
                self.sequence_number <= old(self).sequence_number + 2 * i,
                close_calls(self@, all.skip(i as int)).0 == target.0,
                q0 + target.1 =~= events_view(queue@) + close_calls(self@, all.skip(i as int)).1,
                q0 == events_view(old(queue)@),
            decreases calls@.len() - i,
        {
            let ghost sb = self@;
            let ghost qb = events_view(queue@);
            let ghost rest = all.skip(i as int);
            assert(rest[0] == all[i as int]);
            assert(all[i as int].1 == tool_call_view(calls@[i as int].1));
            assert(rest.drop_first() =~= all.skip(i + 1));
            self.close_one(&calls[i].1, queue);
            assert(events_view(queue@) =~= qb + close_one_call(sb, rest[0].1).1);
            i += 1;
        }
        assert(all.skip(i as int) =~= Seq::<(nat, ToolCallV)>::empty());
        assert(calls_view(self.tool_calls@) =~= Seq::<(nat, ToolCallV)>::empty());
        assert(self@ =~= target.0);
    }

    /// Every open item closes.
    #[verifier::spinoff_prover]
    fn close_open_items(&mut self, queue: &mut Vec<StreamEvent>)
        requires
            old(self).wf(),
            old(self).sequence_number + 6 + 2 * old(self).tool_calls@.len() <= usize::MAX,
        ensures
            final(self).wf(),
            final(self)@ == close_open_items(old(self)@).0,
            events_view(final(queue)@) == events_view(old(queue)@) + close_open_items(old(self)@).1,
            final(self).sequence_number <= old(self).sequence_number + 6 + 2 * old(self).tool_calls@.len(),
            final(self).tool_name_map == old(self).tool_name_map,
    {
        reveal(close_open_items);
        self.close_reasoning_item(queue);
        self.close_message_item(queue);
        if !self.tool_calls.is_empty() {
            self.close_all_tool_calls(queue);
        }
        assert(events_view(queue@) =~= events_view(old(queue)@) + close_open_items(old(self)@).1);
    }

    /// `handle_finish`: open items close, and the response completes if its
    /// usage is known.
    #[verifier::spinoff_prover]
    fn handle_finish(&mut self, queue: &mut Vec<StreamEvent>)
        requires
            old(self).wf(),
            old(self).sequence_number + 7 + 2 * old(self).tool_calls@.len() <= usize::MAX,
        ensures
            final(self).wf(),
            final(self)@ == handle_finish(old(self)@).0,
            events_view(final(queue)@) == events_view(old(queue)@) + handle_finish(old(self)@).1,
            final(self).sequence_number <= old(self).sequence_number + 7 + 2 * old(self).tool_calls@.len(),
            final(self).tool_name_map == old(self).tool_name_map,
    {
        reveal(handle_finish);
        self.close_open_items(queue);
        self.finished = true;
        if self.usage.is_some() {
            self.emit_response_completed(queue);
        }
        assert(events_view(queue@) =~= events_view(old(queue)@) + handle_finish(old(self)@).1);
    }

    /// `handle_done`: the end of the stream. A started stream finishes if it
    /// has not, and its response completes if it has not.
    pub fn handle_done(&mut self, queue: &mut Vec<StreamEvent>)
        requires
            old(self).wf(),
            old(self).sequence_number + 8 + 2 * old(self).tool_calls@.len() <= usize::MAX,
        ensures
            final(self).wf(),
            final(self)@ == handle_done(old(self)@).0,
            events_view(final(queue)@) == events_view(old(queue)@) + handle_done(old(self)@).1,
            final(self).tool_name_map == old(self).tool_name_map,
            crate::stream_laws::numbered_from(events_view(old(queue)@), 0) && old(self)@.sequence_number
                == events_view(old(queue)@).len() ==> crate::stream_laws::numbered_from(
                events_view(final(queue)@),
                0,
            ) && final(self)@.sequence_number == events_view(final(queue)@).len(),
    {
        proof {
            if crate::stream_laws::numbered_from(events_view(queue@), 0) && self@.sequence_number
                == events_view(queue@).len() {
                crate::stream_laws::law_done_keeps_queue_numbered(events_view(queue@), self@);
            }
        }
        if !self.has_started {
            assert(events_view(queue@) =~= events_view(old(queue)@) + handle_done(old(self)@).1);
            return;
        }
        if !self.finished {
            self.handle_finish(queue);
        }
        if !self.response_completed {
            self.emit_response_completed(queue);
        }
        assert(self@ =~= handle_done(old(self)@).0);
        assert(events_view(queue@) =~= events_view(old(queue)@) + handle_done(old(self)@).1);
    }
}

/// `Value::as_u64`.
pub fn json_as_u64(j: &Json) -> (r: Option<u64>)
    ensures
        match r {
            Some(n) => jnat(j@) == Some(n as nat),
            None => jnat(j@) is None,
        },
{
    match j {
        Json::Number(n) => {
            let v = to_chars(n.as_str());
            assert(v@.skip(0) =~= v@);
            crate::text::digits_up_to(&v, 0, u64::MAX)
        },
        _ => None,
    }
}

fn int_or(o: Option<i64>, d: i64) -> (r: i64)
    ensures
        r as int == crate::stream_model::opt_or(crate::request_log::opt_int(o), d as int),
{
    match o {
        Some(x) => x,
        None => d,
    }
}

/// `convert_usage_value`: Chat usage as Responses usage.
pub fn chat_usage_value(u: &Json) -> (r: Option<StreamUsage>)
    requires
        chat_usage_fits(u@),
    ensures
        r == chat_usage(u@),
{
    match u {
        Json::Object(_) => {},
        _ => {
            return None;
        },
    }
    let k_any = vec!["prompt_tokens", "completion_tokens", "total_tokens"];
    let k_in = vec!["prompt_tokens"];
    let k_out = vec!["completion_tokens"];
    let k_total = vec!["total_tokens"];
    let k_cached = vec!["cached_tokens"];
    let k_cached_top = vec!["cached_tokens", "prompt_cache_hit_tokens"];
    let k_reasoning = vec!["reasoning_tokens"];
    proof {
        assert(crate::codex::names_view(k_any@) =~= seq!["prompt_tokens"@, "completion_tokens"@, "total_tokens"@]);
        assert(crate::codex::names_view(k_in@) =~= seq!["prompt_tokens"@]);
        assert(crate::codex::names_view(k_out@) =~= seq!["completion_tokens"@]);
        assert(crate::codex::names_view(k_total@) =~= seq!["total_tokens"@]);
        assert(crate::codex::names_view(k_cached@) =~= seq!["cached_tokens"@]);
        assert(crate::codex::names_view(k_cached_top@) =~= seq!["cached_tokens"@, "prompt_cache_hit_tokens"@]);
        assert(crate::codex::names_view(k_reasoning@) =~= seq!["reasoning_tokens"@]);
    }
    if crate::request_log::first_int_exec(Some(u), &k_any).is_none() {
        return None;
    }
    let input = int_or(crate::request_log::first_int_exec(Some(u), &k_in), 0);
    let output = int_or(crate::request_log::first_int_exec(Some(u), &k_out), 0);
    let total = match crate::request_log::first_int_exec(Some(u), &k_total) {
        Some(t) => t,
        None => input + output,
    };
    let details = crate::json::get_opt(Some(u), "prompt_tokens_details");
    let cached = match crate::request_log::first_int_exec(details, &k_cached) {
        Some(c) => c,
        None => int_or(crate::request_log::first_int_exec(Some(u), &k_cached_top), 0),
    };
    let out_details = crate::json::get_opt(Some(u), "completion_tokens_details");
    let reasoning = int_or(crate::request_log::first_int_exec(out_details, &k_reasoning), 0);
    Some(
        StreamUsage {
            input_tokens: input,
            output_tokens: output,
            total_tokens: total,
            cached_tokens: cached,
            reasoning_tokens: reasoning,
        },
    )
}

/// The fields of one `delta.tool_calls` entry: index, call id, name and
/// the piece of arguments.
fn tool_call_fields(tc: &Json) -> (r: (u64, String, String, Option<String>))
    ensures
        tool_call_action(tc@) == (StreamAction::ToolDelta {
            index: r.0 as nat,
            call_id: r.1@,
            name: r.2@,
            arguments: opt_text(r.3),
        }),
{
    let index = match tc.get("index") {
        Some(v) => match json_as_u64(v) {
            Some(n) => n,
            None => 0,
        },
        None => 0,
    };
    let null = Json::Null;
    let func = match tc.get("function") {
        Some(f) => f,
        None => &null,
    };
    let call_id = match get_str(tc, "id") {
        Some(x) => String::from_str(x),
        None => String::new(),
    };
    let name = match get_str(func, "name") {
        Some(x) => String::from_str(x),
        None => String::new(),
    };
    let arguments = match get_str(func, "arguments") {
        Some(x) => Some(String::from_str(x)),
        None => None,
    };
    (index, call_id, name, arguments)
}

impl ResponsesStreamState {
    /// The first chunk: the response takes the chunk's id, model and
    /// creation time where it has them, and is announced.
    fn start_stream(&mut self, chunk: &Json, queue: &mut Vec<StreamEvent>)
        requires
            old(self).sequence_number + 2 <= usize::MAX,
        ensures
            final(self)@ == start(
                old(self)@,
                crate::json::jget_str(chunk@, "id"@),
                crate::json::jget_str(chunk@, "model"@),
                match crate::json::jget(chunk@, "created"@) {
                    Some(v) => crate::json::jint(v),
                    None => None,
                },
            ).0,
            events_view(final(queue)@) == events_view(old(queue)@) + start(
                old(self)@,
                crate::json::jget_str(chunk@, "id"@),
                crate::json::jget_str(chunk@, "model"@),
                match crate::json::jget(chunk@, "created"@) {
                    Some(v) => crate::json::jint(v),
                    None => None,
                },
            ).1,
            final(self).sequence_number == old(self).sequence_number + 2,
            final(self).output_index == old(self).output_index,
            final(self).tool_name_map == old(self).tool_name_map,
            final(self).tool_calls == old(self).tool_calls,
    {
        reveal(start);
        self.has_started = true;
        match get_str(chunk, "id") {
            Some(id) => {
                self.response_id = String::from_str(id);
            },
            None => {},
        }
        match get_str(chunk, "model") {
            Some(m) => {
                self.model = String::from_str(m);
            },
            None => {},
        }
        match chunk.get("created") {
            Some(v) => match v.as_i64() {
                Some(c) => {
                    self.created_at = c;
                },
                None => {},
            },
            None => {},
        }
        let ghost s1 = self@;
        self.emit_response_created(queue);
        self.emit_response_in_progress(queue);
        assert(events_view(queue@) =~= events_view(old(queue)@) + (emit_created(s1).1 + emit_in_progress(
            emit_created(s1).0,
        ).1));
    }

    /// Usage arrives; a finished response completes with it.
    fn take_usage(&mut self, u: StreamUsage, queue: &mut Vec<StreamEvent>)
        requires
            old(self).sequence_number < usize::MAX,
        ensures
            final(self)@ == apply_usage(old(self)@, u).0,
            events_view(final(queue)@) == events_view(old(queue)@) + apply_usage(old(self)@, u).1,
            final(self).sequence_number <= old(self).sequence_number + 1,
            final(self).output_index == old(self).output_index,
            final(self).tool_name_map == old(self).tool_name_map,
            final(self).tool_calls == old(self).tool_calls,
    {
        reveal(apply_usage);
        self.usage = Some(u);
        if self.finished && !self.response_completed {
            self.emit_response_completed(queue);
        } else {
            assert(events_view(queue@) =~= events_view(old(queue)@) + apply_usage(old(self)@, u).1);
        }
    }

    /// Every piece of `delta.tool_calls`, in order.
    fn handle_tool_calls(&mut self, tcs: &Vec<Json>, queue: &mut Vec<StreamEvent>) -> (ids: Ghost<Seq<Seq<char>>>)
        requires
            old(self).wf(),
            old(self).sequence_number + 10 * tcs@.len() + 2 * old(self).tool_calls@.len() + 8 <= usize::MAX,
            old(self).output_index + tcs@.len() <= usize::MAX,
        ensures
            final(self).wf(),
            ids@.len() == tcs@.len(),
            final(self)@ == run(old(self)@, views(tcs@).map_values(|tc: JsonV| tool_call_action(tc)), ids@).0,
            events_view(final(queue)@) == events_view(old(queue)@) + run(
                old(self)@,
                views(tcs@).map_values(|tc: JsonV| tool_call_action(tc)),
                ids@,
            ).1,
            final(self).sequence_number + 2 * final(self).tool_calls@.len() + 8 <= usize::MAX,
            final(self).output_index <= old(self).output_index + tcs@.len(),
            final(self).tool_name_map == old(self).tool_name_map,
    {
        let ghost acts = views(tcs@).map_values(|tc: JsonV| tool_call_action(tc));
        proof {
            crate::json::lemma_views(tcs@);
        }
        let ghost mut ids: Seq<Seq<char>> = Seq::empty();
        let ghost s0 = self@;
        let ghost q0 = events_view(queue@);
        let mut i: usize = 0;
        assert(acts.take(0) =~= Seq::<StreamAction>::empty());
        proof {
            lemma_run_empty(s0, ids);
        }
        assert(q0 + run(s0, acts.take(0), ids).1 =~= q0);
        while i < tcs.len()
            invariant
                i <= tcs@.len(),
                acts == views(tcs@).map_values(|tc: JsonV| tool_call_action(tc)),
                acts.len() == tcs@.len(),
                views(tcs@).len() == tcs@.len(),
                forall|j: int| 0 <= j < tcs@.len() ==> #[trigger] views(tcs@)[j] == tcs@[j]@,
                ids.len() == i,
                self.wf(),
                self.tool_name_map == old(self).tool_name_map,
                self@ == run(s0, acts.take(i as int), ids).0,
                events_view(queue@) == q0 + run(s0, acts.take(i as int), ids).1,
                q0 == events_view(old(queue)@),
                s0 == old(self)@,
                self.sequence_number + 10 * (tcs@.len() - i) + 2 * self.tool_calls@.len() + 8 <= usize::MAX,
                self.output_index + (tcs@.len() - i) <= usize::MAX,
                self.output_index <= old(self).output_index + i,
            decreases tcs@.len() - i,
        {
            let (index, call_id, name, arguments) = tool_call_fields(&tcs[i]);
            let ghost before = self@;
            let ghost qb = events_view(queue@);
            let args_ref: Option<&str> = match &arguments {
                Some(a) => Some(a.as_str()),
                None => None,
            };
            assert(opt_str_view(args_ref) == opt_text(arguments));
            let g = self.handle_tool_call_delta(index, call_id.as_str(), name.as_str(), args_ref, queue);
            proof {
                assert(acts[i as int] == tool_call_action(tcs@[i as int]@));
                lemma_run_single(before, acts[i as int], g@);
                lemma_run_append(s0, acts.take(i as int), ids, seq![acts[i as int]], seq![g@]);
                assert(acts.take(i as int) + seq![acts[i as int]] =~= acts.take(i + 1));
                ids = ids + seq![g@];
                assert(events_view(queue@) =~= q0 + run(s0, acts.take(i + 1), ids).1);
            }
            i += 1;
        }
        assert(acts.take(tcs@.len() as int) =~= acts);
        Ghost(ids)
    }

    /// The single action `a`, taken as the next step after `acts`.
    proof fn extend(
        s0: StateV,
        acts: Seq<StreamAction>,
        ids: Seq<Seq<char>>,
        sb: StateV,
        a: StreamAction,
        id: Seq<char>,
    )
        requires
            ids.len() == acts.len(),
            sb == run(s0, acts, ids).0,
        ensures
            run(s0, acts + seq![a], ids + seq![id]).0 == step(sb, a, id).0,
            run(s0, acts + seq![a], ids + seq![id]).1 == run(s0, acts, ids).1 + step(sb, a, id).1,
    {
        lemma_run_single(sb, a, id);
        lemma_run_append(s0, acts, ids, seq![a], seq![id]);
    }

    /// The reasoning and answer text of a delta.
    fn process_delta_text(&mut self, delta: &Json, queue: &mut Vec<StreamEvent>) -> (ids: Ghost<Seq<Seq<char>>>)
        requires
            old(self).sequence_number + 12 <= usize::MAX,
            old(self).output_index + 2 <= usize::MAX,
        ensures
            ids@.len() == delta_text_actions(delta@).len(),
            final(self)@ == run(old(self)@, delta_text_actions(delta@), ids@).0,
            events_view(final(queue)@) == events_view(old(queue)@) + run(old(self)@, delta_text_actions(delta@), ids@).1,
            final(self).sequence_number <= old(self).sequence_number + 12,
            final(self).output_index <= old(self).output_index + 2,
            final(self).tool_name_map == old(self).tool_name_map,
            final(self).tool_calls == old(self).tool_calls,
    {
        let ghost s0 = self@;
        let ghost q0 = events_view(queue@);
        let ghost mut acts: Seq<StreamAction> = Seq::empty();
        let ghost mut ids: Seq<Seq<char>> = Seq::empty();
        proof {
            lemma_run_empty(s0, ids);
            assert(q0 + run(s0, acts, ids).1 =~= q0);
        }
        match get_str(delta, "reasoning_content") {
            Some(r) => {
                if !r.is_empty() {
                    let ghost sb = self@;
                    let g = self.handle_reasoning_delta(r, queue);
                    proof {
                        Self::extend(s0, acts, ids, sb, StreamAction::Reasoning { text: r@ }, g@);
                        acts = acts + seq![StreamAction::Reasoning { text: r@ }];
                        ids = ids + seq![g@];
                        assert(events_view(queue@) =~= q0 + run(s0, acts, ids).1);
                    }
                }
            },
            None => {},
        }
        match get_str(delta, "content") {
            Some(c) => {
                if !c.is_empty() {
                    let ghost sb = self@;
                    let g = self.handle_content_delta(c, queue);
                    proof {
                        Self::extend(s0, acts, ids, sb, StreamAction::Content { text: c@ }, g@);
                        acts = acts + seq![StreamAction::Content { text: c@ }];
                        ids = ids + seq![g@];
                        assert(events_view(queue@) =~= q0 + run(s0, acts, ids).1);
                    }
                }
            },
            None => {},
        }
        assert(acts =~= delta_text_actions(delta@));
        Ghost(ids)
    }

    /// The tool call pieces of a delta.
    fn process_delta_tools(&mut self, delta: &Json, queue: &mut Vec<StreamEvent>) -> (ids: Ghost<Seq<Seq<char>>>)
        requires
            old(self).wf(),
            old(self).sequence_number + 10 * tool_calls_of(delta@).len() + 2 * old(self).tool_calls@.len() + 8
                <= usize::MAX,
            old(self).output_index + tool_calls_of(delta@).len() <= usize::MAX,
        ensures
            final(self).wf(),
            final(self).tool_name_map == old(self).tool_name_map,
            ids@.len() == tool_calls_of(delta@).len(),
            final(self)@ == run(old(self)@, tool_calls_of(delta@).map_values(|tc: JsonV| tool_call_action(tc)), ids@).0,
            events_view(final(queue)@) == events_view(old(queue)@) + run(
                old(self)@,
                tool_calls_of(delta@).map_values(|tc: JsonV| tool_call_action(tc)),
                ids@,
            ).1,
            final(self).sequence_number + 2 * final(self).tool_calls@.len() + 8 <= usize::MAX,
    {
        match delta.get("tool_calls") {
            Some(Json::Array(tcs)) => {
                proof {
                    crate::json::lemma_views(tcs@);
                }
                self.handle_tool_calls(tcs, queue)
            },
            _ => {
                proof {
                    lemma_run_empty(self@, Seq::empty());
                    assert(tool_calls_of(delta@).map_values(|tc: JsonV| tool_call_action(tc)) =~= Seq::<
                        StreamAction,
                    >::empty());
                    assert(events_view(queue@) =~= events_view(queue@) + Seq::<EventV>::empty());
                }
                Ghost(Seq::empty())
            },
        }
    }

    /// The finish reason of a choice, then the chunk's usage.
    fn process_finish_and_usage(&mut self, chunk: &Json, choice: &Json, queue: &mut Vec<StreamEvent>) -> (ids: Ghost<
        Seq<Seq<char>>,
    >)
        requires
            old(self).wf(),
            chunk_usage_fits(chunk@),
            old(self).sequence_number + 2 * old(self).tool_calls@.len() + 8 <= usize::MAX,
        ensures
            final(self).wf(),
            final(self).tool_name_map == old(self).tool_name_map,
            ids@.len() == finish_actions(choice@).len() + usage_action(chunk@).len(),
            final(self)@ == run(old(self)@, finish_actions(choice@) + usage_action(chunk@), ids@).0,
            events_view(final(queue)@) == events_view(old(queue)@) + run(
                old(self)@,
                finish_actions(choice@) + usage_action(chunk@),
                ids@,
            ).1,
    {
        let ghost s0 = self@;
        let ghost q0 = events_view(queue@);
        let ghost mut acts: Seq<StreamAction> = Seq::empty();
        let ghost mut ids: Seq<Seq<char>> = Seq::empty();
        proof {
            lemma_run_empty(s0, ids);
            assert(q0 + run(s0, acts, ids).1 =~= q0);
        }
        match get_str(choice, "finish_reason") {
            Some(reason) => {
                let ghost sb = self@;
                self.finish_reason = Some(String::from_str(reason));
                self.handle_finish(queue);
                proof {
                    let a = StreamAction::Finish { reason: reason@ };
                    Self::extend(s0, acts, ids, sb, a, Seq::empty());
                    acts = acts + seq![a];
                    ids = ids + seq![Seq::<char>::empty()];
                    assert(events_view(queue@) =~= q0 + run(s0, acts, ids).1);
                }
            },
            None => {},
        }
        assert(acts =~= finish_actions(choice@));
        match chunk.get("usage") {
            Some(u) => match chat_usage_value(u) {
                Some(usage) => {
                    let ghost sb = self@;
                    self.take_usage(usage, queue);
                    proof {
                        let a = StreamAction::Usage { usage };
                        Self::extend(s0, acts, ids, sb, a, Seq::empty());
                        acts = acts + seq![a];
                        ids = ids + seq![Seq::<char>::empty()];
                        assert(events_view(queue@) =~= q0 + run(s0, acts, ids).1);
                    }
                },
                None => {},
            },
            None => {},
        }
        assert(acts =~= finish_actions(choice@) + usage_action(chunk@));
        Ghost(ids)
    }

    /// The first choice of a chunk, and then the chunk's usage.
    #[verifier::spinoff_prover]
    fn process_choice(&mut self, chunk: &Json, choice: &Json, queue: &mut Vec<StreamEvent>) -> (ids: Ghost<
        Seq<Seq<char>>,
    >)
        requires
            old(self).wf(),
            chunk_usage_fits(chunk@),
            old(self).sequence_number + 20 + 10 * tool_calls_of(or_null(crate::json::jget(choice@, "delta"@))).len()
                + 2 * old(self).tool_calls@.len() <= usize::MAX,
            old(self).output_index + 2 + tool_calls_of(or_null(crate::json::jget(choice@, "delta"@))).len()
                <= usize::MAX,
        ensures
            final(self).wf(),
            final(self).tool_name_map == old(self).tool_name_map,
            ids@.len() == choice_actions(chunk@, choice@).len(),
            final(self)@ == run(old(self)@, choice_actions(chunk@, choice@), ids@).0,
            events_view(final(queue)@) == events_view(old(queue)@) + run(
                old(self)@,
                choice_actions(chunk@, choice@),
                ids@,
            ).1,
    {
        let ghost s0 = self@;
        let ghost q0 = events_view(queue@);
        let null = Json::Null;
        let delta = match choice.get("delta") {
            Some(d) => d,
            None => &null,
        };
        assert(delta@ == or_null(crate::json::jget(choice@, "delta"@)));
        let ghost a1 = delta_text_actions(delta@);
        let ghost a2 = tool_calls_of(delta@).map_values(|tc: JsonV| tool_call_action(tc));
        let ghost a3 = finish_actions(choice@) + usage_action(chunk@);
        let g1 = self.process_delta_text(delta, queue);
        let g2 = self.process_delta_tools(delta, queue);
        let g3 = self.process_finish_and_usage(chunk, choice, queue);
        proof {
            lemma_run_append(s0, a1, g1@, a2, g2@);
            lemma_run_append(s0, a1 + a2, g1@ + g2@, a3, g3@);
            assert(a1 + a2 + a3 =~= choice_actions(chunk@, choice@));
            assert(events_view(queue@) =~= q0 + run(s0, a1 + a2 + a3, g1@ + g2@ + g3@).1);
        }
        Ghost(g1@ + g2@ + g3@)
    }

    /// `process_chunk`: one chunk of the Chat stream. The state machine
    /// runs the chunk's actions (`chunk_actions`) in order, each opening
    /// item taking a fresh id.
    #[verifier::spinoff_prover]
    #[verifier::rlimit(40)]
    pub fn process_chunk(&mut self, chunk: &Json, queue: &mut Vec<StreamEvent>)
        requires
            old(self).wf(),
            chunk_usage_fits(chunk@),
            old(self).sequence_number + chunk_event_budget(old(self)@, chunk@) <= usize::MAX,
            old(self).output_index + chunk_item_budget(chunk@) <= usize::MAX,
        ensures
            final(self).wf(),
            final(self).tool_name_map == old(self).tool_name_map,
            exists|ids: Seq<Seq<char>>|
                #![trigger run(old(self)@, chunk_actions(old(self)@.has_started, chunk@), ids)]
                ids.len() == chunk_actions(old(self)@.has_started, chunk@).len() && final(self)@ == run(
                    old(self)@,
                    chunk_actions(old(self)@.has_started, chunk@),
                    ids,
                ).0 && events_view(final(queue)@) == events_view(old(queue)@) + run(
                    old(self)@,
                    chunk_actions(old(self)@.has_started, chunk@),
                    ids,
                ).1,
            crate::stream_laws::numbered_from(events_view(old(queue)@), 0) && old(self)@.sequence_number
                == events_view(old(queue)@).len() ==> crate::stream_laws::numbered_from(
                events_view(final(queue)@),
                0,
            ) && final(self)@.sequence_number == events_view(final(queue)@).len(),
    {
        let ghost s0 = self@;
        let ghost q0 = events_view(queue@);
        let ghost mut acts: Seq<StreamAction> = Seq::empty();
        let ghost mut ids: Seq<Seq<char>> = Seq::empty();
        proof {
            lemma_run_empty(s0, ids);
            assert(q0 + run(s0, acts, ids).1 =~= q0);
        }
        if !self.has_started {
            let ghost sb = self@;
            self.start_stream(chunk, queue);
            proof {
                let a = start_actions(s0.has_started, chunk@)[0];
                Self::extend(s0, acts, ids, sb, a, Seq::empty());
                acts = acts + seq![a];
                ids = ids + seq![Seq::<char>::empty()];
                assert(events_view(queue@) =~= q0 + run(s0, acts, ids).1);
            }
        }
        assert(acts =~= start_actions(s0.has_started, chunk@));
        let choice: Option<&Json> = match chunk.get("choices") {
            Some(Json::Array(a)) => {
                proof {
                    crate::json::lemma_views(a@);
                }
                if a.len() > 0 {
                    Some(&a[0])
                } else {
                    None
                }
            },
            _ => None,
        };
        assert(crate::json::ref_view(choice) == first_choice(chunk@));
        match choice {
            Some(c) => {
                let g = self.process_choice(chunk, c, queue);
                proof {
                    lemma_run_append(s0, acts, ids, choice_actions(chunk@, c@), g@);
                    acts = acts + choice_actions(chunk@, c@);
                    ids = ids + g@;
                    assert(events_view(queue@) =~= q0 + run(s0, acts, ids).1);
                }
            },
            None => {
                match chunk.get("usage") {
                    Some(u) => match chat_usage_value(u) {
                        Some(usage) => {
                            let ghost sb = self@;
                            self.take_usage(usage, queue);
                            proof {
                                let a = StreamAction::Usage { usage };
                                Self::extend(s0, acts, ids, sb, a, Seq::empty());
                                acts = acts + seq![a];
                                ids = ids + seq![Seq::<char>::empty()];
                                assert(events_view(queue@) =~= q0 + run(s0, acts, ids).1);
                            }
                        },
                        None => {},
                    },
                    None => {},
                }
            },
        }
        assert(acts =~= chunk_actions(s0.has_started, chunk@));
        proof {
            if crate::stream_laws::numbered_from(q0, 0) && s0.sequence_number == q0.len() {
                crate::stream_laws::law_run_keeps_queue_numbered(q0, s0, acts, ids);
            }
        }
    }
}

} // verus!
