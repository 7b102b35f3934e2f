//! The mathematical model of the stream state machine: what each input of a
//! Chat Completions stream does to the state, and which Responses events it
//! emits, in order.
use vstd::prelude::*;
use crate::json::{jget, jget_str, JsonV, parsed_json};
use crate::request_log::first_int;
use crate::responses_stream::{custom_full_input, json_input_field, new_part};
use crate::stream_events::{EventV, ItemV, ResponseStatus, SnapshotV, StreamUsage};
use crate::tool_names::{decode_result, TargetView, ToolCallKind};

verus! {

/// A tool call being streamed: its call id, target, the arguments so far,
/// the custom input already forwarded, its item id and output position.
#[verifier::ext_equal]
pub ghost struct ToolCallV {
    pub id: Seq<char>,
    pub target: TargetView,
    pub arguments: Seq<char>,
    pub emitted: Seq<char>,
    pub item_id: Seq<char>,
    pub output_index: nat,
}

/// The state of the stream.
#[verifier::ext_equal]
pub ghost struct StateV {
    pub has_started: bool,
    pub response_created: bool,
    pub message_item_started: bool,
    pub reasoning_item_started: bool,
    pub reasoning_summary_part: bool,
    pub content_part_started: bool,
    pub finished: bool,
    pub response_completed: bool,
    pub response_id: Seq<char>,
    pub model: Seq<char>,
    pub created_at: int,
    pub output_index: nat,
    pub content_index: nat,
    pub sequence_number: nat,
    pub message_item_id: Seq<char>,
    pub message_output_index: nat,
    pub reasoning_item_id: Seq<char>,
    pub reasoning_output_index: nat,
    pub accumulated_text: Seq<char>,
    pub accumulated_reasoning: Seq<char>,
    pub completed_output: Seq<ItemV>,
    /// Open tool calls by their stream index, in increasing index order.
    pub tool_calls: Seq<(nat, ToolCallV)>,
    pub usage: Option<StreamUsage>,
    pub finish_reason: Option<Seq<char>>,
    /// The provider names the tool name table knows.
    pub names: Map<Seq<char>, TargetView>,
}

/// What a chunk of the Chat stream asks of the state machine.
pub ghost enum StreamAction {
    Start { id: Option<Seq<char>>, model: Option<Seq<char>>, created: Option<int> },
    Reasoning { text: Seq<char> },
    Content { text: Seq<char> },
    ToolDelta { index: nat, call_id: Seq<char>, name: Seq<char>, arguments: Option<Seq<char>> },
    Finish { reason: Seq<char> },
    Usage { usage: StreamUsage },
    Done,
}

pub type Step = (StateV, Seq<EventV>);

// ─── responses ─────────────────────────────────────────────────────────

pub open spec fn snapshot(s: StateV, status: ResponseStatus) -> SnapshotV {
    SnapshotV {
        id: s.response_id,
        model: s.model,
        created_at: s.created_at,
        status,
        output: s.completed_output,
        usage: s.usage,
    }
}

/// A response that stopped at the length limit is incomplete.
pub open spec fn final_status(s: StateV) -> ResponseStatus {
    if s.finish_reason == Some("length"@) {
        ResponseStatus::Incomplete
    } else {
        ResponseStatus::Completed
    }
}

#[verifier::opaque]
pub open spec fn emit_created(s: StateV) -> Step {
    (
        StateV { sequence_number: s.sequence_number + 1, response_created: true, ..s },
        seq![EventV::Created { seq: s.sequence_number, response: snapshot(s, ResponseStatus::InProgress) }],
    )
}

#[verifier::opaque]
pub open spec fn emit_in_progress(s: StateV) -> Step {
    (
        StateV { sequence_number: s.sequence_number + 1, ..s },
        seq![EventV::InProgress { seq: s.sequence_number, response: snapshot(s, ResponseStatus::InProgress) }],
    )
}

#[verifier::opaque]
pub open spec fn emit_finished(s: StateV) -> Step {
    (
        StateV { sequence_number: s.sequence_number + 1, response_completed: true, ..s },
        seq![EventV::Finished { seq: s.sequence_number, response: snapshot(s, final_status(s)) }],
    )
}

// ─── reasoning and message items ───────────────────────────────────────

#[verifier::opaque]
pub open spec fn close_reasoning(s: StateV) -> Step {
    if !s.reasoning_item_started {
        (s, Seq::empty())
    } else {
        let q = s.sequence_number;
        let id = s.reasoning_item_id;
        let oi = s.reasoning_output_index;
        let text = s.accumulated_reasoning;
        let item = ItemV::Reasoning { id, completed: true, text };
        (
            StateV {
                sequence_number: q + 3,
                completed_output: s.completed_output.push(item),
                reasoning_item_started: false,
                reasoning_summary_part: false,
                reasoning_item_id: Seq::empty(),
                reasoning_output_index: 0,
                accumulated_reasoning: Seq::empty(),
                ..s
            },
            Seq::empty().push(EventV::SummaryTextDone { seq: q, item_id: id, output_index: oi, text }).push(
                EventV::SummaryPartDone { seq: q + 1, item_id: id, output_index: oi, text },
            ).push(EventV::ItemDone { seq: q + 2, output_index: oi, item }),
        )
    }
}

#[verifier::opaque]
pub open spec fn close_content(s: StateV) -> Step {
    if !s.content_part_started {
        (s, Seq::empty())
    } else {
        let q = s.sequence_number;
        let id = s.message_item_id;
        let oi = s.message_output_index;
        let ci = s.content_index;
        let text = s.accumulated_text;
        (
            StateV { sequence_number: q + 2, content_part_started: false, ..s },
            Seq::empty().push(EventV::TextDone { seq: q, item_id: id, output_index: oi, content_index: ci, text }).push(
                EventV::ContentPartDone { seq: q + 1, item_id: id, output_index: oi, content_index: ci, text },
            ),
        )
    }
}

#[verifier::opaque]
pub open spec fn close_message(s: StateV) -> Step {
    if !s.message_item_started {
        (s, Seq::empty())
    } else {
        let (s1, e1) = close_content(s);
        let q = s1.sequence_number;
        let oi = s1.message_output_index;
        let item = ItemV::Message { id: s1.message_item_id, completed: true, text: s1.accumulated_text };
        (
            StateV {
                sequence_number: q + 1,
                completed_output: s1.completed_output.push(item),
                message_item_started: false,
                message_item_id: Seq::empty(),
                message_output_index: 0,
                accumulated_text: Seq::empty(),
                ..s1
            },
            e1.push(EventV::ItemDone { seq: q, output_index: oi, item }),
        )
    }
}

/// A piece of reasoning: the open message closes, a reasoning item and its
/// summary part open if they are not open, and the text is forwarded.
pub open spec fn reasoning_delta(s: StateV, text: Seq<char>, id: Seq<char>) -> Step {
    let (s1, e1) = close_message(s);
    let (s2, e2) = if !s1.reasoning_item_started {
        (
            StateV {
                reasoning_item_id: id,
                reasoning_output_index: s1.output_index,
                sequence_number: s1.sequence_number + 1,
                reasoning_item_started: true,
                output_index: s1.output_index + 1,
                ..s1
            },
            seq![
                EventV::ItemAdded {
                    seq: s1.sequence_number,
                    output_index: s1.output_index,
                    item: ItemV::Reasoning { id, completed: false, text: Seq::empty() },
                },
            ],
        )
    } else {
        (s1, Seq::empty())
    };
    let (s3, e3) = if !s2.reasoning_summary_part {
        (
            StateV { sequence_number: s2.sequence_number + 1, reasoning_summary_part: true, ..s2 },
            seq![
                EventV::SummaryPartAdded {
                    seq: s2.sequence_number,
                    item_id: s2.reasoning_item_id,
                    output_index: s2.reasoning_output_index,
                },
            ],
        )
    } else {
        (s2, Seq::empty())
    };
    (
        StateV {
            accumulated_reasoning: s3.accumulated_reasoning + text,
            sequence_number: s3.sequence_number + 1,
            ..s3
        },
        e1 + e2 + e3 + seq![
            EventV::SummaryTextDelta {
                seq: s3.sequence_number,
                item_id: s3.reasoning_item_id,
                output_index: s3.reasoning_output_index,
                delta: text,
            },
        ],
    )
}

/// A piece of answer text: open reasoning closes, a message item and its
/// content part open if they are not open, and the text is forwarded.
pub open spec fn content_delta(s: StateV, text: Seq<char>, id: Seq<char>) -> Step {
    let (s1, e1) = close_reasoning(s);
    let (s2, e2) = if !s1.message_item_started {
        (
            StateV {
                message_item_id: id,
                message_output_index: s1.output_index,
                sequence_number: s1.sequence_number + 1,
                message_item_started: true,
                output_index: s1.output_index + 1,
                ..s1
            },
            seq![
                EventV::ItemAdded {
                    seq: s1.sequence_number,
                    output_index: s1.output_index,
                    item: ItemV::Message { id, completed: false, text: Seq::empty() },
                },
            ],
        )
    } else {
        (s1, Seq::empty())
    };
    let (s3, e3) = if !s2.content_part_started {
        (
            StateV { sequence_number: s2.sequence_number + 1, content_part_started: true, ..s2 },
            seq![
                EventV::ContentPartAdded {
                    seq: s2.sequence_number,
                    item_id: s2.message_item_id,
                    output_index: s2.message_output_index,
                    content_index: s2.content_index,
                },
            ],
        )
    } else {
        (s2, Seq::empty())
    };
    (
        StateV { accumulated_text: s3.accumulated_text + text, sequence_number: s3.sequence_number + 1, ..s3 },
        e1 + e2 + e3 + seq![
            EventV::TextDelta {
                seq: s3.sequence_number,
                item_id: s3.message_item_id,
                output_index: s3.message_output_index,
                content_index: s3.content_index,
                delta: text,
            },
        ],
    )
}

// ─── tool calls ────────────────────────────────────────────────────────

pub open spec fn indices_increasing(calls: Seq<(nat, ToolCallV)>) -> bool {
    forall|i: int, j: int| 0 <= i < j < calls.len() ==> calls[i].0 < calls[j].0
}

pub open spec fn has_call(calls: Seq<(nat, ToolCallV)>, index: nat) -> bool {
    exists|i: int| 0 <= i < calls.len() && calls[i].0 == index
}

/// Where the call with `index` stands.
pub open spec fn call_position(calls: Seq<(nat, ToolCallV)>, index: nat) -> int {
    choose|i: int| 0 <= i < calls.len() && calls[i].0 == index
}

/// `p` is where a call with a new `index` goes to keep the order.
pub open spec fn is_insert_position(calls: Seq<(nat, ToolCallV)>, index: nat, p: int) -> bool {
    &&& 0 <= p <= calls.len()
    &&& forall|j: int| 0 <= j < p ==> calls[j].0 < index
    &&& forall|j: int| p <= j < calls.len() ==> calls[j].0 > index
}

pub open spec fn insert_position(calls: Seq<(nat, ToolCallV)>, index: nat) -> int {
    choose|p: int| #[trigger] is_insert_position(calls, index, p)
}

pub open spec fn empty_object() -> JsonV {
    JsonV::Object(Seq::empty())
}

pub open spec fn in_progress_tool_item(item_id: Seq<char>, call_id: Seq<char>, t: TargetView) -> ItemV {
    match t.0 {
        ToolCallKind::ToolSearch => ItemV::ToolSearchCall {
            id: item_id,
            call_id,
            completed: false,
            arguments: empty_object(),
        },
        ToolCallKind::Custom => ItemV::CustomToolCall { id: item_id, call_id, name: t.2, input: Seq::empty() },
        ToolCallKind::Function => ItemV::FunctionCall {
            id: item_id,
            call_id,
            name: t.2,
            namespace: t.1,
            arguments: Seq::empty(),
            completed: false,
        },
    }
}

/// The custom input a call's arguments carry (`extract_custom_tool_input`).
pub open spec fn custom_input_of(arguments: Seq<char>) -> Seq<char> {
    match json_input_field(arguments) {
        Some(v) => v,
        None => arguments,
    }
}

pub open spec fn completed_tool_item(item_id: Seq<char>, call_id: Seq<char>, t: TargetView, arguments: Seq<char>) -> ItemV {
    match t.0 {
        ToolCallKind::ToolSearch => ItemV::ToolSearchCall {
            id: item_id,
            call_id,
            completed: true,
            arguments: match parsed_json(arguments) {
                Some(v) => v,
                None => empty_object(),
            },
        },
        ToolCallKind::Custom => ItemV::CustomToolCall {
            id: item_id,
            call_id,
            name: t.2,
            input: custom_input_of(arguments),
        },
        ToolCallKind::Function => ItemV::FunctionCall {
            id: item_id,
            call_id,
            name: t.2,
            namespace: t.1,
            arguments,
            completed: true,
        },
    }
}

/// A call with a new index: open items close, and the call's item opens
/// at the next output position.
pub open spec fn open_tool_call(s: StateV, index: nat, call_id: Seq<char>, name: Seq<char>, id: Seq<char>) -> Step {
    let (s1, e1) = close_message(s);
    let (s2, e2) = close_reasoning(s1);
    let target = decode_result(s.names, name);
    let tc = ToolCallV {
        id: call_id,
        target,
        arguments: Seq::empty(),
        emitted: Seq::empty(),
        item_id: id,
        output_index: s2.output_index,
    };
    (
        StateV {
            tool_calls: s2.tool_calls.insert(insert_position(s2.tool_calls, index), (index, tc)),
            output_index: s2.output_index + 1,
            sequence_number: s2.sequence_number + 1,
            ..s2
        },
        e1 + e2 + seq![
            EventV::ItemAdded {
                seq: s2.sequence_number,
                output_index: s2.output_index,
                item: in_progress_tool_item(id, call_id, target),
            },
        ],
    )
}

/// The call after a piece of arguments, and the delta it forwards: custom
/// calls forward what is new in their decoded input, function calls the raw
/// piece, tool searches nothing.
pub open spec fn call_after_arguments(tc: ToolCallV, piece: Seq<char>) -> (ToolCallV, Option<(bool, Seq<char>)>) {
    let tc1 = ToolCallV { arguments: tc.arguments + piece, ..tc };
    match tc.target.0 {
        ToolCallKind::Custom => match custom_full_input(tc1.arguments) {
            Some(full) => {
                let d = new_part(full, tc1.emitted);
                if d.len() == 0 {
                    (tc1, None)
                } else {
                    (ToolCallV { emitted: full, ..tc1 }, Some((true, d)))
                }
            },
            None => (tc1, None),
        },
        ToolCallKind::Function => (tc1, Some((false, piece))),
        ToolCallKind::ToolSearch => (tc1, None),
    }
}

pub open spec fn tool_arguments(s: StateV, index: nat, piece: Seq<char>) -> Step {
    let p = call_position(s.tool_calls, index);
    let tc = s.tool_calls[p].1;
    let (tc2, delta) = call_after_arguments(tc, piece);
    let s1 = StateV { tool_calls: s.tool_calls.update(p, (index, tc2)), ..s };
    match delta {
        Some((custom, d)) => (
            StateV { sequence_number: s.sequence_number + 1, ..s1 },
            seq![
                EventV::ToolDelta {
                    seq: s.sequence_number,
                    custom,
                    item_id: tc.item_id,
                    output_index: tc.output_index,
                    delta: d,
                },
            ],
        ),
        None => (s1, Seq::empty()),
    }
}

pub open spec fn tool_delta(
    s: StateV,
    index: nat,
    call_id: Seq<char>,
    name: Seq<char>,
    arguments: Option<Seq<char>>,
    id: Seq<char>,
) -> Step {
    let (s1, e1) = if !has_call(s.tool_calls, index) {
        open_tool_call(s, index, call_id, name, id)
    } else {
        (s, Seq::empty())
    };
    match arguments {
        Some(a) => if a.len() > 0 {
            let (s2, e2) = tool_arguments(s1, index, a);
            (s2, e1 + e2)
        } else {
            (s1, e1)
        },
        None => (s1, e1),
    }
}

/// Closing one call: its input or arguments are reported done, then its
/// item, which joins the completed output.
pub open spec fn close_one_call(s: StateV, tc: ToolCallV) -> Step {
    let q = s.sequence_number;
    let item = completed_tool_item(tc.item_id, tc.id, tc.target, tc.arguments);
    let done = match tc.target.0 {
        ToolCallKind::Custom => seq![
            EventV::CustomInputDone {
                seq: q,
                item_id: tc.item_id,
                output_index: tc.output_index,
                input: custom_input_of(tc.arguments),
            },
        ],
        ToolCallKind::Function => seq![
            EventV::ArgumentsDone {
                seq: q,
                item_id: tc.item_id,
                output_index: tc.output_index,
                name: tc.target.2,
                arguments: tc.arguments,
            },
        ],
        ToolCallKind::ToolSearch => Seq::empty(),
    };
    let q2 = q + done.len();
    (
        StateV { sequence_number: q2 + 1, completed_output: s.completed_output.push(item), ..s },
        done.push(EventV::ItemDone { seq: q2, output_index: tc.output_index, item }),
    )
}

pub open spec fn close_calls(s: StateV, calls: Seq<(nat, ToolCallV)>) -> Step
    decreases calls.len(),
{
    if calls.len() == 0 {
        (s, Seq::empty())
    } else {
        let (s1, e1) = close_one_call(s, calls[0].1);
        let (s2, e2) = close_calls(s1, calls.drop_first());
        (s2, e1 + e2)
    }
}

/// All open calls close, in the order of their index.
#[verifier::opaque]
pub open spec fn close_tool_calls(s: StateV) -> Step {
    close_calls(StateV { tool_calls: Seq::empty(), ..s }, s.tool_calls)
}

// ─── the end of the stream ─────────────────────────────────────────────

/// Every open item closes: reasoning, then the message, then the tool calls.
#[verifier::opaque]
pub open spec fn close_open_items(s: StateV) -> Step {
    let (s1, e1) = close_reasoning(s);
    let (s2, e2) = close_message(s1);
    if s2.tool_calls.len() > 0 {
        let (s3, e3) = close_tool_calls(s2);
        (s3, e1 + e2 + e3)
    } else {
        (s2, e1 + e2)
    }
}

/// The stream finishes: every open item closes; the response completes now
/// if the usage is already known.
#[verifier::opaque]
pub open spec fn handle_finish(s: StateV) -> Step {
    let (s3, e3) = close_open_items(s);
    let s4 = StateV { finished: true, ..s3 };
    if s4.usage is Some {
        let (s5, e5) = emit_finished(s4);
        (s5, e3 + e5)
    } else {
        (s4, e3)
    }
}

/// The stream ends: a started stream finishes if it has not, and its
/// response completes if it has not.
pub open spec fn handle_done(s: StateV) -> Step {
    if !s.has_started {
        (s, Seq::empty())
    } else {
        let (s1, e1) = if !s.finished {
            handle_finish(s)
        } else {
            (s, Seq::empty())
        };
        let (s2, e2) = if !s1.response_completed {
            emit_finished(s1)
        } else {
            (s1, Seq::empty())
        };
        (s2, e1 + e2)
    }
}

#[verifier::opaque]
pub open spec fn apply_usage(s: StateV, u: StreamUsage) -> Step {
    let s1 = StateV { usage: Some(u), ..s };
    if s1.finished && !s1.response_completed {
        emit_finished(s1)
    } else {
        (s1, Seq::empty())
    }
}

/// The first chunk names the response and announces it.
#[verifier::opaque]
pub open spec fn start(s: StateV, id: Option<Seq<char>>, model: Option<Seq<char>>, created: Option<int>) -> Step {
    let s1 = StateV {
        has_started: true,
        response_id: match id {
            Some(x) => x,
            None => s.response_id,
        },
        model: match model {
            Some(x) => x,
            None => s.model,
        },
        created_at: match created {
            Some(x) => x,
            None => s.created_at,
        },
        ..s
    };
    let (s2, e2) = emit_created(s1);
    let (s3, e3) = emit_in_progress(s2);
    (s3, e2 + e3)
}

/// One action; `id` is the fresh item id it uses if it opens an item.
pub open spec fn step(s: StateV, a: StreamAction, id: Seq<char>) -> Step {
    match a {
        StreamAction::Start { id: rid, model, created } => start(s, rid, model, created),
        StreamAction::Reasoning { text } => reasoning_delta(s, text, id),
        StreamAction::Content { text } => content_delta(s, text, id),
        StreamAction::ToolDelta { index, call_id, name, arguments } => tool_delta(
            s,
            index,
            call_id,
            name,
            arguments,
            id,
        ),
        StreamAction::Finish { reason } => handle_finish(StateV { finish_reason: Some(reason), ..s }),
        StreamAction::Usage { usage } => apply_usage(s, usage),
        StreamAction::Done => handle_done(s),
    }
}

/// Actions in order, the i-th with the i-th fresh id.
pub open spec fn run(s: StateV, acts: Seq<StreamAction>, ids: Seq<Seq<char>>) -> Step
    decreases acts.len(),
{
    if acts.len() == 0 {
        (s, Seq::empty())
    } else {
        let (s1, e1) = step(s, acts[0], ids[0]);
        let (s2, e2) = run(s1, acts.drop_first(), ids.drop_first());
        (s2, e1 + e2)
    }
}

// ─── reading a chunk ───────────────────────────────────────────────────

/// `Value::as_u64` on a number given by its text.
pub open spec fn number_u64(n: Seq<char>) -> Option<nat> {
    if n.len() > 0 && crate::text::all_ascii_digits(n) && crate::text::digits_value(n) <= u64::MAX {
        Some(crate::text::digits_value(n))
    } else {
        None
    }
}

pub open spec fn jnat(j: JsonV) -> Option<nat> {
    match j {
        JsonV::Number(n) => number_u64(n),
        _ => None,
    }
}

pub open spec fn opt_or(o: Option<int>, d: int) -> int {
    match o {
        Some(x) => x,
        None => d,
    }
}

/// `convert_usage_value`: Chat usage as Responses usage, when it is an
/// object that reports at least one token count.
pub open spec fn chat_usage(u: JsonV) -> Option<StreamUsage> {
    if u is Object && first_int(Some(u), seq!["prompt_tokens"@, "completion_tokens"@, "total_tokens"@]) is Some {
        let input = opt_or(first_int(Some(u), seq!["prompt_tokens"@]), 0);
        let output = opt_or(first_int(Some(u), seq!["completion_tokens"@]), 0);
        let total = opt_or(first_int(Some(u), seq!["total_tokens"@]), input + output);
        let cached = opt_or(
            match first_int(crate::json::jget_opt(Some(u), "prompt_tokens_details"@), seq!["cached_tokens"@]) {
                Some(x) => Some(x),
                None => first_int(Some(u), seq!["cached_tokens"@, "prompt_cache_hit_tokens"@]),
            },
            0,
        );
        let reasoning = opt_or(
            first_int(crate::json::jget_opt(Some(u), "completion_tokens_details"@), seq!["reasoning_tokens"@]),
            0,
        );
        Some(
            StreamUsage {
                input_tokens: input as i64,
                output_tokens: output as i64,
                total_tokens: total as i64,
                cached_tokens: cached as i64,
                reasoning_tokens: reasoning as i64,
            },
        )
    } else {
        None
    }
}

/// Chat usage as Responses usage counts as cached input the integer under
/// `prompt_tokens_details.cached_tokens`, else the usage's own
/// `cached_tokens`, else DeepSeek's `prompt_cache_hit_tokens`, else 0.
pub proof fn law_chat_usage_cached_tokens(u: JsonV)
    requires
        u is Object,
        crate::request_log::int_field(Some(u), "prompt_tokens"@) is Some,
    ensures
        ({
            let p = crate::json::jget_opt(Some(u), "prompt_tokens_details"@);
            let expected = match crate::request_log::int_field(p, "cached_tokens"@) {
                Some(x) => x,
                None => match crate::request_log::int_field(Some(u), "cached_tokens"@) {
                    Some(x) => x,
                    None => match crate::request_log::int_field(Some(u), "prompt_cache_hit_tokens"@) {
                        Some(x) => x,
                        None => 0,
                    },
                },
            };
            chat_usage(u) matches Some(s) && s.cached_tokens == expected
        }),
{
    let p = crate::json::jget_opt(Some(u), "prompt_tokens_details"@);
    let ks = seq!["prompt_tokens"@, "completion_tokens"@, "total_tokens"@];
    crate::request_log::lemma_first_int_one(Some(u), "prompt_tokens"@);
    assert(jget(u, "prompt_tokens"@) == crate::json::jget_opt(Some(u), "prompt_tokens"@));
    assert(first_int(Some(u), ks) is Some) by {
        reveal_with_fuel(first_int, 2);
    }
    crate::request_log::lemma_first_int_one(p, "cached_tokens"@);
    crate::request_log::lemma_first_int_two(Some(u), "cached_tokens"@, "prompt_cache_hit_tokens"@);
    let c = match crate::request_log::int_field(p, "cached_tokens"@) {
        Some(x) => x,
        None => match crate::request_log::int_field(Some(u), "cached_tokens"@) {
            Some(x) => x,
            None => match crate::request_log::int_field(Some(u), "prompt_cache_hit_tokens"@) {
                Some(x) => x,
                None => 0,
            },
        },
    };
    // every integer field holds an `i64`
    assert(i64::MIN <= c <= i64::MAX) by {
        match crate::request_log::int_field(p, "cached_tokens"@) {
            Some(x) => {
                let f = crate::json::jget_opt(p, "cached_tokens"@).unwrap();
                lemma_jint_fits(f);
            },
            None => match crate::request_log::int_field(Some(u), "cached_tokens"@) {
                Some(x) => {
                    lemma_jint_fits(crate::json::jget_opt(Some(u), "cached_tokens"@).unwrap());
                },
                None => match crate::request_log::int_field(Some(u), "prompt_cache_hit_tokens"@) {
                    Some(x) => {
                        lemma_jint_fits(crate::json::jget_opt(Some(u), "prompt_cache_hit_tokens"@).unwrap());
                    },
                    None => {},
                },
            },
        }
    }
}

/// Chat usage becomes Responses usage exactly when it is an object with a
/// `prompt_tokens`, `completion_tokens` or `total_tokens` count. Input and
/// output are those counts (0 when absent), the total is `total_tokens`,
/// else input plus output, and reasoning is
/// `completion_tokens_details.reasoning_tokens` (0 when absent).
pub proof fn law_chat_usage_counts(u: JsonV)
    requires
        chat_usage_fits(u),
    ensures
        ({
            let f = |k: Seq<char>| crate::request_log::int_field(Some(u), k);
            let reports = u is Object && (f("prompt_tokens"@) is Some || f("completion_tokens"@) is Some || f(
                "total_tokens"@,
            ) is Some);
            let input = opt_or(f("prompt_tokens"@), 0);
            let output = opt_or(f("completion_tokens"@), 0);
            let reasoning = opt_or(
                crate::request_log::int_field(crate::json::jget_opt(Some(u), "completion_tokens_details"@), "reasoning_tokens"@),
                0,
            );
            if reports {
                chat_usage(u) matches Some(s) && {
                    &&& s.input_tokens == input
                    &&& s.output_tokens == output
                    &&& s.total_tokens == opt_or(f("total_tokens"@), input + output)
                    &&& s.reasoning_tokens == reasoning
                }
            } else {
                chat_usage(u) is None
            }
        }),
{
    let ks = seq!["prompt_tokens"@, "completion_tokens"@, "total_tokens"@];
    assert(ks.drop_first() =~= seq!["completion_tokens"@, "total_tokens"@]);
    crate::request_log::lemma_first_int_two(Some(u), "completion_tokens"@, "total_tokens"@);
    crate::request_log::lemma_first_int_one(Some(u), "prompt_tokens"@);
    crate::request_log::lemma_first_int_one(Some(u), "completion_tokens"@);
    crate::request_log::lemma_first_int_one(Some(u), "total_tokens"@);
    crate::request_log::lemma_first_int_one(crate::json::jget_opt(Some(u), "completion_tokens_details"@), "reasoning_tokens"@);
    reveal_with_fuel(first_int, 2);
    if u is Object {
        lemma_jint_fits_opt(crate::json::jget_opt(Some(u), "prompt_tokens"@));
        lemma_jint_fits_opt(crate::json::jget_opt(Some(u), "completion_tokens"@));
        lemma_jint_fits_opt(crate::json::jget_opt(Some(u), "total_tokens"@));
        lemma_jint_fits_opt(
            crate::json::jget_opt(crate::json::jget_opt(Some(u), "completion_tokens_details"@), "reasoning_tokens"@),
        );
    }
}

proof fn lemma_jint_fits_opt(f: Option<JsonV>)
    ensures
        f matches Some(x) ==> (crate::json::jint(x) matches Some(v) ==> i64::MIN <= v <= i64::MAX),
{
}

proof fn lemma_jint_fits(f: JsonV)
    ensures
        crate::json::jint(f) matches Some(x) ==> i64::MIN <= x <= i64::MAX,
{
}

/// The sum that stands in for a missing total fits in `i64` (computing it
/// overflows otherwise).
pub open spec fn chat_usage_fits(u: JsonV) -> bool {
    first_int(Some(u), seq!["total_tokens"@]) is None ==> {
        let s = opt_or(first_int(Some(u), seq!["prompt_tokens"@]), 0) + opt_or(
            first_int(Some(u), seq!["completion_tokens"@]),
            0,
        );
        i64::MIN <= s <= i64::MAX
    }
}

pub open spec fn chunk_usage(chunk: JsonV) -> Option<StreamUsage> {
    match jget(chunk, "usage"@) {
        Some(u) => chat_usage(u),
        None => None,
    }
}

pub open spec fn chunk_usage_fits(chunk: JsonV) -> bool {
    match jget(chunk, "usage"@) {
        Some(u) => chat_usage_fits(u),
        None => true,
    }
}

pub open spec fn first_choice(chunk: JsonV) -> Option<JsonV> {
    match jget(chunk, "choices"@) {
        Some(JsonV::Array(a)) => if a.len() > 0 {
            Some(a[0])
        } else {
            None
        },
        _ => None,
    }
}

pub open spec fn or_null(o: Option<JsonV>) -> JsonV {
    match o {
        Some(v) => v,
        None => JsonV::Null,
    }
}

pub open spec fn text_or_empty(o: Option<Seq<char>>) -> Seq<char> {
    match o {
        Some(v) => v,
        None => Seq::empty(),
    }
}

/// What one entry of `delta.tool_calls` asks for.
pub open spec fn tool_call_action(tc: JsonV) -> StreamAction {
    let func = or_null(jget(tc, "function"@));
    StreamAction::ToolDelta {
        index: match jget(tc, "index"@) {
            Some(v) => match jnat(v) {
                Some(n) => n,
                None => 0,
            },
            None => 0,
        },
        call_id: text_or_empty(jget_str(tc, "id"@)),
        name: text_or_empty(jget_str(func, "name"@)),
        arguments: jget_str(func, "arguments"@),
    }
}

pub open spec fn nonempty_text_action(o: Option<Seq<char>>, reasoning: bool) -> Seq<StreamAction> {
    match o {
        Some(t) => if t.len() > 0 {
            if reasoning {
                seq![StreamAction::Reasoning { text: t }]
            } else {
                seq![StreamAction::Content { text: t }]
            }
        } else {
            Seq::empty()
        },
        None => Seq::empty(),
    }
}

pub open spec fn usage_action(chunk: JsonV) -> Seq<StreamAction> {
    match chunk_usage(chunk) {
        Some(u) => seq![StreamAction::Usage { usage: u }],
        None => Seq::empty(),
    }
}

pub open spec fn tool_calls_of(delta: JsonV) -> Seq<JsonV> {
    match jget(delta, "tool_calls"@) {
        Some(JsonV::Array(a)) => a,
        _ => Seq::empty(),
    }
}

/// The start of the stream, on the first chunk.
pub open spec fn start_actions(has_started: bool, chunk: JsonV) -> Seq<StreamAction> {
    if !has_started {
        seq![
            StreamAction::Start {
                id: jget_str(chunk, "id"@),
                model: jget_str(chunk, "model"@),
                created: match jget(chunk, "created"@) {
                    Some(v) => crate::json::jint(v),
                    None => None,
                },
            },
        ]
    } else {
        Seq::empty()
    }
}

/// The text a delta carries: reasoning, then answer text.
pub open spec fn delta_text_actions(delta: JsonV) -> Seq<StreamAction> {
    nonempty_text_action(jget_str(delta, "reasoning_content"@), true) + nonempty_text_action(
        jget_str(delta, "content"@),
        false,
    )
}

/// What the first choice of a chunk asks for: its delta's text and tool
/// call pieces, its finish reason, then the chunk's usage.
pub open spec fn choice_actions(chunk: JsonV, choice: JsonV) -> Seq<StreamAction> {
    let delta = or_null(jget(choice, "delta"@));
    delta_text_actions(delta) + tool_calls_of(delta).map_values(|tc: JsonV| tool_call_action(tc)) + (
    finish_actions(choice) + usage_action(chunk))
}

/// The finish reason of a choice.
pub open spec fn finish_actions(choice: JsonV) -> Seq<StreamAction> {
    match jget_str(choice, "finish_reason"@) {
        Some(r) => seq![StreamAction::Finish { reason: r }],
        None => Seq::empty(),
    }
}

/// What a chunk asks for, in the order the state machine handles it: the
/// start of the stream (on the first chunk), reasoning, content, each tool
/// call piece, the finish reason and the usage. A chunk without choices
/// can only carry usage.
pub open spec fn chunk_actions(has_started: bool, chunk: JsonV) -> Seq<StreamAction> {
    start_actions(has_started, chunk) + match first_choice(chunk) {
        None => usage_action(chunk),
        Some(choice) => choice_actions(chunk, choice),
    }
}

// ─── running actions ───────────────────────────────────────────────────

pub proof fn lemma_run_empty(s: StateV, ids: Seq<Seq<char>>)
    ensures
        run(s, Seq::empty(), ids).0 == s,
        run(s, Seq::empty(), ids).1 == Seq::<EventV>::empty(),
{
}

/// Running one action is taking its step.
pub proof fn lemma_run_single(s: StateV, a: StreamAction, id: Seq<char>)
    ensures
        run(s, seq![a], seq![id]).0 == step(s, a, id).0,
        run(s, seq![a], seq![id]).1 == step(s, a, id).1,
{
    let acts = seq![a];
    let ids = seq![id];
    assert(acts.drop_first() =~= Seq::<StreamAction>::empty());
    assert(ids.drop_first() =~= Seq::<Seq<char>>::empty());
    lemma_run_empty(step(s, a, id).0, ids.drop_first());
    assert(step(s, a, id).1 + Seq::<EventV>::empty() =~= step(s, a, id).1);
}

/// Running two lists of actions one after the other is running their
/// concatenation.
pub proof fn lemma_run_append(s: StateV, a: Seq<StreamAction>, ia: Seq<Seq<char>>, b: Seq<StreamAction>, ib: Seq<Seq<char>>)
    requires
        ia.len() == a.len(),
    ensures
        run(s, a + b, ia + ib).0 == run(run(s, a, ia).0, b, ib).0,
        run(s, a + b, ia + ib).1 == run(s, a, ia).1 + run(run(s, a, ia).0, b, ib).1,
    decreases a.len(),
{
    if a.len() == 0 {
        assert(a + b =~= b);
        assert(ia + ib =~= ib);
        assert(Seq::<EventV>::empty() + run(s, b, ib).1 =~= run(s, b, ib).1);
    } else {
        let (s1, e1) = step(s, a[0], ia[0]);
        lemma_run_append(s1, a.drop_first(), ia.drop_first(), b, ib);
        assert((a + b).drop_first() =~= a.drop_first() + b);
        assert((ia + ib).drop_first() =~= ia.drop_first() + ib);
        assert((a + b)[0] == a[0]);
        assert((ia + ib)[0] == ia[0]);
        let r = run(s1, a.drop_first(), ia.drop_first());
        let t = run(r.0, b, ib);
        assert(e1 + (r.1 + t.1) =~= (e1 + r.1) + t.1);
    }
}

/// How many tool call pieces a chunk carries.
pub open spec fn chunk_tool_count(chunk: JsonV) -> nat {
    match first_choice(chunk) {
        Some(choice) => tool_calls_of(or_null(jget(choice, "delta"@))).len(),
        None => 0,
    }
}

/// An upper bound on the events one chunk makes the state machine emit.
pub open spec fn chunk_event_budget(s: StateV, chunk: JsonV) -> nat {
    22 + 10 * chunk_tool_count(chunk) + 2 * s.tool_calls.len()
}

/// An upper bound on the output items one chunk opens.
pub open spec fn chunk_item_budget(chunk: JsonV) -> nat {
    2 + chunk_tool_count(chunk)
}

} // verus!
