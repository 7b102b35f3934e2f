//! Laws of the stream state machine: what holds of every stream, whatever
//! the chunks that drive it.
use vstd::prelude::*;
use crate::stream_events::{event_seq, EventV, ItemV};
use crate::stream_model::{
    apply_usage, close_calls, close_content, close_message, close_one_call, close_open_items, close_reasoning,
    close_tool_calls, content_delta, emit_created, emit_finished, emit_in_progress, handle_done, handle_finish,
    open_tool_call, reasoning_delta, run, start, step, tool_arguments, tool_delta, StateV, Step, StreamAction,
    ToolCallV,
};

verus! {

// ─── sequence numbers ──────────────────────────────────────────────────

/// The events carry the sequence numbers `n`, `n + 1`, ... in order.
pub open spec fn numbered_from(evs: Seq<EventV>, n: nat) -> bool {
    forall|i: int| 0 <= i < evs.len() ==> event_seq(#[trigger] evs[i]) == n + i
}

/// A step from `s` numbers its events from the state's counter on, and
/// leaves the counter just past them.
pub open spec fn numbers_events(s: StateV, r: Step) -> bool {
    r.0.sequence_number == s.sequence_number + r.1.len() && numbered_from(r.1, s.sequence_number)
}

proof fn lemma_numbered_concat(a: Seq<EventV>, b: Seq<EventV>, n: nat)
    requires
        numbered_from(a, n),
        numbered_from(b, n + a.len()),
    ensures
        numbered_from(a + b, n),
{
    assert forall|i: int| 0 <= i < (a + b).len() implies event_seq(#[trigger] (a + b)[i]) == n + i by {
        if i < a.len() {
            assert((a + b)[i] == a[i]);
        } else {
            assert((a + b)[i] == b[i - a.len()]);
        }
    }
}

/// Steps that number their events chain.
proof fn lemma_chain(s: StateV, r1: Step, r2: Step)
    requires
        numbers_events(s, r1),
        numbers_events(r1.0, r2),
    ensures
        numbers_events(s, (r2.0, r1.1 + r2.1)),
{
    lemma_numbered_concat(r1.1, r2.1, s.sequence_number);
}

proof fn lemma_emits_numbered(s: StateV)
    ensures
        numbers_events(s, emit_created(s)),
        numbers_events(s, emit_in_progress(s)),
        numbers_events(s, emit_finished(s)),
{
    reveal(emit_created);
    reveal(emit_in_progress);
    reveal(emit_finished);
}

proof fn lemma_closes_numbered(s: StateV)
    ensures
        numbers_events(s, close_reasoning(s)),
        numbers_events(s, close_content(s)),
        numbers_events(s, close_message(s)),
{
    reveal(close_reasoning);
    reveal(close_content);
    reveal(close_message);
    let (s1, e1) = close_content(s);
    if s.message_item_started {
        lemma_chain(s, close_content(s), (close_message(s).0, seq![close_message(s).1.last()]));
        assert(close_message(s).1 =~= e1 + seq![close_message(s).1.last()]);
    }
}

proof fn lemma_close_one_numbered(s: StateV, tc: ToolCallV)
    ensures
        numbers_events(s, close_one_call(s, tc)),
{
}

proof fn lemma_close_calls_numbered(s: StateV, calls: Seq<(nat, ToolCallV)>)
    ensures
        numbers_events(s, close_calls(s, calls)),
    decreases calls.len(),
{
    if calls.len() > 0 {
        let r1 = close_one_call(s, calls[0].1);
        lemma_close_one_numbered(s, calls[0].1);
        lemma_close_calls_numbered(r1.0, calls.drop_first());
        lemma_chain(s, r1, close_calls(r1.0, calls.drop_first()));
    }
}

proof fn lemma_close_open_items_numbered(s: StateV)
    ensures
        numbers_events(s, close_open_items(s)),
{
    reveal(close_open_items);
    reveal(close_tool_calls);
    let r1 = close_reasoning(s);
    let r2 = close_message(r1.0);
    lemma_closes_numbered(s);
    lemma_closes_numbered(r1.0);
    lemma_chain(s, r1, r2);
    if r2.0.tool_calls.len() > 0 {
        let r3 = close_tool_calls(r2.0);
        lemma_close_calls_numbered(StateV { tool_calls: Seq::empty(), ..r2.0 }, r2.0.tool_calls);
        lemma_chain(s, (r2.0, r1.1 + r2.1), r3);
    }
}

proof fn lemma_finish_numbered(s: StateV)
    ensures
        numbers_events(s, handle_finish(s)),
{
    reveal(handle_finish);
    let r3 = close_open_items(s);
    lemma_close_open_items_numbered(s);
    let s4 = StateV { finished: true, ..r3.0 };
    if s4.usage is Some {
        lemma_emits_numbered(s4);
        lemma_chain(s, (s4, r3.1), emit_finished(s4));
    }
}

proof fn lemma_deltas_numbered(s: StateV, text: Seq<char>, id: Seq<char>)
    ensures
        numbers_events(s, reasoning_delta(s, text, id)),
        numbers_events(s, content_delta(s, text, id)),
{
    lemma_closes_numbered(s);
    let r1 = close_message(s);
    let r = reasoning_delta(s, text, id);
    assert(r.1 =~= r1.1 + r.1.subrange(r1.1.len() as int, r.1.len() as int));
    let c1 = close_reasoning(s);
    let c = content_delta(s, text, id);
    assert(c.1 =~= c1.1 + c.1.subrange(c1.1.len() as int, c.1.len() as int));
}

proof fn lemma_tool_delta_numbered(
    s: StateV,
    index: nat,
    call_id: Seq<char>,
    name: Seq<char>,
    arguments: Option<Seq<char>>,
    id: Seq<char>,
)
    ensures
        numbers_events(s, tool_delta(s, index, call_id, name, arguments, id)),
{
    let o = open_tool_call(s, index, call_id, name, id);
    let r1 = close_message(s);
    let r2 = close_reasoning(r1.0);
    lemma_closes_numbered(s);
    lemma_closes_numbered(r1.0);
    lemma_chain(s, r1, r2);
    assert(o.1 =~= (r1.1 + r2.1) + o.1.subrange((r1.1 + r2.1).len() as int, o.1.len() as int));
    assert(numbers_events(s, o));
    let first = if !crate::stream_model::has_call(s.tool_calls, index) {
        o
    } else {
        (s, Seq::<EventV>::empty())
    };
    match arguments {
        Some(a) => if a.len() > 0 {
            let t = tool_arguments(first.0, index, a);
            lemma_chain(s, first, t);
        },
        None => {},
    }
}

proof fn lemma_start_numbered(s: StateV, id: Option<Seq<char>>, model: Option<Seq<char>>, created: Option<int>)
    ensures
        numbers_events(s, start(s, id, model, created)),
{
    reveal(start);
    let s1 = StateV {
        has_started: true,
        response_id: match id {
            Some(x) => x,
            None => s.response_id,
        },
        model: match model {
            Some(x) => x,
            None => s.model,
        },
        created_at: match created {
            Some(x) => x,
            None => s.created_at,
        },
        ..s
    };
    lemma_emits_numbered(s1);
    lemma_emits_numbered(emit_created(s1).0);
    lemma_chain(s1, emit_created(s1), emit_in_progress(emit_created(s1).0));
}

proof fn lemma_done_numbered(s: StateV)
    ensures
        numbers_events(s, handle_done(s)),
{
    if s.has_started {
        let r1 = if !s.finished {
            handle_finish(s)
        } else {
            (s, Seq::<EventV>::empty())
        };
        if !s.finished {
            lemma_finish_numbered(s);
        }
        if !r1.0.response_completed {
            lemma_emits_numbered(r1.0);
            lemma_chain(s, r1, emit_finished(r1.0));
        } else {
            assert(r1.1 + Seq::<EventV>::empty() =~= r1.1);
        }
    }
}

proof fn lemma_step_numbered(s: StateV, a: StreamAction, id: Seq<char>)
    ensures
        numbers_events(s, step(s, a, id)),
{
    match a {
        StreamAction::Start { id: rid, model, created } => lemma_start_numbered(s, rid, model, created),
        StreamAction::Reasoning { text } => lemma_deltas_numbered(s, text, id),
        StreamAction::Content { text } => lemma_deltas_numbered(s, text, id),
        StreamAction::ToolDelta { index, call_id, name, arguments } => lemma_tool_delta_numbered(
            s,
            index,
            call_id,
            name,
            arguments,
            id,
        ),
        StreamAction::Finish { reason } => lemma_finish_numbered(StateV { finish_reason: Some(reason), ..s }),
        StreamAction::Usage { usage } => {
            reveal(apply_usage);
            lemma_emits_numbered(StateV { usage: Some(usage), ..s });
        },
        StreamAction::Done => lemma_done_numbered(s),
    }
}

/// Sequence numbers: whatever the chunks, the events of a stream carry
/// consecutive sequence numbers, continuing from the state's counter, and
/// the counter ends just past the last of them. A stream that starts at
/// zero numbers its events by their position.
pub proof fn law_events_are_numbered_in_order(s: StateV, acts: Seq<StreamAction>, ids: Seq<Seq<char>>)
    requires
        ids.len() == acts.len(),
    ensures
        run(s, acts, ids).0.sequence_number == s.sequence_number + run(s, acts, ids).1.len(),
        forall|i: int|
            0 <= i < run(s, acts, ids).1.len() ==> event_seq(#[trigger] run(s, acts, ids).1[i]) == s.sequence_number
                + i,
    decreases acts.len(),
{
    if acts.len() > 0 {
        let r1 = step(s, acts[0], ids[0]);
        lemma_step_numbered(s, acts[0], ids[0]);
        law_events_are_numbered_in_order(r1.0, acts.drop_first(), ids.drop_first());
        lemma_chain(s, r1, run(r1.0, acts.drop_first(), ids.drop_first()));
    }
}

/// A queue whose events are numbered by their position, next to a state
/// whose counter is the queue's length, stays so when the events of a run
/// are appended: the stream's events are numbered 0, 1, 2, ... without gaps
/// however it is driven.
pub proof fn law_run_keeps_queue_numbered(q: Seq<EventV>, s: StateV, acts: Seq<StreamAction>, ids: Seq<Seq<char>>)
    requires
        ids.len() == acts.len(),
        numbered_from(q, 0),
        s.sequence_number == q.len(),
    ensures
        numbered_from(q + run(s, acts, ids).1, 0),
        run(s, acts, ids).0.sequence_number == (q + run(s, acts, ids).1).len(),
{
    law_events_are_numbered_in_order(s, acts, ids);
    lemma_numbered_concat(q, run(s, acts, ids).1, 0);
}

/// The same holds when the stream is closed.
pub proof fn law_done_keeps_queue_numbered(q: Seq<EventV>, s: StateV)
    requires
        numbered_from(q, 0),
        s.sequence_number == q.len(),
    ensures
        numbered_from(q + handle_done(s).1, 0),
        handle_done(s).0.sequence_number == (q + handle_done(s).1).len(),
{
    lemma_done_numbered(s);
    lemma_numbered_concat(q, handle_done(s).1, 0);
}

// ─── one open message or reasoning item at a time ──────────────────────

/// At most one of the message and reasoning items is open, and a content
/// part or summary part is open only inside its item.
pub open spec fn items_exclusive(s: StateV) -> bool {
    &&& !(s.message_item_started && s.reasoning_item_started)
    &&& s.content_part_started ==> s.message_item_started
    &&& s.reasoning_summary_part ==> s.reasoning_item_started
}

/// The open message (`true`) or reasoning (`false`) item and its id.
pub open spec fn active_item(s: StateV) -> Option<(bool, Seq<char>)> {
    if s.message_item_started {
        Some((true, s.message_item_id))
    } else if s.reasoning_item_started {
        Some((false, s.reasoning_item_id))
    } else {
        None
    }
}

/// How a client that tracks the open message or reasoning item reads one
/// event: an item opens only when none is open, closes only when it is the
/// open one, and text arrives only for the open item of its kind. `None`
/// when the event breaks that.
pub open spec fn track_event(active: Option<(bool, Seq<char>)>, e: EventV) -> Option<Option<(bool, Seq<char>)>> {
    match e {
        EventV::ItemAdded { item, .. } => match item {
            ItemV::Message { id, .. } => if active is None {
                Some(Some((true, id)))
            } else {
                None
            },
            ItemV::Reasoning { id, .. } => if active is None {
                Some(Some((false, id)))
            } else {
                None
            },
            _ => Some(active),
        },
        EventV::ItemDone { item, .. } => match item {
            ItemV::Message { id, .. } => if active == Some((true, id)) {
                Some(None)
            } else {
                None
            },
            ItemV::Reasoning { id, .. } => if active == Some((false, id)) {
                Some(None)
            } else {
                None
            },
            _ => Some(active),
        },
        EventV::TextDelta { .. } => if active matches Some((true, _)) {
            Some(active)
        } else {
            None
        },
        EventV::SummaryPartAdded { .. } => if active matches Some((false, _)) {
            Some(active)
        } else {
            None
        },
        EventV::SummaryTextDelta { .. } => if active matches Some((false, _)) {
            Some(active)
        } else {
            None
        },
        _ => Some(active),
    }
}

/// The tracked open item after the events, or `None` if one breaks the rule.
pub open spec fn track(active: Option<(bool, Seq<char>)>, evs: Seq<EventV>) -> Option<Option<(bool, Seq<char>)>>
    decreases evs.len(),
{
    if evs.len() == 0 {
        Some(active)
    } else {
        match track_event(active, evs[0]) {
            Some(a1) => track(a1, evs.drop_first()),
            None => None,
        }
    }
}

/// A step keeps the items exclusive, and its events take a tracking client
/// from the open item before it to the open item after it.
pub open spec fn tracks(s: StateV, r: Step) -> bool {
    items_exclusive(r.0) && track(active_item(s), r.1) == Some(active_item(r.0))
}

proof fn lemma_track_concat(active: Option<(bool, Seq<char>)>, a: Seq<EventV>, b: Seq<EventV>)
    ensures
        track(active, a + b) == match track(active, a) {
            Some(x) => track(x, b),
            None => None,
        },
    decreases a.len(),
{
    if a.len() == 0 {
        assert(a + b =~= b);
    } else {
        assert((a + b)[0] == a[0]);
        assert((a + b).drop_first() =~= a.drop_first() + b);
        match track_event(active, a[0]) {
            Some(a1) => lemma_track_concat(a1, a.drop_first(), b),
            None => {},
        }
    }
}

proof fn lemma_tracks_chain(s: StateV, r1: Step, r2: Step)
    requires
        tracks(s, r1),
        tracks(r1.0, r2),
    ensures
        tracks(s, (r2.0, r1.1 + r2.1)),
{
    lemma_track_concat(active_item(s), r1.1, r2.1);
}

proof fn lemma_track_one(active: Option<(bool, Seq<char>)>, e: EventV)
    ensures
        track(active, seq![e]) == track_event(active, e),
{
    assert(seq![e].drop_first() =~= Seq::<EventV>::empty());
    reveal_with_fuel(track, 2);
}

proof fn lemma_emits_track(s: StateV)
    requires
        items_exclusive(s),
    ensures
        tracks(s, emit_created(s)),
        tracks(s, emit_in_progress(s)),
        tracks(s, emit_finished(s)),
{
    reveal(emit_created);
    reveal(emit_in_progress);
    reveal(emit_finished);
    lemma_track_one(active_item(s), emit_created(s).1[0]);
    lemma_track_one(active_item(s), emit_in_progress(s).1[0]);
    lemma_track_one(active_item(s), emit_finished(s).1[0]);
    assert(emit_created(s).1 =~= seq![emit_created(s).1[0]]);
    assert(emit_in_progress(s).1 =~= seq![emit_in_progress(s).1[0]]);
    assert(emit_finished(s).1 =~= seq![emit_finished(s).1[0]]);
}

proof fn lemma_track_three(active: Option<(bool, Seq<char>)>, a: EventV, b: EventV, c: EventV)
    ensures
        track(active, Seq::empty().push(a).push(b).push(c)) == match track_event(active, a) {
            Some(x) => match track_event(x, b) {
                Some(y) => track_event(y, c),
                None => None,
            },
            None => None,
        },
{
    let t = Seq::empty().push(a).push(b).push(c);
    assert(t =~= seq![a] + (seq![b] + seq![c]));
    lemma_track_concat(active, seq![a], seq![b] + seq![c]);
    lemma_track_one(active, a);
    match track_event(active, a) {
        Some(x) => {
            lemma_track_concat(x, seq![b], seq![c]);
            lemma_track_one(x, b);
            match track_event(x, b) {
                Some(y) => lemma_track_one(y, c),
                None => {},
            }
        },
        None => {},
    }
}

proof fn lemma_track_two(active: Option<(bool, Seq<char>)>, a: EventV, b: EventV)
    ensures
        track(active, Seq::empty().push(a).push(b)) == match track_event(active, a) {
            Some(x) => track_event(x, b),
            None => None,
        },
{
    let t = Seq::empty().push(a).push(b);
    assert(t =~= seq![a] + seq![b]);
    lemma_track_concat(active, seq![a], seq![b]);
    lemma_track_one(active, a);
    match track_event(active, a) {
        Some(x) => lemma_track_one(x, b),
        None => {},
    }
}

proof fn lemma_closes_track(s: StateV)
    requires
        items_exclusive(s),
    ensures
        tracks(s, close_reasoning(s)),
        tracks(s, close_content(s)),
        tracks(s, close_message(s)),
        !close_reasoning(s).0.reasoning_item_started,
        !close_message(s).0.message_item_started,
        close_message(s).0.reasoning_item_started == s.reasoning_item_started,
        close_reasoning(s).0.message_item_started == s.message_item_started,
{
    reveal(close_reasoning);
    reveal(close_content);
    reveal(close_message);
    if s.reasoning_item_started {
        let r = close_reasoning(s);
        lemma_track_three(active_item(s), r.1[0], r.1[1], r.1[2]);
        assert(r.1 =~= Seq::empty().push(r.1[0]).push(r.1[1]).push(r.1[2]));
    }
    if s.content_part_started {
        let c = close_content(s);
        lemma_track_two(active_item(s), c.1[0], c.1[1]);
        assert(c.1 =~= Seq::empty().push(c.1[0]).push(c.1[1]));
    }
    if s.message_item_started {
        let c = close_content(s);
        let m = close_message(s);
        let last = m.1.last();
        assert(m.1 =~= c.1 + seq![last]);
        lemma_track_one(active_item(c.0), last);
        if s.content_part_started {
            lemma_track_two(active_item(s), c.1[0], c.1[1]);
            assert(c.1 =~= Seq::empty().push(c.1[0]).push(c.1[1]));
        }
        lemma_track_concat(active_item(s), c.1, seq![last]);
    }
}

proof fn lemma_close_calls_track(s: StateV, calls: Seq<(nat, ToolCallV)>)
    requires
        items_exclusive(s),
    ensures
        tracks(s, close_calls(s, calls)),
        close_calls(s, calls).0.message_item_started == s.message_item_started,
        close_calls(s, calls).0.reasoning_item_started == s.reasoning_item_started,
    decreases calls.len(),
{
    if calls.len() > 0 {
        let r1 = close_one_call(s, calls[0].1);
        let e = r1.1;
        if e.len() == 2 {
            lemma_track_two(active_item(s), e[0], e[1]);
            assert(e =~= Seq::empty().push(e[0]).push(e[1]));
        } else {
            lemma_track_one(active_item(s), e[0]);
            assert(e =~= seq![e[0]]);
        }
        lemma_close_calls_track(r1.0, calls.drop_first());
        lemma_tracks_chain(s, r1, close_calls(r1.0, calls.drop_first()));
    } else {
    }
}

proof fn lemma_close_open_items_track(s: StateV)
    requires
        items_exclusive(s),
    ensures
        tracks(s, close_open_items(s)),
        !close_open_items(s).0.message_item_started,
        !close_open_items(s).0.reasoning_item_started,
        close_open_items(s).0.tool_calls.len() == 0,
{
    reveal(close_open_items);
    reveal(close_tool_calls);
    let r1 = close_reasoning(s);
    lemma_closes_track(s);
    lemma_closes_track(r1.0);
    let r2 = close_message(r1.0);
    lemma_tracks_chain(s, r1, r2);
    if r2.0.tool_calls.len() > 0 {
        let z = StateV { tool_calls: Seq::empty(), ..r2.0 };
        lemma_close_calls_track(z, r2.0.tool_calls);
        lemma_tracks_chain(s, (r2.0, r1.1 + r2.1), close_tool_calls(r2.0));
        lemma_close_calls_empty_stays(z, r2.0.tool_calls);
    }
}

proof fn lemma_close_calls_empty_stays(s: StateV, calls: Seq<(nat, ToolCallV)>)
    ensures
        close_calls(s, calls).0.tool_calls == s.tool_calls,
    decreases calls.len(),
{
    if calls.len() > 0 {
        lemma_close_calls_empty_stays(close_one_call(s, calls[0].1).0, calls.drop_first());
    }
}

proof fn lemma_single_tracks(s: StateV, r: Step)
    requires
        r.1.len() == 1,
        items_exclusive(r.0),
        track_event(active_item(s), r.1[0]) == Some(active_item(r.0)),
    ensures
        tracks(s, r),
{
    lemma_track_one(active_item(s), r.1[0]);
    assert(r.1 =~= seq![r.1[0]]);
}

proof fn lemma_finish_tracks(s: StateV)
    requires
        items_exclusive(s),
    ensures
        tracks(s, handle_finish(s)),
        !handle_finish(s).0.message_item_started,
        !handle_finish(s).0.reasoning_item_started,
        handle_finish(s).0.tool_calls.len() == 0,
        handle_finish(s).0.finished,
        handle_finish(s).0.usage is Some ==> handle_finish(s).0.response_completed,
{
    reveal(handle_finish);
    reveal(emit_finished);
    let r3 = close_open_items(s);
    lemma_close_open_items_track(s);
    let s4 = StateV { finished: true, ..r3.0 };
    if s4.usage is Some {
        lemma_emits_track(s4);
        lemma_tracks_chain(s, (s4, r3.1), emit_finished(s4));
    }
}

proof fn lemma_reasoning_delta_tracks(s: StateV, text: Seq<char>, id: Seq<char>)
    requires
        items_exclusive(s),
    ensures
        tracks(s, reasoning_delta(s, text, id)),
{
    lemma_closes_track(s);
    reveal(close_message);
    reveal(close_content);
    let (s1, e1) = close_message(s);
    let (s2, e2) = if !s1.reasoning_item_started {
        (
            StateV {
                reasoning_item_id: id,
                reasoning_output_index: s1.output_index,
                sequence_number: s1.sequence_number + 1,
                reasoning_item_started: true,
                output_index: s1.output_index + 1,
                ..s1
            },
            seq![
                EventV::ItemAdded {
                    seq: s1.sequence_number,
                    output_index: s1.output_index,
                    item: ItemV::Reasoning { id, completed: false, text: Seq::empty() },
                },
            ],
        )
    } else {
        (s1, Seq::empty())
    };
    if !s1.reasoning_item_started {
        lemma_single_tracks(s1, (s2, e2));
    }
    lemma_tracks_chain(s, (s1, e1), (s2, e2));
    let (s3, e3) = if !s2.reasoning_summary_part {
        (
            StateV { sequence_number: s2.sequence_number + 1, reasoning_summary_part: true, ..s2 },
            seq![
                EventV::SummaryPartAdded {
                    seq: s2.sequence_number,
                    item_id: s2.reasoning_item_id,
                    output_index: s2.reasoning_output_index,
                },
            ],
        )
    } else {
        (s2, Seq::empty())
    };
    if !s2.reasoning_summary_part {
        lemma_single_tracks(s2, (s3, e3));
    }
    lemma_tracks_chain(s, (s2, e1 + e2), (s3, e3));
    let s4 = StateV {
        accumulated_reasoning: s3.accumulated_reasoning + text,
        sequence_number: s3.sequence_number + 1,
        ..s3
    };
    let e4 = seq![
        EventV::SummaryTextDelta {
            seq: s3.sequence_number,
            item_id: s3.reasoning_item_id,
            output_index: s3.reasoning_output_index,
            delta: text,
        },
    ];
    lemma_single_tracks(s3, (s4, e4));
    lemma_tracks_chain(s, (s3, e1 + e2 + e3), (s4, e4));
}

proof fn lemma_content_delta_tracks(s: StateV, text: Seq<char>, id: Seq<char>)
    requires
        items_exclusive(s),
    ensures
        tracks(s, content_delta(s, text, id)),
{
    lemma_closes_track(s);
    reveal(close_reasoning);
    let (s1, e1) = close_reasoning(s);
    let (s2, e2) = if !s1.message_item_started {
        (
            StateV {
                message_item_id: id,
                message_output_index: s1.output_index,
                sequence_number: s1.sequence_number + 1,
                message_item_started: true,
                output_index: s1.output_index + 1,
                ..s1
            },
            seq![
                EventV::ItemAdded {
                    seq: s1.sequence_number,
                    output_index: s1.output_index,
                    item: ItemV::Message { id, completed: false, text: Seq::empty() },
                },
            ],
        )
    } else {
        (s1, Seq::empty())
    };
    if !s1.message_item_started {
        lemma_single_tracks(s1, (s2, e2));
    }
    lemma_tracks_chain(s, (s1, e1), (s2, e2));
    let (s3, e3) = if !s2.content_part_started {
        (
            StateV { sequence_number: s2.sequence_number + 1, content_part_started: true, ..s2 },
            seq![
                EventV::ContentPartAdded {
                    seq: s2.sequence_number,
                    item_id: s2.message_item_id,
                    output_index: s2.message_output_index,
                    content_index: s2.content_index,
                },
            ],
        )
    } else {
        (s2, Seq::empty())
    };
    if !s2.content_part_started {
        lemma_single_tracks(s2, (s3, e3));
    }
    lemma_tracks_chain(s, (s2, e1 + e2), (s3, e3));
    let s4 = StateV { accumulated_text: s3.accumulated_text + text, sequence_number: s3.sequence_number + 1, ..s3 };
    let e4 = seq![
        EventV::TextDelta {
            seq: s3.sequence_number,
            item_id: s3.message_item_id,
            output_index: s3.message_output_index,
            content_index: s3.content_index,
            delta: text,
        },
    ];
    lemma_single_tracks(s3, (s4, e4));
    lemma_tracks_chain(s, (s3, e1 + e2 + e3), (s4, e4));
}

proof fn lemma_tool_delta_tracks(
    s: StateV,
    index: nat,
    call_id: Seq<char>,
    name: Seq<char>,
    arguments: Option<Seq<char>>,
    id: Seq<char>,
)
    requires
        items_exclusive(s),
    ensures
        tracks(s, tool_delta(s, index, call_id, name, arguments, id)),
{
    let o = open_tool_call(s, index, call_id, name, id);
    let r1 = close_message(s);
    let r2 = close_reasoning(r1.0);
    lemma_closes_track(s);
    lemma_closes_track(r1.0);
    lemma_tracks_chain(s, r1, r2);
    let last = o.1.last();
    assert(o.1 =~= (r1.1 + r2.1) + seq![last]);
    lemma_single_tracks(r2.0, (o.0, seq![last]));
    lemma_tracks_chain(s, (r2.0, r1.1 + r2.1), (o.0, seq![last]));
    let first = if !crate::stream_model::has_call(s.tool_calls, index) {
        o
    } else {
        (s, Seq::<EventV>::empty())
    };
    match arguments {
        Some(a) => if a.len() > 0 {
            let t = tool_arguments(first.0, index, a);
            if t.1.len() == 1 {
                lemma_single_tracks(first.0, t);
            }
            lemma_tracks_chain(s, first, t);
        },
        None => {},
    }
}

proof fn lemma_step_tracks(s: StateV, a: StreamAction, id: Seq<char>)
    requires
        items_exclusive(s),
    ensures
        tracks(s, step(s, a, id)),
{
    match a {
        StreamAction::Start { id: rid, model, created } => {
            reveal(start);
            let s1 = StateV {
                has_started: true,
                response_id: match rid {
                    Some(x) => x,
                    None => s.response_id,
                },
                model: match model {
                    Some(x) => x,
                    None => s.model,
                },
                created_at: match created {
                    Some(x) => x,
                    None => s.created_at,
                },
                ..s
            };
            lemma_emits_track(s1);
            lemma_emits_track(emit_created(s1).0);
            lemma_tracks_chain(s1, emit_created(s1), emit_in_progress(emit_created(s1).0));
        },
        StreamAction::Reasoning { text } => lemma_reasoning_delta_tracks(s, text, id),
        StreamAction::Content { text } => lemma_content_delta_tracks(s, text, id),
        StreamAction::ToolDelta { index, call_id, name, arguments } => lemma_tool_delta_tracks(
            s,
            index,
            call_id,
            name,
            arguments,
            id,
        ),
        StreamAction::Finish { reason } => lemma_finish_tracks(StateV { finish_reason: Some(reason), ..s }),
        StreamAction::Usage { usage } => {
            reveal(apply_usage);
            lemma_emits_track(StateV { usage: Some(usage), ..s });
        },
        StreamAction::Done => {
            if s.has_started {
                let r1 = if !s.finished {
                    handle_finish(s)
                } else {
                    (s, Seq::<EventV>::empty())
                };
                if !s.finished {
                    lemma_finish_tracks(s);
                }
                if !r1.0.response_completed {
                    lemma_emits_track(r1.0);
                    lemma_tracks_chain(s, r1, emit_finished(r1.0));
                } else {
                    assert(r1.1 + Seq::<EventV>::empty() =~= r1.1);
                }
            }
        },
    }
}

/// One open item at a time: a client that follows the message and
/// reasoning items sees each open only when no other is open, close only
/// when it is the open one, and receive text only while open. Whatever the
/// chunks, a stream whose items are exclusive keeps them so, and its events
/// take the client from the item open before to the item open after.
pub proof fn law_one_open_item_at_a_time(s: StateV, acts: Seq<StreamAction>, ids: Seq<Seq<char>>)
    requires
        ids.len() == acts.len(),
        items_exclusive(s),
    ensures
        items_exclusive(run(s, acts, ids).0),
        track(active_item(s), run(s, acts, ids).1) == Some(active_item(run(s, acts, ids).0)),
    decreases acts.len(),
{
    if acts.len() > 0 {
        let r1 = step(s, acts[0], ids[0]);
        lemma_step_tracks(s, acts[0], ids[0]);
        law_one_open_item_at_a_time(r1.0, acts.drop_first(), ids.drop_first());
        lemma_tracks_chain(s, r1, run(r1.0, acts.drop_first(), ids.drop_first()));
    }
}

/// The end of a stream that has started and not yet finished closes every
/// open item and tool call, and completes the response.
pub proof fn law_done_closes_everything(s: StateV)
    requires
        s.has_started,
        !s.finished,
        items_exclusive(s),
    ensures
        !handle_done(s).0.message_item_started,
        !handle_done(s).0.reasoning_item_started,
        handle_done(s).0.tool_calls.len() == 0,
        handle_done(s).0.response_completed,
        handle_done(s).0.finished,
{
    lemma_finish_tracks(s);
    reveal(emit_finished);
}

/// Whatever state a started stream is in, its end leaves the response
/// completed; a stream that never started ends without an event.
pub proof fn law_done_completes(s: StateV)
    ensures
        s.has_started ==> handle_done(s).0.response_completed,
        !s.has_started ==> handle_done(s).1.len() == 0,
{
    reveal(emit_finished);
}

// ─── the first chunk ───────────────────────────────────────────────────

/// The first chunk of a stream that has not started announces the
/// response: its events begin with `response.created`, then
/// `response.in_progress`, whatever else the chunk carries.
pub proof fn law_first_chunk_announces_response(s: StateV, chunk: crate::json::JsonV, ids: Seq<Seq<char>>)
    requires
        !s.has_started,
    ensures
        ({
            let evs = run(s, crate::stream_model::chunk_actions(false, chunk), ids).1;
            &&& evs.len() >= 2
            &&& evs[0] is Created
            &&& evs[1] is InProgress
        }),
{
    let acts = crate::stream_model::chunk_actions(false, chunk);
    assert(acts[0] is Start);
    let (s1, e1) = step(s, acts[0], ids[0]);
    reveal(start);
    reveal(emit_created);
    reveal(emit_in_progress);
    assert(e1.len() == 2 && e1[0] is Created && e1[1] is InProgress);
    let evs = run(s, acts, ids).1;
    assert(evs == e1 + run(s1, acts.drop_first(), ids.drop_first()).1);
    assert(evs[0] == e1[0] && evs[1] == e1[1]);
}

} // verus!
