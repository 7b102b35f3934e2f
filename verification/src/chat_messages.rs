//! Passes over the `messages` of a Chat Completions request body that make
//! a Codex conversation acceptable to DeepSeek and OpenAI Chat providers.
use vstd::prelude::*;
use crate::json::{
    get_str, insert_member, jget, jget_str, json_text, lemma_lookup_at, lemma_lookup_insert_other, lemma_lookup_insert_same,
    lemma_views, member_lookup, set_member, to_json_text, views, Json, JsonV,
};
use crate::responses_to_chat::{deepseek_role_for_developer_content, developer_role};

verus! {

// ─── the messages of a body ────────────────────────────────────────────

pub open spec fn role_is(m: JsonV, role: Seq<char>) -> bool {
    jget_str(m, "role"@) == Some(role)
}

/// The body's `messages` array, when it has one.
pub open spec fn messages_of(body: JsonV) -> Option<Seq<JsonV>> {
    match jget(body, "messages"@) {
        Some(JsonV::Array(a)) => Some(a),
        _ => None,
    }
}

/// `value[key] = v` on an object.
pub open spec fn set_field(m: JsonV, key: Seq<char>, v: JsonV) -> JsonV {
    match m {
        JsonV::Object(ms) => JsonV::Object(insert_member(ms, key, v)),
        _ => m,
    }
}

/// The body with its `messages` replaced.
pub open spec fn with_messages(body: JsonV, messages: Seq<JsonV>) -> JsonV {
    set_field(body, "messages"@, JsonV::Array(messages))
}

/// A body whose messages are `messages_of(body)` passed through `f`.
pub open spec fn map_messages(body: JsonV, f: spec_fn(JsonV) -> JsonV) -> JsonV {
    match messages_of(body) {
        Some(a) => with_messages(body, a.map_values(f)),
        None => body,
    }
}

/// A copy of the body's messages.
fn messages_copy(body: &Json) -> (r: Option<Vec<Json>>)
    ensures
        match messages_of(body@) {
            Some(a) => r matches Some(v) && views(v@) == a,
            None => r is None,
        },
{
    match body.get("messages") {
        Some(m) => match m {
            Json::Array(a) => {
                let c = m.deep_clone();
                match c {
                    Json::Array(v) => Some(v),
                    _ => None,
                }
            },
            _ => None,
        },
        None => None,
    }
}

/// Replaces the messages of an object body.
fn replace_messages(body: &mut Json, messages: Vec<Json>)
    ensures
        final(body)@ == with_messages(old(body)@, views(messages@)),
{
    let ghost mv = views(messages@);
    match body {
        Json::Object(m) => {
            let a = Json::Array(messages);
            assert(a@ == JsonV::Array(mv));
            set_member(m, "messages", a);
        },
        _ => {},
    }
}

/// `msg[key] = value` on an object message.
fn set_json_field(m: &mut Json, key: &str, value: Json)
    ensures
        final(m)@ == set_field(old(m)@, key@, value@),
{
    match m {
        Json::Object(ms) => {
            set_member(ms, key, value);
        },
        _ => {},
    }
}

fn has_role(m: &Json, role: &str) -> (r: bool)
    ensures
        r == role_is(m@, role@),
{
    match get_str(m, "role") {
        Some(r) => {
            let v = crate::text::to_chars(r);
            crate::text::eq_str(&v, role)
        },
        None => false,
    }
}

fn empty_string_json() -> (r: Json)
    ensures
        r@ == JsonV::Str(Seq::empty()),
{
    let r = Json::Str(String::new());
    r
}

// ─── padding and backfilling reasoning ─────────────────────────────────

/// An assistant message without `reasoning_content` gets an empty one.
pub open spec fn padded(m: JsonV) -> JsonV {
    if role_is(m, "assistant"@) && jget(m, "reasoning_content"@) is None {
        set_field(m, "reasoning_content"@, JsonV::Str(Seq::empty()))
    } else {
        m
    }
}

/// `pad_reasoning_content`: with thinking on, every assistant message
/// carries `reasoning_content`, empty where it had none.
pub fn pad_reasoning_content(body: &mut Json)
    ensures
        final(body)@ == map_messages(old(body)@, |m: JsonV| padded(m)),
{
    let msgs = match messages_copy(body) {
        Some(v) => v,
        None => {
            return;
        },
    };
    let ghost a = views(msgs@);
    proof {
        lemma_views(msgs@);
    }
    let mut out: Vec<Json> = Vec::new();
    let mut i: usize = 0;
    assert(views(out@) =~= a.take(0).map_values(|m: JsonV| padded(m)));
    while i < msgs.len()
        invariant
            i <= msgs@.len(),
            a == views(msgs@),
            a.len() == msgs@.len(),
            forall|j: int| 0 <= j < msgs@.len() ==> #[trigger] a[j] == msgs@[j]@,
            views(out@) == a.take(i as int).map_values(|m: JsonV| padded(m)),
        decreases msgs@.len() - i,
    {
        let mut m = msgs[i].deep_clone();
        let ghost mv = m@;
        if has_role(&m, "assistant") && m.get("reasoning_content").is_none() {
            set_json_field(&mut m, "reasoning_content", empty_string_json());
        }
        let ghost before = out@;
        out.push(m);
        proof {
            lemma_views(out@);
            lemma_views(before);
            assert(views(out@) =~= views(before).push(padded(mv)));
            assert(a.take(i + 1) =~= a.take(i as int).push(mv));
            assert(views(out@) =~= a.take(i + 1).map_values(|m: JsonV| padded(m)));
        }
        i += 1;
    }
    assert(a.take(a.len() as int) =~= a);
    replace_messages(body, out);
}

/// The text a message's content stands for: the string itself, nothing
/// for null, and the JSON text of anything else.
pub open spec fn content_text(v: JsonV) -> Seq<char> {
    match v {
        JsonV::Str(t) => t,
        JsonV::Null => Seq::empty(),
        _ => json_text(v),
    }
}

/// The text of a Chat message's content: a string as it is, nothing for null,
/// anything else as its JSON text.
pub fn chat_message_content_to_string(value: &Json) -> (r: String)
    ensures
        r@ == content_text(value@),
{
    match value {
        Json::Str(t) => t.clone(),
        Json::Null => String::new(),
        _ => to_json_text(value),
    }
}

pub open spec fn content_text_of(m: JsonV) -> Seq<char> {
    match jget(m, "content"@) {
        Some(c) => content_text(c),
        None => Seq::empty(),
    }
}

/// A developer message becomes a system message, or a user message when
/// it only carries low-priority Codex context.
pub open spec fn developer_normalized(m: JsonV) -> JsonV {
    if role_is(m, "developer"@) {
        set_field(m, "role"@, JsonV::Str(developer_role(content_text_of(m))))
    } else {
        m
    }
}

/// Gives each `developer` message the role DeepSeek accepts for its content.
pub fn normalize_developer_messages(body: &mut Json)
    ensures
        final(body)@ == map_messages(old(body)@, |m: JsonV| developer_normalized(m)),
{
    let msgs = match messages_copy(body) {
        Some(v) => v,
        None => {
            return;
        },
    };
    let ghost a = views(msgs@);
    proof {
        lemma_views(msgs@);
    }
    let mut out: Vec<Json> = Vec::new();
    let mut i: usize = 0;
    assert(views(out@) =~= a.take(0).map_values(|m: JsonV| developer_normalized(m)));
    while i < msgs.len()
        invariant
            i <= msgs@.len(),
            a == views(msgs@),
            a.len() == msgs@.len(),
            forall|j: int| 0 <= j < msgs@.len() ==> #[trigger] a[j] == msgs@[j]@,
            views(out@) == a.take(i as int).map_values(|m: JsonV| developer_normalized(m)),
        decreases msgs@.len() - i,
    {
        let mut m = msgs[i].deep_clone();
        let ghost mv = m@;
        if has_role(&m, "developer") {
            let content = match m.get("content") {
                Some(c) => chat_message_content_to_string(c),
                None => String::new(),
            };
            let role = deepseek_role_for_developer_content(content.as_str());
            set_json_field(&mut m, "role", Json::Str(String::from_str(role)));
        }
        let ghost before = out@;
        out.push(m);
        proof {
            lemma_views(out@);
            lemma_views(before);
            assert(views(out@) =~= views(before).push(developer_normalized(mv)));
            assert(a.take(i + 1) =~= a.take(i as int).push(mv));
            assert(views(out@) =~= a.take(i + 1).map_values(|m: JsonV| developer_normalized(m)));
        }
        i += 1;
    }
    assert(a.take(a.len() as int) =~= a);
    replace_messages(body, out);
}

/// The message carries a non-empty `tool_calls` array.
pub open spec fn has_tool_calls(m: JsonV) -> bool {
    match jget(m, "tool_calls"@) {
        Some(JsonV::Array(a)) => a.len() > 0,
        _ => false,
    }
}

fn has_tool_calls_exec(m: &Json) -> (r: bool)
    ensures
        r == has_tool_calls(m@),
{
    match m.get("tool_calls") {
        Some(Json::Array(a)) => {
            proof {
                lemma_views(a@);
            }
            a.len() > 0
        },
        _ => false,
    }
}

/// The message carries content: not null and not the empty string.
pub open spec fn has_content(m: JsonV) -> bool {
    match jget(m, "content"@) {
        Some(v) => v != JsonV::Null && v != JsonV::Str(Seq::empty()),
        None => false,
    }
}

fn has_content_exec(m: &Json) -> (r: bool)
    ensures
        r == has_content(m@),
{
    match m.get("content") {
        Some(Json::Null) => false,
        Some(Json::Str(t)) => {
            if t.as_str().is_empty() {
                assert(t@ =~= Seq::<char>::empty());
            }
            !t.as_str().is_empty()
        },
        Some(_) => true,
        None => false,
    }
}

/// An assistant message is kept only with content or tool calls.
pub open spec fn keeps_message(m: JsonV) -> bool {
    !role_is(m, "assistant"@) || has_content(m) || has_tool_calls(m)
}

/// `drop_invalid_assistant_messages`: assistant messages with neither
/// content nor tool calls (reasoning alone) are dropped.
pub fn drop_invalid_assistant_messages(body: &mut Json)
    ensures
        final(body)@ == match messages_of(old(body)@) {
            Some(a) => with_messages(old(body)@, a.filter(|m: JsonV| keeps_message(m))),
            None => old(body)@,
        },
{
    let msgs = match messages_copy(body) {
        Some(v) => v,
        None => {
            return;
        },
    };
    let ghost a = views(msgs@);
    proof {
        lemma_views(msgs@);
    }
    let mut out: Vec<Json> = Vec::new();
    let mut i: usize = 0;
    assert(views(out@) =~= a.take(0).filter(|m: JsonV| keeps_message(m)));
    while i < msgs.len()
        invariant
            i <= msgs@.len(),
            a == views(msgs@),
            a.len() == msgs@.len(),
            forall|j: int| 0 <= j < msgs@.len() ==> #[trigger] a[j] == msgs@[j]@,
            views(out@) == a.take(i as int).filter(|m: JsonV| keeps_message(m)),
        decreases msgs@.len() - i,
    {
        let m = &msgs[i];
        let keep = !has_role(m, "assistant") || has_content_exec(m) || has_tool_calls_exec(m);
        proof {
            assert(a.take(i + 1) =~= a.take(i as int).push(a[i as int]));
            a.take(i as int).lemma_filter_push(a[i as int], |m: JsonV| keeps_message(m));
        }
        if keep {
            let ghost before = out@;
            out.push(m.deep_clone());
            proof {
                lemma_views(out@);
                lemma_views(before);
                assert(views(out@) =~= views(before).push(a[i as int]));
            }
        }
        i += 1;
    }
    assert(a.take(a.len() as int) =~= a);
    replace_messages(body, out);
}

/// A message left without tool calls, content (null, empty text and empty
/// arrays do not count) or reasoning says nothing, and goes.
pub open spec fn drops_after_tool_filtering(m: JsonV) -> bool {
    let content = match jget(m, "content"@) {
        Some(v) => v != JsonV::Null && v != JsonV::Str(Seq::empty()) && v != JsonV::Array(Seq::empty()),
        None => false,
    };
    let reasoning = match jget_str(m, "reasoning_content"@) {
        Some(r) => r.len() > 0,
        None => false,
    };
    !has_tool_calls(m) && !content && !reasoning
}

/// An assistant message left with no tool calls, no content and no reasoning is dropped.
pub fn should_drop_message_after_tool_filtering(msg: &Json) -> (r: bool)
    ensures
        r == drops_after_tool_filtering(msg@),
{
    if has_tool_calls_exec(msg) {
        return false;
    }
    let has_content = match msg.get("content") {
        Some(Json::Null) => false,
        Some(Json::Str(t)) => {
            if t.as_str().is_empty() {
                assert(t@ =~= Seq::<char>::empty());
            }
            !t.as_str().is_empty()
        },
        Some(Json::Array(a)) => {
            proof {
                lemma_views(a@);
                if a@.len() == 0 {
                    assert(views(a@) =~= Seq::<JsonV>::empty());
                }
            }
            a.len() > 0
        },
        Some(_) => true,
        None => false,
    };
    if has_content {
        return false;
    }
    let has_reasoning = match get_str(msg, "reasoning_content") {
        Some(r) => !r.is_empty(),
        None => false,
    };
    !has_reasoning
}

// ─── backfilling reasoning for tool calls ──────────────────────────────

/// One assistant message of the scan: a non-empty reasoning becomes the
/// latest one; a message with tool calls and no reasoning of its own gets
/// the latest.
pub open spec fn backfill_step(m: JsonV, last: Option<Seq<char>>) -> (JsonV, Option<Seq<char>>) {
    if !role_is(m, "assistant"@) {
        (m, last)
    } else {
        let own = match jget_str(m, "reasoning_content"@) {
            Some(r) => if r.len() > 0 {
                Some(r)
            } else {
                None
            },
            None => None,
        };
        let last1 = match own {
            Some(r) => Some(r),
            None => last,
        };
        if has_tool_calls(m) && own is None && last1 is Some {
            (set_field(m, "reasoning_content"@, JsonV::Str(last1->0)), last1)
        } else {
            (m, last1)
        }
    }
}

pub open spec fn backfilled(msgs: Seq<JsonV>, last: Option<Seq<char>>) -> Seq<JsonV>
    decreases msgs.len(),
{
    if msgs.len() == 0 {
        Seq::empty()
    } else {
        let (m1, last1) = backfill_step(msgs[0], last);
        seq![m1] + backfilled(msgs.drop_first(), last1)
    }
}

/// `ensure_thinking_tool_call_reasoning_content`: an assistant message
/// with tool calls but no reasoning gets the latest reasoning of an earlier
/// (or its own) assistant message, when there is one.
pub fn ensure_thinking_tool_call_reasoning_content(body: &mut Json)
    ensures
        final(body)@ == match messages_of(old(body)@) {
            Some(a) => with_messages(old(body)@, backfilled(a, None)),
            None => old(body)@,
        },
{
    let msgs = match messages_copy(body) {
        Some(v) => v,
        None => {
            return;
        },
    };
    let ghost a = views(msgs@);
    proof {
        lemma_views(msgs@);
    }
    let mut out: Vec<Json> = Vec::new();
    let mut last: Option<String> = None;
    let mut i: usize = 0;
    assert(a.skip(0) =~= a);
    assert(views(out@) + backfilled(a.skip(0), None) =~= backfilled(a, None));
    while i < msgs.len()
        invariant
            i <= msgs@.len(),
            a == views(msgs@),
            a.len() == msgs@.len(),
            forall|j: int| 0 <= j < msgs@.len() ==> #[trigger] a[j] == msgs@[j]@,
            views(out@) + backfilled(a.skip(i as int), crate::tool_names::opt_view(last)) == backfilled(a, None),
        decreases msgs@.len() - i,
    {
        let mut m = msgs[i].deep_clone();
        let ghost mv = m@;
        let ghost lastv = crate::tool_names::opt_view(last);
        if has_role(&m, "assistant") {
            let own: Option<String> = match get_str(&m, "reasoning_content") {
                Some(r) => if !r.is_empty() {
                    Some(String::from_str(r))
                } else {
                    None
                },
                None => None,
            };
            let has_own = own.is_some();
            match own {
                Some(r) => {
                    last = Some(r);
                },
                None => {},
            }
            if has_tool_calls_exec(&m) && !has_own {
                match &last {
                    Some(r) => {
                        set_json_field(&mut m, "reasoning_content", Json::Str(r.clone()));
                    },
                    None => {},
                }
            }
        }
        let ghost before = out@;
        out.push(m);
        proof {
            let step = backfill_step(mv, lastv);
            assert(m@ == step.0);
            assert(crate::tool_names::opt_view(last) == step.1);
            lemma_views(out@);
            lemma_views(before);
            assert(views(out@) =~= views(before).push(step.0));
            let rest = a.skip(i as int);
            assert(rest[0] == mv);
            assert(rest.drop_first() =~= a.skip(i + 1));
            assert(backfilled(rest, lastv) == seq![step.0] + backfilled(a.skip(i + 1), step.1));
            assert(views(out@) + backfilled(a.skip(i + 1), step.1) =~= views(before) + backfilled(rest, lastv));
        }
        i += 1;
    }
    assert(a.skip(a.len() as int) =~= Seq::<JsonV>::empty());
    assert(views(out@) =~= views(out@) + backfilled(a.skip(a.len() as int), crate::tool_names::opt_view(last)));
    replace_messages(body, out);
}

// ─── pairing tool calls with their outputs ─────────────────────────────

pub open spec fn nonempty_text(o: Option<Seq<char>>) -> Option<Seq<char>> {
    match o {
        Some(t) => if t.len() > 0 {
            Some(t)
        } else {
            None
        },
        None => None,
    }
}

/// The non-empty string ids of tool calls, in order.
pub open spec fn ids_of_calls(tcs: Seq<JsonV>) -> Seq<Seq<char>>
    decreases tcs.len(),
{
    if tcs.len() == 0 {
        Seq::empty()
    } else {
        match nonempty_text(jget_str(tcs[0], "id"@)) {
            Some(id) => seq![id] + ids_of_calls(tcs.drop_first()),
            None => ids_of_calls(tcs.drop_first()),
        }
    }
}

/// `assistant_tool_call_ids`: the ids an assistant message calls.
pub open spec fn call_ids(m: JsonV) -> Seq<Seq<char>> {
    if !role_is(m, "assistant"@) {
        Seq::empty()
    } else {
        match jget(m, "tool_calls"@) {
            Some(JsonV::Array(tcs)) => ids_of_calls(tcs),
            _ => Seq::empty(),
        }
    }
}

/// `chat_tool_message_matches`: a tool message answering the call `id`.
pub open spec fn answers(m: JsonV, id: Seq<char>) -> bool {
    role_is(m, "tool"@) && jget_str(m, "tool_call_id"@) == Some(id)
}

/// `find_following_tool_message`: the first message from `start` on, not
/// yet taken, that answers `id`.
pub open spec fn find_answer(msgs: Seq<JsonV>, taken: Seq<bool>, start: int, id: Seq<char>) -> Option<int>
    decreases msgs.len() - start,
{
    if start < 0 || start >= msgs.len() {
        None
    } else if !taken[start] && answers(msgs[start], id) {
        Some(start)
    } else {
        find_answer(msgs, taken, start + 1, id)
    }
}

/// The answers to `ids`, in their order, each the first untaken answer
/// after `start`: what is taken then, the ids answered and their answers.
pub open spec fn match_answers(msgs: Seq<JsonV>, taken: Seq<bool>, start: int, ids: Seq<Seq<char>>) -> (
    Seq<bool>,
    Seq<Seq<char>>,
    Seq<JsonV>,
)
    decreases ids.len(),
{
    if ids.len() == 0 {
        (taken, Seq::empty(), Seq::empty())
    } else {
        match find_answer(msgs, taken, start, ids[0]) {
            Some(j) => {
                let r = match_answers(msgs, taken.update(j, true), start, ids.drop_first());
                (r.0, seq![ids[0]] + r.1, seq![msgs[j]] + r.2)
            },
            None => match_answers(msgs, taken, start, ids.drop_first()),
        }
    }
}

/// A tool call is kept when its id was answered.
pub open spec fn call_answered(tc: JsonV, answered: Seq<Seq<char>>) -> bool {
    match jget_str(tc, "id"@) {
        Some(id) => answered.contains(id),
        None => false,
    }
}

/// `filter_assistant_tool_calls`: only the answered calls stay, and the
/// `tool_calls` field goes when none does.
pub open spec fn filter_calls(m: JsonV, answered: Seq<Seq<char>>) -> JsonV {
    match m {
        JsonV::Object(ms) => match member_lookup(ms, "tool_calls"@) {
            Some(JsonV::Array(tcs)) => {
                let kept = tcs.filter(|tc: JsonV| call_answered(tc, answered));
                if kept.len() == 0 {
                    JsonV::Object(crate::responses_compat::without_key(ms, "tool_calls"@))
                } else {
                    JsonV::Object(insert_member(ms, "tool_calls"@, JsonV::Array(kept)))
                }
            },
            _ => m,
        },
        _ => m,
    }
}

/// `orphan_tool_output_message`: a tool output with no call before it, as
/// a user message.
pub open spec fn orphan_output(call_id: Seq<char>, output: Seq<char>) -> JsonV {
    let id = if call_id.len() == 0 {
        "<missing>"@
    } else {
        call_id
    };
    JsonV::Object(
        seq![
            ("role"@, JsonV::Str("user"@)),
            ("content"@, JsonV::Str("Function call output ("@ + id + "): "@ + output)),
        ],
    )
}

/// A tool message whose call is gone, as a user message.
pub open spec fn orphan_message(m: JsonV) -> JsonV {
    orphan_output(
        match jget_str(m, "tool_call_id"@) {
            Some(id) => id,
            None => Seq::empty(),
        },
        content_text_of(m),
    )
}

/// The repaired messages from `index` on: a message already moved is
/// skipped; an assistant message that calls tools is kept with only its
/// answered calls and followed by their answers; a tool message that
/// answers nothing before it becomes a user message; others stay.
pub open spec fn repair_from(msgs: Seq<JsonV>, taken: Seq<bool>, index: int) -> Seq<JsonV>
    decreases msgs.len() - index,
{
    if index < 0 || index >= msgs.len() {
        Seq::empty()
    } else if taken[index] {
        repair_from(msgs, taken, index + 1)
    } else {
        let m = msgs[index];
        let ids = call_ids(m);
        if ids.len() == 0 {
            seq![
                if role_is(m, "tool"@) {
                    orphan_message(m)
                } else {
                    m
                },
            ] + repair_from(msgs, taken, index + 1)
        } else {
            let r = match_answers(msgs, taken, index + 1, ids);
            seq![filter_calls(m, r.1)] + r.2 + repair_from(msgs, r.0, index + 1)
        }
    }
}

pub open spec fn repaired_messages(msgs: Seq<JsonV>) -> Seq<JsonV> {
    repair_from(msgs, Seq::new(msgs.len(), |i: int| false), 0)
}

pub open spec fn strs(v: Seq<String>) -> Seq<Seq<char>> {
    v.map_values(|s: String| s@)
}

/// The ids of the tool calls an assistant message makes, in order.
fn assistant_tool_call_ids(message: &Json) -> (r: Vec<String>)
    ensures
        strs(r@) == call_ids(message@),
{
    let mut out: Vec<String> = Vec::new();
    if !has_role(message, "assistant") {
        assert(strs(out@) =~= Seq::<Seq<char>>::empty());
        return out;
    }
    match message.get("tool_calls") {
        Some(Json::Array(tcs)) => {
            let ghost tv = views(tcs@);
            proof {
                lemma_views(tcs@);
            }
            let mut i: usize = 0;
            assert(tv.skip(0) =~= tv);
            assert(strs(out@) + ids_of_calls(tv.skip(0)) =~= ids_of_calls(tv));
            while i < tcs.len()
                invariant
                    i <= tcs@.len(),
                    tv == views(tcs@),
                    tv.len() == tcs@.len(),
                    forall|j: int| 0 <= j < tcs@.len() ==> #[trigger] tv[j] == tcs@[j]@,
                    strs(out@) + ids_of_calls(tv.skip(i as int)) == ids_of_calls(tv),
                decreases tcs@.len() - i,
            {
                let ghost rest = tv.skip(i as int);
                assert(rest[0] == tv[i as int]);
                assert(rest.drop_first() =~= tv.skip(i + 1));
                let ghost before = strs(out@);
                match get_str(&tcs[i], "id") {
                    Some(id) => {
                        if !id.is_empty() {
                            out.push(String::from_str(id));
                            assert(strs(out@) =~= before.push(id@));
                            assert(strs(out@) + ids_of_calls(tv.skip(i + 1)) =~= before + ids_of_calls(rest));
                        } else {
                            assert(id@ =~= Seq::<char>::empty());
                        }
                    },
                    None => {},
                }
                i += 1;
            }
            assert(tv.skip(tcs@.len() as int) =~= Seq::<JsonV>::empty());
            assert(strs(out@) =~= strs(out@) + ids_of_calls(tv.skip(tcs@.len() as int)));
            out
        },
        _ => {
            assert(strs(out@) =~= Seq::<Seq<char>>::empty());
            out
        },
    }
}

/// The message is the tool answer to the given call id.
fn chat_tool_message_matches(message: &Json, tool_call_id: &str) -> (r: bool)
    ensures
        r == answers(message@, tool_call_id@),
{
    if !has_role(message, "tool") {
        return false;
    }
    match get_str(message, "tool_call_id") {
        Some(id) => {
            let v = crate::text::to_chars(id);
            crate::text::eq_str(&v, tool_call_id)
        },
        None => false,
    }
}

proof fn lemma_find_answer(msgs: Seq<JsonV>, taken: Seq<bool>, start: int, id: Seq<char>)
    ensures
        find_answer(msgs, taken, start, id) matches Some(j) ==> start <= j < msgs.len() && j < taken.len() + msgs.len()
            && answers(msgs[j], id),
    decreases msgs.len() - start,
{
    if 0 <= start < msgs.len() {
        lemma_find_answer(msgs, taken, start + 1, id);
    }
}

/// The first unused tool message from `start` on that answers the call id.
fn find_following_tool_message(messages: &Vec<Json>, taken: &Vec<bool>, start: usize, tool_call_id: &str) -> (r:
    Option<usize>)
    requires
        taken@.len() == messages@.len(),
    ensures
        match r {
            Some(j) => find_answer(views(messages@), taken@, start as int, tool_call_id@) == Some(j as int),
            None => find_answer(views(messages@), taken@, start as int, tool_call_id@) is None,
        },
        r matches Some(j) ==> start <= j < messages@.len(),
{
    proof {
        lemma_find_answer(views(messages@), taken@, start as int, tool_call_id@);
    }
    let ghost mv = views(messages@);
    proof {
        lemma_views(messages@);
    }
    let mut i = start;
    while i < messages.len()
        invariant
            start <= i,
            taken@.len() == messages@.len(),
            mv == views(messages@),
            mv.len() == messages@.len(),
            forall|j: int| 0 <= j < messages@.len() ==> #[trigger] mv[j] == messages@[j]@,
            find_answer(mv, taken@, start as int, tool_call_id@) == find_answer(mv, taken@, i as int, tool_call_id@),
        decreases messages@.len() - i,
    {
        if !taken[i] && chat_tool_message_matches(&messages[i], tool_call_id) {
            return Some(i);
        }
        i += 1;
    }
    None
}

/// Keeps only the tool calls of an assistant message that are answered.
fn filter_assistant_tool_calls(assistant: &mut Json, answered: &Vec<String>)
    ensures
        final(assistant)@ == filter_calls(old(assistant)@, strs(answered@)),
{
    let ghost av = strs(answered@);
    let tcs = match assistant.get("tool_calls") {
        Some(tj) => match tj {
            Json::Array(_) => {
                let c = tj.deep_clone();
                match c {
                    Json::Array(t) => t,
                    _ => {
                        return;
                    },
                }
            },
            _ => {
                return;
            },
        },
        None => {
            return;
        },
    };
    let ghost tv = views(tcs@);
    proof {
        lemma_views(tcs@);
    }
    let mut kept: Vec<Json> = Vec::new();
    let mut i: usize = 0;
    assert(views(kept@) =~= tv.take(0).filter(|tc: JsonV| call_answered(tc, av)));
    while i < tcs.len()
        invariant
            i <= tcs@.len(),
            tv == views(tcs@),
            tv.len() == tcs@.len(),
            forall|j: int| 0 <= j < tcs@.len() ==> #[trigger] tv[j] == tcs@[j]@,
            av == strs(answered@),
            views(kept@) == tv.take(i as int).filter(|tc: JsonV| call_answered(tc, av)),
        decreases tcs@.len() - i,
    {
        let keep = match get_str(&tcs[i], "id") {
            Some(id) => {
                let mut found = false;
                let mut k: usize = 0;
                while k < answered.len()
                    invariant
                        k <= answered@.len(),
                        av == strs(answered@),
                        found == exists|q: int| 0 <= q < k && av[q] == id@,
                    decreases answered@.len() - k,
                {
                    let a = to_chars_of(&answered[k]);
                    assert(av[k as int] == a@);
                    if crate::text::eq_str(&a, id) {
                        found = true;
                    }
                    k += 1;
                }
                proof {
                    if found {
                        let q = choose|q: int| 0 <= q < answered@.len() && av[q] == id@;
                        assert(av.contains(id@));
                    } else {
                        assert forall|q: int| 0 <= q < av.len() implies av[q] != id@ by {}
                    }
                }
                found
            },
            None => false,
        };
        proof {
            assert(keep == call_answered(tv[i as int], av));
            assert(tv.take(i + 1) =~= tv.take(i as int).push(tv[i as int]));
            tv.take(i as int).lemma_filter_push(tv[i as int], |tc: JsonV| call_answered(tc, av));
        }
        if keep {
            let ghost before = kept@;
            kept.push(tcs[i].deep_clone());
            proof {
                lemma_views(kept@);
                lemma_views(before);
                assert(views(kept@) =~= views(before).push(tv[i as int]));
            }
        }
        i += 1;
    }
    assert(tv.take(tv.len() as int) =~= tv);
    match assistant {
        Json::Object(ms) => {
            if kept.len() == 0 {
                let ghost mv = crate::json::member_views(ms@);
                let mut out: Vec<(String, Json)> = Vec::new();
                let mut j: usize = 0;
                proof {
                    crate::json::lemma_member_views(ms@);
                }
                assert(crate::json::member_views(out@) =~= crate::responses_compat::without_key(
                    mv.take(0),
                    "tool_calls"@,
                ));
                while j < ms.len()
                    invariant
                        j <= ms@.len(),
                        mv == crate::json::member_views(ms@),
                        mv.len() == ms@.len(),
                        forall|q: int| 0 <= q < ms@.len() ==> #[trigger] mv[q] == (ms@[q].0@, ms@[q].1@),
                        crate::json::member_views(out@) == crate::responses_compat::without_key(
                            mv.take(j as int),
                            "tool_calls"@,
                        ),
                    decreases ms@.len() - j,
                {
                    let key = to_chars_of(&ms[j].0);
                    proof {
                        assert(mv.take(j + 1) =~= mv.take(j as int) + seq![mv[j as int]]);
                        crate::responses_compat::lemma_without_append(
                            mv.take(j as int),
                            seq![mv[j as int]],
                            "tool_calls"@,
                        );
                        crate::responses_compat::lemma_without_single(mv[j as int], "tool_calls"@);
                    }
                    if !crate::text::eq_str(&key, "tool_calls") {
                        let ghost before = out@;
                        out.push((ms[j].0.clone(), ms[j].1.deep_clone()));
                        assert(out@.drop_last() =~= before);
                        assert(crate::json::member_views(out@) =~= crate::responses_compat::without_key(
                            mv.take(j + 1),
                            "tool_calls"@,
                        ));
                    } else {
                        assert(crate::json::member_views(out@) =~= crate::responses_compat::without_key(
                            mv.take(j + 1),
                            "tool_calls"@,
                        ));
                    }
                    j += 1;
                }
                assert(mv.take(mv.len() as int) =~= mv);
                *ms = out;
            } else {
                let ghost kv = views(kept@);
                let arr = Json::Array(kept);
                assert(arr@ == JsonV::Array(kv));
                set_member(ms, "tool_calls", arr);
            }
        },
        _ => {},
    }
}

fn to_chars_of(s: &String) -> (r: Vec<char>)
    ensures
        r@ == s@,
{
    crate::text::to_chars(s.as_str())
}

/// A tool output with no call before it, as a user message.
pub(crate) fn orphan_tool_output_message(call_id: &str, output: &str) -> (r: Json)
    ensures
        r@ == orphan_output(call_id@, output@),
{
    let mut text = crate::text::to_chars("Function call output (");
    if call_id.is_empty() {
        crate::text::append_str(&mut text, "<missing>");
    } else {
        crate::text::append_str(&mut text, call_id);
    }
    crate::text::append_str(&mut text, "): ");
    crate::text::append_str(&mut text, output);
    let mut m: Vec<(String, Json)> = Vec::new();
    m.push((String::from_str("role"), Json::Str(String::from_str("user"))));
    m.push((String::from_str("content"), Json::Str(crate::text::from_chars(&text))));
    proof {
        crate::json::lemma_member_views(m@);
        if call_id@.len() == 0 {
            assert(call_id@ =~= Seq::<char>::empty());
        }
        assert(crate::json::member_views(m@) =~= seq![
            ("role"@, JsonV::Str("user"@)),
            ("content"@, JsonV::Str("Function call output ("@ + (if call_id@.len() == 0 {
                "<missing>"@
            } else {
                call_id@
            }) + "): "@ + output@)),
        ]);
    }
    let r = Json::Object(m);
    assert(r@ == JsonV::Object(crate::json::member_views(m@)));
    r
}

/// A tool message whose call is gone, as a user message.
fn orphan_chat_tool_message(message: &Json) -> (r: Json)
    ensures
        r@ == orphan_message(message@),
{
    let call_id = match get_str(message, "tool_call_id") {
        Some(id) => id,
        None => "",
    };
    proof {
        reveal_strlit("");
        assert(""@ =~= Seq::<char>::empty());
    }
    let output = match message.get("content") {
        Some(c) => chat_message_content_to_string(c),
        None => String::new(),
    };
    orphan_tool_output_message(call_id, output.as_str())
}

/// The answers to `ids`, in order, each the first untaken answer after
/// `start`, which it marks taken.
fn match_tool_answers(messages: &Vec<Json>, taken: &mut Vec<bool>, start: usize, ids: &Vec<String>) -> (r: (
    Vec<String>,
    Vec<Json>,
))
    requires
        old(taken)@.len() == messages@.len(),
    ensures
        final(taken)@.len() == messages@.len(),
        final(taken)@ == match_answers(views(messages@), old(taken)@, start as int, strs(ids@)).0,
        strs(r.0@) == match_answers(views(messages@), old(taken)@, start as int, strs(ids@)).1,
        views(r.1@) == match_answers(views(messages@), old(taken)@, start as int, strs(ids@)).2,
{
    let ghost mv = views(messages@);
    let ghost idv = strs(ids@);
    let ghost total = match_answers(mv, old(taken)@, start as int, idv);
    proof {
        lemma_views(messages@);
    }
    let mut matched: Vec<String> = Vec::new();
    let mut answers: Vec<Json> = Vec::new();
    let mut k: usize = 0;
    assert(idv.skip(0) =~= idv);
    assert(strs(matched@) + total.1 =~= total.1);
    assert(views(answers@) + total.2 =~= total.2);
    while k < ids.len()
        invariant
            k <= ids@.len(),
            idv == strs(ids@),
            idv.len() == ids@.len(),
            mv == views(messages@),
            mv.len() == messages@.len(),
            forall|j: int| 0 <= j < messages@.len() ==> #[trigger] mv[j] == messages@[j]@,
            taken@.len() == messages@.len(),
            total == match_answers(mv, old(taken)@, start as int, idv),
            total.0 == match_answers(mv, taken@, start as int, idv.skip(k as int)).0,
            total.1 == strs(matched@) + match_answers(mv, taken@, start as int, idv.skip(k as int)).1,
            total.2 == views(answers@) + match_answers(mv, taken@, start as int, idv.skip(k as int)).2,
        decreases ids@.len() - k,
    {
        let ghost rest = idv.skip(k as int);
        let ghost t0 = taken@;
        let ghost m0 = strs(matched@);
        let ghost a0 = views(answers@);
        assert(rest[0] == ids@[k as int]@);
        assert(rest.drop_first() =~= idv.skip(k + 1));
        let ghost ans0 = answers@;
        proof {
            lemma_views(ans0);
        }
        match find_following_tool_message(messages, taken, start, ids[k].as_str()) {
            Some(j) => {
                taken.set(j, true);
                matched.push(ids[k].clone());
                answers.push(messages[j].deep_clone());
                proof {
                    assert(find_answer(mv, t0, start as int, rest[0]) == Some(j as int));
                    assert(taken@ =~= t0.update(j as int, true));
                    assert(strs(matched@) =~= m0.push(rest[0]));
                    lemma_views(answers@);
                    assert(views(answers@) =~= a0.push(mv[j as int]));
                    let r = match_answers(mv, t0.update(j as int, true), start as int, rest.drop_first());
                    let big = match_answers(mv, t0, start as int, rest);
                    assert(big.0 == r.0);
                    assert(big.1 == seq![rest[0]] + r.1);
                    assert(big.2 == seq![mv[j as int]] + r.2);
                    assert(total.1 =~= strs(matched@) + r.1);
                    assert(total.2 =~= views(answers@) + r.2);
                }
            },
            None => {
                proof {
                    assert(find_answer(mv, t0, start as int, rest[0]) is None);
                }
            },
        }
        k += 1;
    }
    assert(idv.skip(ids@.len() as int) =~= Seq::<Seq<char>>::empty());
    assert(total.1 =~= strs(matched@));
    assert(total.2 =~= views(answers@));
    (matched, answers)
}

/// `repair_tool_call_turns`: every assistant turn that calls tools keeps
/// only the calls that are answered later on, and is followed at once by
/// those answers, in the order of its calls; tool outputs that answer no
/// call become user messages.
pub fn repair_tool_call_turns(body: &mut Json)
    ensures
        final(body)@ == match messages_of(old(body)@) {
            Some(a) => with_messages(old(body)@, repaired_messages(a)),
            None => old(body)@,
        },
{
    let msgs = match messages_copy(body) {
        Some(v) => v,
        None => {
            return;
        },
    };
    let ghost a = views(msgs@);
    proof {
        lemma_views(msgs@);
    }
    let mut taken: Vec<bool> = Vec::new();
    let mut t: usize = 0;
    while t < msgs.len()
        invariant
            t <= msgs@.len(),
            taken@ =~= Seq::new(t as nat, |i: int| false),
        decreases msgs@.len() - t,
    {
        taken.push(false);
        t += 1;
    }
    let ghost target = repaired_messages(a);
    let mut out: Vec<Json> = Vec::new();
    let mut index: usize = 0;
    assert(views(out@) + repair_from(a, taken@, 0) =~= target);
    while index < msgs.len()
        invariant
            index <= msgs@.len(),
            a == views(msgs@),
            a.len() == msgs@.len(),
            forall|j: int| 0 <= j < msgs@.len() ==> #[trigger] a[j] == msgs@[j]@,
            taken@.len() == msgs@.len(),
            views(out@) + repair_from(a, taken@, index as int) == target,
        decreases msgs@.len() - index,
    {
        let ghost t0 = taken@;
        let ghost o0 = views(out@);
        let ghost out0 = out@;
        proof {
            lemma_views(out0);
        }
        if !taken[index] {
            let m = &msgs[index];
            let ids = assistant_tool_call_ids(m);
            if ids.len() == 0 {
                let x = if has_role(m, "tool") {
                    orphan_chat_tool_message(m)
                } else {
                    m.deep_clone()
                };
                out.push(x);
                proof {
                    lemma_views(out@);
                    assert(views(out@) =~= o0 + seq![out@.last()@]);
                    assert(views(out@) + repair_from(a, taken@, index + 1) =~= o0 + repair_from(a, t0, index as int));
                }
            } else {
                let (matched, answers) = match_tool_answers(&msgs, &mut taken, index + 1, &ids);
                let mut assistant = m.deep_clone();
                filter_assistant_tool_calls(&mut assistant, &matched);
                out.push(assistant);
                let ghost o1 = views(out@);
                proof {
                    lemma_views(out@);
                    assert(o1 =~= o0 + seq![out@.last()@]);
                }
                let mut q: usize = 0;
                while q < answers.len()
                    invariant
                        q <= answers@.len(),
                        views(out@) == o1 + views(answers@).take(q as int),
                    decreases answers@.len() - q,
                {
                    let ghost before = views(out@);
                    let ghost outb = out@;
                    out.push(answers[q].deep_clone());
                    proof {
                        lemma_views(outb);
                        lemma_views(out@);
                        lemma_views(answers@);
                        assert(views(out@) =~= before.push(views(answers@)[q as int]));
                        assert(views(answers@).take(q + 1) =~= views(answers@).take(q as int).push(
                            views(answers@)[q as int],
                        ));
                    }
                    q += 1;
                }
                proof {
                    lemma_views(answers@);
                    assert(views(answers@).take(answers@.len() as int) =~= views(answers@));
                    assert(views(out@) + repair_from(a, taken@, index + 1) =~= o0 + repair_from(
                        a,
                        t0,
                        index as int,
                    ));
                }
            }
        }
        index += 1;
    }
    assert(views(out@) =~= target);
    replace_messages(body, out);
}

// ─── laws of the passes ────────────────────────────────────────────────

/// A body that has messages gets back exactly the messages it is given.
pub proof fn lemma_messages_of_with(body: JsonV, a: Seq<JsonV>)
    requires
        messages_of(body) is Some,
    ensures
        messages_of(with_messages(body, a)) == Some(a),
{
    let ms = body->Object_0;
    lemma_lookup_insert_same(ms, "messages"@, JsonV::Array(a));
}

/// Setting one field of a message leaves every other field as it was.
pub proof fn lemma_set_field_other(m: JsonV, key: Seq<char>, v: JsonV, other: Seq<char>)
    requires
        other != key,
    ensures
        jget(set_field(m, key, v), other) == jget(m, other),
{
    match m {
        JsonV::Object(ms) => {
            lemma_lookup_insert_other(ms, key, v, other);
        },
        _ => {},
    }
}

/// Setting a field of an object message makes it hold the value.
pub proof fn lemma_set_field_same(m: JsonV, key: Seq<char>, v: JsonV)
    requires
        m is Object,
    ensures
        jget(set_field(m, key, v), key) == Some(v),
{
    lemma_lookup_insert_same(m->Object_0, key, v);
}

/// With thinking on, every assistant message carries `reasoning_content`
/// after padding.
pub proof fn law_padding_gives_every_assistant_reasoning(body: JsonV)
    requires
        messages_of(body) is Some,
    ensures
        messages_of(map_messages(body, |m: JsonV| padded(m))) matches Some(out) && forall|i: int|
            0 <= i < out.len() && #[trigger] role_is(out[i], "assistant"@) ==> jget(out[i], "reasoning_content"@)
                is Some,
{
    let a = messages_of(body)->0;
    let out = a.map_values(|m: JsonV| padded(m));
    lemma_messages_of_with(body, out);
    reveal_strlit("role");
    reveal_strlit("reasoning_content");
    assert("role"@ != "reasoning_content"@) by {
        assert("role"@.len() != "reasoning_content"@.len());
    }
    assert forall|i: int| 0 <= i < out.len() && #[trigger] role_is(out[i], "assistant"@) implies jget(
        out[i],
        "reasoning_content"@,
    ) is Some by {
        let m = a[i];
        assert(out[i] == padded(m));
        if role_is(m, "assistant"@) && jget(m, "reasoning_content"@) is None {
            lemma_set_field_same(m, "reasoning_content"@, JsonV::Str(Seq::empty()));
        } else {
            lemma_set_field_other(m, "reasoning_content"@, JsonV::Str(Seq::empty()), "role"@);
        }
    }
}

/// After normalization no message keeps the `developer` role: each becomes
/// a system message, or a user message for low-priority context.
pub proof fn law_no_developer_role_after_normalization(body: JsonV)
    requires
        messages_of(body) is Some,
    ensures
        messages_of(map_messages(body, |m: JsonV| developer_normalized(m))) matches Some(out) && forall|i: int|
            0 <= i < out.len() ==> !#[trigger] role_is(out[i], "developer"@),
{
    let a = messages_of(body)->0;
    let out = a.map_values(|m: JsonV| developer_normalized(m));
    lemma_messages_of_with(body, out);
    reveal_strlit("user");
    reveal_strlit("system");
    reveal_strlit("developer");
    assert forall|i: int| 0 <= i < out.len() implies !#[trigger] role_is(out[i], "developer"@) by {
        let m = a[i];
        assert(out[i] == developer_normalized(m));
        if role_is(m, "developer"@) {
            let r = developer_role(content_text_of(m));
            lemma_set_field_same(m, "role"@, JsonV::Str(r));
            assert(r != "developer"@) by {
                assert(r.len() != "developer"@.len());
            }
        }
    }
}

/// After the pass every assistant message left has content or tool calls;
/// messages of other roles all stay.
pub proof fn law_assistants_left_say_something(body: JsonV)
    requires
        messages_of(body) is Some,
    ensures
        ({
            let a = messages_of(body)->0;
            let out = a.filter(|m: JsonV| keeps_message(m));
            &&& messages_of(with_messages(body, out)) == Some(out)
            &&& forall|i: int|
                0 <= i < out.len() && role_is(#[trigger] out[i], "assistant"@) ==> has_content(out[i])
                    || has_tool_calls(out[i])
            &&& forall|i: int|
                0 <= i < a.len() && !role_is(#[trigger] a[i], "assistant"@) ==> out.contains(a[i])
        }),
{
    let a = messages_of(body)->0;
    let out = a.filter(|m: JsonV| keeps_message(m));
    lemma_messages_of_with(body, out);
    assert forall|i: int| 0 <= i < out.len() && role_is(#[trigger] out[i], "assistant"@) implies has_content(out[i])
        || has_tool_calls(out[i]) by {
        a.lemma_filter_pred(|m: JsonV| keeps_message(m), i);
    }
    assert forall|i: int| 0 <= i < a.len() && !role_is(#[trigger] a[i], "assistant"@) implies out.contains(a[i]) by {
        a.lemma_filter_contains(|m: JsonV| keeps_message(m), i);
    }
}

/// A tool message at `i` answers a call of the nearest assistant message
/// before it, with only tool messages between the two.
pub open spec fn follows_its_call(s: Seq<JsonV>, i: int) -> bool {
    exists|k: int|
        #![trigger s[k]]
        0 <= k < i && role_is(s[k], "assistant"@) && (jget_str(s[i], "tool_call_id"@) matches Some(id)
            && call_ids(s[k]).contains(id)) && forall|j: int| k < j < i ==> #[trigger] role_is(s[j], "tool"@)
}

/// Every tool message of `s` follows the call it answers.
pub open spec fn tools_follow_calls(s: Seq<JsonV>) -> bool {
    forall|i: int| 0 <= i < s.len() && #[trigger] role_is(s[i], "tool"@) ==> follows_its_call(s, i)
}

/// The answers found are tool messages, each answering its id, and the
/// ids answered are among those asked for.
proof fn lemma_match_answers(msgs: Seq<JsonV>, taken: Seq<bool>, start: int, ids: Seq<Seq<char>>)
    ensures
        ({
            let r = match_answers(msgs, taken, start, ids);
            &&& r.1.len() == r.2.len()
            &&& forall|j: int| 0 <= j < r.2.len() ==> #[trigger] answers(r.2[j], r.1[j])
            &&& forall|j: int| 0 <= j < r.1.len() ==> ids.contains(#[trigger] r.1[j])
        }),
    decreases ids.len(),
{
    if ids.len() > 0 {
        let t = ids.drop_first();
        lemma_find_answer(msgs, taken, start, ids[0]);
        match find_answer(msgs, taken, start, ids[0]) {
            Some(j) => {
                let tk = taken.update(j, true);
                lemma_match_answers(msgs, tk, start, t);
                let r0 = match_answers(msgs, tk, start, t);
                let r = match_answers(msgs, taken, start, ids);
                assert(r.1 == seq![ids[0]] + r0.1);
                assert(r.2 == seq![msgs[j]] + r0.2);
                assert forall|x: int| 0 <= x < r.2.len() implies #[trigger] answers(r.2[x], r.1[x]) by {
                    if x > 0 {
                        assert(r.2[x] == r0.2[x - 1]);
                        assert(r.1[x] == r0.1[x - 1]);
                    }
                }
                assert forall|x: int| 0 <= x < r.1.len() implies ids.contains(#[trigger] r.1[x]) by {
                    if x > 0 {
                        assert(r.1[x] == r0.1[x - 1]);
                        let y = choose|y: int| 0 <= y < t.len() && t[y] == r0.1[x - 1];
                        assert(ids[y + 1] == t[y]);
                    } else {
                        assert(ids[0] == r.1[0]);
                    }
                }
            },
            None => {
                lemma_match_answers(msgs, taken, start, t);
                let r = match_answers(msgs, taken, start, ids);
                assert forall|x: int| 0 <= x < r.1.len() implies ids.contains(#[trigger] r.1[x]) by {
                    let y = choose|y: int| 0 <= y < t.len() && t[y] == r.1[x];
                    assert(ids[y + 1] == t[y]);
                }
            },
        }
    }
}

/// An id among the ids of some calls belongs to one of the calls.
proof fn lemma_ids_of_calls_from(tcs: Seq<JsonV>, id: Seq<char>)
    requires
        ids_of_calls(tcs).contains(id),
    ensures
        exists|i: int| 0 <= i < tcs.len() && nonempty_text(jget_str(#[trigger] tcs[i], "id"@)) == Some(id),
    decreases tcs.len(),
{
    let t = tcs.drop_first();
    match nonempty_text(jget_str(tcs[0], "id"@)) {
        Some(x) => {
            if x == id {
                assert(nonempty_text(jget_str(tcs[0], "id"@)) == Some(id));
            } else {
                let y = choose|y: int| 0 <= y < ids_of_calls(tcs).len() && ids_of_calls(tcs)[y] == id;
                assert(ids_of_calls(tcs) == seq![x] + ids_of_calls(t));
                assert(ids_of_calls(t)[y - 1] == id);
                lemma_ids_of_calls_from(t, id);
                let i = choose|i: int| 0 <= i < t.len() && nonempty_text(jget_str(#[trigger] t[i], "id"@)) == Some(id);
                assert(tcs[i + 1] == t[i]);
            }
        },
        None => {
            lemma_ids_of_calls_from(t, id);
            let i = choose|i: int| 0 <= i < t.len() && nonempty_text(jget_str(#[trigger] t[i], "id"@)) == Some(id);
            assert(tcs[i + 1] == t[i]);
        },
    }
}

/// A call with a non-empty id lends it to the ids of the calls.
proof fn lemma_ids_of_calls_to(tcs: Seq<JsonV>, i: int, id: Seq<char>)
    requires
        0 <= i < tcs.len(),
        nonempty_text(jget_str(tcs[i], "id"@)) == Some(id),
    ensures
        ids_of_calls(tcs).contains(id),
    decreases tcs.len(),
{
    let t = tcs.drop_first();
    if i == 0 {
        assert(ids_of_calls(tcs) == seq![id] + ids_of_calls(t));
        assert(ids_of_calls(tcs)[0] == id);
    } else {
        assert(t[i - 1] == tcs[i]);
        lemma_ids_of_calls_to(t, i - 1, id);
        let y = choose|y: int| 0 <= y < ids_of_calls(t).len() && ids_of_calls(t)[y] == id;
        match nonempty_text(jget_str(tcs[0], "id"@)) {
            Some(x) => {
                assert(ids_of_calls(tcs) == seq![x] + ids_of_calls(t));
                assert(ids_of_calls(tcs)[y + 1] == id);
            },
            None => {},
        }
    }
}

/// Keeping the answered calls keeps the assistant message and every
/// answered id among its calls.
proof fn lemma_filter_calls_keeps(m: JsonV, answered: Seq<Seq<char>>)
    requires
        answered.len() > 0,
        forall|j: int| 0 <= j < answered.len() ==> call_ids(m).contains(#[trigger] answered[j]),
    ensures
        role_is(filter_calls(m, answered), "assistant"@),
        forall|j: int| 0 <= j < answered.len() ==> call_ids(filter_calls(m, answered)).contains(#[trigger] answered[j]),
{
    reveal_strlit("role");
    reveal_strlit("tool_calls");
    assert("role"@ != "tool_calls"@) by {
        assert("role"@.len() != "tool_calls"@.len());
    }
    assert(call_ids(m).contains(answered[0]));
    let ms = m->Object_0;
    let tcs = jget(m, "tool_calls"@)->0->Array_0;
    let pred = |tc: JsonV| call_answered(tc, answered);
    let kept = tcs.filter(pred);
    lemma_ids_of_calls_from(tcs, answered[0]);
    let i0 = choose|i: int| 0 <= i < tcs.len() && nonempty_text(jget_str(#[trigger] tcs[i], "id"@)) == Some(answered[0]);
    assert(pred(tcs[i0])) by {
        assert(answered[0] == answered[0]);
    }
    tcs.lemma_filter_contains(pred, i0);
    assert(kept.len() > 0);
    let f = filter_calls(m, answered);
    assert(f == JsonV::Object(insert_member(ms, "tool_calls"@, JsonV::Array(kept))));
    lemma_lookup_insert_other(ms, "tool_calls"@, JsonV::Array(kept), "role"@);
    lemma_lookup_insert_same(ms, "tool_calls"@, JsonV::Array(kept));
    assert(call_ids(f) == ids_of_calls(kept));
    assert forall|j: int| 0 <= j < answered.len() implies call_ids(f).contains(#[trigger] answered[j]) by {
        let id = answered[j];
        lemma_ids_of_calls_from(tcs, id);
        let i = choose|i: int| 0 <= i < tcs.len() && nonempty_text(jget_str(#[trigger] tcs[i], "id"@)) == Some(id);
        assert(pred(tcs[i]));
        tcs.lemma_filter_contains(pred, i);
        let x = choose|x: int| 0 <= x < kept.len() && kept[x] == tcs[i];
        lemma_ids_of_calls_to(kept, x, id);
    }
}

/// Dropping a key leaves the lookup of every other key as it was.
pub proof fn lemma_lookup_without_other(ms: Seq<(Seq<char>, JsonV)>, k: Seq<char>, other: Seq<char>)
    requires
        other != k,
    ensures
        member_lookup(crate::responses_compat::without_key(ms, k), other) == member_lookup(ms, other),
    decreases ms.len(),
{
    if ms.len() > 0 {
        lemma_lookup_without_other(ms.drop_first(), k, other);
        let w = crate::responses_compat::without_key(ms.drop_first(), k);
        if ms[0].0 != k {
            let u = seq![ms[0]] + w;
            assert(u[0] == ms[0]);
            assert(u.drop_first() =~= w);
        }
    }
}

/// Filtering the calls keeps the message's role.
proof fn lemma_filter_calls_role(m: JsonV, answered: Seq<Seq<char>>)
    ensures
        jget(filter_calls(m, answered), "role"@) == jget(m, "role"@),
{
    reveal_strlit("role");
    reveal_strlit("tool_calls");
    assert("role"@ != "tool_calls"@) by {
        assert("role"@.len() != "tool_calls"@.len());
    }
    match m {
        JsonV::Object(ms) => match member_lookup(ms, "tool_calls"@) {
            Some(JsonV::Array(tcs)) => {
                let kept = tcs.filter(|tc: JsonV| call_answered(tc, answered));
                lemma_lookup_without_other(ms, "tool_calls"@, "role"@);
                lemma_lookup_insert_other(ms, "tool_calls"@, JsonV::Array(kept), "role"@);
            },
            _ => {},
        },
        _ => {},
    }
}

/// The orphan output of a tool message is a user message.
proof fn lemma_orphan_not_tool(m: JsonV)
    ensures
        !role_is(orphan_message(m), "tool"@),
{
    reveal_strlit("role");
    reveal_strlit("user");
    reveal_strlit("tool");
    let o = orphan_message(m);
    let ms = o->Object_0;
    assert(ms[0].0 == "role"@);
    lemma_lookup_at(ms, "role"@, 0);
    assert("user"@ != "tool"@) by {
        assert("user"@[0] != "tool"@[0]);
    }
}

/// A prefix without tool messages of its own keeps the property.
proof fn lemma_prefix_follow(p: Seq<JsonV>, s: Seq<JsonV>)
    requires
        tools_follow_calls(s),
        forall|i: int| 0 <= i < p.len() ==> !#[trigger] role_is(p[i], "tool"@) || follows_its_call(p, i),
    ensures
        tools_follow_calls(p + s),
{
    let u = p + s;
    assert forall|i: int| 0 <= i < u.len() && #[trigger] role_is(u[i], "tool"@) implies follows_its_call(u, i) by {
        if i < p.len() {
            assert(u[i] == p[i]);
            let k = choose|k: int|
                #![trigger p[k]]
                0 <= k < i && role_is(p[k], "assistant"@) && (jget_str(p[i], "tool_call_id"@) matches Some(id)
                    && call_ids(p[k]).contains(id)) && forall|j: int| k < j < i ==> #[trigger] role_is(p[j], "tool"@);
            assert(u[k] == p[k]);
            assert forall|j: int| k < j < i implies #[trigger] role_is(u[j], "tool"@) by {
                assert(u[j] == p[j]);
                assert(role_is(p[j], "tool"@));
            }
        } else {
            let i1 = i - p.len();
            assert(u[i] == s[i1]);
            assert(role_is(s[i1], "tool"@));
            assert(follows_its_call(s, i1));
            let k = choose|k: int|
                #![trigger s[k]]
                0 <= k < i1 && role_is(s[k], "assistant"@) && (jget_str(s[i1], "tool_call_id"@) matches Some(id)
                    && call_ids(s[k]).contains(id)) && forall|j: int| k < j < i1 ==> #[trigger] role_is(s[j], "tool"@);
            assert(u[k + p.len()] == s[k]);
            assert forall|j: int| k + p.len() < j < i implies #[trigger] role_is(u[j], "tool"@) by {
                assert(u[j] == s[j - p.len()]);
                assert(role_is(s[j - p.len()], "tool"@));
            }
        }
    }
}

proof fn lemma_repair_from_follows(msgs: Seq<JsonV>, taken: Seq<bool>, index: int)
    ensures
        tools_follow_calls(repair_from(msgs, taken, index)),
    decreases msgs.len() - index,
{
    if index < 0 || index >= msgs.len() {
    } else if taken[index] {
        lemma_repair_from_follows(msgs, taken, index + 1);
    } else {
        let m = msgs[index];
        let ids = call_ids(m);
        if ids.len() == 0 {
            let x = if role_is(m, "tool"@) {
                orphan_message(m)
            } else {
                m
            };
            lemma_orphan_not_tool(m);
            lemma_repair_from_follows(msgs, taken, index + 1);
            lemma_prefix_follow(seq![x], repair_from(msgs, taken, index + 1));
        } else {
            let r = match_answers(msgs, taken, index + 1, ids);
            lemma_match_answers(msgs, taken, index + 1, ids);
            lemma_repair_from_follows(msgs, r.0, index + 1);
            let f = filter_calls(m, r.1);
            let p = seq![f] + r.2;
            if r.1.len() > 0 {
                lemma_filter_calls_keeps(m, r.1);
            }
            reveal_strlit("assistant");
            reveal_strlit("tool");
            assert forall|i: int| 0 <= i < p.len() implies !#[trigger] role_is(p[i], "tool"@) || follows_its_call(p, i) by {
                if i > 0 {
                    assert(p[i] == r.2[i - 1]);
                    assert(answers(r.2[i - 1], r.1[i - 1]));
                    assert(p[0] == f);
                    assert(call_ids(f).contains(r.1[i - 1]));
                    assert forall|j: int| 0 < j < i implies #[trigger] role_is(p[j], "tool"@) by {
                        assert(p[j] == r.2[j - 1]);
                        assert(answers(r.2[j - 1], r.1[j - 1]));
                    }
                } else {
                    assert(p[0] == f);
                    lemma_filter_calls_role(m, r.1);
                    assert(role_is(m, "assistant"@));
                    assert("assistant"@ != "tool"@) by {
                        assert("assistant"@.len() != "tool"@.len());
                    }
                }
            }
            lemma_prefix_follow(p, repair_from(msgs, r.0, index + 1));
            assert(repair_from(msgs, taken, index) == p + repair_from(msgs, r.0, index + 1));
        }
    }
}

/// After the repair, every tool message follows, with only tool messages
/// between, an assistant message that calls it: no output is left without
/// its call.
pub proof fn law_tool_outputs_follow_their_calls(msgs: Seq<JsonV>)
    ensures
        tools_follow_calls(repaired_messages(msgs)),
{
    lemma_repair_from_follows(msgs, Seq::new(msgs.len(), |i: int| false), 0);
}

/// The call `id` of the assistant message at `k` is answered by one of the
/// tool messages that directly follow it.
pub open spec fn answered_after(s: Seq<JsonV>, k: int, id: Seq<char>) -> bool {
    exists|i: int|
        #![trigger s[i]]
        k < i < s.len() && answers(s[i], id) && forall|j: int| k < j <= i ==> #[trigger] role_is(s[j], "tool"@)
}

/// Every call of every assistant message of `s` is answered right after it.
pub open spec fn calls_answered(s: Seq<JsonV>) -> bool {
    forall|k: int, id: Seq<char>|
        0 <= k < s.len() && #[trigger] call_ids(s[k]).contains(id) ==> answered_after(s, k, id)
}

/// Dropping a key makes its lookup find nothing.
pub proof fn lemma_lookup_without_same(ms: Seq<(Seq<char>, JsonV)>, k: Seq<char>)
    ensures
        member_lookup(crate::responses_compat::without_key(ms, k), k) is None,
    decreases ms.len(),
{
    if ms.len() > 0 {
        lemma_lookup_without_same(ms.drop_first(), k);
        let w = crate::responses_compat::without_key(ms.drop_first(), k);
        if ms[0].0 != k {
            let u = seq![ms[0]] + w;
            assert(u[0] == ms[0]);
            assert(u.drop_first() =~= w);
        }
    }
}

/// The calls left after filtering are all answered ones.
proof fn lemma_filter_calls_only_answered(m: JsonV, answered: Seq<Seq<char>>, id: Seq<char>)
    requires
        call_ids(filter_calls(m, answered)).contains(id),
    ensures
        answered.contains(id),
{
    reveal_strlit("role");
    reveal_strlit("tool_calls");
    assert("role"@ != "tool_calls"@) by {
        assert("role"@.len() != "tool_calls"@.len());
    }
    let f = filter_calls(m, answered);
    match m {
        JsonV::Object(ms) => match member_lookup(ms, "tool_calls"@) {
            Some(JsonV::Array(tcs)) => {
                let pred = |tc: JsonV| call_answered(tc, answered);
                let kept = tcs.filter(pred);
                if kept.len() == 0 {
                    lemma_lookup_without_same(ms, "tool_calls"@);
                    lemma_lookup_without_other(ms, "tool_calls"@, "role"@);
                } else {
                    lemma_lookup_insert_same(ms, "tool_calls"@, JsonV::Array(kept));
                    lemma_lookup_insert_other(ms, "tool_calls"@, JsonV::Array(kept), "role"@);
                    assert(call_ids(f) == ids_of_calls(kept));
                    lemma_ids_of_calls_from(kept, id);
                    let i = choose|i: int| 0 <= i < kept.len() && nonempty_text(jget_str(#[trigger] kept[i], "id"@)) == Some(id);
                    tcs.lemma_filter_pred(pred, i);
                }
            },
            _ => {},
        },
        _ => {},
    }
}

/// A prefix whose own calls are answered within it keeps the property.
proof fn lemma_prefix_answered(p: Seq<JsonV>, s: Seq<JsonV>)
    requires
        calls_answered(s),
        forall|k: int, id: Seq<char>|
            0 <= k < p.len() && #[trigger] call_ids(p[k]).contains(id) ==> answered_after(p, k, id),
    ensures
        calls_answered(p + s),
{
    let u = p + s;
    assert forall|k: int, id: Seq<char>| 0 <= k < u.len() && #[trigger] call_ids(u[k]).contains(id) implies answered_after(
        u,
        k,
        id,
    ) by {
        if k < p.len() {
            assert(u[k] == p[k]);
            assert(answered_after(p, k, id));
            let i = choose|i: int|
                #![trigger p[i]]
                k < i < p.len() && answers(p[i], id) && forall|j: int| k < j <= i ==> #[trigger] role_is(p[j], "tool"@);
            assert(u[i] == p[i]);
            assert forall|j: int| k < j <= i implies #[trigger] role_is(u[j], "tool"@) by {
                assert(u[j] == p[j]);
                assert(role_is(p[j], "tool"@));
            }
        } else {
            let k1 = k - p.len();
            assert(u[k] == s[k1]);
            assert(call_ids(s[k1]).contains(id));
            assert(answered_after(s, k1, id));
            let i = choose|i: int|
                #![trigger s[i]]
                k1 < i < s.len() && answers(s[i], id) && forall|j: int| k1 < j <= i ==> #[trigger] role_is(s[j], "tool"@);
            assert(u[i + p.len()] == s[i]);
            assert forall|j: int| k < j <= i + p.len() implies #[trigger] role_is(u[j], "tool"@) by {
                assert(u[j] == s[j - p.len()]);
                assert(role_is(s[j - p.len()], "tool"@));
            }
        }
    }
}

proof fn lemma_repair_from_answered(msgs: Seq<JsonV>, taken: Seq<bool>, index: int)
    ensures
        calls_answered(repair_from(msgs, taken, index)),
    decreases msgs.len() - index,
{
    if index < 0 || index >= msgs.len() {
    } else if taken[index] {
        lemma_repair_from_answered(msgs, taken, index + 1);
    } else {
        let m = msgs[index];
        let ids = call_ids(m);
        reveal_strlit("assistant");
        reveal_strlit("tool");
        if ids.len() == 0 {
            let x = if role_is(m, "tool"@) {
                orphan_message(m)
            } else {
                m
            };
            lemma_orphan_not_tool(m);
            lemma_repair_from_answered(msgs, taken, index + 1);
            assert forall|k: int, id: Seq<char>| 0 <= k < 1 && #[trigger] call_ids(seq![x][k]).contains(id) implies answered_after(
                seq![x],
                k,
                id,
            ) by {
                assert(seq![x][0] == x);
                if role_is(m, "tool"@) {
                    assert(role_is(m, "tool"@) && !role_is(m, "assistant"@)) by {
                        assert("assistant"@ != "tool"@) by {
                            assert("assistant"@.len() != "tool"@.len());
                        }
                    }
                    let o = orphan_message(m);
                    reveal_strlit("role");
                    reveal_strlit("user");
                    lemma_lookup_at(o->Object_0, "role"@, 0);
                    assert("user"@ != "assistant"@) by {
                        assert("user"@.len() != "assistant"@.len());
                    }
                }
            }
            lemma_prefix_answered(seq![x], repair_from(msgs, taken, index + 1));
        } else {
            let r = match_answers(msgs, taken, index + 1, ids);
            lemma_match_answers(msgs, taken, index + 1, ids);
            lemma_repair_from_answered(msgs, r.0, index + 1);
            let f = filter_calls(m, r.1);
            let p = seq![f] + r.2;
            assert forall|k: int, id: Seq<char>| 0 <= k < p.len() && #[trigger] call_ids(p[k]).contains(id) implies answered_after(
                p,
                k,
                id,
            ) by {
                if k == 0 {
                    assert(p[0] == f);
                    lemma_filter_calls_only_answered(m, r.1, id);
                    let x = choose|x: int| 0 <= x < r.1.len() && r.1[x] == id;
                    assert(p[x + 1] == r.2[x]);
                    assert(answers(r.2[x], r.1[x]));
                    assert forall|j: int| 0 < j <= x + 1 implies #[trigger] role_is(p[j], "tool"@) by {
                        assert(p[j] == r.2[j - 1]);
                        assert(answers(r.2[j - 1], r.1[j - 1]));
                    }
                } else {
                    assert(p[k] == r.2[k - 1]);
                    assert(answers(r.2[k - 1], r.1[k - 1]));
                    assert(!role_is(p[k], "assistant"@)) by {
                        assert("assistant"@ != "tool"@) by {
                            assert("assistant"@.len() != "tool"@.len());
                        }
                    }
                }
            }
            lemma_prefix_answered(p, repair_from(msgs, r.0, index + 1));
            assert(repair_from(msgs, taken, index) == p + repair_from(msgs, r.0, index + 1));
        }
    }
}

/// After the repair, every call that an assistant message keeps is
/// answered by one of the tool messages that directly follow it.
pub proof fn law_kept_calls_are_answered_next(msgs: Seq<JsonV>)
    ensures
        calls_answered(repaired_messages(msgs)),
{
    lemma_repair_from_answered(msgs, Seq::new(msgs.len(), |i: int| false), 0);
}

} // verus!
