//! Responses API input items turned into Chat Completions messages.
//!
//! An item holds, as plain values, what the conversion reads of it; the
//! arguments and output of tool calls come already in their Chat form.
//! Consecutive tool calls become one assistant message; a reasoning item
//! joins the tool calls or the assistant message that follows it; a tool
//! output whose call was dropped is dropped too, and one whose call was
//! never seen becomes a user message.
use vstd::prelude::*;
use crate::chat_messages::{drops_after_tool_filtering, orphan_output, should_drop_message_after_tool_filtering};
use crate::codex::or_default;
use crate::json::{json_string_literal, json_string_text, json_text, member_views, to_json_text, views, Json, JsonV};
use crate::text::{append_str, append_vec, from_chars, to_chars};
use crate::tool_names::{
    custom_target, decimal, decimal_exec, encode_result, function_target, opt_view, tool_search_target,
    TargetView, ToolCallTarget, ToolNameMap,
};

verus! {

// ─── items ─────────────────────────────────────────────────────────────

#[derive(Debug, Clone, Copy, PartialEq, Eq, Structural)]
pub enum ItemType {
    InputText,
    InputImage,
    Message,
    Reasoning,
    FunctionCall,
    ToolSearchCall,
    CustomToolCall,
    WebSearchCall,
    ImageGenerationCall,
    FunctionCallOutput,
    ToolSearchOutput,
    CustomToolCallOutput,
    OutputText,
    Unknown,
}

/// One part of a message's content.
#[derive(Debug)]
pub struct ContentPart {
    pub part_type: String,
    pub text: Option<String>,
    pub image_url: Option<String>,
    pub detail: Option<String>,
}

#[derive(Debug)]
pub enum ItemContent {
    Text(String),
    Parts(Vec<ContentPart>),
}

/// A Responses API input item: what the conversion reads of it.
#[derive(Debug)]
pub struct ResponseItem {
    pub item_type: ItemType,
    pub role: Option<String>,
    pub text: Option<String>,
    pub content: Option<ItemContent>,
    pub image_url: Option<String>,
    pub detail: Option<String>,
    pub id: Option<String>,
    pub call_id: Option<String>,
    pub name: Option<String>,
    pub namespace: Option<String>,
    pub input: Option<String>,
    /// The call's arguments as Chat Completions expects them.
    pub chat_arguments: Option<String>,
    /// The call's output as Chat Completions tool content.
    pub chat_output: Option<String>,
    pub status: Option<String>,
    pub execution: Option<String>,
    pub tools: Option<Vec<Json>>,
    /// The texts of the reasoning summary.
    pub summary: Option<Vec<String>>,
}

pub open spec fn or_str(o: Option<String>, d: Seq<char>) -> Seq<char> {
    or_default(opt_view(o), d)
}

fn or_str_exec(o: &Option<String>, d: &str) -> (r: Vec<char>)
    ensures
        r@ == or_str(*o, d@),
{
    match o {
        Some(v) => to_chars(v.as_str()),
        None => to_chars(d),
    }
}

fn or_empty_exec(o: &Option<String>) -> (r: Vec<char>)
    ensures
        r@ == or_str(*o, Seq::empty()),
{
    match o {
        Some(v) => to_chars(v.as_str()),
        None => Vec::new(),
    }
}

fn str_json(v: &Vec<char>) -> (r: Json)
    ensures
        r@ == JsonV::Str(v@),
{
    Json::Str(from_chars(v))
}

/// Adds a member at the end of an object being built.
fn push_member(members: &mut Vec<(String, Json)>, key: &str, value: Json)
    ensures
        member_views(final(members)@) == member_views(old(members)@).push((key@, value@)),
{
    let ghost before = members@;
    members.push((String::from_str(key), value));
    assert(members@.drop_last() =~= before);
}

/// An object with the given members, in order.
pub open spec fn obj(m: Seq<(Seq<char>, JsonV)>) -> JsonV {
    JsonV::Object(m)
}

// ─── message content ───────────────────────────────────────────────────

pub open spec fn is_text_part_type(t: Seq<char>) -> bool {
    t == "output_text"@ || t == "input_text"@ || t == "text"@
}

pub open spec fn image_object(url: Seq<char>, detail: Option<Seq<char>>) -> JsonV {
    match detail {
        Some(d) => obj(Seq::empty().push(("url"@, JsonV::Str(url))).push(("detail"@, JsonV::Str(d)))),
        None => obj(Seq::empty().push(("url"@, JsonV::Str(url)))),
    }
}

pub open spec fn part_json(p: ContentPart) -> JsonV {
    if p.part_type@ == "image_url"@ || p.part_type@ == "input_image"@ {
        obj(
            Seq::empty().push(("type"@, JsonV::Str("image_url"@))).push(
                ("image_url"@, image_object(or_str(p.image_url, Seq::empty()), opt_view(p.detail))),
            ),
        )
    } else {
        obj(
            Seq::empty().push(("type"@, JsonV::Str("text"@))).push(
                ("text"@, JsonV::Str(or_str(p.text, Seq::empty()))),
            ),
        )
    }
}

/// The Chat content of a message item: its text, its only text part, or its parts converted one by one.
pub open spec fn message_content(item: ResponseItem) -> JsonV {
    match item.content {
        Some(ItemContent::Text(s)) => JsonV::Str(s@),
        Some(ItemContent::Parts(parts)) => if parts@.len() == 1 && is_text_part_type(parts@[0].part_type@) {
            JsonV::Str(or_str(parts@[0].text, Seq::empty()))
        } else {
            JsonV::Array(parts@.map_values(|p: ContentPart| part_json(p)))
        },
        None => match item.text {
            Some(t) => JsonV::Str(t@),
            None => JsonV::Null,
        },
    }
}

fn is_text_part_type_exec(t: &String) -> (r: bool)
    ensures
        r == is_text_part_type(t@),
{
    let v = to_chars(t.as_str());
    crate::text::eq_str(&v, "output_text") || crate::text::eq_str(&v, "input_text") || crate::text::eq_str(
        &v,
        "text",
    )
}

fn image_object_exec(url: &Vec<char>, detail: &Option<String>) -> (r: Json)
    ensures
        r@ == image_object(url@, opt_view(*detail)),
{
    let mut m: Vec<(String, Json)> = Vec::new();
    push_member(&mut m, "url", str_json(url));
    match detail {
        Some(d) => push_member(&mut m, "detail", Json::Str(d.clone())),
        None => {},
    }
    Json::Object(m)
}

fn part_json_exec(p: &ContentPart) -> (r: Json)
    ensures
        r@ == part_json(*p),
{
    let t = to_chars(p.part_type.as_str());
    let mut m: Vec<(String, Json)> = Vec::new();
    if crate::text::eq_str(&t, "image_url") || crate::text::eq_str(&t, "input_image") {
        push_member(&mut m, "type", Json::Str(String::from_str("image_url")));
        push_member(&mut m, "image_url", image_object_exec(&or_empty_exec(&p.image_url), &p.detail));
    } else {
        push_member(&mut m, "type", Json::Str(String::from_str("text")));
        push_member(&mut m, "text", str_json(&or_empty_exec(&p.text)));
    }
    Json::Object(m)
}

pub fn extract_message_content(item: &ResponseItem) -> (r: Json)
    ensures
        r@ == message_content(*item),
{
    match &item.content {
        Some(ItemContent::Text(s)) => Json::Str(s.clone()),
        Some(ItemContent::Parts(parts)) => {
            if parts.len() == 1 && is_text_part_type_exec(&parts[0].part_type) {
                return str_json(&or_empty_exec(&parts[0].text));
            }
            let mut out: Vec<Json> = Vec::new();
            let mut k: usize = 0;
            while k < parts.len()
                invariant
                    k <= parts@.len(),
                    views(out@) == parts@.take(k as int).map_values(|p: ContentPart| part_json(p)),
                decreases parts@.len() - k,
            {
                let ghost before = out@;
                out.push(part_json_exec(&parts[k]));
                proof {
                    assert(out@.drop_last() =~= before);
                    assert(parts@.take(k + 1).map_values(|p: ContentPart| part_json(p)) =~= parts@.take(
                        k as int,
                    ).map_values(|p: ContentPart| part_json(p)).push(part_json(parts@[k as int])));
                }
                k += 1;
            }
            assert(parts@.take(parts@.len() as int) =~= parts@);
            Json::Array(out)
        },
        None => match &item.text {
            Some(t) => Json::Str(t.clone()),
            None => Json::Null,
        },
    }
}

/// `extract_reasoning_text`: the summary texts, joined.
pub open spec fn reasoning_text(item: ResponseItem) -> Seq<char> {
    match item.summary {
        Some(parts) => concat_texts(parts@),
        None => Seq::empty(),
    }
}

pub open spec fn concat_texts(s: Seq<String>) -> Seq<char>
    decreases s.len(),
{
    if s.len() == 0 {
        Seq::empty()
    } else {
        concat_texts(s.drop_last()) + s.last()@
    }
}

pub fn extract_reasoning_text(item: &ResponseItem) -> (r: Vec<char>)
    ensures
        r@ == reasoning_text(*item),
{
    let mut out: Vec<char> = Vec::new();
    match &item.summary {
        Some(parts) => {
            let mut k: usize = 0;
            while k < parts.len()
                invariant
                    k <= parts@.len(),
                    out@ == concat_texts(parts@.take(k as int)),
                decreases parts@.len() - k,
            {
                append_str(&mut out, parts[k].as_str());
                proof {
                    assert(parts@.take(k + 1).drop_last() =~= parts@.take(k as int));
                }
                k += 1;
            }
            assert(parts@.take(parts@.len() as int) =~= parts@);
        },
        None => {},
    }
    out
}

/// `tool_search_output_to_chat_content`: the search result as JSON text.
pub open spec fn tool_search_output_content(item: ResponseItem) -> Seq<char> {
    json_text(
        obj(
            Seq::empty().push(("status"@, JsonV::Str(or_str(item.status, "completed"@)))).push(
                ("execution"@, JsonV::Str(or_str(item.execution, "client"@))),
            ).push(
                (
                    "tools"@,
                    JsonV::Array(
                        match item.tools {
                            Some(t) => views(t@),
                            None => Seq::empty(),
                        },
                    ),
                ),
            ),
        ),
    )
}

fn clone_jsons(v: &Vec<Json>) -> (r: Vec<Json>)
    ensures
        views(r@) == views(v@),
{
    let mut out: Vec<Json> = Vec::new();
    let mut k: usize = 0;
    while k < v.len()
        invariant
            k <= v@.len(),
            views(out@) == views(v@.take(k as int)),
        decreases v@.len() - k,
    {
        let ghost before = out@;
        out.push(v[k].deep_clone());
        proof {
            assert(out@.drop_last() =~= before);
            assert(v@.take(k + 1).drop_last() =~= v@.take(k as int));
        }
        k += 1;
    }
    assert(v@.take(v@.len() as int) =~= v@);
    out
}

pub fn tool_search_output_to_chat_content(item: &ResponseItem) -> (r: String)
    ensures
        r@ == tool_search_output_content(*item),
{
    let mut m: Vec<(String, Json)> = Vec::new();
    push_member(&mut m, "status", str_json(&or_str_exec(&item.status, "completed")));
    push_member(&mut m, "execution", str_json(&or_str_exec(&item.execution, "client")));
    let tools = match &item.tools {
        Some(t) => clone_jsons(t),
        None => Vec::new(),
    };
    proof {
        if item.tools is None {
            assert(views(tools@) =~= Seq::<JsonV>::empty());
        }
    }
    push_member(&mut m, "tools", Json::Array(tools));
    to_json_text(&Json::Object(m))
}


// ─── tool calls ────────────────────────────────────────────────────────

/// The tool name table (both directions) and the ids of tool calls that
/// were dropped and that were kept.
pub type ToolState = (Map<Seq<char>, TargetView>, Map<TargetView, Seq<char>>, Seq<Seq<char>>, Seq<Seq<char>>);

/// The messages so far and the tool state.
pub type ConvState = (Seq<JsonV>, ToolState);

pub open spec fn is_tool_call_type(t: ItemType) -> bool {
    t == ItemType::FunctionCall || t == ItemType::ToolSearchCall || t == ItemType::CustomToolCall
        || t == ItemType::WebSearchCall || t == ItemType::ImageGenerationCall
}

/// The tool a call names; web searches and image generations name none
/// and are dropped.
pub open spec fn call_target(item: ResponseItem) -> Option<TargetView> {
    if item.item_type == ItemType::FunctionCall {
        Some(function_target(opt_view(item.namespace), or_str(item.name, Seq::empty())))
    } else if item.item_type == ItemType::ToolSearchCall {
        Some(tool_search_target())
    } else if item.item_type == ItemType::CustomToolCall {
        Some(custom_target(or_str(item.name, Seq::empty())))
    } else {
        None
    }
}

/// A custom tool's input wrapped as `{"input": ...}`; other calls' Chat
/// arguments, or `{}`.
pub open spec fn call_arguments(item: ResponseItem) -> Seq<char> {
    if item.item_type == ItemType::CustomToolCall {
        json_text(obj(Seq::empty().push(("input"@, JsonV::Str(or_str(item.input, Seq::empty()))))))
    } else {
        or_str(item.chat_arguments, "{}"@)
    }
}

/// `build_function_tool_call`: the Chat tool call at `index`.
pub open spec fn tool_call_json(item: ResponseItem, index: nat, name: Seq<char>) -> JsonV {
    obj(
        Seq::empty().push(("index"@, JsonV::Number(decimal(index)))).push(
            ("id"@, JsonV::Str(or_str(item.call_id, Seq::empty()))),
        ).push(("type"@, JsonV::Str("function"@))).push(
            (
                "function"@,
                obj(
                    Seq::empty().push(("name"@, JsonV::Str(name))).push(
                        ("arguments"@, JsonV::Str(call_arguments(item))),
                    ),
                ),
            ),
        ),
    )
}

/// The tool state after encoding a target's name (`ToolNameMap::encode`).
pub open spec fn encode_in(ts: ToolState, t: TargetView) -> (Seq<char>, ToolState) {
    let name = encode_result(ts.0, ts.1, t);
    (
        name,
        (
            if ts.1.contains_key(t) {
                ts.0
            } else {
                ts.0.insert(name, t)
            },
            ts.1.insert(t, name),
            ts.2,
            ts.3,
        ),
    )
}

pub open spec fn nonempty_ids(o: Option<String>) -> Seq<Seq<char>> {
    match o {
        Some(s) => if s@.len() > 0 {
            seq![s@]
        } else {
            Seq::empty()
        },
        None => Seq::empty(),
    }
}

/// A run of consecutive tool calls from `j`: where it ends, the Chat tool
/// calls, and the tool state after it.
pub open spec fn tool_run(items: Seq<ResponseItem>, j: int, calls: Seq<JsonV>, ts: ToolState) -> (int, Seq<JsonV>, ToolState)
    decreases items.len() - j,
{
    if 0 <= j < items.len() && is_tool_call_type(items[j].item_type) {
        let item = items[j];
        match call_target(item) {
            Some(t) => {
                let (name, ts2) = encode_in(ts, t);
                tool_run(
                    items,
                    j + 1,
                    calls.push(tool_call_json(item, calls.len(), name)),
                    (ts2.0, ts2.1, ts2.2, ts2.3 + nonempty_ids(item.call_id)),
                )
            },
            None => tool_run(
                items,
                j + 1,
                calls,
                (ts.0, ts.1, ts.2 + nonempty_ids(item.call_id) + nonempty_ids(item.id), ts.3),
            ),
        }
    } else {
        (j, calls, ts)
    }
}

pub proof fn lemma_tool_run_end(items: Seq<ResponseItem>, j: int, calls: Seq<JsonV>, ts: ToolState)
    requires
        0 <= j <= items.len(),
    ensures
        j <= tool_run(items, j, calls, ts).0 <= items.len(),
        j < items.len() && is_tool_call_type(items[j].item_type) ==> j < tool_run(items, j, calls, ts).0,
    decreases items.len() - j,
{
    if j < items.len() && is_tool_call_type(items[j].item_type) {
        let item = items[j];
        match call_target(item) {
            Some(t) => {
                let (name, ts2) = encode_in(ts, t);
                lemma_tool_run_end(
                    items,
                    j + 1,
                    calls.push(tool_call_json(item, calls.len(), name)),
                    (ts2.0, ts2.1, ts2.2, ts2.3 + nonempty_ids(item.call_id)),
                );
            },
            None => lemma_tool_run_end(
                items,
                j + 1,
                calls,
                (ts.0, ts.1, ts.2 + nonempty_ids(item.call_id) + nonempty_ids(item.id), ts.3),
            ),
        }
    }
}

fn is_tool_call_type_exec(t: ItemType) -> (r: bool)
    ensures
        r == is_tool_call_type(t),
{
    match t {
        ItemType::FunctionCall | ItemType::ToolSearchCall | ItemType::CustomToolCall | ItemType::WebSearchCall
        | ItemType::ImageGenerationCall => true,
        _ => false,
    }
}

pub open spec fn strs(v: Seq<String>) -> Seq<Seq<char>> {
    v.map_values(|s: String| s@)
}

fn push_ids(v: &mut Vec<String>, o: &Option<String>)
    ensures
        strs(final(v)@) == strs(old(v)@) + nonempty_ids(*o),
{
    match o {
        Some(s) => {
            if s.as_str().unicode_len() > 0 {
                v.push(s.clone());
                assert(strs(v@) =~= strs(old(v)@) + nonempty_ids(*o));
            } else {
                assert(strs(v@) =~= strs(old(v)@) + nonempty_ids(*o));
            }
        },
        None => {
            assert(strs(v@) =~= strs(old(v)@) + nonempty_ids(*o));
        },
    }
}

fn contains_id(v: &Vec<String>, id: &Vec<char>) -> (r: bool)
    ensures
        r == strs(v@).contains(id@),
{
    let mut k: usize = 0;
    while k < v.len()
        invariant
            k <= v@.len(),
            forall|j: int| 0 <= j < k ==> strs(v@)[j] != id@,
        decreases v@.len() - k,
    {
        let c = to_chars(v[k].as_str());
        if crate::text::eq_vec(&c, id) {
            assert(strs(v@)[k as int] == id@);
            return true;
        }
        k += 1;
    }
    false
}

fn encode_target(map: &mut ToolNameMap, t: ToolCallTarget) -> (r: String)
    requires
        old(map).wf(),
    ensures
        final(map).wf(),
        ({
            let (name, ts) = encode_in((old(map).encoded_view(), old(map).target_view(), Seq::empty(), Seq::empty()), t@);
            r@ == name && final(map).encoded_view() == ts.0 && final(map).target_view() == ts.1
        }),
{
    map.encode(t)
}

/// `build_function_tool_call`: the call at `index` with its name encoded,
/// or nothing for a call that names no tool.
fn build_function_tool_call(item: &ResponseItem, index: usize, map: &mut ToolNameMap) -> (r: Option<Json>)
    requires
        old(map).wf(),
    ensures
        final(map).wf(),
        match call_target(*item) {
            Some(t) => {
                let (name, ts) = encode_in((old(map).encoded_view(), old(map).target_view(), Seq::empty(), Seq::empty()), t);
                &&& r matches Some(j) && j@ == tool_call_json(*item, index as nat, name)
                &&& final(map).encoded_view() == ts.0
                &&& final(map).target_view() == ts.1
            },
            None => r is None && final(map).encoded_view() == old(map).encoded_view()
                && final(map).target_view() == old(map).target_view(),
        },
{
    let (name, arguments) = match item.item_type {
        ItemType::FunctionCall => {
            let ns: Option<&str> = match &item.namespace {
                Some(n) => Some(n.as_str()),
                None => None,
            };
            let nm = or_empty_exec(&item.name);
            let name = encode_target(map, ToolCallTarget::function(ns, from_chars(&nm).as_str()));
            (name, or_str_exec(&item.chat_arguments, "{}"))
        },
        ItemType::ToolSearchCall => {
            let name = encode_target(map, ToolCallTarget::tool_search());
            (name, or_str_exec(&item.chat_arguments, "{}"))
        },
        ItemType::CustomToolCall => {
            let nm = or_empty_exec(&item.name);
            let name = encode_target(map, ToolCallTarget::custom(from_chars(&nm).as_str()));
            let mut m: Vec<(String, Json)> = Vec::new();
            push_member(&mut m, "input", str_json(&or_empty_exec(&item.input)));
            (name, to_chars(to_json_text(&Json::Object(m)).as_str()))
        },
        _ => return None,
    };
    let mut f: Vec<(String, Json)> = Vec::new();
    push_member(&mut f, "name", Json::Str(name));
    push_member(&mut f, "arguments", str_json(&arguments));
    let mut m: Vec<(String, Json)> = Vec::new();
    push_member(&mut m, "index", Json::Number(from_chars(&decimal_exec(index))));
    push_member(&mut m, "id", str_json(&or_empty_exec(&item.call_id)));
    push_member(&mut m, "type", Json::Str(String::from_str("function")));
    push_member(&mut m, "function", Json::Object(f));
    Some(Json::Object(m))
}

fn convert_tool_run(
    items: &Vec<ResponseItem>,
    start: usize,
    map: &mut ToolNameMap,
    removed: &mut Vec<String>,
    seen: &mut Vec<String>,
) -> (r: (usize, Vec<Json>))
    requires
        old(map).wf(),
        start <= items@.len(),
    ensures
        final(map).wf(),
        ({
            let (end, calls, ts) = tool_run(
                items@,
                start as int,
                Seq::empty(),
                (old(map).encoded_view(), old(map).target_view(), strs(old(removed)@), strs(old(seen)@)),
            );
            &&& r.0 == end
            &&& views(r.1@) == calls
            &&& ts == (final(map).encoded_view(), final(map).target_view(), strs(final(removed)@), strs(final(seen)@))
        }),
{
    let ghost init: ToolState = (map.encoded_view(), map.target_view(), strs(removed@), strs(seen@));
    let mut calls: Vec<Json> = Vec::new();
    let mut j: usize = start;
    while j < items.len() && is_tool_call_type_exec(items[j].item_type)
        invariant
            start <= j <= items@.len(),
            map.wf(),
            tool_run(items@, j as int, views(calls@), (map.encoded_view(), map.target_view(), strs(removed@), strs(seen@)))
                == tool_run(items@, start as int, Seq::empty(), init),
        decreases items@.len() - j,
    {
        let ghost ts: ToolState = (map.encoded_view(), map.target_view(), strs(removed@), strs(seen@));
        let ghost cv = views(calls@);
        proof {
            lemma_views_len(calls@);
        }
        match build_function_tool_call(&items[j], calls.len(), map) {
            Some(call) => {
                push_ids(seen, &items[j].call_id);
                let ghost before = calls@;
                calls.push(call);
                proof {
                    assert(calls@.drop_last() =~= before);
                }
            },
            None => {
                push_ids(removed, &items[j].call_id);
                push_ids(removed, &items[j].id);
                proof {
                    assert(strs(removed@) =~= ts.2 + nonempty_ids(items@[j as int].call_id) + nonempty_ids(items@[j as int].id));
                }
            },
        }
        j += 1;
    }
    (j, calls)
}

proof fn lemma_views_len(s: Seq<Json>)
    ensures
        views(s).len() == s.len(),
{
    crate::json::lemma_views(s);
}


// ─── the conversion ────────────────────────────────────────────────────

pub open spec fn role_or_user(item: ResponseItem) -> Seq<char> {
    or_str(item.role, "user"@)
}

pub open spec fn role_content(role: Seq<char>, content: JsonV) -> JsonV {
    obj(Seq::empty().push(("role"@, JsonV::Str(role))).push(("content"@, content)))
}

/// The text of an `input_text` item.
pub open spec fn input_text_of(item: ResponseItem) -> Seq<char> {
    match item.text {
        Some(t) => t@,
        None => match item.content {
            Some(ItemContent::Text(s)) => s@,
            _ => Seq::empty(),
        },
    }
}

/// The first image URL among the parts.
pub open spec fn first_image_url(parts: Seq<ContentPart>) -> Seq<char>
    decreases parts.len(),
{
    if parts.len() == 0 {
        Seq::empty()
    } else {
        match parts[0].image_url {
            Some(u) => u@,
            None => first_image_url(parts.drop_first()),
        }
    }
}

/// The URL of an `input_image` item.
pub open spec fn image_url_of(item: ResponseItem) -> Seq<char> {
    match item.content {
        Some(ItemContent::Text(s)) => s@,
        Some(ItemContent::Parts(parts)) => first_image_url(parts@),
        None => or_str(item.image_url, Seq::empty()),
    }
}

pub open spec fn image_message(item: ResponseItem) -> JsonV {
    role_content(
        role_or_user(item),
        JsonV::Array(
            seq![
                obj(
                    Seq::empty().push(("type"@, JsonV::Str("image_url"@))).push(
                        ("image_url"@, image_object(image_url_of(item), opt_view(item.detail))),
                    ),
                ),
            ],
        ),
    )
}

/// An assistant message: its content, its tool calls when there are any,
/// and its reasoning when there is any.
pub open spec fn assistant_message(content: JsonV, calls: Seq<JsonV>, reasoning: Seq<char>) -> JsonV {
    let m = Seq::empty().push(("role"@, JsonV::Str("assistant"@))).push(("content"@, content));
    let m2 = if calls.len() > 0 {
        m.push(("tool_calls"@, JsonV::Array(calls)))
    } else {
        m
    };
    obj(
        if reasoning.len() > 0 {
            m2.push(("reasoning_content"@, JsonV::Str(reasoning)))
        } else {
            m2
        },
    )
}

pub open spec fn is_output_type(t: ItemType) -> bool {
    t == ItemType::FunctionCallOutput || t == ItemType::ToolSearchOutput || t == ItemType::CustomToolCallOutput
}

pub open spec fn tool_message(call_id: Seq<char>, output: Seq<char>) -> JsonV {
    obj(
        Seq::empty().push(("role"@, JsonV::Str("tool"@))).push(("tool_call_id"@, JsonV::Str(call_id))).push(
            ("content"@, JsonV::Str(output)),
        ),
    )
}

pub open spec fn missing_output_error() -> Seq<char> {
    "function_call_output missing output"@
}

/// `convert_input_to_messages` from item `i` on, with the messages and the
/// tool state so far.
pub open spec fn convert_from(items: Seq<ResponseItem>, i: int, st: ConvState) -> Result<ConvState, Seq<char>>
    decreases items.len() - i,
{
    if i < 0 || i >= items.len() {
        Ok(st)
    } else {
        let item = items[i];
        let (msgs, ts) = st;
        if item.item_type == ItemType::InputText {
            convert_from(items, i + 1, (msgs.push(role_content(role_or_user(item), JsonV::Str(input_text_of(item)))), ts))
        } else if item.item_type == ItemType::InputImage {
            convert_from(
                items,
                i + 1,
                (
                    if image_url_of(item).len() > 0 {
                        msgs.push(image_message(item))
                    } else {
                        msgs
                    },
                    ts,
                ),
            )
        } else if item.item_type == ItemType::Message {
            convert_from(items, i + 1, (msgs.push(role_content(role_or_user(item), message_content(item))), ts))
        } else if item.item_type == ItemType::Reasoning {
            let text = reasoning_text(item);
            let next = i + 1;
            if next < items.len() && is_tool_call_type(items[next].item_type) {
                let (end, calls, ts2) = tool_run(items, next, Seq::empty(), ts);
                proof {
                    lemma_tool_run_end(items, next, Seq::empty(), ts);
                }
                let m = assistant_message(JsonV::Null, calls, text);
                convert_from(
                    items,
                    end,
                    (
                        if drops_after_tool_filtering(m) {
                            msgs
                        } else {
                            msgs.push(m)
                        },
                        ts2,
                    ),
                )
            } else if next < items.len() && (items[next].item_type == ItemType::Message || items[next].item_type
                == ItemType::InputText) && opt_view(items[next].role) == Some("assistant"@) {
                convert_from(
                    items,
                    next + 1,
                    (msgs.push(assistant_message(message_content(items[next]), Seq::empty(), text)), ts),
                )
            } else {
                convert_from(items, next, (msgs.push(assistant_message(JsonV::Null, Seq::empty(), text)), ts))
            }
        } else if is_tool_call_type(item.item_type) {
            let (end, calls, ts2) = tool_run(items, i, Seq::empty(), ts);
            proof {
                lemma_tool_run_end(items, i, Seq::empty(), ts);
            }
            convert_from(
                items,
                end,
                (
                    if calls.len() > 0 {
                        msgs.push(assistant_message(JsonV::Null, calls, Seq::empty()))
                    } else {
                        msgs
                    },
                    ts2,
                ),
            )
        } else if is_output_type(item.item_type) {
            let call_id = or_str(item.call_id, Seq::empty());
            if ts.2.contains(call_id) {
                convert_from(items, i + 1, st)
            } else {
                let output = if item.item_type == ItemType::ToolSearchOutput {
                    Some(tool_search_output_content(item))
                } else {
                    opt_view(item.chat_output)
                };
                match output {
                    None => Err(missing_output_error()),
                    Some(out) => convert_from(
                        items,
                        i + 1,
                        (
                            msgs.push(
                                if call_id.len() == 0 || !ts.3.contains(call_id) {
                                    orphan_output(call_id, out)
                                } else {
                                    tool_message(call_id, out)
                                },
                            ),
                            ts,
                        ),
                    ),
                }
            }
        } else {
            convert_from(items, i + 1, st)
        }
    }
}


fn push_msg(messages: &mut Vec<Json>, m: Json)
    ensures
        views(final(messages)@) == views(old(messages)@).push(m@),
{
    let ghost before = messages@;
    messages.push(m);
    assert(messages@.drop_last() =~= before);
}

fn role_content_exec(role: &Vec<char>, content: Json) -> (r: Json)
    ensures
        r@ == role_content(role@, content@),
{
    let mut m: Vec<(String, Json)> = Vec::new();
    push_member(&mut m, "role", str_json(role));
    push_member(&mut m, "content", content);
    Json::Object(m)
}

fn input_text_exec(item: &ResponseItem) -> (r: Vec<char>)
    ensures
        r@ == input_text_of(*item),
{
    match &item.text {
        Some(t) => to_chars(t.as_str()),
        None => match &item.content {
            Some(ItemContent::Text(s)) => to_chars(s.as_str()),
            _ => Vec::new(),
        },
    }
}

fn image_url_exec(item: &ResponseItem) -> (r: Vec<char>)
    ensures
        r@ == image_url_of(*item),
{
    match &item.content {
        Some(ItemContent::Text(s)) => to_chars(s.as_str()),
        Some(ItemContent::Parts(parts)) => {
            let mut k: usize = 0;
            assert(parts@.skip(0) =~= parts@);
            while k < parts.len()
                invariant
                    k <= parts@.len(),
                    image_url_of(*item) == first_image_url(parts@),
                    first_image_url(parts@) == first_image_url(parts@.skip(k as int)),
                decreases parts@.len() - k,
            {
                assert(parts@.skip(k as int)[0] == parts@[k as int]);
                assert(parts@.skip(k as int).drop_first() =~= parts@.skip(k + 1));
                match &parts[k].image_url {
                    Some(u) => {
                        assert(first_image_url(parts@.skip(k as int)) == u@);
                        return to_chars(u.as_str());
                    },
                    None => {},
                }
                k += 1;
            }
            assert(parts@.skip(k as int) =~= Seq::<ContentPart>::empty());
            Vec::new()
        },
        None => or_empty_exec(&item.image_url),
    }
}

fn image_message_exec(item: &ResponseItem, url: &Vec<char>) -> (r: Json)
    requires
        url@ == image_url_of(*item),
    ensures
        r@ == image_message(*item),
{
    let mut part: Vec<(String, Json)> = Vec::new();
    push_member(&mut part, "type", Json::Str(String::from_str("image_url")));
    push_member(&mut part, "image_url", image_object_exec(url, &item.detail));
    let mut arr: Vec<Json> = Vec::new();
    push_msg(&mut arr, Json::Object(part));
    let r = role_content_exec(&or_str_exec(&item.role, "user"), Json::Array(arr));
    assert(r@ == image_message(*item)) by {
        assert(views(arr@) =~= seq![views(arr@)[0]]);
    }
    r
}

fn assistant_message_exec(content: Json, calls: Vec<Json>, reasoning: &Vec<char>) -> (r: Json)
    ensures
        r@ == assistant_message(content@, views(calls@), reasoning@),
{
    proof {
        crate::json::lemma_views(calls@);
    }
    let mut m: Vec<(String, Json)> = Vec::new();
    push_member(&mut m, "role", Json::Str(String::from_str("assistant")));
    push_member(&mut m, "content", content);
    if calls.len() > 0 {
        push_member(&mut m, "tool_calls", Json::Array(calls));
    }
    if reasoning.len() > 0 {
        push_member(&mut m, "reasoning_content", str_json(reasoning));
    }
    Json::Object(m)
}

fn tool_message_exec(call_id: &Vec<char>, output: &Vec<char>) -> (r: Json)
    ensures
        r@ == tool_message(call_id@, output@),
{
    let mut m: Vec<(String, Json)> = Vec::new();
    push_member(&mut m, "role", Json::Str(String::from_str("tool")));
    push_member(&mut m, "tool_call_id", str_json(call_id));
    push_member(&mut m, "content", str_json(output));
    Json::Object(m)
}

/// The state the conversion starts from.
pub open spec fn start_state(messages: Seq<JsonV>, map: ToolNameMap) -> ConvState {
    (messages, (map.encoded_view(), map.target_view(), Seq::empty(), Seq::empty()))
}

/// `convert_input_to_messages`: appends the Chat messages for the items
/// and records the tool names it encodes. Fails when a tool output other
/// than a tool search result has no output.
pub fn convert_input_to_messages(
    items: &Vec<ResponseItem>,
    messages: &mut Vec<Json>,
    tool_name_map: &mut ToolNameMap,
) -> (r: Result<(), String>)
    requires
        old(tool_name_map).wf(),
    ensures
        final(tool_name_map).wf(),
        match convert_from(items@, 0, start_state(views(old(messages)@), *old(tool_name_map))) {
            Ok(st) => {
                &&& r is Ok
                &&& views(final(messages)@) == st.0
                &&& final(tool_name_map).encoded_view() == st.1.0
                &&& final(tool_name_map).target_view() == st.1.1
            },
            Err(e) => r matches Err(m) && m@ == e,
        },
{
    let mut removed: Vec<String> = Vec::new();
    let mut seen: Vec<String> = Vec::new();
    let ghost total = convert_from(items@, 0, start_state(views(messages@), *tool_name_map));
    proof {
        assert(strs(removed@) =~= Seq::<Seq<char>>::empty());
        assert(strs(seen@) =~= Seq::<Seq<char>>::empty());
    }
    let mut i: usize = 0;
    while i < items.len()
        invariant
            i <= items@.len(),
            tool_name_map.wf(),
            total == convert_from(items@, 0, start_state(views(old(messages)@), *old(tool_name_map))),
            convert_from(
                items@,
                i as int,
                (
                    views(messages@),
                    (tool_name_map.encoded_view(), tool_name_map.target_view(), strs(removed@), strs(seen@)),
                ),
            ) == total,
        decreases items@.len() - i,
    {
        let item = &items[i];
        let t = item.item_type;
        if t == ItemType::InputText {
            let m = role_content_exec(&or_str_exec(&item.role, "user"), str_json(&input_text_exec(item)));
            push_msg(messages, m);
            i += 1;
        } else if t == ItemType::InputImage {
            let url = image_url_exec(item);
            if url.len() > 0 {
                push_msg(messages, image_message_exec(item, &url));
            }
            i += 1;
        } else if t == ItemType::Message {
            let m = role_content_exec(&or_str_exec(&item.role, "user"), extract_message_content(item));
            push_msg(messages, m);
            i += 1;
        } else if t == ItemType::Reasoning {
            let text = extract_reasoning_text(item);
            let next = i + 1;
            if next < items.len() && is_tool_call_type_exec(items[next].item_type) {
                let ghost ts0: ToolState = (tool_name_map.encoded_view(), tool_name_map.target_view(), strs(removed@), strs(seen@));
                proof {
                    lemma_tool_run_end(items@, next as int, Seq::empty(), ts0);
                }
                let (end, calls) = convert_tool_run(items, next, tool_name_map, &mut removed, &mut seen);
                let m = assistant_message_exec(Json::Null, calls, &text);
                if !should_drop_message_after_tool_filtering(&m) {
                    push_msg(messages, m);
                }
                i = end;
            } else if next < items.len() && (items[next].item_type == ItemType::Message || items[next].item_type
                == ItemType::InputText) && role_is_assistant(&items[next].role) {
                let no_calls: Vec<Json> = Vec::new();
                assert(views(no_calls@) =~= Seq::<JsonV>::empty());
                let m = assistant_message_exec(extract_message_content(&items[next]), no_calls, &text);
                push_msg(messages, m);
                i = next + 1;
            } else {
                let no_calls: Vec<Json> = Vec::new();
                assert(views(no_calls@) =~= Seq::<JsonV>::empty());
                let m = assistant_message_exec(Json::Null, no_calls, &text);
                push_msg(messages, m);
                i = next;
            }
        } else if is_tool_call_type_exec(t) {
            let ghost ts0: ToolState = (tool_name_map.encoded_view(), tool_name_map.target_view(), strs(removed@), strs(seen@));
            proof {
                lemma_tool_run_end(items@, i as int, Seq::empty(), ts0);
            }
            let (end, calls) = convert_tool_run(items, i, tool_name_map, &mut removed, &mut seen);
            proof {
                crate::json::lemma_views(calls@);
            }
            if calls.len() > 0 {
                let empty: Vec<char> = Vec::new();
                let m = assistant_message_exec(Json::Null, calls, &empty);
                push_msg(messages, m);
            }
            i = end;
        } else if t == ItemType::FunctionCallOutput || t == ItemType::ToolSearchOutput || t
            == ItemType::CustomToolCallOutput {
            let call_id = or_empty_exec(&item.call_id);
            if contains_id(&removed, &call_id) {
                i += 1;
            } else {
                let output: Vec<char> = if t == ItemType::ToolSearchOutput {
                    to_chars(tool_search_output_to_chat_content(item).as_str())
                } else {
                    match &item.chat_output {
                        Some(o) => to_chars(o.as_str()),
                        None => {
                            proof {
                                let cur: ConvState = (
                                    views(messages@),
                                    (tool_name_map.encoded_view(), tool_name_map.target_view(), strs(removed@), strs(seen@)),
                                );
                                assert(convert_from(items@, i as int, cur) == Err::<ConvState, Seq<char>>(missing_output_error()));
                            }
                            return Err(String::from_str("function_call_output missing output"));
                        },
                    }
                };
                if call_id.len() == 0 || !contains_id(&seen, &call_id) {
                    let id = from_chars(&call_id);
                    let out = from_chars(&output);
                    push_msg(messages, crate::chat_messages::orphan_tool_output_message(id.as_str(), out.as_str()));
                } else {
                    push_msg(messages, tool_message_exec(&call_id, &output));
                }
                i += 1;
            }
        } else {
            i += 1;
        }
    }
    Ok(())
}

fn role_is_assistant(role: &Option<String>) -> (r: bool)
    ensures
        r == (opt_view(*role) == Some("assistant"@)),
{
    match role {
        Some(s) => {
            let v = to_chars(s.as_str());
            crate::text::eq_str(&v, "assistant")
        },
        None => false,
    }
}


/// The tools loaded by tool searches, in order: those listed by each tool
/// search output item.
pub open spec fn searched_tools(items: Seq<ResponseItem>) -> Seq<JsonV>
    decreases items.len(),
{
    if items.len() == 0 {
        Seq::empty()
    } else {
        searched_tools(items.drop_last()) + if items.last().item_type == ItemType::ToolSearchOutput {
            match items.last().tools {
                Some(t) => views(t@),
                None => Seq::empty(),
            }
        } else {
            Seq::empty()
        }
    }
}

/// The tools that tool search outputs loaded, in order.
pub fn tool_search_output_tools(items: &Vec<ResponseItem>) -> (r: Vec<Json>)
    ensures
        views(r@) == searched_tools(items@),
{
    let mut out: Vec<Json> = Vec::new();
    let mut k: usize = 0;
    while k < items.len()
        invariant
            k <= items@.len(),
            views(out@) == searched_tools(items@.take(k as int)),
        decreases items@.len() - k,
    {
        proof {
            assert(items@.take(k + 1).drop_last() =~= items@.take(k as int));
        }
        if items[k].item_type == ItemType::ToolSearchOutput {
            match &items[k].tools {
                Some(t) => {
                    let mut j: usize = 0;
                    let ghost base = views(out@);
                    while j < t.len()
                        invariant
                            j <= t@.len(),
                            views(out@) == base + views(t@.take(j as int)),
                        decreases t@.len() - j,
                    {
                        let ghost before = out@;
                        out.push(t[j].deep_clone());
                        proof {
                            assert(out@.drop_last() =~= before);
                            assert(t@.take(j + 1).drop_last() =~= t@.take(j as int));
                            assert(views(t@.take(j + 1)) == views(t@.take(j as int)).push(t@[j as int]@));
                        }
                        j += 1;
                    }
                    assert(t@.take(t@.len() as int) =~= t@);
                },
                None => {
                    assert(views(out@) =~= views(out@) + Seq::<JsonV>::empty());
                },
            }
        } else {
            assert(views(out@) =~= views(out@) + Seq::<JsonV>::empty());
        }
        k += 1;
    }
    assert(items@.take(items@.len() as int) =~= items@);
    out
}

} // verus!
