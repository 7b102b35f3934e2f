//! A Responses API request as a Chat Completions request: the system
//! instructions and the converted input, the tool declarations and tool
//! choice with their names encoded, the sampling settings, reasoning and
//! structured output, and DeepSeek's clean-up of the messages.
use vstd::prelude::*;
use crate::chat_messages::{
    backfilled, developer_normalized, drop_invalid_assistant_messages, ensure_thinking_tool_call_reasoning_content,
    keeps_message, map_messages, messages_of, normalize_developer_messages, pad_reasoning_content, padded,
    repair_tool_call_turns, repaired_messages, with_messages,
};
use crate::chat_tools::{
    build_chat_function_object, build_chat_tool_search_object, chat_tool_choice, choice_target,
    convert_tool_choice_to_chat, function_name, function_object, tool_search_function,
};
use crate::codex::or_default;
use crate::input_items::{
    convert_from, convert_input_to_messages, searched_tools, start_state, tool_search_output_tools, ResponseItem,
};
use crate::json::{
    insert_member, jget, jget_opt, jget_str, jstr, member_views, set_member, views, Json, JsonV,
};
use crate::output_schema::{apply_response_format, opt_json, with_response_format, TextFormat};
use crate::responses_to_chat::{apply_reasoning, with_reasoning, Reasoning};
use crate::text::{append_str, eq_str, from_chars, to_chars};
use crate::tool_names::{
    custom_target, decimal, decimal_u64, encode_result, function_target, names_after, opt_view,
    tool_search_target, TargetView, ToolCallTarget, ToolNameMap,
};

verus! {

/// The name of the patch-editing custom tool.
pub const APPLY_PATCH_TOOL_NAME: &'static str = "apply_patch";

/// The texts the patch-editing tool is described with to a Chat provider.
#[derive(Debug)]
pub struct ApplyPatchTexts {
    pub description: String,
    pub input_description: String,
}

/// A Responses API request: what the conversion reads of it. Sampling
/// numbers are carried as JSON numbers.
#[derive(Debug)]
pub struct GatewayRequest {
    pub model: String,
    pub instructions: Option<String>,
    pub input: Vec<ResponseItem>,
    pub tools: Vec<Json>,
    pub tool_choice: Option<Json>,
    pub reasoning: Option<Reasoning>,
    pub text_format: Option<TextFormat>,
    pub stream: bool,
    pub max_output_tokens: Option<u64>,
    pub temperature: Option<Json>,
    pub top_p: Option<Json>,
}

/// Both directions of a tool name table.
pub type Names = (Map<Seq<char>, TargetView>, Map<TargetView, Seq<char>>);

pub open spec fn obj(m: Seq<(Seq<char>, JsonV)>) -> JsonV {
    JsonV::Object(m)
}

// ─── tools ─────────────────────────────────────────────────────────────

/// A Chat tool declaration around a function object.
pub open spec fn wrap_function(f: JsonV) -> JsonV {
    obj(Seq::empty().push(("type"@, JsonV::Str("function"@))).push(("function"@, f)))
}

pub open spec fn custom_input_description(name: Seq<char>, texts: ApplyPatchTexts) -> Seq<char> {
    if name == APPLY_PATCH_TOOL_NAME@ {
        texts.input_description@
    } else {
        "Freeform input for the custom tool."@
    }
}

/// A custom tool's parameters: one string `input`.
pub open spec fn custom_parameters(description: Seq<char>) -> JsonV {
    obj(
        Seq::empty().push(("type"@, JsonV::Str("object"@))).push(
            (
                "properties"@,
                obj(
                    Seq::empty().push(
                        (
                            "input"@,
                            obj(
                                Seq::empty().push(("type"@, JsonV::Str("string"@))).push(
                                    ("description"@, JsonV::Str(description)),
                                ),
                            ),
                        ),
                    ),
                ),
            ),
        ).push(("required"@, JsonV::Array(seq![JsonV::Str("input"@)]))).push(
            ("additionalProperties"@, JsonV::Bool(false)),
        ),
    )
}

/// `build_chat_custom_tool_object` with the name encoded: the patch tool is
/// described by its own texts and is not strict; other tools keep their
/// description.
pub open spec fn custom_function(tool: JsonV, name: Seq<char>, encoded: Seq<char>, texts: ApplyPatchTexts) -> JsonV {
    let m0 = Seq::empty().push(("name"@, JsonV::Str(encoded)));
    let m1 = if name == APPLY_PATCH_TOOL_NAME@ {
        m0.push(("description"@, JsonV::Str(texts.description@))).push(("strict"@, JsonV::Bool(false)))
    } else {
        match jget(tool, "description"@) {
            Some(d) => m0.push(("description"@, d)),
            None => m0,
        }
    };
    obj(m1.push(("parameters"@, custom_parameters(custom_input_description(name, texts)))))
}

/// The function tools of a namespace, with names encoded in it.
pub open spec fn namespace_tools(items: Seq<JsonV>, ns: Seq<char>, names: Names) -> (Seq<JsonV>, Names)
    decreases items.len(),
{
    if items.len() == 0 {
        (Seq::empty(), names)
    } else {
        let (front, n1) = namespace_tools(items.drop_last(), ns, names);
        let item = items.last();
        if item is Object && jget_str(item, "type"@) == Some("function"@) {
            match function_name(item) {
                Some(fname) => {
                    let t = function_target(Some(ns), fname);
                    (
                        front.push(wrap_function(function_object(item, encode_result(n1.0, n1.1, t)))),
                        names_after(n1.0, n1.1, t),
                    )
                },
                None => (front, n1),
            }
        } else {
            (front, n1)
        }
    }
}

/// The Chat declarations for one Responses tool.
pub open spec fn tool_entries(tool: JsonV, names: Names, texts: ApplyPatchTexts) -> (Seq<JsonV>, Names) {
    if tool is Object {
        let ty = jget_str(tool, "type"@);
        if ty == Some("namespace"@) {
            let ns = or_default(jget_str(tool, "name"@), Seq::empty());
            match jget(tool, "tools"@) {
                Some(JsonV::Array(items)) => namespace_tools(items, ns, names),
                _ => (Seq::empty(), names),
            }
        } else if ty == Some("function"@) {
            match function_name(tool) {
                Some(fname) => {
                    let t = function_target(None, fname);
                    (
                        seq![wrap_function(function_object(tool, encode_result(names.0, names.1, t)))],
                        names_after(names.0, names.1, t),
                    )
                },
                None => (Seq::empty(), names),
            }
        } else if ty == Some("tool_search"@) {
            (seq![wrap_function(tool_search_function(tool))], names_after(names.0, names.1, tool_search_target()))
        } else if ty == Some("custom"@) {
            match jget_str(tool, "name"@) {
                Some(n) => {
                    let t = custom_target(n);
                    (
                        seq![wrap_function(custom_function(tool, n, encode_result(names.0, names.1, t), texts))],
                        names_after(names.0, names.1, t),
                    )
                },
                None => (Seq::empty(), names),
            }
        } else {
            (Seq::empty(), names)
        }
    } else {
        (Seq::empty(), names)
    }
}

/// `convert_tools_to_chat_tools` over a list of tools, in order.
pub open spec fn chat_tools_of(tools: Seq<JsonV>, names: Names, texts: ApplyPatchTexts) -> (Seq<JsonV>, Names)
    decreases tools.len(),
{
    if tools.len() == 0 {
        (Seq::empty(), names)
    } else {
        let (front, n1) = chat_tools_of(tools.drop_last(), names, texts);
        let (more, n2) = tool_entries(tools.last(), n1, texts);
        (front + more, n2)
    }
}

// ─── the body ──────────────────────────────────────────────────────────

pub open spec fn system_message(text: Seq<char>) -> JsonV {
    obj(Seq::empty().push(("role"@, JsonV::Str("system"@))).push(("content"@, JsonV::Str(text))))
}

/// The system instructions, as the first message.
pub open spec fn initial_messages(req: GatewayRequest) -> Seq<JsonV> {
    match req.instructions {
        Some(i) => seq![system_message(i@)],
        None => Seq::empty(),
    }
}

pub open spec fn set_opt(m: Seq<(Seq<char>, JsonV)>, key: Seq<char>, v: Option<JsonV>) -> Seq<(Seq<char>, JsonV)> {
    match v {
        Some(x) => insert_member(m, key, x),
        None => m,
    }
}

/// The body's members without `key`.
pub open spec fn without_key(m: Seq<(Seq<char>, JsonV)>, key: Seq<char>) -> Seq<(Seq<char>, JsonV)>
    decreases m.len(),
{
    if m.len() == 0 {
        Seq::empty()
    } else if m.last().0 == key {
        without_key(m.drop_last(), key)
    } else {
        without_key(m.drop_last(), key).push(m.last())
    }
}

/// DeepSeek's clean-up of a body: developer roles, tool turns and empty
/// assistant messages; with thinking on, reasoning content padded and
/// backfilled, and the sampling settings thinking refuses removed.
pub open spec fn deepseek_cleaned(body: JsonV) -> JsonV {
    let thinking = jstr_of(jget_opt(jget(body, "thinking"@), "type"@)) == Some("enabled"@);
    let b1 = map_messages(body, |m: JsonV| developer_normalized(m));
    let b2 = match messages_of(b1) {
        Some(a) => with_messages(b1, repaired_messages(a)),
        None => b1,
    };
    let b3 = match messages_of(b2) {
        Some(a) => with_messages(b2, a.filter(|m: JsonV| keeps_message(m))),
        None => b2,
    };
    if thinking {
        let b4 = map_messages(b3, |m: JsonV| padded(m));
        let b5 = match messages_of(b4) {
            Some(a) => with_messages(b4, backfilled(a, None)),
            None => b4,
        };
        match b5 {
            JsonV::Object(m) => obj(
                without_key(
                    without_key(without_key(without_key(m, "temperature"@), "top_p"@), "presence_penalty"@),
                    "frequency_penalty"@,
                ),
            ),
            _ => b5,
        }
    } else {
        b3
    }
}

pub open spec fn jstr_of(v: Option<JsonV>) -> Option<Seq<char>> {
    match v {
        Some(x) => jstr(x),
        None => None,
    }
}

/// The body's first members: model, messages and stream, with usage
/// requested for a stream.
pub open spec fn head_members(req: GatewayRequest, msgs: Seq<JsonV>) -> Seq<(Seq<char>, JsonV)> {
    let m0 = Seq::empty().push(("model"@, JsonV::Str(req.model@))).push(("messages"@, JsonV::Array(msgs))).push(
        ("stream"@, JsonV::Bool(req.stream)),
    );
    if req.stream {
        insert_member(m0, "stream_options"@, obj(Seq::empty().push(("include_usage"@, JsonV::Bool(true)))))
    } else {
        m0
    }
}

/// The tools of a request: its own, then those that tool searches loaded.
pub open spec fn request_tools(req: GatewayRequest) -> Seq<JsonV> {
    views(req.tools@) + searched_tools(req.input@)
}

/// The members with the Chat tools and tool choice, and the name table.
pub open spec fn with_tools(
    m1: Seq<(Seq<char>, JsonV)>,
    req: GatewayRequest,
    names0: Names,
    texts: ApplyPatchTexts,
) -> (Seq<(Seq<char>, JsonV)>, Names) {
    let (tools, names1) = chat_tools_of(request_tools(req), names0, texts);
    let m2 = if tools.len() > 0 {
        insert_member(m1, "tools"@, JsonV::Array(tools))
    } else {
        m1
    };
    match req.tool_choice {
        Some(tc) => match choice_target(tc@) {
            Some(t) => (
                insert_member(m2, "tool_choice"@, chat_tool_choice(tc@, encode_result(names1.0, names1.1, t))),
                names_after(names1.0, names1.1, t),
            ),
            None => (insert_member(m2, "tool_choice"@, chat_tool_choice(tc@, Seq::empty())), names1),
        },
        None => (m2, names1),
    }
}

/// The members with sampling, token limit and reasoning.
pub open spec fn with_settings(m3: Seq<(Seq<char>, JsonV)>, req: GatewayRequest, deepseek_mode: bool) -> Seq<
    (Seq<char>, JsonV),
> {
    let m4 = set_opt(set_opt(m3, "temperature"@, opt_json(req.temperature)), "top_p"@, opt_json(req.top_p));
    let m5 = match req.max_output_tokens {
        Some(n) => insert_member(m4, "max_tokens"@, JsonV::Number(decimal(n as nat))),
        None => m4,
    };
    match req.reasoning {
        Some(r) => with_reasoning(m5, opt_view(r.effort), r.budget_tokens, deepseek_mode),
        None => m5,
    }
}

/// The body with its output format, cleaned up for DeepSeek.
pub open spec fn with_format(m6: Seq<(Seq<char>, JsonV)>, req: GatewayRequest, deepseek_mode: bool) -> JsonV {
    let m7 = match req.text_format {
        Some(f) => with_response_format(m6, f.format_type@, opt_view(f.name), opt_json(f.schema), deepseek_mode),
        None => m6,
    };
    if deepseek_mode {
        deepseek_cleaned(obj(m7))
    } else {
        obj(m7)
    }
}

/// `build_chat_request_with_tool_names`: the Chat request body and the tool
/// name table, or the error of the input conversion.
pub open spec fn chat_request(req: GatewayRequest, texts: ApplyPatchTexts, deepseek_mode: bool) -> Result<
    (JsonV, Names),
    Seq<char>,
> {
    let start = (initial_messages(req), (Map::empty(), Map::empty(), Seq::empty(), Seq::empty()));
    match convert_from(req.input@, 0, start) {
        Err(e) => Err(e),
        Ok(st) => {
            let (m3, names) = with_tools(head_members(req, st.0), req, (st.1.0, st.1.1), texts);
            Ok((with_format(with_settings(m3, req, deepseek_mode), req, deepseek_mode), names))
        },
    }
}

// ─── computing it ──────────────────────────────────────────────────────

fn push_member(members: &mut Vec<(String, Json)>, key: &str, value: Json)
    ensures
        member_views(final(members)@) == member_views(old(members)@).push((key@, value@)),
{
    let ghost before = members@;
    members.push((String::from_str(key), value));
    assert(members@.drop_last() =~= before);
}

fn push_json(v: &mut Vec<Json>, j: Json)
    ensures
        views(final(v)@) == views(old(v)@).push(j@),
{
    let ghost before = v@;
    v.push(j);
    assert(v@.drop_last() =~= before);
}

fn str_json(s: &str) -> (r: Json)
    ensures
        r@ == JsonV::Str(s@),
{
    Json::Str(String::from_str(s))
}

fn empty_members() -> (r: Vec<(String, Json)>)
    ensures
        member_views(r@) == Seq::<(Seq<char>, JsonV)>::empty(),
{
    let m: Vec<(String, Json)> = Vec::new();
    assert(member_views(m@) =~= Seq::<(Seq<char>, JsonV)>::empty());
    m
}

fn wrap_function_exec(f: Json) -> (r: Json)
    ensures
        r@ == wrap_function(f@),
{
    let mut m = empty_members();
    push_member(&mut m, "type", str_json("function"));
    push_member(&mut m, "function", f);
    Json::Object(m)
}

fn custom_parameters_exec(description: &str) -> (r: Json)
    ensures
        r@ == custom_parameters(description@),
{
    let mut input = empty_members();
    push_member(&mut input, "type", str_json("string"));
    push_member(&mut input, "description", str_json(description));
    let mut props = empty_members();
    push_member(&mut props, "input", Json::Object(input));
    let mut required: Vec<Json> = Vec::new();
    assert(views(required@) =~= Seq::<JsonV>::empty());
    push_json(&mut required, str_json("input"));
    assert(views(required@) =~= seq![JsonV::Str("input"@)]);
    let mut m = empty_members();
    push_member(&mut m, "type", str_json("object"));
    push_member(&mut m, "properties", Json::Object(props));
    push_member(&mut m, "required", Json::Array(required));
    push_member(&mut m, "additionalProperties", Json::Bool(false));
    Json::Object(m)
}

fn custom_function_exec(tool: &Json, name: &str, encoded: String, texts: &ApplyPatchTexts) -> (r: Json)
    ensures
        r@ == custom_function(tool@, name@, encoded@, *texts),
{
    let is_patch = eq_str(&to_chars(name), APPLY_PATCH_TOOL_NAME);
    let mut m = empty_members();
    push_member(&mut m, "name", Json::Str(encoded));
    if is_patch {
        push_member(&mut m, "description", Json::Str(texts.description.clone()));
        push_member(&mut m, "strict", Json::Bool(false));
        push_member(&mut m, "parameters", custom_parameters_exec(texts.input_description.as_str()));
    } else {
        match tool.get("description") {
            Some(d) => push_member(&mut m, "description", d.deep_clone()),
            None => {},
        }
        push_member(&mut m, "parameters", custom_parameters_exec("Freeform input for the custom tool."));
    }
    Json::Object(m)
}

fn type_is(tool: &Json, ty: &str) -> (r: bool)
    ensures
        r == (jget_str(tool@, "type"@) == Some(ty@)),
{
    match crate::json::get_str(tool, "type") {
        Some(t) => eq_str(&to_chars(t), ty),
        None => false,
    }
}

fn namespace_tools_exec(items: &Vec<Json>, ns: &str, map: &mut ToolNameMap) -> (r: Vec<Json>)
    requires
        old(map).wf(),
    ensures
        final(map).wf(),
        (views(r@), (final(map).encoded_view(), final(map).target_view())) == namespace_tools(
            views(items@),
            ns@,
            (old(map).encoded_view(), old(map).target_view()),
        ),
{
    let ghost n0: Names = (map.encoded_view(), map.target_view());
    let mut out: Vec<Json> = Vec::new();
    let mut k: usize = 0;
    proof {
        crate::json::lemma_views(items@);
        assert(views(items@).take(0) =~= Seq::<JsonV>::empty());
        assert(views(out@) =~= Seq::<JsonV>::empty());
    }
    while k < items.len()
        invariant
            k <= items@.len(),
            map.wf(),
            views(items@).len() == items@.len(),
            forall|j: int| 0 <= j < items@.len() ==> #[trigger] views(items@)[j] == items@[j]@,
            (views(out@), (map.encoded_view(), map.target_view())) == namespace_tools(
                views(items@).take(k as int),
                ns@,
                n0,
            ),
        decreases items@.len() - k,
    {
        proof {
            assert(views(items@).take(k + 1).drop_last() =~= views(items@).take(k as int));
            assert(views(items@).take(k + 1).last() == items@[k as int]@);
        }
        let item = &items[k];
        let is_obj = match item {
            Json::Object(_) => true,
            _ => false,
        };
        if is_obj && type_is(item, "function") {
            match build_chat_function_object(item, Some(ns), map) {
                Some(f) => push_json(&mut out, wrap_function_exec(f)),
                None => {},
            }
        }
        k += 1;
    }
    proof {
        assert(views(items@).take(items@.len() as int) =~= views(items@));
    }
    out
}

fn tool_entries_exec(tool: &Json, map: &mut ToolNameMap, texts: &ApplyPatchTexts) -> (r: Vec<Json>)
    requires
        old(map).wf(),
    ensures
        final(map).wf(),
        (views(r@), (final(map).encoded_view(), final(map).target_view())) == tool_entries(
            tool@,
            (old(map).encoded_view(), old(map).target_view()),
            *texts,
        ),
{
    let mut out: Vec<Json> = Vec::new();
    assert(views(out@) =~= Seq::<JsonV>::empty());
    match tool {
        Json::Object(_) => {},
        _ => return out,
    }
    if type_is(tool, "namespace") {
        let ns: &str = match crate::json::get_str(tool, "name") {
            Some(n) => n,
            None => "",
        };
        proof {
            reveal_strlit("");
            assert(""@ =~= Seq::<char>::empty());
        }
        match tool.get("tools") {
            Some(Json::Array(items)) => namespace_tools_exec(items, ns, map),
            _ => out,
        }
    } else if type_is(tool, "function") {
        match build_chat_function_object(tool, None, map) {
            Some(f) => {
                push_json(&mut out, wrap_function_exec(f));
                assert(views(out@) =~= seq![views(out@)[0]]);
            },
            None => {},
        }
        out
    } else if type_is(tool, "tool_search") {
        let f = build_chat_tool_search_object(tool, map);
        push_json(&mut out, wrap_function_exec(f));
        assert(views(out@) =~= seq![views(out@)[0]]);
        out
    } else if type_is(tool, "custom") {
        match crate::json::get_str(tool, "name") {
            Some(n) => {
                let encoded = map.encode(ToolCallTarget::custom(n));
                push_json(&mut out, wrap_function_exec(custom_function_exec(tool, n, encoded, texts)));
                assert(views(out@) =~= seq![views(out@)[0]]);
            },
            None => {},
        }
        out
    } else {
        out
    }
}

fn chat_tools_exec(tools: &Vec<Json>, map: &mut ToolNameMap, texts: &ApplyPatchTexts) -> (r: Vec<Json>)
    requires
        old(map).wf(),
    ensures
        final(map).wf(),
        (views(r@), (final(map).encoded_view(), final(map).target_view())) == chat_tools_of(
            views(tools@),
            (old(map).encoded_view(), old(map).target_view()),
            *texts,
        ),
{
    let ghost n0: Names = (map.encoded_view(), map.target_view());
    let mut out: Vec<Json> = Vec::new();
    let mut k: usize = 0;
    proof {
        crate::json::lemma_views(tools@);
        assert(views(tools@).take(0) =~= Seq::<JsonV>::empty());
        assert(views(out@) =~= Seq::<JsonV>::empty());
    }
    while k < tools.len()
        invariant
            k <= tools@.len(),
            map.wf(),
            views(tools@).len() == tools@.len(),
            forall|j: int| 0 <= j < tools@.len() ==> #[trigger] views(tools@)[j] == tools@[j]@,
            (views(out@), (map.encoded_view(), map.target_view())) == chat_tools_of(
                views(tools@).take(k as int),
                n0,
                *texts,
            ),
        decreases tools@.len() - k,
    {
        proof {
            assert(views(tools@).take(k + 1).drop_last() =~= views(tools@).take(k as int));
            assert(views(tools@).take(k + 1).last() == tools@[k as int]@);
        }
        let more = tool_entries_exec(&tools[k], map, texts);
        let mut j: usize = 0;
        let ghost base = views(out@);
        proof {
            crate::json::lemma_views(more@);
            assert(views(more@).take(0) =~= Seq::<JsonV>::empty());
            assert(base + views(more@).take(0) =~= base);
        }
        let mut rest = more;
        let ghost mv = views(rest@);
        while j < rest.len()
            invariant
                j <= rest@.len(),
                mv == views(rest@),
                mv.len() == rest@.len(),
                forall|i: int| 0 <= i < rest@.len() ==> #[trigger] mv[i] == rest@[i]@,
                views(out@) == base + mv.take(j as int),
            decreases rest@.len() - j,
        {
            let c = rest[j].deep_clone();
            push_json(&mut out, c);
            proof {
                assert(mv.take(j + 1) =~= mv.take(j as int).push(mv[j as int]));
                assert(base + mv.take(j + 1) =~= (base + mv.take(j as int)).push(mv[j as int]));
            }
            j += 1;
        }
        proof {
            assert(mv.take(mv.len() as int) =~= mv);
        }
        k += 1;
    }
    proof {
        assert(views(tools@).take(tools@.len() as int) =~= views(tools@));
    }
    out
}


fn remove_key(members: &mut Vec<(String, Json)>, key: &str)
    ensures
        member_views(final(members)@) == without_key(member_views(old(members)@), key@),
{
    let ghost mv = member_views(members@);
    proof {
        crate::json::lemma_member_views(members@);
    }
    let mut out: Vec<(String, Json)> = Vec::new();
    let mut k: usize = 0;
    assert(mv.take(0) =~= Seq::<(Seq<char>, JsonV)>::empty());
    assert(member_views(out@) =~= Seq::<(Seq<char>, JsonV)>::empty());
    while k < members.len()
        invariant
            k <= members@.len(),
            members@ == old(members)@,
            mv == member_views(members@),
            mv.len() == members@.len(),
            forall|j: int| 0 <= j < members@.len() ==> #[trigger] mv[j] == (members@[j].0@, members@[j].1@),
            member_views(out@) == without_key(mv.take(k as int), key@),
        decreases members@.len() - k,
    {
        proof {
            assert(mv.take(k + 1).drop_last() =~= mv.take(k as int));
            assert(mv.take(k + 1).last() == mv[k as int]);
        }
        let same = eq_str(&to_chars(members[k].0.as_str()), key);
        if !same {
            let name = members[k].0.clone();
            let value = members[k].1.deep_clone();
            let ghost before = out@;
            out.push((name, value));
            assert(out@.drop_last() =~= before);
        }
        k += 1;
    }
    assert(mv.take(mv.len() as int) =~= mv);
    *members = out;
}

fn thinking_enabled_in(body: &Json) -> (r: bool)
    ensures
        r == (jstr_of(jget_opt(jget(body@, "thinking"@), "type"@)) == Some("enabled"@)),
{
    match body.get("thinking") {
        Some(t) => match crate::json::get_str(t, "type") {
            Some(v) => eq_str(&to_chars(v), "enabled"),
            None => false,
        },
        None => false,
    }
}

fn deepseek_clean(body: &mut Json)
    ensures
        final(body)@ == deepseek_cleaned(old(body)@),
{
    let thinking = thinking_enabled_in(body);
    normalize_developer_messages(body);
    repair_tool_call_turns(body);
    drop_invalid_assistant_messages(body);
    if thinking {
        pad_reasoning_content(body);
        ensure_thinking_tool_call_reasoning_content(body);
        let ghost b5 = body@;
        match body {
            Json::Object(m) => {
                remove_key(m, "temperature");
                remove_key(m, "top_p");
                remove_key(m, "presence_penalty");
                remove_key(m, "frequency_penalty");
            },
            _ => {},
        }
    }
}

fn opt_clone(o: &Option<Json>) -> (r: Option<Json>)
    ensures
        opt_json(r) == opt_json(*o),
{
    match o {
        Some(j) => Some(j.deep_clone()),
        None => None,
    }
}

fn set_opt_exec(members: &mut Vec<(String, Json)>, key: &str, v: &Option<Json>)
    ensures
        member_views(final(members)@) == set_opt(member_views(old(members)@), key@, opt_json(*v)),
{
    match v {
        Some(j) => set_member(members, key, j.deep_clone()),
        None => {},
    }
}

fn head_members_exec(request: &GatewayRequest, messages: Vec<Json>) -> (r: Vec<(String, Json)>)
    ensures
        member_views(r@) == head_members(*request, views(messages@)),
{
    let mut m = empty_members();
    push_member(&mut m, "model", Json::Str(request.model.clone()));
    push_member(&mut m, "messages", Json::Array(messages));
    push_member(&mut m, "stream", Json::Bool(request.stream));
    if request.stream {
        let mut so = empty_members();
        push_member(&mut so, "include_usage", Json::Bool(true));
        set_member(&mut m, "stream_options", Json::Object(so));
    }
    m
}

fn request_tools_exec(request: &GatewayRequest) -> (r: Vec<Json>)
    ensures
        views(r@) == request_tools(*request),
{
    let mut all_tools: Vec<Json> = Vec::new();
    let mut k: usize = 0;
    assert(views(all_tools@) =~= views(request.tools@.take(0)));
    while k < request.tools.len()
        invariant
            k <= request.tools@.len(),
            views(all_tools@) == views(request.tools@.take(k as int)),
        decreases request.tools@.len() - k,
    {
        push_json(&mut all_tools, request.tools[k].deep_clone());
        assert(request.tools@.take(k + 1).drop_last() =~= request.tools@.take(k as int));
        k += 1;
    }
    assert(request.tools@.take(request.tools@.len() as int) =~= request.tools@);
    let searched = tool_search_output_tools(&request.input);
    let mut j: usize = 0;
    let ghost base = views(all_tools@);
    proof {
        crate::json::lemma_views(searched@);
    }
    assert(base + views(searched@).take(0) =~= base);
    while j < searched.len()
        invariant
            j <= searched@.len(),
            views(searched@).len() == searched@.len(),
            forall|i: int| 0 <= i < searched@.len() ==> #[trigger] views(searched@)[i] == searched@[i]@,
            views(all_tools@) == base + views(searched@).take(j as int),
        decreases searched@.len() - j,
    {
        push_json(&mut all_tools, searched[j].deep_clone());
        proof {
            assert(views(searched@).take(j + 1) =~= views(searched@).take(j as int).push(views(searched@)[j as int]));
        }
        j += 1;
    }
    assert(views(searched@).take(searched@.len() as int) =~= views(searched@));
    all_tools
}

fn with_tools_exec(m: &mut Vec<(String, Json)>, request: &GatewayRequest, map: &mut ToolNameMap, texts: &ApplyPatchTexts)
    requires
        old(map).wf(),
    ensures
        final(map).wf(),
        (member_views(final(m)@), (final(map).encoded_view(), final(map).target_view())) == with_tools(
            member_views(old(m)@),
            *request,
            (old(map).encoded_view(), old(map).target_view()),
            *texts,
        ),
{
    let all_tools = request_tools_exec(request);
    let tools = chat_tools_exec(&all_tools, map, texts);
    proof {
        crate::json::lemma_views(tools@);
    }
    if tools.len() > 0 {
        set_member(m, "tools", Json::Array(tools));
    }
    match &request.tool_choice {
        Some(tc) => {
            let c = convert_tool_choice_to_chat(tc, map);
            set_member(m, "tool_choice", c);
        },
        None => {},
    }
}

fn with_settings_exec(m: &mut Vec<(String, Json)>, request: &GatewayRequest, deepseek_mode: bool)
    ensures
        member_views(final(m)@) == with_settings(member_views(old(m)@), *request, deepseek_mode),
{
    set_opt_exec(m, "temperature", &request.temperature);
    set_opt_exec(m, "top_p", &request.top_p);
    match request.max_output_tokens {
        Some(n) => set_member(m, "max_tokens", Json::Number(from_chars(&decimal_u64(n)))),
        None => {},
    }
    match &request.reasoning {
        Some(r) => apply_reasoning(m, r, deepseek_mode),
        None => {},
    }
}

fn with_format_exec(m: Vec<(String, Json)>, request: &GatewayRequest, deepseek_mode: bool) -> (r: Json)
    ensures
        r@ == with_format(member_views(m@), *request, deepseek_mode),
{
    let mut body = Json::Object(m);
    match &request.text_format {
        Some(f) => apply_response_format(&mut body, f, deepseek_mode),
        None => {},
    }
    if deepseek_mode {
        deepseek_clean(&mut body);
    }
    body
}

/// `build_chat_request_with_tool_names`: the Chat request body for a
/// Responses request, with the table of the tool names it encoded; the
/// error of the input conversion when it fails.
pub fn build_chat_request_with_tool_names(
    request: &GatewayRequest,
    texts: &ApplyPatchTexts,
    deepseek_mode: bool,
) -> (r: Result<(Json, ToolNameMap), String>)
    ensures
        match chat_request(*request, *texts, deepseek_mode) {
            Ok((body, names)) => r matches Ok((j, m)) && {
                &&& j@ == body
                &&& m.wf()
                &&& m.encoded_view() == names.0
                &&& m.target_view() == names.1
            },
            Err(e) => r matches Err(x) && x@ == e,
        },
{
    let mut map = ToolNameMap::default();
    let mut messages: Vec<Json> = Vec::new();
    match &request.instructions {
        Some(i) => {
            let mut m = empty_members();
            push_member(&mut m, "role", str_json("system"));
            push_member(&mut m, "content", Json::Str(i.clone()));
            push_json(&mut messages, Json::Object(m));
        },
        None => {},
    }
    proof {
        assert(views(messages@) =~= initial_messages(*request));
    }
    match convert_input_to_messages(&request.input, &mut messages, &mut map) {
        Ok(()) => {},
        Err(e) => return Err(e),
    }
    let mut m = head_members_exec(request, messages);
    with_tools_exec(&mut m, request, &mut map, texts);
    with_settings_exec(&mut m, request, deepseek_mode);
    let body = with_format_exec(m, request, deepseek_mode);
    Ok((body, map))
}

/// `build_chat_request`: the body alone.
pub fn build_chat_request(request: &GatewayRequest, texts: &ApplyPatchTexts, deepseek_mode: bool) -> (r: Result<
    Json,
    String,
>)
    ensures
        match chat_request(*request, *texts, deepseek_mode) {
            Ok((body, _)) => r matches Ok(j) && j@ == body,
            Err(e) => r matches Err(x) && x@ == e,
        },
{
    match build_chat_request_with_tool_names(request, texts, deepseek_mode) {
        Ok((body, _)) => Ok(body),
        Err(e) => Err(e),
    }
}

} // verus!
