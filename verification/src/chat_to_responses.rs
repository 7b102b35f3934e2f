//! Chat Completions response → Responses API response.
use vstd::prelude::*;
use crate::json::{get_str, jget, jget_str, member_views, parse_json, parsed_json, Json, JsonV};
use crate::responses_stream::extract_custom_tool_input;
use crate::stream_model::{chat_usage, chat_usage_fits, custom_input_of, empty_object, first_choice, or_null};
use crate::stream_state::generate_item_id;
use crate::tool_names::{decode_result, TargetView, ToolCallKind, ToolNameMap};

verus! {

// ─── the response object ───────────────────────────────────────────────

#[derive(Clone, Copy, Debug, PartialEq, Eq, Structural)]
pub enum ItemType {
    Message,
    Reasoning,
    FunctionCall,
    CustomToolCall,
    ToolSearchCall,
}

#[derive(Debug)]
pub struct SummaryPart {
    pub part_type: String,
    pub text: String,
}

#[derive(Debug)]
pub struct ContentPart {
    pub part_type: String,
    pub text: String,
}

impl ContentPart {
    /// An `output_text` part.
    pub fn output_text(text: &str) -> (r: ContentPart)
        ensures
            r.part_type@ == "output_text"@,
            r.text@ == text@,
    {
        ContentPart { part_type: String::from_str("output_text"), text: String::from_str(text) }
    }
}

#[derive(Debug)]
pub enum ItemContent {
    Parts(Vec<ContentPart>),
}

/// Arguments given as JSON text or as a JSON value.
#[derive(Debug)]
pub enum JsonString {
    Value(Json),
    String(String),
}

pub ghost enum JsonStringV {
    Value(JsonV),
    Text(Seq<char>),
}

impl View for JsonString {
    type V = JsonStringV;

    open spec fn view(&self) -> JsonStringV {
        match self {
            JsonString::Value(v) => JsonStringV::Value(v@),
            JsonString::String(s) => JsonStringV::Text(s@),
        }
    }
}

impl JsonString {
    /// The arguments as a JSON value: a text is a JSON string.
    pub fn to_value(&self) -> (r: Json)
        ensures
            r@ == match self@ {
                JsonStringV::Value(v) => v,
                JsonStringV::Text(s) => JsonV::Str(s),
            },
    {
        match self {
            JsonString::Value(v) => v.deep_clone(),
            JsonString::String(s) => Json::Str(s.clone()),
        }
    }
}

/// An output item of a response.
#[derive(Debug)]
pub struct ResponseItem {
    pub item_type: ItemType,
    pub id: Option<String>,
    pub role: Option<String>,
    pub content: Option<ItemContent>,
    pub name: Option<String>,
    pub namespace: Option<String>,
    pub call_id: Option<String>,
    pub arguments: Option<JsonString>,
    pub input: Option<String>,
    pub status: Option<String>,
    pub execution: Option<String>,
    pub summary: Option<Vec<SummaryPart>>,
    pub encrypted_content: Option<String>,
}

pub ghost struct ItemFieldsV {
    pub item_type: ItemType,
    pub id: Option<Seq<char>>,
    pub role: Option<Seq<char>>,
    pub content: Option<Seq<(Seq<char>, Seq<char>)>>,
    pub name: Option<Seq<char>>,
    pub namespace: Option<Seq<char>>,
    pub call_id: Option<Seq<char>>,
    pub arguments: Option<JsonStringV>,
    pub input: Option<Seq<char>>,
    pub status: Option<Seq<char>>,
    pub execution: Option<Seq<char>>,
    pub summary: Option<Seq<(Seq<char>, Seq<char>)>>,
    pub encrypted_content: Option<Seq<char>>,
}

pub open spec fn ostr(o: Option<String>) -> Option<Seq<char>> {
    match o {
        Some(s) => Some(s@),
        None => None,
    }
}

pub open spec fn summary_view(v: Seq<SummaryPart>) -> Seq<(Seq<char>, Seq<char>)> {
    v.map_values(|p: SummaryPart| (p.part_type@, p.text@))
}

pub open spec fn parts_view(v: Seq<ContentPart>) -> Seq<(Seq<char>, Seq<char>)> {
    v.map_values(|p: ContentPart| (p.part_type@, p.text@))
}

impl View for ResponseItem {
    type V = ItemFieldsV;

    open spec fn view(&self) -> ItemFieldsV {
        ItemFieldsV {
            item_type: self.item_type,
            id: ostr(self.id),
            role: ostr(self.role),
            content: match self.content {
                Some(ItemContent::Parts(p)) => Some(parts_view(p@)),
                None => None,
            },
            name: ostr(self.name),
            namespace: ostr(self.namespace),
            call_id: ostr(self.call_id),
            arguments: match self.arguments {
                Some(a) => Some(a@),
                None => None,
            },
            input: ostr(self.input),
            status: ostr(self.status),
            execution: ostr(self.execution),
            summary: match self.summary {
                Some(s) => Some(summary_view(s@)),
                None => None,
            },
            encrypted_content: ostr(self.encrypted_content),
        }
    }
}

#[derive(Clone, Copy, Debug, PartialEq, Eq)]
pub struct InputTokensDetails {
    pub cached_tokens: i64,
    pub cache_creation_tokens: i64,
}

#[derive(Clone, Copy, Debug, PartialEq, Eq)]
pub struct OutputTokensDetails {
    pub reasoning_tokens: i64,
}

#[derive(Clone, Copy, Debug, PartialEq, Eq)]
pub struct Usage {
    pub input_tokens: i64,
    pub output_tokens: i64,
    pub total_tokens: i64,
    pub input_tokens_details: Option<InputTokensDetails>,
    pub output_tokens_details: Option<OutputTokensDetails>,
}

/// A Responses API response object.
#[derive(Debug)]
pub struct ResponseObject {
    pub id: String,
    pub object_type: String,
    pub model: String,
    pub created_at: i64,
    pub status: String,
    pub output: Vec<ResponseItem>,
    pub usage: Option<Usage>,
    pub incomplete_details: Option<Json>,
}

// ─── what the conversion gives ─────────────────────────────────────────

pub open spec fn plain_item(t: ItemType) -> ItemFieldsV {
    ItemFieldsV {
        item_type: t,
        id: None,
        role: None,
        content: None,
        name: None,
        namespace: None,
        call_id: None,
        arguments: None,
        input: None,
        status: Some("completed"@),
        execution: None,
        summary: None,
        encrypted_content: None,
    }
}

/// The reasoning item: its text as the summary, its signature encrypted.
pub open spec fn reasoning_item(text: Seq<char>, signature: Option<Seq<char>>) -> ItemFieldsV {
    ItemFieldsV {
        summary: Some(seq![("summary_text"@, text)]),
        encrypted_content: signature,
        ..plain_item(ItemType::Reasoning)
    }
}

/// The assistant message with one `output_text` part.
pub open spec fn message_item(text: Seq<char>) -> ItemFieldsV {
    ItemFieldsV {
        role: Some("assistant"@),
        content: Some(seq![("output_text"@, text)]),
        ..plain_item(ItemType::Message)
    }
}

/// The item of one Chat tool call, by what its provider name stands for:
/// a tool search with parsed arguments, a custom tool with its input, or a
/// function with its namespace and raw arguments.
pub open spec fn tool_call_item(tc: JsonV, names: Map<Seq<char>, TargetView>) -> ItemFieldsV {
    let func = or_null(jget(tc, "function"@));
    let raw_name = match jget_str(func, "name"@) {
        Some(n) => n,
        None => Seq::empty(),
    };
    let target = decode_result(names, raw_name);
    let arguments_text = match jget_str(func, "arguments"@) {
        Some(a) => a,
        None => "{}"@,
    };
    let call_id = jget_str(tc, "id"@);
    match target.0 {
        ToolCallKind::ToolSearch => ItemFieldsV {
            call_id,
            arguments: Some(
                JsonStringV::Value(
                    match parsed_json(arguments_text) {
                        Some(v) => v,
                        None => empty_object(),
                    },
                ),
            ),
            execution: Some("client"@),
            ..plain_item(ItemType::ToolSearchCall)
        },
        ToolCallKind::Custom => ItemFieldsV {
            call_id,
            name: Some(target.2),
            input: Some(custom_input_of(arguments_text)),
            ..plain_item(ItemType::CustomToolCall)
        },
        ToolCallKind::Function => ItemFieldsV {
            call_id,
            name: Some(target.2),
            namespace: target.1,
            arguments: Some(JsonStringV::Text(arguments_text)),
            ..plain_item(ItemType::FunctionCall)
        },
    }
}

pub open spec fn nonempty(o: Option<Seq<char>>) -> Option<Seq<char>> {
    match o {
        Some(t) => if t.len() > 0 {
            Some(t)
        } else {
            None
        },
        None => None,
    }
}

pub open spec fn tool_calls_in(message: JsonV) -> Seq<JsonV> {
    match jget(message, "tool_calls"@) {
        Some(JsonV::Array(a)) => a,
        _ => Seq::empty(),
    }
}

/// The output items of a Chat message, in order: reasoning, message, one
/// per tool call. Ids are left out.
pub open spec fn chat_output(message: JsonV, names: Map<Seq<char>, TargetView>) -> Seq<ItemFieldsV> {
    let reasoning = match nonempty(jget_str(message, "reasoning_content"@)) {
        Some(t) => seq![reasoning_item(t, jget_str(message, "reasoning_signature"@))],
        None => Seq::empty(),
    };
    let content = match nonempty(jget_str(message, "content"@)) {
        Some(t) => seq![message_item(t)],
        None => Seq::empty(),
    };
    reasoning + content + tool_calls_in(message).map_values(|tc: JsonV| tool_call_item(tc, names))
}

/// The item carries a fresh item id.
pub open spec fn fresh_item_id(i: ResponseItem) -> bool {
    i.id matches Some(id) && crate::text::starts_with(id@, "gwitem_"@)
}

pub open spec fn without_id(i: ItemFieldsV) -> ItemFieldsV {
    ItemFieldsV { id: None, ..i }
}

pub open spec fn output_view(v: Seq<ResponseItem>) -> Seq<ItemFieldsV> {
    v.map_values(|i: ResponseItem| without_id(i@))
}

pub open spec fn finish_reason_of(choice: JsonV) -> Seq<char> {
    match jget_str(choice, "finish_reason"@) {
        Some(r) => r,
        None => "stop"@,
    }
}

pub open spec fn usage_of_chat(chat: JsonV) -> Option<Usage> {
    match jget(chat, "usage"@) {
        Some(u) => match chat_usage(u) {
            Some(s) => Some(
                Usage {
                    input_tokens: s.input_tokens,
                    output_tokens: s.output_tokens,
                    total_tokens: s.total_tokens,
                    input_tokens_details: Some(
                        InputTokensDetails { cached_tokens: s.cached_tokens, cache_creation_tokens: 0 },
                    ),
                    output_tokens_details: Some(OutputTokensDetails { reasoning_tokens: s.reasoning_tokens }),
                },
            ),
            None => None,
        },
        None => None,
    }
}

pub open spec fn usage_fits_chat(chat: JsonV) -> bool {
    match jget(chat, "usage"@) {
        Some(u) => chat_usage_fits(u),
        None => true,
    }
}

pub open spec fn max_output_details() -> JsonV {
    JsonV::Object(seq![("reason"@, JsonV::Str("max_output_tokens"@))])
}

// ─── the conversion ────────────────────────────────────────────────────

fn copy_opt(o: Option<&str>) -> (r: Option<String>)
    ensures
        ostr(r) == crate::json::str_view(o),
{
    match o {
        Some(s) => Some(String::from_str(s)),
        None => None,
    }
}

/// The JSON in the text, or an empty object when it holds none.
fn parse_json_or_empty_object(text: &str) -> (r: Json)
    ensures
        r@ == match parsed_json(text@) {
            Some(v) => v,
            None => empty_object(),
        },
{
    match parse_json(text) {
        Some(v) => v,
        None => {
            let m: Vec<(String, Json)> = Vec::new();
            assert(member_views(m@) =~= Seq::<(Seq<char>, JsonV)>::empty());
            let r = Json::Object(m);
            assert(r@ == JsonV::Object(member_views(m@)));
            r
        },
    }
}

fn plain(item_type: ItemType) -> (r: ResponseItem)
    ensures
        r@ == plain_item(item_type),
{
    ResponseItem {
        item_type,
        id: None,
        role: None,
        content: None,
        name: None,
        namespace: None,
        call_id: None,
        arguments: None,
        input: None,
        status: Some(String::from_str("completed")),
        execution: None,
        summary: None,
        encrypted_content: None,
    }
}

/// The item of one Chat tool call (id left to the caller).
fn tool_call_response_item(tc: &Json, tool_name_map: &ToolNameMap) -> (r: ResponseItem)
    requires
        tool_name_map.wf(),
    ensures
        r@ == tool_call_item(tc@, tool_name_map.encoded_view()),
{
    let null = Json::Null;
    let func = match tc.get("function") {
        Some(f) => f,
        None => &null,
    };
    let raw_name = match get_str(func, "name") {
        Some(n) => n,
        None => "",
    };
    proof {
        reveal_strlit("");
        assert(""@ =~= Seq::<char>::empty());
    }
    let target = tool_name_map.decode(raw_name);
    let arguments_text = match get_str(func, "arguments") {
        Some(a) => a,
        None => "{}",
    };
    let call_id = copy_opt(get_str(tc, "id"));
    let mut item = match target.kind {
        ToolCallKind::ToolSearch => plain(ItemType::ToolSearchCall),
        ToolCallKind::Custom => plain(ItemType::CustomToolCall),
        ToolCallKind::Function => plain(ItemType::FunctionCall),
    };
    item.call_id = call_id;
    match target.kind {
        ToolCallKind::ToolSearch => {
            item.arguments = Some(JsonString::Value(parse_json_or_empty_object(arguments_text)));
            item.execution = Some(String::from_str("client"));
        },
        ToolCallKind::Custom => {
            item.name = Some(target.name);
            item.input = Some(extract_custom_tool_input(arguments_text));
        },
        ToolCallKind::Function => {
            item.name = Some(target.name);
            item.namespace = target.namespace;
            item.arguments = Some(JsonString::String(String::from_str(arguments_text)));
        },
    }
    item
}

fn push_output(v: &mut Vec<ResponseItem>, mut item: ResponseItem)
    ensures
        output_view(final(v)@) == output_view(old(v)@).push(without_id(item@)),
        final(v)@.len() == old(v)@.len() + 1,
        forall|i: int| 0 <= i < old(v)@.len() ==> #[trigger] final(v)@[i] == old(v)@[i],
        fresh_item_id(final(v)@.last()),
{
    let ghost before = item@;
    item.id = Some(generate_item_id());
    let ghost pushed = item@;
    assert(without_id(pushed) == without_id(before));
    v.push(item);
    assert(output_view(v@) =~= output_view(old(v)@).push(without_id(before)));
}

/// The response's usage (`convert_usage`).
fn usage_from_chat(chat_resp: &Json) -> (r: Option<Usage>)
    requires
        usage_fits_chat(chat_resp@),
    ensures
        r == usage_of_chat(chat_resp@),
{
    match chat_resp.get("usage") {
        Some(u) => match crate::stream_state::chat_usage_value(u) {
            Some(s) => Some(
                Usage {
                    input_tokens: s.input_tokens,
                    output_tokens: s.output_tokens,
                    total_tokens: s.total_tokens,
                    input_tokens_details: Some(
                        InputTokensDetails { cached_tokens: s.cached_tokens, cache_creation_tokens: 0 },
                    ),
                    output_tokens_details: Some(OutputTokensDetails { reasoning_tokens: s.reasoning_tokens }),
                },
            ),
            None => None,
        },
        None => None,
    }
}

/// The output items of a Chat message, each with a fresh id.
fn message_output(message: &Json, tool_name_map: &ToolNameMap) -> (r: Vec<ResponseItem>)
    requires
        tool_name_map.wf(),
    ensures
        output_view(r@) == chat_output(message@, tool_name_map.encoded_view()),
        forall|i: int| 0 <= i < r@.len() ==> fresh_item_id(#[trigger] r@[i]),
{
    let ghost names = tool_name_map.encoded_view();
    let mut output: Vec<ResponseItem> = Vec::new();
    assert(output_view(output@) =~= Seq::<ItemFieldsV>::empty());
    match get_str(message, "reasoning_content") {
        Some(reasoning) => {
            if !reasoning.is_empty() {
                let mut item = plain(ItemType::Reasoning);
                let mut parts: Vec<SummaryPart> = Vec::new();
                parts.push(SummaryPart { part_type: String::from_str("summary_text"), text: String::from_str(reasoning) });
                assert(summary_view(parts@) =~= seq![("summary_text"@, reasoning@)]);
                item.summary = Some(parts);
                item.encrypted_content = copy_opt(get_str(message, "reasoning_signature"));
                assert(item@ == reasoning_item(reasoning@, jget_str(message@, "reasoning_signature"@)));
                push_output(&mut output, item);
            }
        },
        None => {},
    }
    let ghost after_reasoning = output_view(output@);
    match get_str(message, "content") {
        Some(content) => {
            if !content.is_empty() {
                let mut item = plain(ItemType::Message);
                item.role = Some(String::from_str("assistant"));
                let mut parts: Vec<ContentPart> = Vec::new();
                parts.push(ContentPart::output_text(content));
                assert(parts_view(parts@) =~= seq![("output_text"@, content@)]);
                item.content = Some(ItemContent::Parts(parts));
                assert(item@ == message_item(content@));
                push_output(&mut output, item);
            }
        },
        None => {},
    }
    let ghost after_content = output_view(output@);
    let ghost base = output@.len();
    let ghost tcs: Seq<JsonV> = tool_calls_in(message@);
    match message.get("tool_calls") {
        Some(Json::Array(tool_calls)) => {
            proof {
                crate::json::lemma_views(tool_calls@);
            }
            let mut i: usize = 0;
            while i < tool_calls.len()
                invariant
                    i <= tool_calls@.len(),
                    tcs == crate::json::views(tool_calls@),
                    tcs.len() == tool_calls@.len(),
                    forall|j: int| 0 <= j < tool_calls@.len() ==> #[trigger] tcs[j] == tool_calls@[j]@,
                    tool_name_map.wf(),
                    names == tool_name_map.encoded_view(),
                    output_view(output@) == after_content + tcs.take(i as int).map_values(
                        |tc: JsonV| tool_call_item(tc, names),
                    ),
                    forall|k: int| 0 <= k < output@.len() ==> fresh_item_id(#[trigger] output@[k]),
                decreases tool_calls@.len() - i,
            {
                let item = tool_call_response_item(&tool_calls[i], tool_name_map);
                push_output(&mut output, item);
                proof {
                    assert(tcs.take(i + 1) =~= tcs.take(i as int).push(tcs[i as int]));
                    assert(output_view(output@) =~= after_content + tcs.take(i + 1).map_values(
                        |tc: JsonV| tool_call_item(tc, names),
                    ));
                }
                i += 1;
            }
            assert(tcs.take(tool_calls@.len() as int) =~= tcs);
        },
        _ => {
            assert(after_content + tcs.map_values(|tc: JsonV| tool_call_item(tc, names)) =~= after_content);
        },
    }
    assert(output_view(output@) =~= chat_output(message@, names));
    output
}

/// `convert_chat_response_with_tool_names`: a non-streaming Chat response
/// as a Responses API response object. It fails when the response has no
/// first choice, or that choice no message. The output holds the message's
/// reasoning, text and tool calls (`chat_output`), each item with a fresh
/// id; the response keeps the Chat id and creation time where it has them,
/// and is incomplete when the output stopped at the length limit.
pub fn convert_chat_response_with_tool_names(
    chat_resp: &Json,
    request_model: &str,
    tool_name_map: &ToolNameMap,
) -> (r: Result<ResponseObject, String>)
    requires
        tool_name_map.wf(),
        usage_fits_chat(chat_resp@),
    ensures
        match first_choice(chat_resp@) {
            None => r matches Err(e) && e@ == "no choices in chat response"@,
            Some(choice) => match jget(choice, "message"@) {
                None => r matches Err(e) && e@ == "no message in choice"@,
                Some(message) => r matches Ok(resp) && {
                    &&& match jget_str(chat_resp@, "id"@) {
                        Some(id) => resp.id@ == id,
                        None => crate::text::starts_with(resp.id@, "gwresp_"@),
                    }
                    &&& resp.object_type@ == "response"@
                    &&& resp.model@ == match jget_str(chat_resp@, "model"@) {
                        Some(m) => m,
                        None => request_model@,
                    }
                    &&& match jget(chat_resp@, "created"@) {
                        Some(c) => match crate::json::jint(c) {
                            Some(t) => resp.created_at == t,
                            None => resp.created_at >= 0,
                        },
                        None => resp.created_at >= 0,
                    }
                    &&& output_view(resp.output@) == chat_output(message, tool_name_map.encoded_view())
                    &&& forall|i: int| 0 <= i < resp.output@.len() ==> fresh_item_id(#[trigger] resp.output@[i])
                    &&& resp.usage == usage_of_chat(chat_resp@)
                    &&& if finish_reason_of(choice) == "length"@ {
                        &&& resp.status@ == "incomplete"@
                        &&& resp.incomplete_details matches Some(d) && d@ == max_output_details()
                    } else {
                        &&& resp.status@ == "completed"@
                        &&& resp.incomplete_details is None
                    }
                },
            },
        },
{
    let resp_id = match get_str(chat_resp, "id") {
        Some(id) => String::from_str(id),
        None => crate::stream_state::generate_response_id(),
    };
    let model = match get_str(chat_resp, "model") {
        Some(m) => String::from_str(m),
        None => String::from_str(request_model),
    };
    let choice: Option<&Json> = match chat_resp.get("choices") {
        Some(Json::Array(a)) => {
            proof {
                crate::json::lemma_views(a@);
            }
            if a.len() > 0 {
                Some(&a[0])
            } else {
                None
            }
        },
        _ => None,
    };
    assert(crate::json::ref_view(choice) == first_choice(chat_resp@));
    let choice = match choice {
        Some(c) => c,
        None => {
            return Err(String::from_str("no choices in chat response"));
        },
    };
    let message = match choice.get("message") {
        Some(m) => m,
        None => {
            return Err(String::from_str("no message in choice"));
        },
    };
    let length = match get_str(choice, "finish_reason") {
        Some(f) => {
            let v = crate::text::to_chars(f);
            crate::text::eq_str(&v, "length")
        },
        None => false,
    };
    proof {
        reveal_strlit("stop");
        reveal_strlit("length");
        if jget_str(choice@, "finish_reason"@) is None {
            assert("stop"@ != "length"@) by {
                assert("stop"@[0] != "length"@[0]);
            }
        }
    }
    assert(length == (finish_reason_of(choice@) == "length"@));
    let output = message_output(message, tool_name_map);
    let usage = usage_from_chat(chat_resp);
    let (status, incomplete_details) = if length {
        let mut d: Vec<(String, Json)> = Vec::new();
        d.push((String::from_str("reason"), Json::Str(String::from_str("max_output_tokens"))));
        proof {
            crate::json::lemma_member_views(d@);
            assert(member_views(d@) =~= seq![("reason"@, JsonV::Str("max_output_tokens"@))]);
        }
        let dj = Json::Object(d);
        assert(dj@ == JsonV::Object(member_views(d@)));
        (String::from_str("incomplete"), Some(dj))
    } else {
        (String::from_str("completed"), None)
    };
    let created_at = match chat_resp.get("created") {
        Some(c) => match c.as_i64() {
            Some(t) => t,
            None => now_secs(),
        },
        None => now_secs(),
    };
    Ok(
        ResponseObject {
            id: resp_id,
            object_type: String::from_str("response"),
            model,
            created_at,
            status,
            output,
            usage,
            incomplete_details,
        },
    )
}

/// Seconds since the Unix epoch by the system clock (zero before it).
fn now_secs() -> (r: i64)
    ensures
        r >= 0,
{
    let ms = crate::request_log::now_ms();
    if ms < 0 {
        0
    } else {
        ms / 1000
    }
}

/// `convert_chat_response`: the conversion with an empty tool name table.
pub fn convert_chat_response(chat_resp: &Json, request_model: &str) -> (r: Result<ResponseObject, String>)
    requires
        usage_fits_chat(chat_resp@),
    ensures
        match first_choice(chat_resp@) {
            None => r matches Err(e) && e@ == "no choices in chat response"@,
            Some(choice) => match jget(choice, "message"@) {
                None => r matches Err(e) && e@ == "no message in choice"@,
                Some(message) => r matches Ok(resp) && output_view(resp.output@) == chat_output(
                    message,
                    Map::empty(),
                ) && resp.usage == usage_of_chat(chat_resp@),
            },
        },
{
    let map = ToolNameMap::default();
    convert_chat_response_with_tool_names(chat_resp, request_model, &map)
}

} // verus!
