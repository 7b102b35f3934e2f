//! An example value for a JSON Schema, shown to a provider that cannot
//! enforce the schema itself so that it sees the shape of the answer.
use vstd::prelude::*;
use crate::json::{
    get_str, insert_member, jget, jstr, jstr_opt, lemma_jget_decreases, lemma_member_views, lemma_views, member_views,
    pretty_json_text, set_member, to_pretty_json_text, views, Json, JsonV,
};
use crate::text::{append_str, eq_str, eq_vec, from_chars, to_chars};

verus! {

/// The first type named in a list of types that is not `null`.
pub open spec fn first_non_null_type(ts: Seq<JsonV>) -> Option<Seq<char>>
    decreases ts.len(),
{
    if ts.len() == 0 {
        None
    } else {
        match ts[0] {
            JsonV::Str(t) => if t != "null"@ {
                Some(t)
            } else {
                first_non_null_type(ts.drop_first())
            },
            _ => first_non_null_type(ts.drop_first()),
        }
    }
}

/// `schema_type`: the schema's `type`, or the first non-null one of a list.
pub open spec fn schema_type(schema: JsonV) -> Option<Seq<char>> {
    match jget(schema, "type"@) {
        Some(JsonV::Str(t)) => Some(t),
        Some(JsonV::Array(ts)) => first_non_null_type(ts),
        _ => None,
    }
}

/// The alternatives of a schema: `oneOf` where present, `anyOf` otherwise.
pub open spec fn alternatives(schema: JsonV) -> Option<JsonV> {
    match jget(schema, "oneOf"@) {
        Some(v) => Some(v),
        None => jget(schema, "anyOf"@),
    }
}

/// A property is shown when the schema requires it, or when it requires
/// none (no string among `required`).
pub open spec fn shows_property(required: Seq<JsonV>, name: Seq<char>) -> bool {
    (forall|i: int| 0 <= i < required.len() ==> jstr(#[trigger] required[i]) is None) || exists|i: int|
        0 <= i < required.len() && #[trigger] required[i] == JsonV::Str(name)
}

pub open spec fn required_of(schema: JsonV) -> Seq<JsonV> {
    match jget(schema, "required"@) {
        Some(JsonV::Array(a)) => a,
        _ => Seq::empty(),
    }
}

/// `json_schema_example`: a `const`, the first of an `enum`, the example of
/// the first alternative, or a value of the schema's type (`"string"` when
/// it names none).
pub open spec fn schema_example(schema: JsonV) -> JsonV
    decreases schema, 2int,
{
    match jget(schema, "const"@) {
        Some(v) => v,
        None => match jget(schema, "enum"@) {
            Some(JsonV::Array(a)) if a.len() > 0 => a[0],
            _ => match alternatives(schema) {
                Some(JsonV::Array(a)) if a.len() > 0 => {
                    proof {
                        if jget(schema, "oneOf"@) is Some {
                            lemma_jget_decreases(schema, "oneOf"@);
                        } else {
                            lemma_jget_decreases(schema, "anyOf"@);
                        }
                    }
                    schema_example(a[0])
                },
                _ => match schema_type(schema) {
                    Some(t) => if t == "object"@ {
                        object_example(schema)
                    } else if t == "array"@ {
                        match jget(schema, "items"@) {
                            Some(items) => {
                                proof {
                                    lemma_jget_decreases(schema, "items"@);
                                }
                                JsonV::Array(seq![schema_example(items)])
                            },
                            None => JsonV::Array(seq![JsonV::Str("string"@)]),
                        }
                    } else if t == "integer"@ || t == "number"@ {
                        JsonV::Number("0"@)
                    } else if t == "boolean"@ {
                        JsonV::Bool(false)
                    } else if t == "null"@ {
                        JsonV::Null
                    } else {
                        JsonV::Str("string"@)
                    },
                    None => JsonV::Str("string"@),
                },
            },
        },
    }
}

/// `json_schema_object_example`: the shown properties with their examples.
pub open spec fn object_example(schema: JsonV) -> JsonV
    decreases schema, 1int,
{
    match jget(schema, "properties"@) {
        Some(JsonV::Object(props)) => {
            proof {
                lemma_jget_decreases(schema, "properties"@);
            }
            JsonV::Object(members_example(Seq::empty(), props, required_of(schema)))
        },
        _ => JsonV::Object(Seq::empty()),
    }
}

/// The examples of the shown properties, inserted in order into `acc`.
pub open spec fn members_example(
    acc: Seq<(Seq<char>, JsonV)>,
    props: Seq<(Seq<char>, JsonV)>,
    required: Seq<JsonV>,
) -> Seq<(Seq<char>, JsonV)>
    decreases props, 0int,
{
    if props.len() == 0 {
        acc
    } else {
        let next = if shows_property(required, props[0].0) {
            insert_member(acc, props[0].0, schema_example(props[0].1))
        } else {
            acc
        };
        members_example(next, props.drop_first(), required)
    }
}

fn first_non_null_type_exec(ts: &Vec<Json>) -> (r: Option<String>)
    ensures
        crate::tool_names::opt_view(r) == first_non_null_type(views(ts@)),
{
    let ghost tv = views(ts@);
    proof {
        lemma_views(ts@);
        assert(tv.skip(0) =~= tv);
    }
    let mut i: usize = 0;
    while i < ts.len()
        invariant
            i <= ts@.len(),
            tv == views(ts@),
            tv.len() == ts@.len(),
            forall|j: int| 0 <= j < ts@.len() ==> #[trigger] tv[j] == ts@[j]@,
            first_non_null_type(tv) == first_non_null_type(tv.skip(i as int)),
        decreases ts@.len() - i,
    {
        proof {
            assert(tv.skip(i as int)[0] == tv[i as int]);
            assert(tv.skip(i as int).drop_first() =~= tv.skip(i + 1));
        }
        match &ts[i] {
            Json::Str(t) => {
                let v = to_chars(t.as_str());
                if !eq_str(&v, "null") {
                    return Some(t.clone());
                }
            },
            _ => {},
        }
        i += 1;
    }
    None
}

/// The `type` a JSON Schema names (the first non-null one of a list).
pub fn schema_type_exec(schema: &Json) -> (r: Option<String>)
    ensures
        crate::tool_names::opt_view(r) == schema_type(schema@),
{
    match schema.get("type") {
        Some(Json::Str(t)) => Some(t.clone()),
        Some(Json::Array(ts)) => first_non_null_type_exec(ts),
        _ => None,
    }
}

fn shows_property_exec(required: &Vec<Json>, name: &str) -> (r: bool)
    ensures
        r == shows_property(views(required@), name@),
{
    let ghost rv = views(required@);
    proof {
        lemma_views(required@);
    }
    let mut any_string = false;
    let mut found = false;
    let mut i: usize = 0;
    while i < required.len()
        invariant
            i <= required@.len(),
            rv == views(required@),
            rv.len() == required@.len(),
            forall|j: int| 0 <= j < required@.len() ==> #[trigger] rv[j] == required@[j]@,
            any_string == exists|j: int| 0 <= j < i && jstr(#[trigger] rv[j]) is Some,
            found == exists|j: int| 0 <= j < i && #[trigger] rv[j] == JsonV::Str(name@),
        decreases required@.len() - i,
    {
        match &required[i] {
            Json::Str(t) => {
                any_string = true;
                let v = to_chars(t.as_str());
                if eq_str(&v, name) {
                    found = true;
                    assert(rv[i as int] == JsonV::Str(name@));
                } else {
                    assert(rv[i as int] != JsonV::Str(name@));
                }
                assert(jstr(rv[i as int]) is Some);
            },
            _ => {
                assert(jstr(rv[i as int]) is None);
            },
        }
        i += 1;
    }
    !any_string || found
}

/// An example value that fits a JSON Schema.
pub fn json_schema_example(schema: &Json) -> (r: Json)
    ensures
        r@ == schema_example(schema@),
    decreases schema@, 2int,
{
    match schema.get("const") {
        Some(v) => {
            return v.deep_clone();
        },
        None => {},
    }
    match schema.get("enum") {
        Some(Json::Array(a)) => {
            if a.len() > 0 {
                proof {
                    lemma_views(a@);
                }
                return a[0].deep_clone();
            }
        },
        _ => {},
    }
    let alt = match schema.get("oneOf") {
        Some(v) => Some(v),
        None => schema.get("anyOf"),
    };
    match alt {
        Some(Json::Array(a)) => {
            if a.len() > 0 {
                proof {
                    lemma_views(a@);
                    if jget(schema@, "oneOf"@) is Some {
                        lemma_jget_decreases(schema@, "oneOf"@);
                    } else {
                        lemma_jget_decreases(schema@, "anyOf"@);
                    }
                    assert(decreases_to!(schema@ => views(a@)[0]));
                }
                return json_schema_example(&a[0]);
            }
        },
        _ => {},
    }
    match schema_type_exec(schema) {
        Some(t) => {
            let v = to_chars(t.as_str());
            if eq_str(&v, "object") {
                json_schema_object_example(schema)
            } else if eq_str(&v, "array") {
                let item = match schema.get("items") {
                    Some(items) => {
                        proof {
                            lemma_jget_decreases(schema@, "items"@);
                        }
                        json_schema_example(items)
                    },
                    None => Json::Str(String::from_str("string")),
                };
                let ghost iv = item@;
                let mut out: Vec<Json> = Vec::new();
                out.push(item);
                proof {
                    lemma_views(out@);
                    assert(views(out@) =~= seq![iv]);
                }
                Json::Array(out)
            } else if eq_str(&v, "integer") || eq_str(&v, "number") {
                Json::Number(String::from_str("0"))
            } else if eq_str(&v, "boolean") {
                Json::Bool(false)
            } else if eq_str(&v, "null") {
                Json::Null
            } else {
                Json::Str(String::from_str("string"))
            }
        },
        None => Json::Str(String::from_str("string")),
    }
}

/// An example object with a value for each property of the schema.
pub fn json_schema_object_example(schema: &Json) -> (r: Json)
    ensures
        r@ == object_example(schema@),
    decreases schema@, 1int,
{
    let required: Vec<Json> = match schema.get("required") {
        Some(x) => match x.deep_clone() {
            Json::Array(v) => v,
            _ => Vec::new(),
        },
        None => Vec::new(),
    };
    let ghost req = views(required@);
    assert(req == required_of(schema@)) by {
        if !(jget(schema@, "required"@) matches Some(JsonV::Array(_))) {
            assert(views(required@) =~= Seq::<JsonV>::empty());
        }
    }
    match schema.get("properties") {
        Some(Json::Object(props)) => {
            proof {
                lemma_jget_decreases(schema@, "properties"@);
                lemma_member_views(props@);
            }
            let ghost pv = member_views(props@);
            let mut out: Vec<(String, Json)> = Vec::new();
            let mut i: usize = 0;
            assert(member_views(out@) =~= Seq::<(Seq<char>, JsonV)>::empty());
            assert(pv.skip(0) =~= pv);
            while i < props.len()
                invariant
                    i <= props@.len(),
                    pv == member_views(props@),
                    pv.len() == props@.len(),
                    forall|j: int| 0 <= j < props@.len() ==> #[trigger] pv[j] == (props@[j].0@, props@[j].1@),
                    req == required_of(schema@),
                    req == views(required@),
                    jget(schema@, "properties"@) == Some(JsonV::Object(pv)),
                    decreases_to!(schema@ => pv),
                    members_example(Seq::empty(), pv, req) == members_example(
                        member_views(out@),
                        pv.skip(i as int),
                        req,
                    ),
                decreases props@.len() - i,
            {
                proof {
                    assert(pv.skip(i as int)[0] == pv[i as int]);
                    assert(pv.skip(i as int).drop_first() =~= pv.skip(i + 1));
                    assert(decreases_to!(pv => pv[i as int]));
                    assert(decreases_to!(pv[i as int] => pv[i as int].1));
                }
                let ghost before = member_views(out@);
                let ghost rest = pv.skip(i as int);
                let ghost next = if shows_property(req, pv[i as int].0) {
                    insert_member(before, pv[i as int].0, schema_example(pv[i as int].1))
                } else {
                    before
                };
                assert(members_example(before, rest, req) == members_example(next, rest.drop_first(), req));
                let name = props[i].0.as_str();
                assert(pv[i as int] == (props@[i as int].0@, props@[i as int].1@));
                assert(name@ == pv[i as int].0);
                if shows_property_exec(&required, name) {
                    let example = json_schema_example(&props[i].1);
                    assert(example@ == schema_example(pv[i as int].1));
                    set_member(&mut out, name, example);
                    assert(member_views(out@) == insert_member(before, pv[i as int].0, schema_example(pv[i as int].1)));
                    assert(shows_property(req, pv[i as int].0));
                    assert(member_views(out@) == next);
                } else {
                    assert(!shows_property(req, pv[i as int].0));
                    assert(member_views(out@) == next);
                }
                i += 1;
            }
            proof {
                assert(pv.skip(pv.len() as int) =~= Seq::<(Seq<char>, JsonV)>::empty());
            }
            let ghost ov = member_views(out@);
            let r = Json::Object(out);
            assert(r@ == JsonV::Object(ov));
            r
        },
        _ => {
            let out: Vec<(String, Json)> = Vec::new();
            assert(member_views(out@) =~= Seq::<(Seq<char>, JsonV)>::empty());
            let r = Json::Object(out);
            assert(r@ == JsonV::Object(Seq::empty()));
            r
        },
    }
}


// ─── asking for JSON output ────────────────────────────────────────────

/// The structured-output format a request asks for.
#[derive(Debug)]
pub struct TextFormat {
    pub format_type: String,
    pub name: Option<String>,
    pub schema: Option<Json>,
}

pub open spec fn json_only_sentence() -> Seq<char> {
    "You must respond with a valid JSON object only. Do not output markdown, code fences, commentary, or whitespace outside the JSON object."@
}

/// The system instruction that asks for JSON output: the schema (named
/// when it has a non-empty name) and an example that fits it, both
/// pretty-printed; just an empty example without a schema.
pub open spec fn json_output_instruction(name: Option<Seq<char>>, schema: Option<JsonV>) -> Seq<char> {
    match schema {
        Some(s) => json_only_sentence() + (if name matches Some(n) && n.len() > 0 {
            "\nThe JSON object must conform to this JSON Schema named "@ + name->0 + ":"@
        } else {
            "\nThe JSON object must conform to this JSON Schema:"@
        }) + "\n"@ + pretty_json_text(s) + "\nExample JSON output:\n"@ + pretty_json_text(schema_example(s)),
        None => json_only_sentence() + "\nExample JSON output:\n{}"@,
    }
}

pub open spec fn opt_json(o: Option<Json>) -> Option<JsonV> {
    match o {
        Some(j) => Some(j@),
        None => None,
    }
}

pub fn build_json_output_instruction(format: &TextFormat) -> (r: String)
    ensures
        r@ == json_output_instruction(crate::tool_names::opt_view(format.name), opt_json(format.schema)),
{
    let mut out = to_chars(
        "You must respond with a valid JSON object only. Do not output markdown, code fences, commentary, or whitespace outside the JSON object.",
    );
    match &format.schema {
        Some(schema) => {
            let named = match &format.name {
                Some(n) => n.as_str().unicode_len() > 0,
                None => false,
            };
            if named {
                append_str(&mut out, "\nThe JSON object must conform to this JSON Schema named ");
                append_str(&mut out, format.name.as_ref().unwrap().as_str());
                append_str(&mut out, ":");
            } else {
                append_str(&mut out, "\nThe JSON object must conform to this JSON Schema:");
            }
            append_str(&mut out, "\n");
            append_str(&mut out, to_pretty_json_text(schema).as_str());
            append_str(&mut out, "\nExample JSON output:\n");
            append_str(&mut out, to_pretty_json_text(&json_schema_example(schema)).as_str());
        },
        None => {
            append_str(&mut out, "\nExample JSON output:\n{}");
        },
    }
    from_chars(&out)
}

/// The first message is a system message with text content.
pub open spec fn system_text(m: JsonV) -> Option<Seq<char>> {
    if jstr_opt(jget(m, "role"@)) == Some("system"@) {
        match jget(m, "content"@) {
            Some(JsonV::Str(t)) => Some(t),
            _ => None,
        }
    } else {
        None
    }
}

/// The messages with the instruction added: appended after a blank line to
/// a leading system message's text, or as a new first system message.
pub open spec fn with_instruction(messages: Seq<JsonV>, instruction: Seq<char>) -> Seq<JsonV> {
    if messages.len() > 0 && system_text(messages[0]) is Some && messages[0] is Object {
        messages.update(
            0,
            JsonV::Object(
                insert_member(
                    messages[0]->Object_0,
                    "content"@,
                    JsonV::Str(system_text(messages[0])->0 + "\n\n"@ + instruction),
                ),
            ),
        )
    } else {
        seq![
            JsonV::Object(
                Seq::empty().push(("role"@, JsonV::Str("system"@))).push(("content"@, JsonV::Str(instruction))),
            ),
        ] + messages
    }
}

/// `inject_json_output_instruction` on the request's messages.
pub fn inject_json_output_instruction(messages: &mut Vec<Json>, format: &TextFormat)
    ensures
        views(final(messages)@) == with_instruction(
            views(old(messages)@),
            json_output_instruction(crate::tool_names::opt_view(format.name), opt_json(format.schema)),
        ),
{
    let instruction = build_json_output_instruction(format);
    proof {
        lemma_views(messages@);
    }
    let existing = leading_system_text(messages);
    if messages.len() > 0 {
        match existing {
            Some(text) => {
                let mut members: Vec<(String, Json)> = match &messages[0] {
                    Json::Object(m) => clone_members(m),
                    _ => Vec::new(),
                };
                let mut joined = text;
                append_str(&mut joined, "\n\n");
                append_str(&mut joined, instruction.as_str());
                set_member(&mut members, "content", Json::Str(from_chars(&joined)));
                let ghost before = messages@;
                messages.set(0, Json::Object(members));
                proof {
                    lemma_views(messages@);
                    lemma_views(before);
                    assert(views(messages@) =~= views(before).update(0, views(messages@)[0]));
                }
                return;
            },
            None => {},
        }
    }
    let mut first: Vec<(String, Json)> = Vec::new();
    first.push((String::from_str("role"), Json::Str(String::from_str("system"))));
    first.push((String::from_str("content"), Json::Str(instruction)));
    proof {
        lemma_member_views(first@);
        assert(member_views(first@) =~= Seq::empty().push(("role"@, JsonV::Str("system"@))).push(
            ("content"@, JsonV::Str(first@[1].1->Str_0@)),
        ));
    }
    let ghost before = messages@;
    messages.insert(0, Json::Object(first));
    proof {
        lemma_views(messages@);
        lemma_views(before);
        lemma_member_views(first@);
        assert(views(messages@) =~= seq![views(messages@)[0]] + views(before));
    }
}

/// The text of a leading system message, when it is an object with string
/// content.
fn leading_system_text(messages: &Vec<Json>) -> (r: Option<Vec<char>>)
    ensures
        match r {
            Some(t) => views(messages@).len() > 0 && views(messages@)[0] is Object && system_text(
                views(messages@)[0],
            ) == Some(t@),
            None => !(views(messages@).len() > 0 && views(messages@)[0] is Object && system_text(
                views(messages@)[0],
            ) is Some),
        },
{
    proof {
        lemma_views(messages@);
    }
    if messages.len() == 0 {
        return None;
    }
    match &messages[0] {
        Json::Object(_) => {},
        _ => return None,
    }
    let is_system = match get_str(&messages[0], "role") {
        Some(r) => eq_str(&to_chars(r), "system"),
        None => false,
    };
    if !is_system {
        return None;
    }
    match messages[0].get("content") {
        Some(Json::Str(t)) => Some(to_chars(t.as_str())),
        _ => None,
    }
}

fn clone_members(m: &Vec<(String, Json)>) -> (r: Vec<(String, Json)>)
    ensures
        member_views(r@) == member_views(m@),
{
    let mut out: Vec<(String, Json)> = Vec::new();
    let mut k: usize = 0;
    while k < m.len()
        invariant
            k <= m@.len(),
            member_views(out@) == member_views(m@.take(k as int)),
        decreases m@.len() - k,
    {
        let ghost before = out@;
        out.push((m[k].0.clone(), m[k].1.deep_clone()));
        proof {
            assert(out@.drop_last() =~= before);
            assert(m@.take(k + 1).drop_last() =~= m@.take(k as int));
        }
        k += 1;
    }
    assert(m@.take(m@.len() as int) =~= m@);
    out
}


/// The body with the instruction added to its `messages`, when it has a
/// list of them.
pub open spec fn injected(body: Seq<(Seq<char>, JsonV)>, instruction: Seq<char>) -> Seq<(Seq<char>, JsonV)> {
    match crate::json::member_lookup(body, "messages"@) {
        Some(JsonV::Array(ms)) => insert_member(body, "messages"@, JsonV::Array(with_instruction(ms, instruction))),
        _ => body,
    }
}

pub open spec fn type_only(t: Seq<char>) -> JsonV {
    JsonV::Object(Seq::empty().push(("type"@, JsonV::Str(t))))
}

/// `response_format` for a JSON schema: the schema and its name (`response`
/// when it has none), when there is a schema.
pub open spec fn json_schema_format(name: Option<Seq<char>>, schema: Option<JsonV>) -> JsonV {
    match schema {
        Some(s) => JsonV::Object(
            Seq::empty().push(("type"@, JsonV::Str("json_schema"@))).push(
                (
                    "json_schema"@,
                    JsonV::Object(
                        Seq::empty().push(("schema"@, s)).push(
                            ("name"@, JsonV::Str(crate::codex::or_default(name, "response"@))),
                        ),
                    ),
                ),
            ),
        ),
        None => type_only("json_schema"@),
    }
}

/// The body's members after the structured-output format: a JSON schema is
/// passed on, except to DeepSeek, which gets `json_object` and the
/// instruction in its messages; `json_object` is passed on, with the
/// instruction for DeepSeek; any other format changes nothing.
pub open spec fn with_response_format(
    body: Seq<(Seq<char>, JsonV)>,
    format_type: Seq<char>,
    name: Option<Seq<char>>,
    schema: Option<JsonV>,
    deepseek_mode: bool,
) -> Seq<(Seq<char>, JsonV)> {
    let instruction = json_output_instruction(name, schema);
    if format_type == "json_schema"@ {
        if deepseek_mode {
            injected(insert_member(body, "response_format"@, type_only("json_object"@)), instruction)
        } else {
            insert_member(body, "response_format"@, json_schema_format(name, schema))
        }
    } else if format_type == "json_object"@ {
        let b = insert_member(body, "response_format"@, type_only("json_object"@));
        if deepseek_mode {
            injected(b, instruction)
        } else {
            b
        }
    } else {
        body
    }
}

fn clone_items(a: &Vec<Json>) -> (r: Vec<Json>)
    ensures
        views(r@) == views(a@),
{
    let mut out: Vec<Json> = Vec::new();
    let mut k: usize = 0;
    while k < a.len()
        invariant
            k <= a@.len(),
            views(out@) == views(a@.take(k as int)),
        decreases a@.len() - k,
    {
        let ghost before = out@;
        out.push(a[k].deep_clone());
        proof {
            assert(out@.drop_last() =~= before);
            assert(a@.take(k + 1).drop_last() =~= a@.take(k as int));
        }
        k += 1;
    }
    assert(a@.take(a@.len() as int) =~= a@);
    out
}

fn inject_into_body(members: &mut Vec<(String, Json)>, format: &TextFormat)
    ensures
        member_views(final(members)@) == injected(
            member_views(old(members)@),
            json_output_instruction(crate::tool_names::opt_view(format.name), opt_json(format.schema)),
        ),
{
    let tmp = Json::Object(clone_members(members));
    let found = match tmp.get("messages") {
        Some(Json::Array(a)) => Some(clone_items(a)),
        _ => None,
    };
    match found {
        Some(a) => {
            let mut msgs = a;
            inject_json_output_instruction(&mut msgs, format);
            set_member(members, "messages", Json::Array(msgs));
        },
        None => {},
    }
}

fn type_only_exec(t: &str) -> (r: Json)
    ensures
        r@ == type_only(t@),
{
    let mut m: Vec<(String, Json)> = Vec::new();
    m.push((String::from_str("type"), Json::Str(String::from_str(t))));
    proof {
        lemma_member_views(m@);
        assert(member_views(m@) =~= Seq::empty().push(("type"@, JsonV::Str(t@))));
    }
    Json::Object(m)
}

/// `apply_response_format` on the request body, an object.
pub fn apply_response_format(body: &mut Json, format: &TextFormat, deepseek_mode: bool)
    requires
        old(body)@ is Object,
    ensures
        final(body)@ == JsonV::Object(
            with_response_format(
                old(body)@->Object_0,
                format.format_type@,
                crate::tool_names::opt_view(format.name),
                opt_json(format.schema),
                deepseek_mode,
            ),
        ),
{
    let mut members = match body {
        Json::Object(m) => clone_members(m),
        _ => Vec::new(),
    };
    let t = to_chars(format.format_type.as_str());
    if eq_str(&t, "json_schema") {
        if deepseek_mode {
            set_member(&mut members, "response_format", type_only_exec("json_object"));
            inject_into_body(&mut members, format);
        } else {
            let rf = match &format.schema {
                Some(schema) => {
                    let mut inner: Vec<(String, Json)> = Vec::new();
                    inner.push((String::from_str("schema"), schema.deep_clone()));
                    let name = match &format.name {
                        Some(n) => n.clone(),
                        None => String::from_str("response"),
                    };
                    inner.push((String::from_str("name"), Json::Str(name)));
                    let mut outer: Vec<(String, Json)> = Vec::new();
                    outer.push((String::from_str("type"), Json::Str(String::from_str("json_schema"))));
                    outer.push((String::from_str("json_schema"), Json::Object(inner)));
                    proof {
                        lemma_member_views(inner@);
                        lemma_member_views(outer@);
                        assert(member_views(inner@) =~= Seq::empty().push(("schema"@, inner@[0].1@)).push(
                            ("name"@, inner@[1].1@),
                        ));
                        assert(member_views(outer@) =~= Seq::empty().push(("type"@, JsonV::Str("json_schema"@))).push(
                            ("json_schema"@, outer@[1].1@),
                        ));
                    }
                    Json::Object(outer)
                },
                None => type_only_exec("json_schema"),
            };
            set_member(&mut members, "response_format", rf);
        }
    } else if eq_str(&t, "json_object") {
        set_member(&mut members, "response_format", type_only_exec("json_object"));
        if deepseek_mode {
            inject_into_body(&mut members, format);
        }
    }
    *body = Json::Object(members);
}

} // verus!
