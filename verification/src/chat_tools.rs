//! Tool declarations and tool choices of a Responses request in the shape
//! of the Chat Completions API, with tool names encoded for the provider.
use vstd::prelude::*;
use crate::json::{insert_member, jget, jget_str, jstr, member_lookup, member_views, set_member, Json, JsonV};
use crate::text::{eq_str, to_chars, trim, trim_str};
use crate::tool_names::{
    custom_target, encode_result, function_target, names_after, tool_search_target, TargetView, ToolNameMap,
    TOOL_SEARCH_NAME,
};

verus! {

pub open spec fn object_members(v: Option<JsonV>) -> Seq<(Seq<char>, JsonV)> {
    match v {
        Some(JsonV::Object(m)) => m,
        _ => Seq::empty(),
    }
}

/// The tool's field copied into the function where the function lacks it.
pub open spec fn fill_from(fm: Seq<(Seq<char>, JsonV)>, tool: JsonV, key: Seq<char>) -> Seq<(Seq<char>, JsonV)> {
    match jget(tool, key) {
        Some(v) => if member_lookup(fm, key) is None {
            insert_member(fm, key, v)
        } else {
            fm
        },
        None => fm,
    }
}

/// The function object of a tool before its name is encoded: its
/// `function` object with `name`, `description`, `parameters` and `strict`
/// taken from the tool where the function has none.
pub open spec fn function_fields(tool: JsonV) -> Seq<(Seq<char>, JsonV)> {
    let base = object_members(jget(tool, "function"@));
    fill_from(
        fill_from(fill_from(fill_from(base, tool, "name"@), tool, "description"@), tool, "parameters"@),
        tool,
        "strict"@,
    )
}

/// The function's name, where it is a string.
pub open spec fn function_name(tool: JsonV) -> Option<Seq<char>> {
    match member_lookup(function_fields(tool), "name"@) {
        Some(v) => jstr(v),
        None => None,
    }
}

/// `build_chat_function_object` with the name already encoded.
pub open spec fn function_object(tool: JsonV, encoded: Seq<char>) -> JsonV {
    JsonV::Object(insert_member(function_fields(tool), "name"@, JsonV::Str(encoded)))
}

pub open spec fn opt_str_view(o: Option<&str>) -> Option<Seq<char>> {
    match o {
        Some(s) => Some(s@),
        None => None,
    }
}

fn empty_object() -> (r: Json)
    ensures
        r@ == JsonV::Object(Seq::empty()),
{
    let m: Vec<(String, Json)> = Vec::new();
    assert(member_views(m@) =~= Seq::<(Seq<char>, JsonV)>::empty());
    Json::Object(m)
}

fn fill_exec(f: &mut Json, tool: &Json, key: &str)
    requires
        old(f)@ is Object,
    ensures
        final(f)@ == JsonV::Object(fill_from(old(f)@->Object_0, tool@, key@)),
{
    match tool.get(key) {
        Some(v) => {
            if f.get(key).is_none() {
                let c = v.deep_clone();
                match f {
                    Json::Object(m) => set_member(m, key, c),
                    _ => {},
                }
            }
        },
        None => {},
    }
}

/// `build_chat_function_object`: the function object with its name encoded
/// for `namespace`; nothing where the function has no string name, and the
/// table is then left as it is.
#[verifier::spinoff_prover]
#[verifier::rlimit(40)]
pub fn build_chat_function_object(tool: &Json, namespace: Option<&str>, tool_name_map: &mut ToolNameMap) -> (r:
    Option<Json>)
    requires
        old(tool_name_map).wf(),
    ensures
        final(tool_name_map).wf(),
        match function_name(tool@) {
            None => r is None && *final(tool_name_map) == *old(tool_name_map),
            Some(n) => {
                let t = function_target(opt_str_view(namespace), n);
                let e = encode_result(old(tool_name_map).encoded_view(), old(tool_name_map).target_view(), t);
                &&& r matches Some(f) && f@ == function_object(tool@, e)
                &&& final(tool_name_map).target_view() == old(tool_name_map).target_view().insert(t, e)
                &&& (final(tool_name_map).encoded_view(), final(tool_name_map).target_view()) == names_after(
                    old(tool_name_map).encoded_view(),
                    old(tool_name_map).target_view(),
                    t,
                )
            },
        },
{
    let mut f: Json = match tool.get("function") {
        Some(x) => match x {
            Json::Object(_) => x.deep_clone(),
            _ => empty_object(),
        },
        None => empty_object(),
    };
    assert(f@ == JsonV::Object(object_members(jget(tool@, "function"@))));
    fill_exec(&mut f, tool, "name");
    fill_exec(&mut f, tool, "description");
    fill_exec(&mut f, tool, "parameters");
    fill_exec(&mut f, tool, "strict");
    assert(f@ == JsonV::Object(function_fields(tool@)));
    let name: String = match f.get("name") {
        Some(Json::Str(s)) => s.clone(),
        _ => {
            return None;
        },
    };
    let encoded = tool_name_map.encode_function(namespace, name.as_str());
    let ghost ev = encoded@;
    match &mut f {
        Json::Object(m) => set_member(m, "name", Json::Str(encoded)),
        _ => {},
    }
    assert(f@ == function_object(tool@, ev));
    Some(f)
}

/// `build_chat_tool_search_object`: the tool search as a function with its
/// description and parameters; the tool search is recorded in the table.
pub fn build_chat_tool_search_object(tool: &Json, tool_name_map: &mut ToolNameMap) -> (r: Json)
    requires
        old(tool_name_map).wf(),
    ensures
        final(tool_name_map).wf(),
        r@ == tool_search_function(tool@),
        final(tool_name_map).target_view() == old(tool_name_map).target_view().insert(
            tool_search_target(),
            encode_result(old(tool_name_map).encoded_view(), old(tool_name_map).target_view(), tool_search_target()),
        ),
        (final(tool_name_map).encoded_view(), final(tool_name_map).target_view()) == names_after(
            old(tool_name_map).encoded_view(),
            old(tool_name_map).target_view(),
            tool_search_target(),
        ),
{
    let mut m: Vec<(String, Json)> = Vec::new();
    assert(member_views(m@) =~= Seq::<(Seq<char>, JsonV)>::empty());
    set_member(&mut m, "name", Json::Str(String::from_str(TOOL_SEARCH_NAME)));
    match tool.get("description") {
        Some(d) => set_member(&mut m, "description", d.deep_clone()),
        None => {},
    }
    match tool.get("parameters") {
        Some(p) => set_member(&mut m, "parameters", p.deep_clone()),
        None => {},
    }
    let _ = tool_name_map.encode_tool_search();
    let ghost mv = member_views(m@);
    let r = Json::Object(m);
    assert(r@ == JsonV::Object(mv));
    r
}

/// The tool search function: its fixed name, and the tool's description
/// and parameters where it has them.
pub open spec fn tool_search_function(tool: JsonV) -> JsonV {
    let named = insert_member(Seq::empty(), "name"@, JsonV::Str(TOOL_SEARCH_NAME@));
    let described = match jget(tool, "description"@) {
        Some(d) => insert_member(named, "description"@, d),
        None => named,
    };
    JsonV::Object(
        match jget(tool, "parameters"@) {
            Some(p) => insert_member(described, "parameters"@, p),
            None => described,
        },
    )
}

/// The namespace of a function choice, where it is not blank.
pub open spec fn choice_namespace(choice: JsonV) -> Option<Seq<char>> {
    match jget_str(choice, "namespace"@) {
        Some(s) => if trim(s).len() > 0 {
            Some(s)
        } else {
            None
        },
        None => None,
    }
}

pub open spec fn choice_is_function(choice: JsonV) -> bool {
    jget_str(choice, "type"@) == Some("function"@) && function_name(choice) is Some
}

/// The tool whose name a tool choice encodes, if any.
pub open spec fn choice_target(choice: JsonV) -> Option<TargetView> {
    if !(choice is Object) || jget_str(choice, "mode"@) is Some {
        None
    } else if choice_is_function(choice) {
        Some(function_target(choice_namespace(choice), function_name(choice)->0))
    } else if jget_str(choice, "type"@) == Some("tool_search"@) {
        Some(tool_search_target())
    } else if jget_str(choice, "type"@) == Some("custom"@) && jget_str(choice, "name"@) is Some {
        Some(custom_target(jget_str(choice, "name"@)->0))
    } else {
        None
    }
}

/// `{"type": "function", "function": f}`.
pub open spec fn function_choice(f: JsonV) -> JsonV {
    JsonV::Object(Seq::empty().push(("type"@, JsonV::Str("function"@))).push(("function"@, f)))
}

/// `convert_tool_choice_to_chat` with the tool's name already encoded: a
/// mode becomes the mode itself; a function, tool search or custom tool
/// becomes a function choice; anything else stays.
pub open spec fn chat_tool_choice(choice: JsonV, encoded: Seq<char>) -> JsonV {
    if !(choice is Object) {
        choice
    } else if jget_str(choice, "mode"@) is Some {
        JsonV::Str(jget_str(choice, "mode"@)->0)
    } else if choice_is_function(choice) {
        function_choice(function_object(choice, encoded))
    } else if jget_str(choice, "type"@) == Some("tool_search"@) || (jget_str(choice, "type"@) == Some("custom"@)
        && jget_str(choice, "name"@) is Some) {
        function_choice(JsonV::Object(Seq::empty().push(("name"@, JsonV::Str(encoded)))))
    } else {
        choice
    }
}

fn type_is(v: &Json, ty: &str) -> (r: bool)
    ensures
        r == (jget_str(v@, "type"@) == Some(ty@)),
{
    match crate::json::get_str(v, "type") {
        Some(t) => {
            let c = to_chars(t);
            eq_str(&c, ty)
        },
        None => false,
    }
}

fn function_choice_exec(f: Json) -> (r: Json)
    ensures
        r@ == function_choice(f@),
{
    let ghost fv = f@;
    let mut m: Vec<(String, Json)> = Vec::new();
    m.push((String::from_str("type"), Json::Str(String::from_str("function"))));
    m.push((String::from_str("function"), f));
    proof {
        crate::json::lemma_member_views(m@);
        assert(member_views(m@) =~= Seq::empty().push(("type"@, JsonV::Str("function"@))).push(("function"@, fv)));
    }
    let ghost mv = member_views(m@);
    let r = Json::Object(m);
    assert(r@ == JsonV::Object(mv));
    r
}

fn named_function_choice(encoded: String) -> (r: Json)
    ensures
        r@ == function_choice(JsonV::Object(Seq::empty().push(("name"@, JsonV::Str(encoded@))))),
{
    let ghost ev = encoded@;
    let mut m: Vec<(String, Json)> = Vec::new();
    m.push((String::from_str("name"), Json::Str(encoded)));
    proof {
        crate::json::lemma_member_views(m@);
        assert(member_views(m@) =~= Seq::empty().push(("name"@, JsonV::Str(ev))));
    }
    let ghost mv = member_views(m@);
    let f = Json::Object(m);
    assert(f@ == JsonV::Object(mv));
    function_choice_exec(f)
}

/// The Chat form of a Responses tool choice, with tool names encoded through the table.
pub fn convert_tool_choice_to_chat(tool_choice: &Json, tool_name_map: &mut ToolNameMap) -> (r: Json)
    requires
        old(tool_name_map).wf(),
    ensures
        final(tool_name_map).wf(),
        match choice_target(tool_choice@) {
            Some(t) => {
                let e = encode_result(old(tool_name_map).encoded_view(), old(tool_name_map).target_view(), t);
                &&& r@ == chat_tool_choice(tool_choice@, e)
                &&& final(tool_name_map).target_view() == old(tool_name_map).target_view().insert(t, e)
                &&& (final(tool_name_map).encoded_view(), final(tool_name_map).target_view()) == names_after(
                    old(tool_name_map).encoded_view(),
                    old(tool_name_map).target_view(),
                    t,
                )
            },
            None => r@ == chat_tool_choice(tool_choice@, Seq::empty()) && *final(tool_name_map) == *old(
                tool_name_map,
            ),
        },
{
    match tool_choice {
        Json::Object(_) => {},
        _ => {
            return tool_choice.deep_clone();
        },
    }
    match crate::json::get_str(tool_choice, "mode") {
        Some(mode) => {
            return Json::Str(String::from_str(mode));
        },
        None => {},
    }
    if type_is(tool_choice, "function") {
        let namespace: Option<String> = match crate::json::get_str(tool_choice, "namespace") {
            Some(s) => {
                let t = trim_str(s);
                if t.as_str().is_empty() {
                    assert(trim(s@) =~= Seq::<char>::empty());
                    None
                } else {
                    Some(String::from_str(s))
                }
            },
            None => None,
        };
        let ns: Option<&str> = match &namespace {
            Some(s) => Some(s.as_str()),
            None => None,
        };
        assert(opt_str_view(ns) == choice_namespace(tool_choice@));
        match build_chat_function_object(tool_choice, ns, tool_name_map) {
            Some(f) => {
                return function_choice_exec(f);
            },
            None => {},
        }
    }
    if type_is(tool_choice, "tool_search") {
        let e = tool_name_map.encode_tool_search();
        return named_function_choice(e);
    }
    if type_is(tool_choice, "custom") {
        match crate::json::get_str(tool_choice, "name") {
            Some(name) => {
                let e = tool_name_map.encode_custom(name);
                return named_function_choice(e);
            },
            None => {},
        }
    }
    tool_choice.deep_clone()
}

} // verus!
