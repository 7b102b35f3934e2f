//! Preparing a Responses request's tool declarations for an upstream:
//! client tools carried in `additional_tools` input items move to the
//! top-level `tools`, duplicates merge by identity, and Grok's function,
//! web-search and tool-choice shapes.
use vstd::prelude::*;
use crate::json::{
    as_str_opt, get_str, insert_member, jget, jget_str, jstr_opt, json_text, lemma_jget_decreases, lemma_views,
    member_lookup, ref_view, set_member, str_view, to_json_text, views, Json, JsonV,
};
use crate::text::{append_str, append_vec, eq_str, eq_vec, from_chars, to_chars};
use crate::chat_messages::{
    lemma_lookup_without_other, lemma_lookup_without_same, lemma_set_field_other, lemma_set_field_same, set_field,
};
use crate::responses_compat::{members_without, without_key};
use crate::json::{lemma_member_views, member_views};
use crate::tool_names::{custom_target, encode_result, function_target, TargetView, ToolNameMap};

verus! {

/// Counts of the rewrites made to a request's tool declarations.
#[derive(Debug)]
pub struct ResponsesToolPreparation {
    pub carriers_removed: usize,
    pub tools_added: usize,
    pub duplicates_removed: usize,
    pub grok_tools_converted: usize,
    pub grok_hosted_tools_normalized: usize,
    pub grok_tool_names: Option<ToolNameMap>,
}

impl ResponsesToolPreparation {
    /// Nothing was rewritten yet.
    pub fn new() -> (r: Self)
        ensures
            !r.changed_spec(),
            r.grok_tool_names is None,
    {
        ResponsesToolPreparation {
            carriers_removed: 0,
            tools_added: 0,
            duplicates_removed: 0,
            grok_tools_converted: 0,
            grok_hosted_tools_normalized: 0,
            grok_tool_names: None,
        }
    }

    pub open spec fn changed_spec(&self) -> bool {
        self.carriers_removed > 0 || self.tools_added > 0 || self.duplicates_removed > 0
            || self.grok_tools_converted > 0 || self.grok_hosted_tools_normalized > 0
    }

    /// Whether any rewrite was made (the Grok tool-name table alone is not one).
    pub fn changed(&self) -> (r: bool)
        ensures
            r == self.changed_spec(),
    {
        self.carriers_removed > 0 || self.tools_added > 0 || self.duplicates_removed > 0
            || self.grok_tools_converted > 0 || self.grok_hosted_tools_normalized > 0
    }
}

// ─── merging tool declarations ─────────────────────────────────────────

pub open spec fn text_or_empty(o: Option<Seq<char>>) -> Seq<char> {
    match o {
        Some(t) => t,
        None => Seq::empty(),
    }
}

/// The name a tool declares: its `function.name` where it has a `function`
/// object with a name, its own `name` otherwise.
pub open spec fn declared_name(tool: JsonV) -> Option<JsonV> {
    let from_function = match jget(tool, "function"@) {
        Some(JsonV::Object(fm)) => member_lookup(fm, "name"@),
        _ => None,
    };
    match from_function {
        Some(v) => Some(v),
        None => jget(tool, "name"@),
    }
}

/// `tool_identity`: two declarations with the same identity are the same
/// tool. A typed, named tool (or a tool search) is known by type, namespace
/// and name; another typed tool by type and its JSON text; anything else by
/// its JSON text.
pub open spec fn tool_identity(tool: JsonV) -> Seq<char> {
    if tool is Object {
        let ty = text_or_empty(jget_str(tool, "type"@));
        let name = text_or_empty(jstr_opt(declared_name(tool)));
        let ns = text_or_empty(jget_str(tool, "namespace"@));
        if ty.len() > 0 && (name.len() > 0 || ty == "tool_search"@) {
            ty + seq!['\0'] + ns + seq!['\0'] + name
        } else if ty.len() > 0 {
            ty + seq!['\0'] + json_text(tool)
        } else {
            json_text(tool)
        }
    } else {
        json_text(tool)
    }
}

/// The first declaration of `target` with identity `id`.
pub open spec fn identity_index(target: Seq<JsonV>, id: Seq<char>) -> Option<int>
    decreases target.len(),
{
    if target.len() == 0 {
        None
    } else if tool_identity(target[0]) == id {
        Some(0)
    } else {
        match identity_index(target.drop_first(), id) {
            Some(i) => Some(i + 1),
            None => None,
        }
    }
}

/// The child tools of a namespace declaration.
pub open spec fn namespace_children(c: JsonV) -> Option<Seq<JsonV>> {
    match jget(c, "tools"@) {
        Some(JsonV::Array(a)) => Some(a),
        _ => None,
    }
}

/// `merge_tool`: a new declaration is appended; a known one counts as a
/// duplicate, and a duplicate namespace merges its children into the one
/// already there. The list, whether it was added, and the duplicates.
pub open spec fn merge_tool(target: Seq<JsonV>, c: JsonV) -> (Seq<JsonV>, bool, nat)
    decreases c, 2int,
{
    match identity_index(target, tool_identity(c)) {
        None => (target.push(c), true, 0),
        Some(i) => if jget_str(c, "type"@) == Some("namespace"@) && 0 <= i < target.len() {
            let r = merge_children(target[i], c);
            (target.update(i, r.0), false, 1 + r.1)
        } else {
            (target, false, 1)
        },
    }
}

/// `merge_namespace_children`: the candidate namespace's children merged
/// into the existing namespace's `tools`, with the duplicates among them.
pub open spec fn merge_children(existing: JsonV, c: JsonV) -> (JsonV, nat)
    decreases c, 1int,
{
    match namespace_children(c) {
        None => (existing, 0),
        Some(kids) => {
            proof {
                lemma_jget_decreases(c, "tools"@);
            }
            match existing {
                JsonV::Object(em) => match member_lookup(em, "tools"@) {
                    None => {
                        let r = merge_all(Seq::empty(), kids);
                        (JsonV::Object(insert_member(em, "tools"@, JsonV::Array(r.0))), r.1)
                    },
                    Some(JsonV::Array(cur)) => {
                        let r = merge_all(cur, kids);
                        (JsonV::Object(insert_member(em, "tools"@, JsonV::Array(r.0))), r.1)
                    },
                    Some(_) => (existing, 0),
                },
                _ => (existing, 0),
            }
        },
    }
}

/// The candidates merged one after the other, with their duplicates.
pub open spec fn merge_all(target: Seq<JsonV>, cands: Seq<JsonV>) -> (Seq<JsonV>, nat)
    decreases cands, 0int,
{
    if cands.len() == 0 {
        (target, 0)
    } else {
        let r = merge_tool(target, cands[0]);
        let rest = merge_all(r.0, cands.drop_first());
        (rest.0, r.2 + rest.1)
    }
}

/// The declarations in a tool, its namespace children and theirs counted.
pub open spec fn tool_count(c: JsonV) -> nat
    decreases c, 1int,
{
    match namespace_children(c) {
        Some(kids) => {
            proof {
                lemma_jget_decreases(c, "tools"@);
            }
            1 + tool_counts(kids)
        },
        None => 1,
    }
}

pub open spec fn tool_counts(cs: Seq<JsonV>) -> nat
    decreases cs, 0int,
{
    if cs.len() == 0 {
        0
    } else {
        tool_count(cs[0]) + tool_counts(cs.drop_first())
    }
}

/// A merge finds at most one duplicate per declaration it merges.
pub proof fn lemma_merge_tool_bound(target: Seq<JsonV>, c: JsonV)
    ensures
        merge_tool(target, c).2 <= tool_count(c),
    decreases c, 2int,
{
    match identity_index(target, tool_identity(c)) {
        None => {},
        Some(i) => if jget_str(c, "type"@) == Some("namespace"@) && 0 <= i < target.len() {
            lemma_merge_children_bound(target[i], c);
        },
    }
}

pub proof fn lemma_merge_children_bound(existing: JsonV, c: JsonV)
    ensures
        merge_children(existing, c).1 + 1 <= tool_count(c),
    decreases c, 1int,
{
    match namespace_children(c) {
        None => {},
        Some(kids) => {
            lemma_jget_decreases(c, "tools"@);
            match existing {
                JsonV::Object(em) => match member_lookup(em, "tools"@) {
                    None => lemma_merge_all_bound(Seq::empty(), kids),
                    Some(JsonV::Array(cur)) => lemma_merge_all_bound(cur, kids),
                    Some(_) => {},
                },
                _ => {},
            }
        },
    }
}

pub proof fn lemma_merge_all_bound(target: Seq<JsonV>, cands: Seq<JsonV>)
    ensures
        merge_all(target, cands).1 <= tool_counts(cands),
    decreases cands, 0int,
{
    if cands.len() > 0 {
        let r = merge_tool(target, cands[0]);
        lemma_merge_tool_bound(target, cands[0]);
        lemma_merge_all_bound(r.0, cands.drop_first());
    }
}

fn text_chars(o: Option<&str>) -> (r: Vec<char>)
    ensures
        r@ == text_or_empty(str_view(o)),
{
    match o {
        Some(t) => to_chars(t),
        None => Vec::new(),
    }
}

/// The key under which a tool is merged: its kind and name.
fn tool_identity_exec(tool: &Json) -> (r: Vec<char>)
    ensures
        r@ == tool_identity(tool@),
{
    match tool {
        Json::Object(_) => {
            let ty = text_chars(get_str(tool, "type"));
            let from_function = match tool.get("function") {
                Some(f) => match f {
                    Json::Object(_) => f.get("name"),
                    _ => None,
                },
                None => None,
            };
            let declared = match from_function {
                Some(v) => Some(v),
                None => tool.get("name"),
            };
            assert(ref_view(declared) == declared_name(tool@));
            let name = text_chars(as_str_opt(declared));
            let ns = text_chars(get_str(tool, "namespace"));
            let mut out = ty.clone();
            if ty.len() > 0 && (name.len() > 0 || eq_str(&ty, "tool_search")) {
                out.push('\0');
                append_vec(&mut out, &ns);
                out.push('\0');
                append_vec(&mut out, &name);
                proof {
                    assert(out@ =~= ty@ + seq!['\0'] + ns@ + seq!['\0'] + name@);
                }
            } else if ty.len() > 0 {
                out.push('\0');
                let text = to_json_text(tool);
                append_str(&mut out, text.as_str());
                proof {
                    assert(out@ =~= ty@ + seq!['\0'] + json_text(tool@));
                }
            } else {
                let text = to_json_text(tool);
                out = to_chars(text.as_str());
            }
            out
        },
        _ => {
            let text = to_json_text(tool);
            to_chars(text.as_str())
        },
    }
}

proof fn lemma_identity_index_at(t: Seq<JsonV>, id: Seq<char>, i: int)
    requires
        0 <= i < t.len(),
        tool_identity(t[i]) == id,
        forall|j: int| 0 <= j < i ==> tool_identity(#[trigger] t[j]) != id,
    ensures
        identity_index(t, id) == Some(i),
    decreases i,
{
    if i > 0 {
        let u = t.drop_first();
        assert forall|j: int| 0 <= j < i - 1 implies tool_identity(#[trigger] u[j]) != id by {
            assert(u[j] == t[j + 1]);
        }
        lemma_identity_index_at(u, id, i - 1);
    }
}

proof fn lemma_identity_index_none(t: Seq<JsonV>, id: Seq<char>)
    requires
        forall|j: int| 0 <= j < t.len() ==> tool_identity(#[trigger] t[j]) != id,
    ensures
        identity_index(t, id) is None,
    decreases t.len(),
{
    if t.len() > 0 {
        let u = t.drop_first();
        assert forall|j: int| 0 <= j < u.len() implies tool_identity(#[trigger] u[j]) != id by {
            assert(u[j] == t[j + 1]);
        }
        lemma_identity_index_none(u, id);
    }
}

fn identity_position(target: &Vec<Json>, id: &Vec<char>) -> (r: Option<usize>)
    ensures
        match r {
            Some(i) => identity_index(views(target@), id@) == Some(i as int),
            None => identity_index(views(target@), id@) is None,
        },
        r matches Some(i) ==> i < target@.len(),
{
    proof {
        lemma_views(target@);
    }
    let ghost t = views(target@);
    let mut i: usize = 0;
    while i < target.len()
        invariant
            i <= target@.len(),
            t == views(target@),
            t.len() == target@.len(),
            forall|j: int| 0 <= j < target@.len() ==> #[trigger] t[j] == target@[j]@,
            forall|j: int| 0 <= j < i ==> tool_identity(#[trigger] t[j]) != id@,
        decreases target@.len() - i,
    {
        let other = tool_identity_exec(&target[i]);
        if eq_vec(&other, id) {
            proof {
                lemma_identity_index_at(t, id@, i as int);
            }
            return Some(i);
        }
        i += 1;
    }
    proof {
        lemma_identity_index_none(t, id@);
    }
    None
}

struct MergeOutcome {
    added: bool,
    duplicates: usize,
}

fn is_namespace(tool: &Json) -> (r: bool)
    ensures
        r == (jget_str(tool@, "type"@) == Some("namespace"@)),
{
    match get_str(tool, "type") {
        Some(t) => {
            let v = to_chars(t);
            eq_str(&v, "namespace")
        },
        None => false,
    }
}

/// Merges a tool into the list: added when no tool has its identity, its
/// namespace children merged into the one that has.
fn merge_tool_exec(target: &mut Vec<Json>, candidate: Json) -> (r: MergeOutcome)
    requires
        tool_count(candidate@) <= usize::MAX,
    ensures
        views(final(target)@) == merge_tool(views(old(target)@), candidate@).0,
        r.added == merge_tool(views(old(target)@), candidate@).1,
        r.duplicates == merge_tool(views(old(target)@), candidate@).2,
    decreases candidate@, 2int,
{
    let ghost t0 = views(target@);
    proof {
        lemma_views(target@);
        lemma_merge_tool_bound(t0, candidate@);
    }
    let identity = tool_identity_exec(&candidate);
    match identity_position(target, &identity) {
        None => {
            let ghost cv = candidate@;
            let ghost before = target@;
            target.push(candidate);
            proof {
                lemma_views(target@);
                lemma_views(before);
                assert(views(target@) =~= t0.push(cv));
            }
            MergeOutcome { added: true, duplicates: 0 }
        },
        Some(i) => {
            if is_namespace(&candidate) {
                let ghost cv = candidate@;
                let mut existing = target[i].deep_clone();
                let ghost before = target@;
                let d = merge_namespace_children(&mut existing, candidate);
                target.set(i, existing);
                proof {
                    lemma_views(target@);
                    lemma_views(before);
                    let r = merge_children(t0[i as int], cv);
                    assert(views(target@) =~= t0.update(i as int, r.0));
                }
                MergeOutcome { added: false, duplicates: 1 + d }
            } else {
                MergeOutcome { added: false, duplicates: 1 }
            }
        },
    }
}

/// Merges the tools of a candidate namespace into the existing one; the number
/// of tools added.
fn merge_namespace_children(existing: &mut Json, candidate: Json) -> (d: usize)
    requires
        tool_count(candidate@) <= usize::MAX,
    ensures
        final(existing)@ == merge_children(old(existing)@, candidate@).0,
        d == merge_children(old(existing)@, candidate@).1,
    decreases candidate@, 1int,
{
    proof {
        lemma_merge_children_bound(old(existing)@, candidate@);
    }
    let kids: Vec<Json> = match candidate.get("tools") {
        Some(t) => match t.deep_clone() {
            Json::Array(v) => v,
            _ => {
                return 0;
            },
        },
        None => {
            return 0;
        },
    };
    let ghost kv = views(kids@);
    assert(namespace_children(candidate@) == Some(kv));
    proof {
        lemma_jget_decreases(candidate@, "tools"@);
        assert(decreases_to!(candidate@ => kv));
    }
    let is_object = match existing {
        Json::Object(_) => true,
        _ => false,
    };
    if !is_object {
        return 0;
    }
    let ghost ev = existing@;
    let current: Option<Vec<Json>> = match existing.get("tools") {
        None => Some(Vec::new()),
        Some(t) => match t.deep_clone() {
            Json::Array(v) => Some(v),
            _ => None,
        },
    };
    let mut list = match current {
        Some(l) => l,
        None => {
            return 0;
        },
    };
    proof {
        if member_lookup(ev->Object_0, "tools"@) is None {
            assert(views(list@) =~= Seq::<JsonV>::empty());
        }
    }
    let ghost lv = views(list@);
    let d = merge_all_exec(&mut list, kids);
    let ghost merged = views(list@);
    let a = Json::Array(list);
    assert(a@ == JsonV::Array(merged));
    match existing {
        Json::Object(em) => {
            set_member(em, "tools", a);
        },
        _ => {},
    }
    d
}

/// The candidates merged one after the other.
fn merge_all_exec(target: &mut Vec<Json>, cands: Vec<Json>) -> (d: usize)
    requires
        tool_counts(views(cands@)) <= usize::MAX,
    ensures
        views(final(target)@) == merge_all(views(old(target)@), views(cands@)).0,
        d == merge_all(views(old(target)@), views(cands@)).1,
    decreases views(cands@), 0int,
{
    let ghost s = views(cands@);
    let ghost total = merge_all(views(target@), s);
    proof {
        lemma_views(cands@);
        lemma_merge_all_bound(views(target@), s);
        assert(s.skip(0) =~= s);
    }
    let mut d: usize = 0;
    let mut i: usize = 0;
    while i < cands.len()
        invariant
            i <= cands@.len(),
            s == views(cands@),
            s.len() == cands@.len(),
            forall|j: int| 0 <= j < cands@.len() ==> #[trigger] s[j] == cands@[j]@,
            total.1 <= usize::MAX,
            merge_all(views(target@), s.skip(i as int)).0 == total.0,
            d + merge_all(views(target@), s.skip(i as int)).1 == total.1,
            tool_counts(s.skip(i as int)) <= usize::MAX,
        decreases cands@.len() - i,
    {
        let ghost t = views(target@);
        let ghost rest = s.skip(i as int);
        proof {
            assert(rest[0] == s[i as int]);
            assert(rest.drop_first() =~= s.skip(i + 1));
            assert(decreases_to!(s => s[i as int]));
        }
        let c = cands[i].deep_clone();
        let out = merge_tool_exec(target, c);
        d = d + out.duplicates;
        i += 1;
    }
    proof {
        assert(s.skip(s.len() as int) =~= Seq::<JsonV>::empty());
    }
    d
}

// ─── preparing a request's tools ───────────────────────────────────────

/// The kind of API an upstream provider speaks.
#[derive(Debug, Clone, Copy, PartialEq, Eq, Structural)]
pub enum ProviderType {
    OpenAiResponses,
    ChatCompletions,
    AnthropicMessages,
}

/// An `additional_tools` input item, which carries client tools.
pub open spec fn is_carrier(item: JsonV) -> bool {
    jget_str(item, "type"@) == Some("additional_tools"@)
}

/// The tools a carrier brings: none for a missing or null `tools`, the
/// items of an array, and nothing at all (an error) for anything else.
pub open spec fn carried_tools(item: JsonV) -> Option<Seq<JsonV>> {
    match jget(item, "tools"@) {
        None => Some(Seq::empty()),
        Some(JsonV::Null) => Some(Seq::empty()),
        Some(JsonV::Array(a)) => Some(a),
        Some(_) => None,
    }
}

/// The input items without carriers, the tools carried, and the carriers
/// removed; nothing where a carrier's `tools` is no array.
pub open spec fn extract_items(items: Seq<JsonV>) -> Option<(Seq<JsonV>, Seq<JsonV>, nat)>
    decreases items.len(),
{
    if items.len() == 0 {
        Some((Seq::empty(), Seq::empty(), 0))
    } else {
        match extract_items(items.drop_last()) {
            None => None,
            Some(r) => {
                let x = items.last();
                if !is_carrier(x) {
                    Some((r.0.push(x), r.1, r.2))
                } else {
                    match carried_tools(x) {
                        Some(a) => Some((r.0, r.1 + a, r.2 + 1)),
                        None => None,
                    }
                }
            },
        }
    }
}

pub open spec fn input_items(body: JsonV) -> Option<Seq<JsonV>> {
    match jget(body, "input"@) {
        Some(JsonV::Array(a)) => Some(a),
        _ => None,
    }
}

/// `extract_additional_tools`: the body with its carriers removed from
/// `input`, and the tools carried with the number of carriers. On a carrier
/// whose `tools` is no array the input is left empty and nothing comes back.
pub open spec fn extracted(body: JsonV) -> (JsonV, Option<(Seq<JsonV>, nat)>) {
    match input_items(body) {
        None => (body, Some((Seq::empty(), 0))),
        Some(items) => match extract_items(items) {
            Some(r) => (set_field(body, "input"@, JsonV::Array(r.0)), Some((r.1, r.2))),
            None => (set_field(body, "input"@, JsonV::Array(Seq::empty())), None),
        },
    }
}

/// The candidates merged one after the other: the list, the duplicates,
/// and how many were added.
pub open spec fn merge_counted(target: Seq<JsonV>, cands: Seq<JsonV>) -> (Seq<JsonV>, nat, nat)
    decreases cands.len(),
{
    if cands.len() == 0 {
        (target, 0, 0)
    } else {
        let r = merge_tool(target, cands[0]);
        let rest = merge_counted(r.0, cands.drop_first());
        (rest.0, r.2 + rest.1, (if r.1 { 1nat } else { 0nat }) + rest.2)
    }
}

pub open spec fn request_not_object() -> Seq<char> {
    "Responses request must be a JSON object"@
}

pub open spec fn tools_not_array() -> Seq<char> {
    "Responses tools must be an array"@
}

pub open spec fn carrier_tools_not_array() -> Seq<char> {
    "additional_tools.tools must be an array"@
}

/// The body's own top-level tools, where `tools` is missing, null or an
/// array.
pub open spec fn top_level_tools(body: JsonV) -> Seq<JsonV> {
    match jget(body, "tools"@) {
        Some(JsonV::Array(a)) => a,
        _ => Seq::empty(),
    }
}

/// `merge_top_level_tools`: the body's tools followed by the additional
/// ones, merged; the duplicates and the tools added; or the error.
pub open spec fn merged_top_level(body: JsonV, additional: Seq<JsonV>) -> Result<(JsonV, nat, nat), Seq<char>> {
    match body {
        JsonV::Object(m) => {
            let existing_v = member_lookup(m, "tools"@);
            if existing_v matches Some(v) && !(v is Null) && !(v is Array) {
                Err(tools_not_array())
            } else {
                let existing = top_level_tools(body);
                let base = without_key(m, "tools"@);
                if existing.len() == 0 && additional.len() == 0 {
                    Ok(
                        (
                            if existing_v is Some {
                                JsonV::Object(base.push(("tools"@, JsonV::Array(Seq::empty()))))
                            } else {
                                JsonV::Object(base)
                            },
                            0,
                            0,
                        ),
                    )
                } else {
                    let r1 = merge_all(Seq::empty(), existing);
                    let r2 = merge_counted(r1.0, additional);
                    Ok((JsonV::Object(base.push(("tools"@, JsonV::Array(r2.0)))), r1.1 + r2.1, r2.2))
                }
            }
        },
        _ => Err(request_not_object()),
    }
}

/// The tool declarations a request holds, at the top level and carried.
pub open spec fn request_tool_count(body: JsonV) -> nat {
    tool_counts(top_level_tools(body)) + match input_items(body) {
        Some(items) => match extract_items(items) {
            Some(r) => tool_counts(r.1),
            None => 0,
        },
        None => 0,
    }
}

/// What preparing the body does: the body after, and the carriers removed,
/// tools added and duplicates removed, or the error.
pub open spec fn prepared(body: JsonV, provider: ProviderType) -> (JsonV, Result<(nat, nat, nat), Seq<char>>) {
    if provider == ProviderType::OpenAiResponses {
        (body, Ok((0, 0, 0)))
    } else {
        let e = extracted(body);
        match e.1 {
            None => (e.0, Err(carrier_tools_not_array())),
            Some((tools, carriers)) => match merged_top_level(e.0, tools) {
                Err(msg) => (e.0, Err(msg)),
                Ok((b, dups, added)) => (b, Ok((carriers, added, dups))),
            },
        }
    }
}

pub proof fn lemma_merge_counted_bound(target: Seq<JsonV>, cands: Seq<JsonV>)
    ensures
        merge_counted(target, cands).1 <= tool_counts(cands),
        merge_counted(target, cands).2 <= cands.len(),
    decreases cands.len(),
{
    if cands.len() > 0 {
        let r = merge_tool(target, cands[0]);
        lemma_merge_tool_bound(target, cands[0]);
        lemma_merge_counted_bound(r.0, cands.drop_first());
    }
}

/// `value[key] = v` on an object.
fn set_field_exec(m: &mut Json, key: &str, value: Json)
    ensures
        final(m)@ == set_field(old(m)@, key@, value@),
{
    match m {
        Json::Object(ms) => {
            set_member(ms, key, value);
        },
        _ => {},
    }
}

fn is_carrier_exec(item: &Json) -> (r: bool)
    ensures
        r == is_carrier(item@),
{
    match get_str(item, "type") {
        Some(t) => {
            let v = to_chars(t);
            eq_str(&v, "additional_tools")
        },
        None => false,
    }
}

/// Appends copies of `a` to `out`.
fn push_copies(out: &mut Vec<Json>, a: &Vec<Json>)
    ensures
        views(final(out)@) == views(old(out)@) + views(a@),
{
    proof {
        lemma_views(a@);
        lemma_views(out@);
    }
    let ghost base = views(out@);
    let ghost av = views(a@);
    let mut j: usize = 0;
    while j < a.len()
        invariant
            j <= a@.len(),
            av == views(a@),
            av.len() == a@.len(),
            forall|q: int| 0 <= q < a@.len() ==> #[trigger] av[q] == a@[q]@,
            views(out@) == base + av.take(j as int),
        decreases a@.len() - j,
    {
        let ghost before = out@;
        out.push(a[j].deep_clone());
        proof {
            lemma_views(out@);
            lemma_views(before);
            assert(views(out@) =~= views(before).push(av[j as int]));
            assert(av.take(j + 1) =~= av.take(j as int).push(av[j as int]));
        }
        j += 1;
    }
    assert(av.take(a@.len() as int) =~= av);
}

/// Takes the `additional_tools` items out of the request's input: the tools
/// they carried and how many items there were.
fn extract_additional_tools(raw_body: &mut Json) -> (r: Option<(Vec<Json>, usize)>)
    ensures
        final(raw_body)@ == extracted(old(raw_body)@).0,
        match r {
            Some((t, c)) => extracted(old(raw_body)@).1 == Some((views(t@), c as nat)),
            None => extracted(old(raw_body)@).1 is None,
        },
{
    let items: Vec<Json> = match raw_body.get("input") {
        Some(t) => match t.deep_clone() {
            Json::Array(v) => v,
            _ => {
                let e: Vec<Json> = Vec::new();
                assert(views(e@) =~= Seq::<JsonV>::empty());
                return Some((e, 0));
            },
        },
        None => {
            let e: Vec<Json> = Vec::new();
            assert(views(e@) =~= Seq::<JsonV>::empty());
            return Some((e, 0));
        },
    };
    let ghost iv = views(items@);
    proof {
        lemma_views(items@);
    }
    let mut retained: Vec<Json> = Vec::new();
    let mut tools: Vec<Json> = Vec::new();
    let mut carriers: usize = 0;
    let mut i: usize = 0;
    assert(iv.take(0) =~= Seq::<JsonV>::empty());
    assert(views(retained@) =~= Seq::<JsonV>::empty());
    while i < items.len()
        invariant
            i <= items@.len(),
            iv == views(items@),
            iv.len() == items@.len(),
            forall|q: int| 0 <= q < items@.len() ==> #[trigger] iv[q] == items@[q]@,
            extract_items(iv.take(i as int)) == Some((views(retained@), views(tools@), carriers as nat)),
            carriers <= i,
            input_items(old(raw_body)@) == Some(iv),
            *raw_body == *old(raw_body),
        decreases items@.len() - i,
    {
        let item = &items[i];
        proof {
            assert(iv.take(i + 1).drop_last() =~= iv.take(i as int));
            assert(iv.take(i + 1).last() == iv[i as int]);
        }
        if !is_carrier_exec(item) {
            let ghost before = retained@;
            retained.push(item.deep_clone());
            proof {
                lemma_views(retained@);
                lemma_views(before);
                assert(views(retained@) =~= views(before).push(iv[i as int]));
            }
        } else {
            match item.get("tools") {
                None => {},
                Some(Json::Null) => {
                    assert(views(tools@) + Seq::<JsonV>::empty() =~= views(tools@));
                },
                Some(Json::Array(a)) => {
                    push_copies(&mut tools, a);
                },
                Some(_) => {
                    let empty: Vec<Json> = Vec::new();
                    assert(views(empty@) =~= Seq::<JsonV>::empty());
                    let e = Json::Array(empty);
                    set_field_exec(raw_body, "input", e);
                    proof {
                        let k = i as int;
                        assert forall|n: int| k < n <= iv.len() implies extract_items(#[trigger] iv.take(n)) is None by {
                            lemma_extract_none_after(iv, k + 1, n);
                        }
                        assert(iv.take(iv.len() as int) =~= iv);
                    }
                    return None;
                },
            }
            if item.get("tools").is_none() {
                assert(views(tools@) + Seq::<JsonV>::empty() =~= views(tools@));
            }
            carriers = carriers + 1;
        }
        i += 1;
    }
    assert(iv.take(iv.len() as int) =~= iv);
    let ghost rv = views(retained@);
    let e = Json::Array(retained);
    assert(e@ == JsonV::Array(rv));
    set_field_exec(raw_body, "input", e);
    Some((tools, carriers))
}

/// Once the extraction fails, it fails on every longer prefix.
proof fn lemma_extract_none_after(iv: Seq<JsonV>, k: int, n: int)
    requires
        0 < k <= n <= iv.len(),
        extract_items(iv.take(k)) is None,
    ensures
        extract_items(iv.take(n)) is None,
    decreases n - k,
{
    if n > k {
        lemma_extract_none_after(iv, k, n - 1);
        assert(iv.take(n).drop_last() =~= iv.take(n - 1));
    }
}

/// The candidates merged one after the other, counting the added ones.
fn merge_counted_exec(target: &mut Vec<Json>, cands: Vec<Json>) -> (r: (usize, usize))
    requires
        tool_counts(views(cands@)) <= usize::MAX,
    ensures
        views(final(target)@) == merge_counted(views(old(target)@), views(cands@)).0,
        r.0 == merge_counted(views(old(target)@), views(cands@)).1,
        r.1 == merge_counted(views(old(target)@), views(cands@)).2,
{
    let ghost s = views(cands@);
    let ghost total = merge_counted(views(target@), s);
    proof {
        lemma_views(cands@);
        lemma_merge_counted_bound(views(target@), s);
        assert(s.skip(0) =~= s);
    }
    let mut d: usize = 0;
    let mut added: usize = 0;
    let mut i: usize = 0;
    while i < cands.len()
        invariant
            i <= cands@.len(),
            s == views(cands@),
            s.len() == cands@.len(),
            forall|j: int| 0 <= j < cands@.len() ==> #[trigger] s[j] == cands@[j]@,
            total.1 <= usize::MAX,
            total.2 <= cands@.len(),
            merge_counted(views(target@), s.skip(i as int)).0 == total.0,
            d + merge_counted(views(target@), s.skip(i as int)).1 == total.1,
            added + merge_counted(views(target@), s.skip(i as int)).2 == total.2,
            tool_counts(s.skip(i as int)) <= usize::MAX,
        decreases cands@.len() - i,
    {
        let ghost rest = s.skip(i as int);
        proof {
            assert(rest[0] == s[i as int]);
            assert(rest.drop_first() =~= s.skip(i + 1));
        }
        let c = cands[i].deep_clone();
        let out = merge_tool_exec(target, c);
        d = d + out.duplicates;
        if out.added {
            added = added + 1;
        }
        i += 1;
    }
    proof {
        assert(s.skip(s.len() as int) =~= Seq::<JsonV>::empty());
    }
    (d, added)
}

/// Merges extra tools into the body's `tools`; a `tools` that is not a list
/// is an error. Returns the two counts the preparation records.
fn merge_top_level_tools(raw_body: &mut Json, additional: Vec<Json>) -> (r: Result<(usize, usize), String>)
    requires
        tool_counts(top_level_tools(old(raw_body)@)) + tool_counts(views(additional@)) <= usize::MAX,
    ensures
        match merged_top_level(old(raw_body)@, views(additional@)) {
            Ok((b, d, a)) => r matches Ok((d2, a2)) && final(raw_body)@ == b && d2 == d && a2 == a,
            Err(msg) => r matches Err(e) && e@ == msg && final(raw_body)@ == old(raw_body)@,
        },
{
    let is_object = match raw_body {
        Json::Object(_) => true,
        _ => false,
    };
    if !is_object {
        return Err(String::from_str("Responses request must be a JSON object"));
    }
    let existing_v: Option<Json> = match raw_body.get("tools") {
        Some(t) => Some(t.deep_clone()),
        None => None,
    };
    let had = existing_v.is_some();
    let existing: Vec<Json> = match existing_v {
        None => {
            let e: Vec<Json> = Vec::new();
            assert(views(e@) =~= Seq::<JsonV>::empty());
            e
        },
        Some(Json::Null) => {
            let e: Vec<Json> = Vec::new();
            assert(views(e@) =~= Seq::<JsonV>::empty());
            e
        },
        Some(Json::Array(v)) => v,
        Some(_) => {
            return Err(String::from_str("Responses tools must be an array"));
        },
    };
    let ghost ev = views(existing@);
    assert(ev == top_level_tools(old(raw_body)@));
    let base = match raw_body {
        Json::Object(m) => members_without(m, "tools"),
        _ => Vec::new(),
    };
    let ghost bv = member_views(base@);
    proof {
        lemma_views(existing@);
        lemma_views(additional@);
    }
    if existing.len() == 0 && additional.len() == 0 {
        let mut nb = base;
        if had {
            let ghost before = nb@;
            let empty: Vec<Json> = Vec::new();
            assert(views(empty@) =~= Seq::<JsonV>::empty());
            let e = Json::Array(empty);
            nb.push((String::from_str("tools"), e));
            proof {
                lemma_member_views(nb@);
                assert(nb@.drop_last() =~= before);
                assert(member_views(nb@) =~= bv.push(("tools"@, JsonV::Array(Seq::empty()))));
            }
        }
        let ghost nv = member_views(nb@);
        *raw_body = Json::Object(nb);
        assert(raw_body@ == JsonV::Object(nv));
        return Ok((0, 0));
    }
    let mut merged: Vec<Json> = Vec::new();
    proof {
        assert(views(merged@) =~= Seq::<JsonV>::empty());
        lemma_merge_all_bound(Seq::empty(), ev);
    }
    let d1 = merge_all_exec(&mut merged, existing);
    proof {
        lemma_merge_counted_bound(views(merged@), views(additional@));
    }
    let (d2, added) = merge_counted_exec(&mut merged, additional);
    let ghost mv = views(merged@);
    let mut nb = base;
    let ghost before = nb@;
    let a = Json::Array(merged);
    assert(a@ == JsonV::Array(mv));
    nb.push((String::from_str("tools"), a));
    proof {
        lemma_member_views(nb@);
        assert(nb@.drop_last() =~= before);
        assert(member_views(nb@) =~= bv.push(("tools"@, JsonV::Array(mv))));
    }
    let ghost nv = member_views(nb@);
    *raw_body = Json::Object(nb);
    assert(raw_body@ == JsonV::Object(nv));
    Ok((d1 + d2, added))
}

/// `prepare_for_provider`: for an upstream that does not speak Responses
/// natively, the tools carried by `additional_tools` input items move to the
/// top-level `tools`, merged with those already there (a declaration known
/// by its identity counts once; duplicate namespaces merge their children).
pub fn prepare_for_provider(raw_body: &mut Json, provider_type: &ProviderType) -> (r: Result<
    ResponsesToolPreparation,
    String,
>)
    requires
        request_tool_count(old(raw_body)@) <= usize::MAX,
    ensures
        final(raw_body)@ == prepared(old(raw_body)@, *provider_type).0,
        match prepared(old(raw_body)@, *provider_type).1 {
            Ok((c, a, d)) => r matches Ok(p) && p.carriers_removed == c && p.tools_added == a
                && p.duplicates_removed == d && p.grok_tools_converted == 0 && p.grok_hosted_tools_normalized == 0
                && p.grok_tool_names is None,
            Err(msg) => r matches Err(e) && e@ == msg,
        },
{
    let mut preparation = ResponsesToolPreparation::new();
    if *provider_type == ProviderType::OpenAiResponses {
        return Ok(preparation);
    }
    let ghost b0 = raw_body@;
    let extracted_tools = extract_additional_tools(raw_body);
    let (tools, carriers) = match extracted_tools {
        Some(x) => x,
        None => {
            return Err(String::from_str("additional_tools.tools must be an array"));
        },
    };
    proof {
        reveal_strlit("input");
        reveal_strlit("tools");
        assert("input"@ != "tools"@) by {
            assert("input"@[0] != "tools"@[0]);
        }
        if input_items(b0) is Some {
            let ex = extract_items(input_items(b0)->0);
            let kept = match ex {
                Some(t) => t.0,
                None => Seq::empty(),
            };
            lemma_set_field_other(b0, "input"@, JsonV::Array(kept), "tools"@);
        }
        assert(top_level_tools(raw_body@) == top_level_tools(b0));
    }
    match merge_top_level_tools(raw_body, tools) {
        Ok((d, a)) => {
            preparation.carriers_removed = carriers;
            preparation.tools_added = a;
            preparation.duplicates_removed = d;
            Ok(preparation)
        },
        Err(e) => Err(e),
    }
}

// ─── Grok's hosted web search ──────────────────────────────────────────

/// Image search is asked for: `search_content_types` lists `image`.
pub open spec fn requests_images(types: Option<JsonV>) -> bool {
    match types {
        Some(JsonV::Array(a)) => exists|i: int| 0 <= i < a.len() && a[i] == JsonV::Str("image"@),
        _ => false,
    }
}

/// `blocked_domains` of the filters renamed to `excluded_domains`, unless
/// the filters already exclude domains.
pub open spec fn renamed_filters(m: Seq<(Seq<char>, JsonV)>) -> Seq<(Seq<char>, JsonV)> {
    match member_lookup(m, "filters"@) {
        Some(JsonV::Object(fm)) => match member_lookup(fm, "blocked_domains"@) {
            Some(b) => if member_lookup(fm, "excluded_domains"@) is None {
                insert_member(
                    m,
                    "filters"@,
                    JsonV::Object(insert_member(without_key(fm, "blocked_domains"@), "excluded_domains"@, b)),
                )
            } else {
                m
            },
            None => m,
        },
        _ => m,
    }
}

/// The members of a web search declaration in the form Grok takes.
pub open spec fn grok_web_search_members(m: Seq<(Seq<char>, JsonV)>) -> Seq<(Seq<char>, JsonV)> {
    let m1 = insert_member(m, "type"@, JsonV::Str("web_search"@));
    let m2 = without_key(m1, "search_content_types"@);
    let m3 = if requests_images(member_lookup(m1, "search_content_types"@)) && member_lookup(
        m2,
        "enable_image_search"@,
    ) is None {
        insert_member(m2, "enable_image_search"@, JsonV::Bool(true))
    } else {
        m2
    };
    let m4 = without_key(
        without_key(without_key(without_key(m3, "external_web_access"@), "indexed_web_access"@), "search_context_size"@),
        "user_location"@,
    );
    renamed_filters(m4)
}

/// `normalize_grok_web_search_tool`: the declaration Grok takes, and
/// whether it differs from the one given.
pub open spec fn grok_web_search(tool: JsonV) -> (JsonV, bool) {
    match tool {
        JsonV::Object(m) => {
            let r = JsonV::Object(grok_web_search_members(m));
            (r, r != tool)
        },
        _ => (tool, false),
    }
}

fn remove_field(obj: &mut Json, key: &str)
    requires
        old(obj)@ is Object,
    ensures
        final(obj)@ == JsonV::Object(without_key(old(obj)@->Object_0, key@)),
{
    match obj {
        Json::Object(m) => {
            let kept = members_without(m, key);
            *m = kept;
        },
        _ => {},
    }
}

fn lists_image(a: &Vec<Json>) -> (r: bool)
    ensures
        r == exists|i: int| 0 <= i < views(a@).len() && views(a@)[i] == JsonV::Str("image"@),
{
    proof {
        lemma_views(a@);
    }
    let mut i: usize = 0;
    while i < a.len()
        invariant
            i <= a@.len(),
            views(a@).len() == a@.len(),
            forall|j: int| 0 <= j < a@.len() ==> #[trigger] views(a@)[j] == a@[j]@,
            forall|j: int| 0 <= j < i ==> views(a@)[j] != JsonV::Str("image"@),
        decreases a@.len() - i,
    {
        match &a[i] {
            Json::Str(t) => {
                let v = to_chars(t.as_str());
                if eq_str(&v, "image") {
                    assert(views(a@)[i as int] == JsonV::Str("image"@));
                    return true;
                }
            },
            _ => {},
        }
        i += 1;
    }
    false
}

/// The web search tool in the form Grok accepts.
#[verifier::spinoff_prover]
#[verifier::rlimit(40)]
pub fn normalize_grok_web_search_tool(tool: Json) -> (r: (Json, bool))
    ensures
        r.0@ == grok_web_search(tool@).0,
        r.1 == grok_web_search(tool@).1,
{
    let is_object = match &tool {
        Json::Object(_) => true,
        _ => false,
    };
    if !is_object {
        return (tool, false);
    }
    let unchanged = tool.deep_clone();
    let ghost m = tool@->Object_0;
    let mut obj = tool;
    set_field_exec(&mut obj, "type", Json::Str(String::from_str("web_search")));
    let ghost m1 = insert_member(m, "type"@, JsonV::Str("web_search"@));
    assert(obj@ == JsonV::Object(m1));
    let images = match obj.get("search_content_types") {
        Some(Json::Array(a)) => lists_image(a),
        _ => false,
    };
    assert(images == requests_images(member_lookup(m1, "search_content_types"@)));
    remove_field(&mut obj, "search_content_types");
    if images && obj.get("enable_image_search").is_none() {
        set_field_exec(&mut obj, "enable_image_search", Json::Bool(true));
    }
    remove_field(&mut obj, "external_web_access");
    remove_field(&mut obj, "indexed_web_access");
    remove_field(&mut obj, "search_context_size");
    remove_field(&mut obj, "user_location");
    let ghost m4 = obj@->Object_0;
    let new_filters: Option<Json> = match obj.get("filters") {
        Some(Json::Object(_)) => {
            let filters = obj.get("filters").unwrap();
            match filters.get("blocked_domains") {
                Some(b) => {
                    if filters.get("excluded_domains").is_none() {
                        let blocked = b.deep_clone();
                        let mut f = filters.deep_clone();
                        remove_field(&mut f, "blocked_domains");
                        set_field_exec(&mut f, "excluded_domains", blocked);
                        Some(f)
                    } else {
                        None
                    }
                },
                None => None,
            }
        },
        _ => None,
    };
    match new_filters {
        Some(f) => set_field_exec(&mut obj, "filters", f),
        None => {},
    }
    assert(obj@ == JsonV::Object(renamed_filters(m4)));
    let changed = !obj.same_as(&unchanged);
    (obj, changed)
}

// ─── Grok's function tools ─────────────────────────────────────────────

/// The fields of a nested `function` object copied over the result, all but
/// its `name`.
pub open spec fn copy_function_fields(
    result: Seq<(Seq<char>, JsonV)>,
    fm: Seq<(Seq<char>, JsonV)>,
) -> Seq<(Seq<char>, JsonV)>
    decreases fm.len(),
{
    if fm.len() == 0 {
        result
    } else {
        let next = if fm[0].0 != "name"@ {
            insert_member(result, fm[0].0, fm[0].1)
        } else {
            result
        };
        copy_function_fields(next, fm.drop_first())
    }
}

/// A missing `parameters` taken from `input_schema`, or else from
/// `inputSchema`.
pub open spec fn with_parameters(r: Seq<(Seq<char>, JsonV)>) -> Seq<(Seq<char>, JsonV)> {
    if member_lookup(r, "parameters"@) is None {
        match member_lookup(r, "input_schema"@) {
            Some(schema) => insert_member(without_key(r, "input_schema"@), "parameters"@, schema),
            None => match member_lookup(r, "inputSchema"@) {
                Some(schema) => insert_member(without_key(r, "inputSchema"@), "parameters"@, schema),
                None => r,
            },
        }
    } else {
        r
    }
}

pub open spec fn nested_function(tool: JsonV) -> Option<Seq<(Seq<char>, JsonV)>> {
    match jget(tool, "function"@) {
        Some(JsonV::Object(fm)) => Some(fm),
        _ => None,
    }
}

/// `grok_function_tool` with the name already encoded: a flat function
/// declaration, without `function` and `namespace`.
pub open spec fn grok_function(tool: JsonV, encoded: Seq<char>) -> JsonV {
    let r1 = without_key(without_key(tool->Object_0, "function"@), "namespace"@);
    let r2 = insert_member(insert_member(r1, "type"@, JsonV::Str("function"@)), "name"@, JsonV::Str(encoded));
    let r3 = match nested_function(tool) {
        Some(fm) => copy_function_fields(r2, fm),
        None => r2,
    };
    JsonV::Object(with_parameters(r3))
}

/// The declared name of a tool, where it is a string.
pub open spec fn declared_text_name(tool: JsonV) -> Option<Seq<char>> {
    jstr_opt(declared_name(tool))
}

fn copy_function_fields_exec(result: &mut Json, fm: &Vec<(String, Json)>)
    requires
        old(result)@ is Object,
    ensures
        final(result)@ == JsonV::Object(copy_function_fields(old(result)@->Object_0, member_views(fm@))),
{
    let ghost fv = member_views(fm@);
    proof {
        lemma_member_views(fm@);
        assert(fv.skip(0) =~= fv);
    }
    let ghost r0 = result@->Object_0;
    let mut i: usize = 0;
    while i < fm.len()
        invariant
            i <= fm@.len(),
            fv == member_views(fm@),
            fv.len() == fm@.len(),
            forall|j: int| 0 <= j < fm@.len() ==> #[trigger] fv[j] == (fm@[j].0@, fm@[j].1@),
            result@ is Object,
            copy_function_fields(r0, fv) == copy_function_fields(result@->Object_0, fv.skip(i as int)),
        decreases fm@.len() - i,
    {
        proof {
            assert(fv.skip(i as int)[0] == fv[i as int]);
            assert(fv.skip(i as int).drop_first() =~= fv.skip(i + 1));
        }
        let k = to_chars(fm[i].0.as_str());
        if !eq_str(&k, "name") {
            let v = fm[i].1.deep_clone();
            set_field_exec(result, fm[i].0.as_str(), v);
        }
        i += 1;
    }
    proof {
        assert(fv.skip(fv.len() as int) =~= Seq::<(Seq<char>, JsonV)>::empty());
    }
}

/// `grok_function_tool`: a function declaration as Grok takes it, its name
/// encoded for `namespace`; nothing for a value that is no object or has no
/// string name, the table then left as it is.
#[verifier::spinoff_prover]
#[verifier::rlimit(40)]
pub fn grok_function_tool(tool: &Json, namespace: Option<&str>, tool_names: &mut ToolNameMap) -> (r: Option<Json>)
    requires
        old(tool_names).wf(),
    ensures
        final(tool_names).wf(),
        if tool@ is Object && declared_text_name(tool@) is Some {
            let t = function_target(crate::chat_tools::opt_str_view(namespace), declared_text_name(tool@)->0);
            let e = encode_result(old(tool_names).encoded_view(), old(tool_names).target_view(), t);
            &&& r matches Some(f) && f@ == grok_function(tool@, e)
            &&& final(tool_names).target_view() == old(tool_names).target_view().insert(t, e)
        } else {
            r is None && *final(tool_names) == *old(tool_names)
        },
{
    let is_object = match tool {
        Json::Object(_) => true,
        _ => false,
    };
    if !is_object {
        return None;
    }
    let from_function = match tool.get("function") {
        Some(f) => match f {
            Json::Object(_) => f.get("name"),
            _ => None,
        },
        None => None,
    };
    let declared = match from_function {
        Some(v) => Some(v),
        None => tool.get("name"),
    };
    assert(ref_view(declared) == declared_name(tool@));
    let name: String = match as_str_opt(declared) {
        Some(n) => String::from_str(n),
        None => {
            return None;
        },
    };
    let encoded = tool_names.encode_function(namespace, name.as_str());
    let ghost ev = encoded@;
    let mut result = tool.deep_clone();
    remove_field(&mut result, "function");
    remove_field(&mut result, "namespace");
    set_field_exec(&mut result, "type", Json::Str(String::from_str("function")));
    set_field_exec(&mut result, "name", Json::Str(encoded));
    match tool.get("function") {
        Some(Json::Object(fm)) => copy_function_fields_exec(&mut result, fm),
        _ => {},
    }
    if result.get("parameters").is_none() {
        let schema: Option<Json> = match result.get("input_schema") {
            Some(s) => {
                let c = s.deep_clone();
                remove_field(&mut result, "input_schema");
                Some(c)
            },
            None => match result.get("inputSchema") {
                Some(s) => {
                    let c = s.deep_clone();
                    remove_field(&mut result, "inputSchema");
                    Some(c)
                },
                None => None,
            },
        };
        match schema {
            Some(x) => set_field_exec(&mut result, "parameters", x),
            None => {},
        }
    }
    assert(result@ == grok_function(tool@, ev));
    Some(result)
}

/// `normalize_grok_tool_choice` on the choice itself: a custom or function
/// choice with a name gets the encoded name (a custom one becomes a
/// function), without `function` and `namespace`; the target it encodes.
pub open spec fn grok_choice_target(choice: JsonV) -> Option<TargetView> {
    if !(choice is Object) {
        None
    } else {
        let ty = text_or_empty(jget_str(choice, "type"@));
        match declared_text_name(choice) {
            Some(n) => if ty == "custom"@ {
                Some(custom_target(n))
            } else if ty == "function"@ {
                Some(function_target(jget_str(choice, "namespace"@), n))
            } else {
                None
            },
            None => None,
        }
    }
}

pub open spec fn grok_choice(choice: JsonV, encoded: Seq<char>) -> JsonV {
    let ty = text_or_empty(jget_str(choice, "type"@));
    let m = choice->Object_0;
    if ty == "custom"@ {
        JsonV::Object(
            without_key(
                without_key(
                    insert_member(insert_member(m, "type"@, JsonV::Str("function"@)), "name"@, JsonV::Str(encoded)),
                    "function"@,
                ),
                "namespace"@,
            ),
        )
    } else {
        JsonV::Object(
            without_key(without_key(insert_member(m, "name"@, JsonV::Str(encoded)), "function"@), "namespace"@),
        )
    }
}

/// The body's `tool_choice` where it is an object.
pub open spec fn tool_choice_of(body: JsonV) -> Option<JsonV> {
    match jget(body, "tool_choice"@) {
        Some(c) => if c is Object {
            Some(c)
        } else {
            None
        },
        None => None,
    }
}

/// The tool choice in the form Grok accepts.
#[verifier::spinoff_prover]
#[verifier::rlimit(40)]
pub fn normalize_grok_tool_choice(raw_body: &mut Json, tool_names: &mut ToolNameMap)
    requires
        old(tool_names).wf(),
    ensures
        final(tool_names).wf(),
        match tool_choice_of(old(raw_body)@) {
            Some(c) => match grok_choice_target(c) {
                Some(t) => {
                    let e = encode_result(old(tool_names).encoded_view(), old(tool_names).target_view(), t);
                    &&& final(raw_body)@ == set_field(old(raw_body)@, "tool_choice"@, grok_choice(c, e))
                    &&& final(tool_names).target_view() == old(tool_names).target_view().insert(t, e)
                },
                None => final(raw_body)@ == old(raw_body)@ && *final(tool_names) == *old(tool_names),
            },
            None => final(raw_body)@ == old(raw_body)@ && *final(tool_names) == *old(tool_names),
        },
{
    let choice: Json = match raw_body.get("tool_choice") {
        Some(c) => match c {
            Json::Object(_) => c.deep_clone(),
            _ => {
                return;
            },
        },
        None => {
            return;
        },
    };
    let ty: Vec<char> = match get_str(&choice, "type") {
        Some(t) => to_chars(t),
        None => Vec::new(),
    };
    assert(ty@ == text_or_empty(jget_str(choice@, "type"@)));
    let from_function = match choice.get("function") {
        Some(f) => match f {
            Json::Object(_) => f.get("name"),
            _ => None,
        },
        None => None,
    };
    let declared = match from_function {
        Some(v) => Some(v),
        None => choice.get("name"),
    };
    assert(ref_view(declared) == declared_name(choice@));
    let name: String = match as_str_opt(declared) {
        Some(n) => String::from_str(n),
        None => {
            return;
        },
    };
    let mut updated = choice.deep_clone();
    if eq_str(&ty, "custom") {
        let encoded = tool_names.encode_custom(name.as_str());
        set_field_exec(&mut updated, "type", Json::Str(String::from_str("function")));
        set_field_exec(&mut updated, "name", Json::Str(encoded));
    } else if eq_str(&ty, "function") {
        let namespace: Option<String> = match get_str(&choice, "namespace") {
            Some(s) => Some(String::from_str(s)),
            None => None,
        };
        let ns: Option<&str> = match &namespace {
            Some(s) => Some(s.as_str()),
            None => None,
        };
        let encoded = tool_names.encode_function(ns, name.as_str());
        set_field_exec(&mut updated, "name", Json::Str(encoded));
    } else {
        return;
    }
    remove_field(&mut updated, "function");
    remove_field(&mut updated, "namespace");
    set_field_exec(raw_body, "tool_choice", updated);
}

// ─── laws of the preparation ───────────────────────────────────────────

/// No input item is a tool carrier.
pub open spec fn no_carriers(body: JsonV) -> bool {
    input_items(body) matches Some(items) ==> forall|i: int| 0 <= i < items.len() ==> !is_carrier(#[trigger] items[i])
}

proof fn lemma_extract_retains_no_carrier(items: Seq<JsonV>)
    ensures
        extract_items(items) matches Some(r) ==> forall|i: int| 0 <= i < r.0.len() ==> !is_carrier(#[trigger] r.0[i]),
    decreases items.len(),
{
    if items.len() > 0 {
        lemma_extract_retains_no_carrier(items.drop_last());
    }
}

proof fn lemma_lookup_push_other(m: Seq<(Seq<char>, JsonV)>, x: (Seq<char>, JsonV), k: Seq<char>)
    requires
        x.0 != k,
    ensures
        member_lookup(m.push(x), k) == member_lookup(m, k),
    decreases m.len(),
{
    if m.len() > 0 {
        assert(m.push(x)[0] == m[0]);
        assert(m.push(x).drop_first() =~= m.drop_first().push(x));
        lemma_lookup_push_other(m.drop_first(), x, k);
    } else {
        assert(m.push(x)[0] == x);
        assert(m.push(x).drop_first() =~= Seq::<(Seq<char>, JsonV)>::empty());
        assert(member_lookup(Seq::<(Seq<char>, JsonV)>::empty(), k) is None);
    }
}

/// A request prepared for a provider that does not speak Responses natively
/// keeps no `additional_tools` carrier among its input items.
pub proof fn law_prepared_request_has_no_carriers(body: JsonV, provider: ProviderType)
    requires
        provider != ProviderType::OpenAiResponses,
        prepared(body, provider).1 is Ok,
    ensures
        no_carriers(prepared(body, provider).0),
{
    reveal_strlit("input");
    reveal_strlit("tools");
    assert("input"@ != "tools"@) by {
        assert("input"@[0] != "tools"@[0]);
    }
    let e = extracted(body);
    let b1 = e.0;
    let tools = match e.1 {
        Some(t) => t.0,
        None => Seq::empty(),
    };
    match input_items(body) {
        Some(items) => {
            lemma_extract_retains_no_carrier(items);
            let kept = match extract_items(items) {
                Some(t) => t.0,
                None => Seq::empty(),
            };
            lemma_set_field_same(body, "input"@, JsonV::Array(kept));
            assert(input_items(b1) == Some(kept));
        },
        None => {},
    }
    let m = b1->Object_0;
    lemma_lookup_without_other(m, "tools"@, "input"@);
    let base = without_key(m, "tools"@);
    match merged_top_level(b1, tools) {
        Ok(r) => {
            if r.0 != JsonV::Object(base) {
                let x = r.0->Object_0.last();
                assert(r.0->Object_0 == base.push(x));
                lemma_lookup_push_other(base, x, "input"@);
            }
            assert(input_items(r.0) == input_items(b1));
        },
        Err(_) => {},
    }
}

/// A request for a provider that speaks Responses natively is left as it
/// is, with nothing counted.
pub proof fn law_native_provider_is_untouched(body: JsonV)
    ensures
        prepared(body, ProviderType::OpenAiResponses) == (body, Ok::<(nat, nat, nat), Seq<char>>((0, 0, 0))),
{
}

proof fn lemma_extract_without_carriers(items: Seq<JsonV>)
    requires
        forall|i: int| 0 <= i < items.len() ==> !is_carrier(#[trigger] items[i]),
    ensures
        extract_items(items) == Some((items, Seq::<JsonV>::empty(), 0nat)),
    decreases items.len(),
{
    if items.len() > 0 {
        let init = items.drop_last();
        assert forall|i: int| 0 <= i < init.len() implies !is_carrier(#[trigger] init[i]) by {
            assert(init[i] == items[i]);
        }
        lemma_extract_without_carriers(init);
        assert(!is_carrier(items[items.len() - 1]));
        assert(init.push(items.last()) =~= items);
    }
}

/// Preparing a prepared request again finds no carrier and adds no tool.
pub proof fn law_preparation_settles(body: JsonV, provider: ProviderType)
    requires
        provider != ProviderType::OpenAiResponses,
        prepared(body, provider).1 is Ok,
    ensures
        prepared(prepared(body, provider).0, provider).1 matches Ok((c, a, _)) && c == 0 && a == 0,
{
    reveal_strlit("input");
    reveal_strlit("tools");
    assert("input"@ != "tools"@) by {
        assert("input"@[0] != "tools"@[0]);
    }
    law_prepared_request_has_no_carriers(body, provider);
    let b1 = prepared(body, provider).0;
    let e0 = extracted(body);
    let t0 = match e0.1 {
        Some(t) => t.0,
        None => Seq::empty(),
    };
    let m0 = e0.0->Object_0;
    lemma_lookup_without_same(m0, "tools"@);
    let base = without_key(m0, "tools"@);
    let r0 = merged_top_level(e0.0, t0);
    if r0.is_ok() {
        let bm = r0->Ok_0.0;
        if bm != JsonV::Object(base) {
            let x = bm->Object_0.last();
            assert(bm->Object_0 == base.push(x));
            assert(x.0 == "tools"@);
            assert(x.1 is Array);
            lemma_lookup_push_last(base, x);
        }
    }
    assert(b1 is Object);
    let tl = member_lookup(b1->Object_0, "tools"@);
    assert(tl is None || tl matches Some(JsonV::Array(_)));
    let e = extracted(b1);
    match input_items(b1) {
        Some(items) => {
            lemma_extract_without_carriers(items);
            lemma_set_field_other(b1, "input"@, JsonV::Array(items), "tools"@);
        },
        None => {},
    }
    assert(e.1 == Some((Seq::<JsonV>::empty(), 0nat)));
    assert(jget(e.0, "tools"@) == jget(b1, "tools"@));
    assert(e.0 is Object);
}

/// A key looked up in a list whose last member is the only one with that
/// key finds that member.
proof fn lemma_lookup_push_last(m: Seq<(Seq<char>, JsonV)>, x: (Seq<char>, JsonV))
    requires
        member_lookup(m, x.0) is None,
    ensures
        member_lookup(m.push(x), x.0) == Some(x.1),
    decreases m.len(),
{
    if m.len() > 0 {
        assert(m.push(x)[0] == m[0]);
        assert(m.push(x).drop_first() =~= m.drop_first().push(x));
        lemma_lookup_push_last(m.drop_first(), x);
    } else {
        assert(m.push(x)[0] == x);
    }
}

} // verus!
