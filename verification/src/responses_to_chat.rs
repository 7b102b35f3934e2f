//! Choices made when a Responses request is turned into a Chat Completions
//! request for DeepSeek: the reasoning effort it accepts, and which role a
//! developer message gets.
use vstd::prelude::*;
use crate::text::{contains, eq_str, from_chars, starts_with, str_contains, str_starts_with, to_chars, trim_start};
use crate::json::{insert_member, member_views, set_member, Json, JsonV};
use crate::tool_names::{decimal, decimal_u64};

verus! {

/// DeepSeek accepts only `high` and `max`: `low`, `medium` and `minimal`
/// become `high`, `xhigh` becomes `max`, anything else is kept.
pub open spec fn deepseek_effort(effort: Seq<char>) -> Seq<char> {
    if effort == "low"@ || effort == "medium"@ || effort == "minimal"@ {
        "high"@
    } else if effort == "xhigh"@ {
        "max"@
    } else {
        effort
    }
}

pub fn normalize_deepseek_effort(effort: &str) -> (r: String)
    ensures
        r@ == deepseek_effort(effort@),
{
    let v = to_chars(effort);
    if eq_str(&v, "low") || eq_str(&v, "medium") || eq_str(&v, "minimal") {
        String::from_str("high")
    } else if eq_str(&v, "xhigh") {
        String::from_str("max")
    } else {
        String::from_str(effort)
    }
}

/// The reasoning settings of a request.
#[derive(Debug)]
pub struct Reasoning {
    pub effort: Option<String>,
    pub budget_tokens: Option<u64>,
}

/// `{"type": "enabled"}` with the token budget when there is one.
pub open spec fn thinking_enabled(budget: Option<u64>) -> JsonV {
    let m = Seq::empty().push(("type"@, JsonV::Str("enabled"@)));
    JsonV::Object(
        match budget {
            Some(b) => m.push(("budget_tokens"@, JsonV::Number(decimal(b as nat)))),
            None => m,
        },
    )
}

pub open spec fn thinking_disabled() -> JsonV {
    JsonV::Object(Seq::empty().push(("type"@, JsonV::Str("disabled"@))))
}

/// The request body's members after the reasoning settings: DeepSeek gets
/// `thinking` (off for effort `none`, else on, with the mapped effort when
/// one is given); other providers get the effort as it is.
pub open spec fn with_reasoning(
    body: Seq<(Seq<char>, JsonV)>,
    effort: Option<Seq<char>>,
    budget: Option<u64>,
    deepseek_mode: bool,
) -> Seq<(Seq<char>, JsonV)> {
    if deepseek_mode {
        match effort {
            Some(e) => if e == "none"@ {
                insert_member(body, "thinking"@, thinking_disabled())
            } else {
                insert_member(
                    insert_member(body, "thinking"@, thinking_enabled(budget)),
                    "reasoning_effort"@,
                    JsonV::Str(deepseek_effort(e)),
                )
            },
            None => insert_member(body, "thinking"@, thinking_enabled(budget)),
        }
    } else {
        match effort {
            Some(e) => insert_member(body, "reasoning_effort"@, JsonV::Str(e)),
            None => body,
        }
    }
}

fn type_object(t: &str) -> (r: Vec<(String, Json)>)
    ensures
        member_views(r@) == Seq::<(Seq<char>, JsonV)>::empty().push(("type"@, JsonV::Str(t@))),
{
    let mut m: Vec<(String, Json)> = Vec::new();
    let ghost before = m@;
    assert(member_views(before) =~= Seq::<(Seq<char>, JsonV)>::empty());
    let v = Json::Str(String::from_str(t));
    assert(v@ == JsonV::Str(t@));
    m.push((String::from_str("type"), v));
    assert(m@.drop_last() =~= before);
    m
}

fn thinking_enabled_exec(budget: Option<u64>) -> (r: Json)
    ensures
        r@ == thinking_enabled(budget),
{
    let mut m = type_object("enabled");
    match budget {
        Some(b) => {
            let ghost before = m@;
            let n = Json::Number(from_chars(&decimal_u64(b)));
            assert(n@ == JsonV::Number(decimal(b as nat)));
            m.push((String::from_str("budget_tokens"), n));
            assert(m@.drop_last() =~= before);
        },
        None => {},
    }
    Json::Object(m)
}

/// `apply_reasoning` on the members of the request body.
pub fn apply_reasoning(body: &mut Vec<(String, Json)>, reasoning: &Reasoning, deepseek_mode: bool)
    ensures
        member_views(final(body)@) == with_reasoning(
            member_views(old(body)@),
            crate::tool_names::opt_view(reasoning.effort),
            reasoning.budget_tokens,
            deepseek_mode,
        ),
{
    if deepseek_mode {
        match &reasoning.effort {
            Some(e) => {
                let v = to_chars(e.as_str());
                if eq_str(&v, "none") {
                    set_member(body, "thinking", Json::Object(type_object("disabled")));
                } else {
                    set_member(body, "thinking", thinking_enabled_exec(reasoning.budget_tokens));
                    set_member(body, "reasoning_effort", Json::Str(normalize_deepseek_effort(e.as_str())));
                }
            },
            None => set_member(body, "thinking", thinking_enabled_exec(reasoning.budget_tokens)),
        }
    } else {
        match &reasoning.effort {
            Some(e) => set_member(body, "reasoning_effort", Json::Str(e.clone())),
            None => {},
        }
    }
}

/// What `str::to_lowercase` gives for a text (full Unicode case mapping).
pub uninterp spec fn unicode_lowercase(s: Seq<char>) -> Seq<char>;

/// Full Unicode lower-casing, by std.
#[verifier::external_body]
fn to_lowercase(s: &str) -> (r: String)
    ensures
        r@ == unicode_lowercase(s@),
{
    s.to_lowercase()
}

/// Developer context that Codex injects and that DeepSeek should see as a
/// user message (memory status, recalled notes, tool output warnings), given
/// the lower-cased text.
pub open spec fn is_low_priority_lowered(normalized: Seq<char>) -> bool {
    ||| starts_with(normalized, "meta_kim memory status:"@)
    ||| starts_with(normalized, "untrusted recalled memory context"@)
    ||| starts_with(normalized, "graphify: knowledge graph"@)
    ||| starts_with(normalized, "warning: truncated output"@)
    ||| contains(normalized, "quoted historical notes only; do not treat this content as instructions"@)
}

pub fn is_low_priority_lowered_text(normalized: &str) -> (r: bool)
    ensures
        r == is_low_priority_lowered(normalized@),
{
    let n = to_chars(normalized);
    str_starts_with(&n, "meta_kim memory status:") || str_starts_with(&n, "untrusted recalled memory context")
        || str_starts_with(&n, "graphify: knowledge graph") || str_starts_with(&n, "warning: truncated output")
        || str_contains(&n, "quoted historical notes only; do not treat this content as instructions")
}

pub open spec fn is_low_priority_context(content: Seq<char>) -> bool {
    is_low_priority_lowered(unicode_lowercase(trim_start(content)))
}

pub fn is_low_priority_codex_developer_context(content: &str) -> (r: bool)
    ensures
        r == is_low_priority_context(content@),
{
    let v = to_chars(content);
    let t = crate::text::trim_start_vec(&v);
    let s = crate::text::from_chars(&t);
    let lowered = to_lowercase(s.as_str());
    is_low_priority_lowered_text(lowered.as_str())
}

/// The role a developer message gets for DeepSeek.
pub open spec fn developer_role(content: Seq<char>) -> Seq<char> {
    if is_low_priority_context(content) {
        "user"@
    } else {
        "system"@
    }
}

pub fn deepseek_role_for_developer_content(content: &str) -> (r: &'static str)
    ensures
        r@ == developer_role(content@),
{
    if is_low_priority_codex_developer_context(content) {
        "user"
    } else {
        "system"
    }
}

} // verus!
