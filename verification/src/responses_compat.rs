//! Narrow, idempotent compatibility rules applied to Responses payloads,
//! whole or as server-sent-event lines, keeping every field CodexHub does
//! not know about.
use vstd::prelude::*;
use crate::json::{
    json_text, lemma_member_views, lemma_views, member_lookup, member_views, parse_json, parsed_json, to_json_text,
    views, Json, JsonV,
};
use crate::responses_stream::{sse_data, sse_data_value};
use crate::text::{from_chars, to_chars, trim};

verus! {

// ─── the rule ──────────────────────────────────────────────────────────

/// A custom tool call named `exec` in the namespace `exec` (both compared
/// after trimming): the namespace only repeats the name.
pub open spec fn exec_namespace_duplicate(m: Seq<(Seq<char>, JsonV)>) -> bool {
    &&& member_lookup(m, "type"@) == Some(JsonV::Str("custom_tool_call"@))
    &&& match (member_lookup(m, "name"@), member_lookup(m, "namespace"@)) {
        (Some(JsonV::Str(n)), Some(JsonV::Str(ns))) => trim(n) == "exec"@ && trim(ns) == "exec"@,
        _ => false,
    }
}

/// The members without those named `key`.
pub open spec fn without_key(m: Seq<(Seq<char>, JsonV)>, key: Seq<char>) -> Seq<(Seq<char>, JsonV)>
    decreases m.len(),
{
    if m.len() == 0 {
        Seq::empty()
    } else if m[0].0 == key {
        without_key(m.drop_first(), key)
    } else {
        seq![m[0]] + without_key(m.drop_first(), key)
    }
}

/// `normalize_response_value`: the value with the redundant namespace
/// removed from every `exec` custom tool call, at any depth, and whether
/// anything changed.
pub open spec fn normalized(v: JsonV) -> (JsonV, bool)
    decreases v, 2int,
{
    match v {
        JsonV::Object(m) => {
            let r = normalized_members(m);
            if exec_namespace_duplicate(m) {
                (JsonV::Object(without_key(r.0, "namespace"@)), true)
            } else {
                (JsonV::Object(r.0), r.1)
            }
        },
        JsonV::Array(a) => {
            let r = normalized_items(a);
            (JsonV::Array(r.0), r.1)
        },
        _ => (v, false),
    }
}

pub open spec fn normalized_members(m: Seq<(Seq<char>, JsonV)>) -> (Seq<(Seq<char>, JsonV)>, bool)
    decreases m, 1int,
{
    if m.len() == 0 {
        (Seq::empty(), false)
    } else {
        let x = normalized(m[0].1);
        let rest = normalized_members(m.drop_first());
        (seq![(m[0].0, x.0)] + rest.0, x.1 || rest.1)
    }
}

pub open spec fn normalized_items(a: Seq<JsonV>) -> (Seq<JsonV>, bool)
    decreases a, 1int,
{
    if a.len() == 0 {
        (Seq::empty(), false)
    } else {
        let x = normalized(a[0]);
        let rest = normalized_items(a.drop_first());
        (seq![x.0] + rest.0, x.1 || rest.1)
    }
}

// ─── lemmas ────────────────────────────────────────────────────────────

proof fn lemma_members_append(a: Seq<(Seq<char>, JsonV)>, b: Seq<(Seq<char>, JsonV)>)
    ensures
        normalized_members(a + b).0 == normalized_members(a).0 + normalized_members(b).0,
        normalized_members(a + b).1 == (normalized_members(a).1 || normalized_members(b).1),
    decreases a.len(),
{
    if a.len() == 0 {
        assert(a + b =~= b);
        assert(Seq::<(Seq<char>, JsonV)>::empty() + normalized_members(b).0 =~= normalized_members(b).0);
    } else {
        assert((a + b)[0] == a[0]);
        assert((a + b).drop_first() =~= a.drop_first() + b);
        lemma_members_append(a.drop_first(), b);
        let x = normalized(a[0].1);
        assert(seq![(a[0].0, x.0)] + (normalized_members(a.drop_first()).0 + normalized_members(b).0) =~= (seq![
            (a[0].0, x.0),
        ] + normalized_members(a.drop_first()).0) + normalized_members(b).0);
    }
}

proof fn lemma_items_append(a: Seq<JsonV>, b: Seq<JsonV>)
    ensures
        normalized_items(a + b).0 == normalized_items(a).0 + normalized_items(b).0,
        normalized_items(a + b).1 == (normalized_items(a).1 || normalized_items(b).1),
    decreases a.len(),
{
    if a.len() == 0 {
        assert(a + b =~= b);
        assert(Seq::<JsonV>::empty() + normalized_items(b).0 =~= normalized_items(b).0);
    } else {
        assert((a + b)[0] == a[0]);
        assert((a + b).drop_first() =~= a.drop_first() + b);
        lemma_items_append(a.drop_first(), b);
        let x = normalized(a[0]);
        assert(seq![x.0] + (normalized_items(a.drop_first()).0 + normalized_items(b).0) =~= (seq![x.0]
            + normalized_items(a.drop_first()).0) + normalized_items(b).0);
    }
}

proof fn lemma_members_single(k: Seq<char>, v: JsonV)
    ensures
        normalized_members(seq![(k, v)]).0 == seq![(k, normalized(v).0)],
        normalized_members(seq![(k, v)]).1 == normalized(v).1,
{
    let s = seq![(k, v)];
    assert(s.drop_first() =~= Seq::<(Seq<char>, JsonV)>::empty());
    assert(normalized_members(s.drop_first()) == (Seq::<(Seq<char>, JsonV)>::empty(), false));
    assert(seq![(k, normalized(v).0)] + Seq::<(Seq<char>, JsonV)>::empty() =~= seq![(k, normalized(v).0)]);
}

proof fn lemma_items_single(v: JsonV)
    ensures
        normalized_items(seq![v]).0 == seq![normalized(v).0],
        normalized_items(seq![v]).1 == normalized(v).1,
{
    let s = seq![v];
    assert(s.drop_first() =~= Seq::<JsonV>::empty());
    assert(normalized_items(s.drop_first()) == (Seq::<JsonV>::empty(), false));
    assert(seq![normalized(v).0] + Seq::<JsonV>::empty() =~= seq![normalized(v).0]);
}

pub proof fn lemma_without_append(a: Seq<(Seq<char>, JsonV)>, b: Seq<(Seq<char>, JsonV)>, k: Seq<char>)
    ensures
        without_key(a + b, k) == without_key(a, k) + without_key(b, k),
    decreases a.len(),
{
    if a.len() == 0 {
        assert(a + b =~= b);
        assert(Seq::<(Seq<char>, JsonV)>::empty() + without_key(b, k) =~= without_key(b, k));
    } else {
        assert((a + b)[0] == a[0]);
        assert((a + b).drop_first() =~= a.drop_first() + b);
        lemma_without_append(a.drop_first(), b, k);
        if a[0].0 != k {
            assert(seq![a[0]] + (without_key(a.drop_first(), k) + without_key(b, k)) =~= (seq![a[0]]
                + without_key(a.drop_first(), k)) + without_key(b, k));
        }
    }
}

pub proof fn lemma_without_single(e: (Seq<char>, JsonV), k: Seq<char>)
    ensures
        without_key(seq![e], k) == if e.0 == k {
            Seq::<(Seq<char>, JsonV)>::empty()
        } else {
            seq![e]
        },
{
    let s = seq![e];
    assert(s.drop_first() =~= Seq::<(Seq<char>, JsonV)>::empty());
    assert(without_key(s.drop_first(), k) == Seq::<(Seq<char>, JsonV)>::empty());
    assert(seq![e] + Seq::<(Seq<char>, JsonV)>::empty() =~= seq![e]);
}

// ─── the executable rule ───────────────────────────────────────────────

/// The members without any member named `key`.
pub(crate) fn members_without(members: &Vec<(String, Json)>, key: &str) -> (r: Vec<(String, Json)>)
    ensures
        member_views(r@) == without_key(member_views(members@), key@),
{
    let ghost r0 = member_views(members@);
    proof {
        lemma_member_views(members@);
    }
    let mut kept: Vec<(String, Json)> = Vec::new();
    let mut j: usize = 0;
    assert(member_views(kept@) =~= Seq::<(Seq<char>, JsonV)>::empty());
    assert(r0.take(0) =~= Seq::<(Seq<char>, JsonV)>::empty());
    while j < members.len()
        invariant
            j <= members@.len(),
            r0 == member_views(members@),
            r0.len() == members@.len(),
            forall|q: int| 0 <= q < members@.len() ==> #[trigger] r0[q] == (members@[q].0@, members@[q].1@),
            member_views(kept@) == without_key(r0.take(j as int), key@),
        decreases members@.len() - j,
    {
        let ks = to_chars(members[j].0.as_str());
        let same = crate::text::eq_str(&ks, key);
        proof {
            assert(r0.take(j + 1) =~= r0.take(j as int) + seq![r0[j as int]]);
            lemma_without_append(r0.take(j as int), seq![r0[j as int]], key@);
            lemma_without_single(r0[j as int], key@);
        }
        if !same {
            let ghost before = kept@;
            let k = members[j].0.clone();
            let x = members[j].1.deep_clone();
            kept.push((k, x));
            assert(kept@.drop_last() =~= before);
            assert(member_views(kept@) =~= without_key(r0.take(j + 1), key@));
        } else {
            assert(member_views(kept@) =~= without_key(r0.take(j + 1), key@));
        }
        j += 1;
    }
    assert(r0.take(members@.len() as int) =~= r0);
    kept
}

fn is_exec(v: Option<&Json>) -> (r: bool)
    ensures
        r == match crate::json::ref_view(v) {
            Some(JsonV::Str(n)) => trim(n) == "exec"@,
            _ => false,
        },
{
    match v {
        Some(Json::Str(s)) => {
            let t = crate::text::trim_vec(&to_chars(s.as_str()));
            crate::text::eq_str(&t, "exec")
        },
        _ => false,
    }
}

fn is_exec_namespace_duplicate(v: &Json) -> (r: bool)
    ensures
        r == match v@ {
            JsonV::Object(m) => exec_namespace_duplicate(m),
            _ => false,
        },
{
    match v {
        Json::Object(_) => {},
        _ => {
            return false;
        },
    }
    let type_ok = match crate::json::get_str(v, "type") {
        Some(t) => {
            let c = to_chars(t);
            crate::text::eq_str(&c, "custom_tool_call")
        },
        None => false,
    };
    proof {
        let m = v@->Object_0;
        if type_ok {
            assert(member_lookup(m, "type"@) == Some(JsonV::Str("custom_tool_call"@)));
        }
    }
    type_ok && is_exec(v.get("name")) && is_exec(v.get("namespace"))
}

/// The value with the rule applied, and whether anything changed.
pub fn normalized_value(v: &Json) -> (r: (Json, bool))
    ensures
        r.0@ == normalized(v@).0,
        r.1 == normalized(v@).1,
    decreases v,
{
    match v {
        Json::Object(m) => {
            let ghost mv = member_views(m@);
            proof {
                lemma_member_views(m@);
            }
            let mut out: Vec<(String, Json)> = Vec::new();
            let mut changed = false;
            let mut i: usize = 0;
            assert(mv.take(0) =~= Seq::<(Seq<char>, JsonV)>::empty());
            assert(member_views(out@) =~= Seq::<(Seq<char>, JsonV)>::empty());
            while i < m.len()
                invariant
                    i <= m@.len(),
                    *v == Json::Object(*m),
                    mv == member_views(m@),
                    mv.len() == m@.len(),
                    forall|j: int| 0 <= j < m@.len() ==> #[trigger] mv[j] == (m@[j].0@, m@[j].1@),
                    member_views(out@) == normalized_members(mv.take(i as int)).0,
                    changed == normalized_members(mv.take(i as int)).1,
                decreases m@.len() - i,
            {
                proof {
                    vstd::std_specs::vec::axiom_vec_index_decreases(*m, i as int);
                    assert(decreases_to!(*v => (*v)->Object_0));
                    assert(decreases_to!(m[i as int] => m[i as int].1));
                    assert(decreases_to!(*v => m[i as int].1));
                }
                let (x, c) = normalized_value(&m[i].1);
                let ghost before = out@;
                let ghost xv = x@;
                let k = m[i].0.clone();
                out.push((k, x));
                proof {
                    assert(out@.drop_last() =~= before);
                    lemma_members_append(mv.take(i as int), seq![mv[i as int]]);
                    lemma_members_single(mv[i as int].0, mv[i as int].1);
                    assert(mv.take(i as int) + seq![mv[i as int]] =~= mv.take(i + 1));
                    assert(member_views(out@) =~= normalized_members(mv.take(i + 1)).0);
                }
                changed = changed || c;
                i += 1;
            }
            assert(mv.take(m@.len() as int) =~= mv);
            if is_exec_namespace_duplicate(v) {
                let ghost r0 = member_views(out@);
                let mut kept: Vec<(String, Json)> = Vec::new();
                let mut j: usize = 0;
                proof {
                    lemma_member_views(out@);
                }
                assert(member_views(kept@) =~= Seq::<(Seq<char>, JsonV)>::empty());
                assert(r0.take(0) =~= Seq::<(Seq<char>, JsonV)>::empty());
                while j < out.len()
                    invariant
                        j <= out@.len(),
                        r0 == member_views(out@),
                        r0.len() == out@.len(),
                        forall|q: int| 0 <= q < out@.len() ==> #[trigger] r0[q] == (out@[q].0@, out@[q].1@),
                        member_views(kept@) == without_key(r0.take(j as int), "namespace"@),
                    decreases out@.len() - j,
                {
                    let ks = to_chars(out[j].0.as_str());
                    let is_ns = crate::text::eq_str(&ks, "namespace");
                    proof {
                        assert(r0.take(j + 1) =~= r0.take(j as int) + seq![r0[j as int]]);
                        lemma_without_append(r0.take(j as int), seq![r0[j as int]], "namespace"@);
                        lemma_without_single(r0[j as int], "namespace"@);
                    }
                    if !is_ns {
                        let ghost before = kept@;
                        let k = out[j].0.clone();
                        let x = out[j].1.deep_clone();
                        kept.push((k, x));
                        assert(kept@.drop_last() =~= before);
                        assert(member_views(kept@) =~= without_key(r0.take(j + 1), "namespace"@));
                    } else {
                        assert(member_views(kept@) =~= without_key(r0.take(j + 1), "namespace"@));
                    }
                    j += 1;
                }
                assert(r0.take(out@.len() as int) =~= r0);
                let r = Json::Object(kept);
                assert(r@ == JsonV::Object(member_views(kept@)));
                (r, true)
            } else {
                let r = Json::Object(out);
                assert(r@ == JsonV::Object(member_views(out@)));
                (r, changed)
            }
        },
        Json::Array(a) => {
            let ghost av = views(a@);
            proof {
                lemma_views(a@);
            }
            let mut out: Vec<Json> = Vec::new();
            let mut changed = false;
            let mut i: usize = 0;
            assert(av.take(0) =~= Seq::<JsonV>::empty());
            assert(views(out@) =~= Seq::<JsonV>::empty());
            while i < a.len()
                invariant
                    i <= a@.len(),
                    *v == Json::Array(*a),
                    av == views(a@),
                    av.len() == a@.len(),
                    forall|j: int| 0 <= j < a@.len() ==> #[trigger] av[j] == a@[j]@,
                    views(out@) == normalized_items(av.take(i as int)).0,
                    changed == normalized_items(av.take(i as int)).1,
                decreases a@.len() - i,
            {
                proof {
                    vstd::std_specs::vec::axiom_vec_index_decreases(*a, i as int);
                    assert(decreases_to!(*v => (*v)->Array_0));
                    assert(decreases_to!(*v => a[i as int]));
                }
                let (x, c) = normalized_value(&a[i]);
                let ghost before = out@;
                out.push(x);
                proof {
                    assert(out@.drop_last() =~= before);
                    lemma_items_append(av.take(i as int), seq![av[i as int]]);
                    lemma_items_single(av[i as int]);
                    assert(av.take(i as int) + seq![av[i as int]] =~= av.take(i + 1));
                    assert(views(out@) =~= normalized_items(av.take(i + 1)).0);
                }
                changed = changed || c;
                i += 1;
            }
            assert(av.take(a@.len() as int) =~= av);
            let r = Json::Array(out);
            assert(r@ == JsonV::Array(views(out@)));
            (r, changed)
        },
        _ => (v.deep_clone(), false),
    }
}

/// `normalize_response_value`: applies the rule in place; true when the
/// value changed.
pub fn normalize_response_value(value: &mut Json) -> (changed: bool)
    ensures
        final(value)@ == normalized(old(value)@).0,
        changed == normalized(old(value)@).1,
{
    let (n, c) = normalized_value(value);
    *value = n;
    c
}

// ─── idempotence ───────────────────────────────────────────────────────

proof fn lemma_lookup_without(m: Seq<(Seq<char>, JsonV)>, k: Seq<char>)
    ensures
        member_lookup(without_key(m, k), k) is None,
    decreases m.len(),
{
    if m.len() > 0 {
        lemma_lookup_without(m.drop_first(), k);
        if m[0].0 != k {
            let w = seq![m[0]] + without_key(m.drop_first(), k);
            assert(w[0] == m[0]);
            assert(w.drop_first() =~= without_key(m.drop_first(), k));
        }
    }
}

/// Normalizing keeps strings and keeps every other kind of value from
/// becoming a string.
proof fn lemma_normalized_strings(v: JsonV)
    ensures
        v is Str ==> normalized(v).0 == v,
        !(v is Str) ==> !(normalized(v).0 is Str),
{
}

proof fn lemma_lookup_normalized(m: Seq<(Seq<char>, JsonV)>, key: Seq<char>)
    ensures
        member_lookup(normalized_members(m).0, key) == match member_lookup(m, key) {
            Some(x) => Some(normalized(x).0),
            None => None,
        },
    decreases m.len(),
{
    if m.len() > 0 {
        lemma_lookup_normalized(m.drop_first(), key);
        let r = normalized_members(m).0;
        assert(r[0] == (m[0].0, normalized(m[0].1).0));
        assert(r.drop_first() =~= normalized_members(m.drop_first()).0);
    }
}

proof fn lemma_duplicate_kept(m: Seq<(Seq<char>, JsonV)>)
    ensures
        exec_namespace_duplicate(normalized_members(m).0) == exec_namespace_duplicate(m),
{
    let r = normalized_members(m).0;
    lemma_lookup_normalized(m, "type"@);
    lemma_lookup_normalized(m, "name"@);
    lemma_lookup_normalized(m, "namespace"@);
    match member_lookup(m, "type"@) {
        Some(x) => lemma_normalized_strings(x),
        None => {},
    }
    match member_lookup(m, "name"@) {
        Some(x) => lemma_normalized_strings(x),
        None => {},
    }
    match member_lookup(m, "namespace"@) {
        Some(x) => lemma_normalized_strings(x),
        None => {},
    }
}

/// Members that normalizing leaves alone stay alone without some of them.
proof fn lemma_without_fixed(r: Seq<(Seq<char>, JsonV)>, k: Seq<char>)
    requires
        normalized_members(r).0 == r,
        !normalized_members(r).1,
    ensures
        normalized_members(without_key(r, k)).0 == without_key(r, k),
        !normalized_members(without_key(r, k)).1,
    decreases r.len(),
{
    if r.len() > 0 {
        let x = normalized(r[0].1);
        let rest = normalized_members(r.drop_first());
        assert((seq![(r[0].0, x.0)] + rest.0)[0] == (r[0].0, x.0));
        assert(x.0 == r[0].1);
        assert(rest.0 =~= (seq![(r[0].0, x.0)] + rest.0).drop_first());
        assert(rest.0 =~= r.drop_first());
        lemma_without_fixed(r.drop_first(), k);
        if r[0].0 != k {
            lemma_members_append(seq![r[0]], without_key(r.drop_first(), k));
            lemma_members_single(r[0].0, r[0].1);
        }
    }
}

/// Normalizing a normalized value changes nothing.
proof fn lemma_fixed(v: JsonV)
    ensures
        normalized(normalized(v).0).0 == normalized(v).0,
        !normalized(normalized(v).0).1,
    decreases v, 2int,
{
    match v {
        JsonV::Object(m) => {
            let r = normalized_members(m);
            lemma_members_fixed(m);
            if exec_namespace_duplicate(m) {
                let out = without_key(r.0, "namespace"@);
                lemma_without_fixed(r.0, "namespace"@);
                lemma_lookup_without(r.0, "namespace"@);
                assert(!exec_namespace_duplicate(out));
            } else {
                lemma_duplicate_kept(m);
            }
        },
        JsonV::Array(a) => {
            lemma_items_fixed(a);
        },
        _ => {},
    }
}

proof fn lemma_members_fixed(m: Seq<(Seq<char>, JsonV)>)
    ensures
        normalized_members(normalized_members(m).0).0 == normalized_members(m).0,
        !normalized_members(normalized_members(m).0).1,
    decreases m, 1int,
{
    if m.len() > 0 {
        assert(decreases_to!(m => m[0]));
        lemma_fixed(m[0].1);
        lemma_members_fixed(m.drop_first());
        let x = normalized(m[0].1);
        let rest = normalized_members(m.drop_first());
        lemma_members_append(seq![(m[0].0, x.0)], rest.0);
        lemma_members_single(m[0].0, x.0);
    }
}

proof fn lemma_items_fixed(a: Seq<JsonV>)
    ensures
        normalized_items(normalized_items(a).0).0 == normalized_items(a).0,
        !normalized_items(normalized_items(a).0).1,
    decreases a, 1int,
{
    if a.len() > 0 {
        lemma_fixed(a[0]);
        lemma_items_fixed(a.drop_first());
        let x = normalized(a[0]);
        let rest = normalized_items(a.drop_first());
        lemma_items_append(seq![x.0], rest.0);
        lemma_items_single(x.0);
    }
}

/// The rules are idempotent: normalizing a normalized payload changes
/// nothing and reports no change.
pub proof fn law_normalization_is_idempotent(v: JsonV)
    ensures
        normalized(normalized(v).0) == (normalized(v).0, false),
{
    lemma_fixed(v);
}

/// Only the redundant namespace goes: a payload with no `exec` custom
/// tool call that repeats its namespace is left exactly as it is.
pub proof fn law_other_payloads_unchanged(v: JsonV)
    requires
        !normalized(v).1,
    ensures
        normalized(v).0 == v,
    decreases v, 2int,
{
    match v {
        JsonV::Object(m) => {
            lemma_members_unchanged(m);
        },
        JsonV::Array(a) => {
            lemma_items_unchanged(a);
        },
        _ => {},
    }
}

proof fn lemma_members_unchanged(m: Seq<(Seq<char>, JsonV)>)
    requires
        !normalized_members(m).1,
    ensures
        normalized_members(m).0 == m,
    decreases m, 1int,
{
    if m.len() > 0 {
        assert(decreases_to!(m => m[0]));
        law_other_payloads_unchanged(m[0].1);
        lemma_members_unchanged(m.drop_first());
        assert(seq![(m[0].0, m[0].1)] + m.drop_first() =~= m);
    }
}

proof fn lemma_items_unchanged(a: Seq<JsonV>)
    requires
        !normalized_items(a).1,
    ensures
        normalized_items(a).0 == a,
    decreases a, 1int,
{
    if a.len() > 0 {
        law_other_payloads_unchanged(a[0]);
        lemma_items_unchanged(a.drop_first());
        assert(seq![a[0]] + a.drop_first() =~= a);
    }
}

// ─── whole bodies and event lines ──────────────────────────────────────

/// `normalize_json_body`, on the body's text: the parsed payload with the
/// rules applied; the text is written anew only when the rules changed the
/// payload, and kept as it is otherwise, or when it is not JSON.
pub fn normalize_json_body(body: &str) -> (r: (String, Option<Json>))
    ensures
        match parsed_json(body@) {
            None => r.0@ == body@ && r.1 is None,
            Some(v) => {
                &&& r.1 matches Some(j) && j@ == normalized(v).0
                &&& r.0@ == if normalized(v).1 {
                    json_text(normalized(v).0)
                } else {
                    body@
                }
            },
        },
{
    match parse_json(body) {
        None => (String::from_str(body), None),
        Some(mut value) => {
            if normalize_response_value(&mut value) {
                (to_json_text(&value), Some(value))
            } else {
                (String::from_str(body), Some(value))
            }
        },
    }
}

/// What `rewrite_sse_line` makes of a line: a `data:` line whose JSON the
/// rules change becomes `data: ` and the new JSON; every other line, the
/// `[DONE]` marker among them, stays as it is.
pub open spec fn rewritten_line(line: Seq<char>) -> Seq<char> {
    match sse_data(line) {
        None => line,
        Some(data) => if trim(data) == "[DONE]"@ {
            line
        } else {
            match parsed_json(data) {
                None => line,
                Some(v) => if normalized(v).1 {
                    "data: "@ + json_text(normalized(v).0)
                } else {
                    line
                },
            }
        },
    }
}

/// `rewrite_sse_line`, on a line's text.
pub fn rewrite_sse_line(line: &str) -> (r: String)
    ensures
        r@ == rewritten_line(line@),
{
    let data = match sse_data_value(line) {
        Some(d) => d,
        None => {
            return String::from_str(line);
        },
    };
    let t = crate::text::trim_vec(&to_chars(data.as_str()));
    if crate::text::eq_str(&t, "[DONE]") {
        return String::from_str(line);
    }
    let mut event = match parse_json(data.as_str()) {
        Some(e) => e,
        None => {
            return String::from_str(line);
        },
    };
    if !normalize_response_value(&mut event) {
        return String::from_str(line);
    }
    let mut out = to_chars("data: ");
    let json = to_chars(to_json_text(&event).as_str());
    crate::text::append_vec(&mut out, &json);
    from_chars(&out)
}

pub open spec fn newline() -> u8 {
    10u8
}

/// A line's bytes without one `\r` at its end.
pub open spec fn without_cr(b: Seq<u8>) -> Seq<u8> {
    if b.len() > 0 && b.last() == 13u8 {
        b.drop_last()
    } else {
        b
    }
}

/// The first complete line of `buf`: its bytes without the `\n` and one
/// `\r` before it, and how many bytes of `buf` it took. Nothing when `buf`
/// holds no `\n` yet.
pub fn first_line(buf: &[u8]) -> (r: Option<(Vec<u8>, usize)>)
    ensures
        match r {
            None => forall|i: int| 0 <= i < buf@.len() ==> buf@[i] != newline(),
            Some((line, used)) => {
                &&& 0 < used <= buf@.len()
                &&& buf@[used - 1] == newline()
                &&& forall|i: int| 0 <= i < used - 1 ==> buf@[i] != newline()
                &&& line@ == without_cr(buf@.take(used - 1))
            },
        },
{
    let mut i: usize = 0;
    while i < buf.len()
        invariant
            i <= buf@.len(),
            forall|j: int| 0 <= j < i ==> buf@[j] != newline(),
        decreases buf@.len() - i,
    {
        if buf[i] == 10u8 {
            let mut end = i;
            if end > 0 && buf[end - 1] == 13u8 {
                end = end - 1;
            }
            let mut line: Vec<u8> = Vec::new();
            let mut k: usize = 0;
            while k < end
                invariant
                    k <= end <= i < buf@.len(),
                    line@ == buf@.take(k as int),
                decreases end - k,
            {
                line.push(buf[k]);
                k += 1;
                assert(line@ =~= buf@.take(k as int));
            }
            proof {
                let t = buf@.take(i as int);
                if i > 0 && buf@[i - 1] == 13u8 {
                    assert(t.drop_last() =~= buf@.take(end as int));
                } else {
                    assert(t =~= buf@.take(end as int));
                }
            }
            return Some((line, i + 1));
        }
        i += 1;
    }
    None
}

} // verus!
