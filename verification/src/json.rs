//! A JSON value as the library reads and builds it, with a mathematical view.
//!
//! Numbers are kept as their decimal text, so no floating-point value ever
//! enters the library; objects keep their members in order.
use vstd::prelude::*;
use crate::text::{eq_str, from_chars, to_chars};

verus! {

#[derive(Debug)]
pub enum Json {
    Null,
    Bool(bool),
    Number(String),
    Str(String),
    Array(Vec<Json>),
    Object(Vec<(String, Json)>),
}

/// The mathematical value of a JSON document.
pub ghost enum JsonV {
    Null,
    Bool(bool),
    Number(Seq<char>),
    Str(Seq<char>),
    Array(Seq<JsonV>),
    Object(Seq<(Seq<char>, JsonV)>),
}

pub open spec fn json_view(j: Json) -> JsonV
    decreases j, 2int,
{
    match j {
        Json::Null => JsonV::Null,
        Json::Bool(b) => JsonV::Bool(b),
        Json::Number(n) => JsonV::Number(n@),
        Json::Str(s) => JsonV::Str(s@),
        Json::Array(v) => JsonV::Array(views(v@)),
        Json::Object(m) => JsonV::Object(member_views(m@)),
    }
}

pub open spec fn views(s: Seq<Json>) -> Seq<JsonV>
    decreases s, 1int,
{
    if s.len() == 0 {
        Seq::empty()
    } else {
        views(s.drop_last()).push(json_view(s.last()))
    }
}

pub open spec fn member_views(s: Seq<(String, Json)>) -> Seq<(Seq<char>, JsonV)>
    decreases s, 1int,
{
    if s.len() == 0 {
        Seq::empty()
    } else {
        member_views(s.drop_last()).push((s.last().0@, json_view(s.last().1)))
    }
}

impl View for Json {
    type V = JsonV;

    open spec fn view(&self) -> JsonV {
        json_view(*self)
    }
}

pub proof fn lemma_views(s: Seq<Json>)
    ensures
        views(s).len() == s.len(),
        forall|i: int| 0 <= i < s.len() ==> #[trigger] views(s)[i] == json_view(s[i]),
    decreases s.len(),
{
    if s.len() > 0 {
        lemma_views(s.drop_last());
    }
}

pub proof fn lemma_member_views(s: Seq<(String, Json)>)
    ensures
        member_views(s).len() == s.len(),
        forall|i: int| 0 <= i < s.len() ==> #[trigger] member_views(s)[i] == (s[i].0@, json_view(s[i].1)),
    decreases s.len(),
{
    if s.len() > 0 {
        lemma_member_views(s.drop_last());
    }
}

/// The value of the first member named `key`.
pub open spec fn member_lookup(m: Seq<(Seq<char>, JsonV)>, key: Seq<char>) -> Option<JsonV>
    decreases m.len(),
{
    if m.len() == 0 {
        None
    } else if m[0].0 == key {
        Some(m[0].1)
    } else {
        member_lookup(m.drop_first(), key)
    }
}

/// `Value::get` with a string key: the member of an object, nothing for
/// any other value.
pub open spec fn jget(j: JsonV, key: Seq<char>) -> Option<JsonV> {
    match j {
        JsonV::Object(m) => member_lookup(m, key),
        _ => None,
    }
}

/// The string a JSON value holds, if it is a string.
pub open spec fn jstr(j: JsonV) -> Option<Seq<char>> {
    match j {
        JsonV::Str(s) => Some(s),
        _ => None,
    }
}

/// `jget` followed by `as_str`.
pub open spec fn jget_str(j: JsonV, key: Seq<char>) -> Option<Seq<char>> {
    match jget(j, key) {
        Some(v) => jstr(v),
        None => None,
    }
}

/// `jget` on an optional value.
pub open spec fn jget_opt(j: Option<JsonV>, key: Seq<char>) -> Option<JsonV> {
    match j {
        Some(v) => jget(v, key),
        None => None,
    }
}

pub open spec fn jstr_opt(j: Option<JsonV>) -> Option<Seq<char>> {
    match j {
        Some(v) => jstr(v),
        None => None,
    }
}

pub open spec fn ref_view(r: Option<&Json>) -> Option<JsonV> {
    match r {
        Some(x) => Some(x@),
        None => None,
    }
}

pub open spec fn str_view(r: Option<&str>) -> Option<Seq<char>> {
    match r {
        Some(x) => Some(x@),
        None => None,
    }
}

proof fn lemma_lookup_step(m: Seq<(Seq<char>, JsonV)>, key: Seq<char>, i: int)
    requires
        0 <= i < m.len(),
        m[i].0 != key,
    ensures
        member_lookup(m.subrange(i, m.len() as int), key) == member_lookup(m.subrange(i + 1, m.len() as int), key),
{
    let t = m.subrange(i, m.len() as int);
    assert(t[0] == m[i]);
    assert(t.drop_first() =~= m.subrange(i + 1, m.len() as int));
}

impl Json {
    /// A copy of the whole value.
    pub fn deep_clone(&self) -> (r: Json)
        ensures
            r@ == self@,
        decreases self,
    {
        match self {
            Json::Null => Json::Null,
            Json::Bool(b) => Json::Bool(*b),
            Json::Number(n) => Json::Number(n.clone()),
            Json::Str(t) => Json::Str(t.clone()),
            Json::Array(v) => {
                let mut out: Vec<Json> = Vec::new();
                let mut i: usize = 0;
                while i < v.len()
                    invariant
                        i <= v@.len(),
                        views(out@) == views(v@.take(i as int)),
                        *self == Json::Array(*v),
                    decreases v@.len() - i,
                {
                    proof {
                        vstd::std_specs::vec::axiom_vec_index_decreases(*v, i as int);
                        assert(decreases_to!(*self => (*self)->Array_0));
                        assert(decreases_to!(*self => v[i as int]));
                    }
                    let c = v[i].deep_clone();
                    let ghost before = out@;
                    out.push(c);
                    assert(out@.drop_last() =~= before);
                    assert(v@.take(i + 1).drop_last() =~= v@.take(i as int));
                    assert(v@.take(i + 1).last() == v@[i as int]);
                    i += 1;
                }
                assert(v@.take(v@.len() as int) =~= v@);
                Json::Array(out)
            },
            Json::Object(m) => {
                let mut out: Vec<(String, Json)> = Vec::new();
                let mut i: usize = 0;
                while i < m.len()
                    invariant
                        i <= m@.len(),
                        member_views(out@) == member_views(m@.take(i as int)),
                        *self == Json::Object(*m),
                    decreases m@.len() - i,
                {
                    proof {
                        vstd::std_specs::vec::axiom_vec_index_decreases(*m, i as int);
                        assert(decreases_to!(*self => (*self)->Object_0));
                        assert(decreases_to!(m[i as int] => m[i as int].1));
                        assert(decreases_to!(*self => m[i as int].1));
                    }
                    let k = m[i].0.clone();
                    let c = m[i].1.deep_clone();
                    let ghost before = out@;
                    out.push((k, c));
                    assert(out@.drop_last() =~= before);
                    assert(m@.take(i + 1).drop_last() =~= m@.take(i as int));
                    assert(m@.take(i + 1).last() == m@[i as int]);
                    i += 1;
                }
                assert(m@.take(m@.len() as int) =~= m@);
                Json::Object(out)
            },
        }
    }

    /// `==` on values: the same value, member by member and item by item.
    pub fn same_as(&self, other: &Json) -> (r: bool)
        ensures
            r == (self@ == other@),
        decreases self,
    {
        match (self, other) {
            (Json::Null, Json::Null) => true,
            (Json::Bool(a), Json::Bool(b)) => *a == *b,
            (Json::Number(a), Json::Number(b)) => {
                let x = to_chars(a.as_str());
                let y = to_chars(b.as_str());
                crate::text::eq_vec(&x, &y)
            },
            (Json::Str(a), Json::Str(b)) => {
                let x = to_chars(a.as_str());
                let y = to_chars(b.as_str());
                crate::text::eq_vec(&x, &y)
            },
            (Json::Array(a), Json::Array(b)) => {
                proof {
                    lemma_views(a@);
                    lemma_views(b@);
                }
                if a.len() != b.len() {
                    return false;
                }
                let mut i: usize = 0;
                while i < a.len()
                    invariant
                        i <= a@.len(),
                        a@.len() == b@.len(),
                        *self == Json::Array(*a),
                        *other == Json::Array(*b),
                        views(a@).len() == a@.len(),
                        views(b@).len() == b@.len(),
                        forall|j: int| 0 <= j < a@.len() ==> #[trigger] views(a@)[j] == a@[j]@,
                        forall|j: int| 0 <= j < b@.len() ==> #[trigger] views(b@)[j] == b@[j]@,
                        forall|j: int| 0 <= j < i ==> views(a@)[j] == views(b@)[j],
                    decreases a@.len() - i,
                {
                    proof {
                        vstd::std_specs::vec::axiom_vec_index_decreases(*a, i as int);
                        assert(decreases_to!(*self => (*self)->Array_0));
                        assert(decreases_to!(*self => a[i as int]));
                    }
                    if !a[i].same_as(&b[i]) {
                        assert(views(a@)[i as int] != views(b@)[i as int]);
                        assert(self@ == JsonV::Array(views(a@)));
                        assert(other@ == JsonV::Array(views(b@)));
                        return false;
                    }
                    i += 1;
                }
                assert(views(a@) =~= views(b@));
                true
            },
            (Json::Object(a), Json::Object(b)) => {
                proof {
                    lemma_member_views(a@);
                    lemma_member_views(b@);
                }
                if a.len() != b.len() {
                    return false;
                }
                let mut i: usize = 0;
                while i < a.len()
                    invariant
                        i <= a@.len(),
                        a@.len() == b@.len(),
                        *self == Json::Object(*a),
                        *other == Json::Object(*b),
                        member_views(a@).len() == a@.len(),
                        member_views(b@).len() == b@.len(),
                        forall|j: int| 0 <= j < a@.len() ==> #[trigger] member_views(a@)[j] == (a@[j].0@, a@[j].1@),
                        forall|j: int| 0 <= j < b@.len() ==> #[trigger] member_views(b@)[j] == (b@[j].0@, b@[j].1@),
                        forall|j: int| 0 <= j < i ==> member_views(a@)[j] == member_views(b@)[j],
                    decreases a@.len() - i,
                {
                    proof {
                        vstd::std_specs::vec::axiom_vec_index_decreases(*a, i as int);
                        assert(decreases_to!(*self => (*self)->Object_0));
                        assert(decreases_to!(a[i as int] => a[i as int].1));
                        assert(decreases_to!(*self => a[i as int].1));
                    }
                    let x = to_chars(a[i].0.as_str());
                    let y = to_chars(b[i].0.as_str());
                    if !crate::text::eq_vec(&x, &y) || !a[i].1.same_as(&b[i].1) {
                        assert(member_views(a@)[i as int] != member_views(b@)[i as int]);
                        assert(self@ == JsonV::Object(member_views(a@)));
                        assert(other@ == JsonV::Object(member_views(b@)));
                        return false;
                    }
                    i += 1;
                }
                assert(member_views(a@) =~= member_views(b@));
                true
            },
            _ => false,
        }
    }

    /// `Value::get` with a string key.
    pub fn get(&self, key: &str) -> (r: Option<&Json>)
        ensures
            ref_view(r) == jget(self@, key@),
    {
        match self {
            Json::Object(m) => {
                let ghost mv = member_views(m@);
                proof {
                    lemma_member_views(m@);
                    assert(mv.subrange(0, mv.len() as int) =~= mv);
                }
                let mut i: usize = 0;
                while i < m.len()
                    invariant
                        i <= m@.len(),
                        mv == member_views(m@),
                        mv.len() == m@.len(),
                        forall|j: int| 0 <= j < m@.len() ==> #[trigger] mv[j] == (m@[j].0@, json_view(m@[j].1)),
                        member_lookup(mv, key@) == member_lookup(mv.subrange(i as int, mv.len() as int), key@),
                        *self == Json::Object(*m),
                    decreases m@.len() - i,
                {
                    let k = to_chars(m[i].0.as_str());
                    if eq_str(&k, key) {
                        proof {
                            let t = mv.subrange(i as int, mv.len() as int);
                            assert(t[0] == mv[i as int]);
                            assert(t.len() > 0);
                            assert(t[0].0 == key@);
                            assert(member_lookup(t, key@) == Some(t[0].1));
                            assert(self@ == JsonV::Object(mv));
                        }
                        return Some(&m[i].1);
                    }
                    proof {
                        lemma_lookup_step(mv, key@, i as int);
                    }
                    i += 1;
                }
                None
            },
            _ => None,
        }
    }

    /// The string a JSON value holds, if it is a string.
    pub fn as_str(&self) -> (r: Option<&str>)
        ensures
            str_view(r) == jstr(self@),
    {
        match self {
            Json::Str(t) => Some(t.as_str()),
            _ => None,
        }
    }
}

impl Clone for Json {
    fn clone(&self) -> (r: Self)
        ensures
            r@ == self@,
    {
        self.deep_clone()
    }
}


// ─── text of values ────────────────────────────────────────────────────

/// What `serde_json::to_string` writes for a JSON value.
pub uninterp spec fn json_text(j: JsonV) -> Seq<char>;

/// The JSON text of a string, as `serde_json::to_string` writes it.
pub open spec fn json_string_literal(s: Seq<char>) -> Seq<char> {
    json_text(JsonV::Str(s))
}

/// The `serde_json::Value` for a JSON value, value for value; a number is
/// read back from its text.
#[verifier::external_body]
fn serde_of_json(j: &Json) -> serde_json::Value {
    match j {
        Json::Null => serde_json::Value::Null,
        Json::Bool(b) => serde_json::Value::Bool(*b),
        Json::Number(n) => serde_json::from_str::<serde_json::Value>(n).unwrap_or(serde_json::Value::Null),
        Json::Str(s) => serde_json::Value::String(s.clone()),
        Json::Array(a) => serde_json::Value::Array(a.iter().map(serde_of_json).collect()),
        Json::Object(m) => serde_json::Value::Object(m.iter().map(|(k, v)| (k.clone(), serde_of_json(v))).collect()),
    }
}

/// `serde_json::to_string` of the value: its compact JSON text, named by
/// `json_text`. Serialising a `Value` does not fail.
#[verifier::external_body]
pub fn to_json_text(j: &Json) -> (r: String)
    ensures
        r@ == json_text(j@),
{
    serde_json::to_string(&serde_of_json(j)).unwrap_or_default()
}

/// What `serde_json::to_string_pretty` writes for a JSON value.
pub uninterp spec fn pretty_json_text(j: JsonV) -> Seq<char>;

/// `serde_json::to_string_pretty` of the value: its indented JSON text, named
/// by `pretty_json_text`. Serialising a `Value` does not fail.
#[verifier::external_body]
pub(crate) fn to_pretty_json_text(j: &Json) -> (r: String)
    ensures
        r@ == pretty_json_text(j@),
{
    serde_json::to_string_pretty(&serde_of_json(j)).unwrap_or_default()
}

/// The JSON text of a string.
pub fn json_string_text(s: &str) -> (r: String)
    ensures
        r@ == json_string_literal(s@),
{
    to_json_text(&Json::Str(String::from_str(s)))
}


// ─── text written member by member ────────────────────────────────────

/// Compact JSON text written member by member in the order the object holds
/// them, as serde's derived serializers write a struct's fields: no spaces,
/// strings as serde_json writes them, numbers as their own text.
pub open spec fn written_json_text(j: JsonV) -> Seq<char>
    decreases j, 2int,
{
    match j {
        JsonV::Null => "null"@,
        JsonV::Bool(b) => if b {
            "true"@
        } else {
            "false"@
        },
        JsonV::Number(n) => n,
        JsonV::Str(s) => json_string_literal(s),
        JsonV::Array(a) => seq!['['] + written_items_text(a) + seq![']'],
        JsonV::Object(m) => seq!['{'] + written_members_text(m) + seq!['}'],
    }
}

pub open spec fn written_items_text(a: Seq<JsonV>) -> Seq<char>
    decreases a, 1int,
{
    if a.len() == 0 {
        Seq::empty()
    } else if a.len() == 1 {
        written_json_text(a[0])
    } else {
        written_items_text(a.drop_last()) + seq![','] + written_json_text(a.last())
    }
}

pub open spec fn written_members_text(m: Seq<(Seq<char>, JsonV)>) -> Seq<char>
    decreases m, 1int,
{
    if m.len() == 0 {
        Seq::empty()
    } else if m.len() == 1 {
        json_string_literal(m[0].0) + seq![':'] + written_json_text(m[0].1)
    } else {
        written_members_text(m.drop_last()) + seq![','] + json_string_literal(m.last().0) + seq![':'] + written_json_text(
            m.last().1,
        )
    }
}

fn append_written_json_text(out: &mut Vec<char>, j: &Json)
    ensures
        final(out)@ == old(out)@ + written_json_text(j@),
    decreases j,
{
    match j {
        Json::Null => {
            crate::text::append_str(out, "null");
        },
        Json::Bool(b) => {
            if *b {
                crate::text::append_str(out, "true");
            } else {
                crate::text::append_str(out, "false");
            }
        },
        Json::Number(n) => {
            crate::text::append_str(out, n.as_str());
        },
        Json::Str(s) => {
            let q = json_string_text(s.as_str());
            crate::text::append_str(out, q.as_str());
        },
        Json::Array(a) => {
            let ghost start = out@;
            out.push('[');
            let mut i: usize = 0;
            while i < a.len()
                invariant
                    i <= a@.len(),
                    *j == Json::Array(*a),
                    out@ == start + seq!['['] + written_items_text(views(a@.take(i as int))),
                decreases a@.len() - i,
            {
                proof {
                    vstd::std_specs::vec::axiom_vec_index_decreases(*a, i as int);
                    assert(decreases_to!(*j => (*j)->Array_0));
                    lemma_views(a@.take(i + 1));
                    assert(a@.take(i + 1).drop_last() =~= a@.take(i as int));
                    assert(views(a@.take(i + 1)).drop_last() =~= views(a@.take(i as int)));
                }
                if i > 0 {
                    out.push(',');
                }
                append_written_json_text(out, &a[i]);
                proof {
                    let vs = views(a@.take(i + 1));
                    assert(vs.last() == json_view(a@[i as int]));
                    if i == 0 {
                        assert(vs[0] == json_view(a@[0]));
                    }
                }
                i += 1;
            }
            assert(a@.take(a@.len() as int) =~= a@);
            out.push(']');
        },
        Json::Object(m) => {
            let ghost start = out@;
            out.push('{');
            let mut i: usize = 0;
            while i < m.len()
                invariant
                    i <= m@.len(),
                    *j == Json::Object(*m),
                    out@ == start + seq!['{'] + written_members_text(member_views(m@.take(i as int))),
                decreases m@.len() - i,
            {
                proof {
                    vstd::std_specs::vec::axiom_vec_index_decreases(*m, i as int);
                    assert(decreases_to!(*j => (*j)->Object_0));
                    assert(decreases_to!(m[i as int] => m[i as int].1));
                    lemma_member_views(m@.take(i + 1));
                    assert(m@.take(i + 1).drop_last() =~= m@.take(i as int));
                    assert(member_views(m@.take(i + 1)).drop_last() =~= member_views(m@.take(i as int)));
                }
                if i > 0 {
                    out.push(',');
                }
                let q = json_string_text(m[i].0.as_str());
                crate::text::append_str(out, q.as_str());
                out.push(':');
                append_written_json_text(out, &m[i].1);
                proof {
                    let ms = member_views(m@.take(i + 1));
                    assert(ms.last() == (m@[i as int].0@, json_view(m@[i as int].1)));
                    if i == 0 {
                        assert(ms[0] == (m@[0].0@, json_view(m@[0].1)));
                    }
                }
                i += 1;
            }
            assert(m@.take(m@.len() as int) =~= m@);
            out.push('}');
        },
    }
}

/// The compact JSON text of a value, members in the order held.
pub fn to_written_json_text(j: &Json) -> (r: String)
    ensures
        r@ == written_json_text(j@),
{
    let mut out: Vec<char> = Vec::new();
    append_written_json_text(&mut out, j);
    from_chars(&out)
}


// ─── object members ────────────────────────────────────────────────────

/// `Map::insert`: the member replaced where the key already is, appended
/// otherwise.
pub open spec fn insert_member(m: Seq<(Seq<char>, JsonV)>, k: Seq<char>, v: JsonV) -> Seq<(Seq<char>, JsonV)> {
    if exists|i: int| 0 <= i < m.len() && m[i].0 == k {
        let i = choose|i: int| 0 <= i < m.len() && m[i].0 == k && forall|j: int| 0 <= j < i ==> m[j].0 != k;
        m.update(i, (k, v))
    } else {
        m.push((k, v))
    }
}

pub proof fn lemma_first_key(m: Seq<(Seq<char>, JsonV)>, k: Seq<char>, i: int)
    requires
        0 <= i < m.len(),
        m[i].0 == k,
        forall|j: int| 0 <= j < i ==> m[j].0 != k,
    ensures
        (choose|x: int| 0 <= x < m.len() && m[x].0 == k && forall|j: int| 0 <= j < x ==> m[j].0 != k) == i,
{
    let x = choose|x: int| 0 <= x < m.len() && m[x].0 == k && forall|j: int| 0 <= j < x ==> m[j].0 != k;
    assert(0 <= x < m.len() && m[x].0 == k && forall|j: int| 0 <= j < x ==> m[j].0 != k);
    if x < i {
        assert(m[x].0 != k);
    } else if x > i {
        assert(m[i].0 != k);
    }
}

pub proof fn lemma_lookup_first(m: Seq<(Seq<char>, JsonV)>, k: Seq<char>)
    ensures
        match member_lookup(m, k) {
            Some(v) => exists|i: int|
                0 <= i < m.len() && m[i].0 == k && m[i].1 == v && forall|j: int| 0 <= j < i ==> m[j].0 != k,
            None => forall|i: int| 0 <= i < m.len() ==> m[i].0 != k,
        },
    decreases m.len(),
{
    if m.len() > 0 && m[0].0 != k {
        let t = m.drop_first();
        lemma_lookup_first(t, k);
        match member_lookup(t, k) {
            Some(v) => {
                let i = choose|i: int| 0 <= i < t.len() && t[i].0 == k && t[i].1 == v && forall|j: int| 0 <= j < i ==> t[j].0 != k;
                assert(m[i + 1] == t[i]);
                assert forall|j: int| 0 <= j < i + 1 implies m[j].0 != k by {
                    if j > 0 {
                        assert(m[j] == t[j - 1]);
                    }
                }
            },
            None => {
                assert forall|i: int| 0 <= i < m.len() implies m[i].0 != k by {
                    if i > 0 {
                        assert(m[i] == t[i - 1]);
                    }
                }
            },
        }
    } else if m.len() > 0 {
        assert(m[0].0 == k);
    }
}

pub fn set_member(members: &mut Vec<(String, Json)>, key: &str, value: Json)
    ensures
        member_views(final(members)@) == insert_member(member_views(old(members)@), key@, value@),
{
    proof {
        lemma_member_views(members@);
    }
    let ghost mv = member_views(members@);
    let mut i: usize = 0;
    while i < members.len()
        invariant
            i <= members@.len(),
            members@ == old(members)@,
            mv == member_views(members@),
            mv.len() == members@.len(),
            forall|j: int| 0 <= j < members@.len() ==> #[trigger] mv[j] == (members@[j].0@, members@[j].1@),
            forall|j: int| 0 <= j < i ==> mv[j].0 != key@,
        decreases members@.len() - i,
    {
        let k = to_chars(members[i].0.as_str());
        if eq_str(&k, key) {
            let ghost vv = value@;
            let name = members[i].0.clone();
            members.set(i, (name, value));
            proof {
                assert(0 <= i < mv.len() && mv[i as int].0 == key@);
                lemma_first_key(mv, key@, i as int);
                lemma_member_views(members@);
                assert(member_views(members@) =~= mv.update(i as int, (key@, vv)));
            }
            return;
        }
        i += 1;
    }
    let ghost vv = value@;
    members.push((String::from_str(key), value));
    proof {
        lemma_member_views(members@);
        assert(member_views(members@) =~= mv.push((key@, vv)));
    }
}


/// The lookup finds the first member with the key.
pub proof fn lemma_lookup_at(m: Seq<(Seq<char>, JsonV)>, k: Seq<char>, i: int)
    requires
        0 <= i < m.len(),
        m[i].0 == k,
        forall|j: int| 0 <= j < i ==> m[j].0 != k,
    ensures
        member_lookup(m, k) == Some(m[i].1),
    decreases i,
{
    if i > 0 {
        let t = m.drop_first();
        assert forall|j: int| 0 <= j < i - 1 implies t[j].0 != k by {
            assert(t[j] == m[j + 1]);
        }
        lemma_lookup_at(t, k, i - 1);
    }
}

/// Without a member with the key, the lookup finds nothing.
pub proof fn lemma_lookup_none(m: Seq<(Seq<char>, JsonV)>, k: Seq<char>)
    requires
        forall|j: int| 0 <= j < m.len() ==> m[j].0 != k,
    ensures
        member_lookup(m, k) is None,
    decreases m.len(),
{
    if m.len() > 0 {
        let t = m.drop_first();
        assert forall|j: int| 0 <= j < t.len() implies t[j].0 != k by {
            assert(t[j] == m[j + 1]);
        }
        lemma_lookup_none(t, k);
    }
}

/// After `insert_member`, the key holds the new value.
pub proof fn lemma_lookup_insert_same(m: Seq<(Seq<char>, JsonV)>, k: Seq<char>, v: JsonV)
    ensures
        member_lookup(insert_member(m, k, v), k) == Some(v),
{
    let u = insert_member(m, k, v);
    if exists|i: int| 0 <= i < m.len() && m[i].0 == k {
        lemma_lookup_first(m, k);
        let i = choose|i: int| 0 <= i < m.len() && m[i].0 == k && forall|j: int| 0 <= j < i ==> m[j].0 != k;
        assert forall|j: int| 0 <= j < i implies u[j].0 != k by {}
        lemma_lookup_at(u, k, i);
    } else {
        assert forall|j: int| 0 <= j < m.len() implies u[j].0 != k by {
            assert(u[j] == m[j]);
        }
        lemma_lookup_at(u, k, m.len() as int);
    }
}

/// `insert_member` leaves every other key as it was.
pub proof fn lemma_lookup_insert_other(m: Seq<(Seq<char>, JsonV)>, k: Seq<char>, v: JsonV, k2: Seq<char>)
    requires
        k2 != k,
    ensures
        member_lookup(insert_member(m, k, v), k2) == member_lookup(m, k2),
{
    let u = insert_member(m, k, v);
    if exists|i: int| 0 <= i < m.len() && m[i].0 == k {
        lemma_lookup_first(m, k);
        let i = choose|i: int| 0 <= i < m.len() && m[i].0 == k && forall|j: int| 0 <= j < i ==> m[j].0 != k;
        assert(u == m.update(i, (k, v)));
        lemma_lookup_first(m, k2);
        match member_lookup(m, k2) {
            Some(x) => {
                let i2 = choose|i2: int| 0 <= i2 < m.len() && m[i2].0 == k2 && m[i2].1 == x && forall|j: int| 0 <= j < i2 ==> m[j].0 != k2;
                assert(i2 != i);
                assert forall|j: int| 0 <= j < i2 implies u[j].0 != k2 by {
                    if j != i {
                        assert(u[j] == m[j]);
                    }
                }
                assert(u[i2] == m[i2]);
                lemma_lookup_at(u, k2, i2);
            },
            None => {
                assert forall|j: int| 0 <= j < u.len() implies u[j].0 != k2 by {
                    if j != i {
                        assert(u[j] == m[j]);
                    }
                }
                lemma_lookup_none(u, k2);
            },
        }
    } else {
        assert(u == m.push((k, v)));
        lemma_lookup_first(m, k2);
        match member_lookup(m, k2) {
            Some(x) => {
                let i2 = choose|i2: int| 0 <= i2 < m.len() && m[i2].0 == k2 && m[i2].1 == x && forall|j: int| 0 <= j < i2 ==> m[j].0 != k2;
                assert forall|j: int| 0 <= j < i2 implies u[j].0 != k2 by {
                    assert(u[j] == m[j]);
                }
                assert(u[i2] == m[i2]);
                lemma_lookup_at(u, k2, i2);
            },
            None => {
                assert forall|j: int| 0 <= j < u.len() implies u[j].0 != k2 by {
                    if j < m.len() {
                        assert(u[j] == m[j]);
                    }
                }
                lemma_lookup_none(u, k2);
            },
        }
    }
}

/// A member's value is part of the object, so recursion into it ends.
pub proof fn lemma_jget_decreases(j: JsonV, key: Seq<char>)
    requires
        jget(j, key) is Some,
    ensures
        decreases_to!(j => jget(j, key)->0),
{
    let m = j->Object_0;
    lemma_lookup_first(m, key);
    let v = jget(j, key)->0;
    let i = choose|i: int| 0 <= i < m.len() && m[i].0 == key && m[i].1 == v && forall|k: int| 0 <= k < i ==> m[k].0 != key;
    assert(decreases_to!(j => j->Object_0));
    assert(decreases_to!(m => m[i]));
    assert(decreases_to!(m[i] => m[i].1));
}

/// `jget` on an optional value, for references.
pub fn get_opt<'a>(j: Option<&'a Json>, key: &str) -> (r: Option<&'a Json>)
    ensures
        ref_view(r) == jget_opt(ref_view(j), key@),
{
    match j {
        Some(v) => v.get(key),
        None => None,
    }
}

pub fn as_str_opt<'a>(j: Option<&'a Json>) -> (r: Option<&'a str>)
    ensures
        str_view(r) == jstr_opt(ref_view(j)),
{
    match j {
        Some(v) => v.as_str(),
        None => None,
    }
}

/// `value.get(key).and_then(Value::as_str)`.
pub fn get_str<'a>(j: &'a Json, key: &str) -> (r: Option<&'a str>)
    ensures
        str_view(r) == jget_str(j@, key@),
{
    as_str_opt(j.get(key))
}

// ─── reading JSON text ─────────────────────────────────────────────────

#[verifier::external_type_specification]
#[verifier::external_body]
pub struct ExSerdeValue(serde_json::Value);

/// The document that `serde_json::from_str::<Value>` reads from `text`, or
/// nothing when the text is not JSON.
pub uninterp spec fn parsed_json(text: Seq<char>) -> Option<JsonV>;

pub open spec fn opt_json_view(o: Option<Json>) -> Option<JsonV> {
    match o {
        Some(j) => Some(j@),
        None => None,
    }
}

/// Carries a `serde_json::Value` over into the library's `Json`, value for
/// value: numbers keep the text serde_json prints for them, objects keep the
/// members in the order serde_json holds them.
#[verifier::external_body]
fn json_of_serde(v: &serde_json::Value) -> Json {
    match v {
        serde_json::Value::Null => Json::Null,
        serde_json::Value::Bool(b) => Json::Bool(*b),
        serde_json::Value::Number(n) => Json::Number(n.to_string()),
        serde_json::Value::String(s) => Json::Str(s.clone()),
        serde_json::Value::Array(a) => Json::Array(a.iter().map(json_of_serde).collect()),
        serde_json::Value::Object(m) => Json::Object(m.iter().map(|(k, x)| (k.clone(), json_of_serde(x))).collect()),
    }
}

/// `serde_json::from_str::<Value>`: the parsed document, named by `parsed_json`.
#[verifier::external_body]
pub fn parse_json(text: &str) -> (r: Option<Json>)
    ensures
        opt_json_view(r) == parsed_json(text@),
{
    match serde_json::from_str::<serde_json::Value>(text) {
        Ok(v) => Some(json_of_serde(&v)),
        Err(_) => None,
    }
}

/// An array element is part of the array, so recursion into it ends.
pub proof fn lemma_item_decreases(a: Seq<Json>, i: int)
    requires
        0 <= i < a.len(),
    ensures
        decreases_to!(JsonV::Array(views(a)) => json_view(a[i])),
{
    lemma_views(a);
    let vs = views(a);
    assert(vs[i] == json_view(a[i]));
    assert(decreases_to!(JsonV::Array(vs) => JsonV::Array(vs)->Array_0));
    assert(decreases_to!(vs => vs[i]));
}


/// `Value::as_i64` on a number given by its text: an integer (an optional
/// `-` and decimal digits) that fits in `i64`.
pub open spec fn number_i64(n: Seq<char>) -> Option<int> {
    if n.len() > 0 && n[0] == '-' {
        let d = n.drop_first();
        if d.len() > 0 && crate::text::all_ascii_digits(d) && crate::text::digits_value(d) <= 0x8000_0000_0000_0000 {
            Some(-(crate::text::digits_value(d) as int))
        } else {
            None
        }
    } else if n.len() > 0 && crate::text::all_ascii_digits(n) && crate::text::digits_value(n) <= i64::MAX {
        Some(crate::text::digits_value(n) as int)
    } else {
        None
    }
}

pub open spec fn jint(j: JsonV) -> Option<int> {
    match j {
        JsonV::Number(n) => number_i64(n),
        _ => None,
    }
}

impl Json {
    /// `Value::as_i64`.
    pub fn as_i64(&self) -> (r: Option<i64>)
        ensures
            match r {
                Some(x) => jint(self@) == Some(x as int),
                None => jint(self@) is None,
            },
    {
        match self {
            Json::Number(n) => {
                let v = to_chars(n.as_str());
                if v.len() > 0 && v[0] == '-' {
                    assert(v@.skip(1) =~= v@.drop_first());
                    match crate::text::digits_up_to(&v, 1, 0x8000_0000_0000_0000u64) {
                        Some(m) => {
                            if m == 0x8000_0000_0000_0000u64 {
                                Some(i64::MIN)
                            } else {
                                Some(-(m as i64))
                            }
                        },
                        None => None,
                    }
                } else {
                    assert(v@.skip(0) =~= v@);
                    match crate::text::digits_up_to(&v, 0, 0x7fff_ffff_ffff_ffffu64) {
                        Some(m) => Some(m as i64),
                        None => None,
                    }
                }
            },
            _ => None,
        }
    }
}

} // verus!
