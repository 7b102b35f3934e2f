//! Provider-safe tool names.
//!
//! Chat-completions providers accept tool names matching `[A-Za-z0-9_-]{1,64}`,
//! while the Responses API carries namespaced, free-form tool names. A
//! `ToolNameMap` assigns every Responses tool a provider-safe name and maps it
//! back when the provider calls the tool.
use vstd::prelude::*;
use crate::assoc::{AssocMap, ViewEq};
use vstd::utf8::encode_utf8;
use crate::text::{
    append_vec, concat, eq_vec, find, first_occurrence, from_chars, is_alnum, is_ascii_alnum,
    lemma_first_occurrence_is_least, slice_from, slice_range, to_chars, trim, trim_str, trim_vec,
};
use sha2::Digest;

verus! {

/// The name under which the tool-search tool is exposed.
pub const TOOL_SEARCH_NAME: &'static str = "tool_search";

pub const PROVIDER_TOOL_NAME_MAX_LEN: usize = 64;

pub open spec fn tool_search_name() -> Seq<char> {
    seq!['t', 'o', 'o', 'l', '_', 's', 'e', 'a', 'r', 'c', 'h']
}

/// The separator between a namespace and a tool name.
pub open spec fn namespace_marker() -> Seq<char> {
    seq!['_', '_', 'c', 'o', 'd', 'e', 'x', 'n', 's', '_', '_']
}

/// The separator that older versions used.
pub open spec fn legacy_namespace_marker() -> Seq<char> {
    seq!['r', 'e', 's', 'p', 'o', 'n', 's', 'e', 's', '_', 'u', 'n', 'i', 't', '_', '_']
}

fn tool_search_chars() -> (r: Vec<char>)
    ensures
        r@ == tool_search_name(),
{
    let r = vec!['t', 'o', 'o', 'l', '_', 's', 'e', 'a', 'r', 'c', 'h'];
    assert(r@ =~= tool_search_name());
    r
}

fn namespace_marker_chars() -> (r: Vec<char>)
    ensures
        r@ == namespace_marker(),
{
    let r = vec!['_', '_', 'c', 'o', 'd', 'e', 'x', 'n', 's', '_', '_'];
    assert(r@ =~= namespace_marker());
    r
}

fn legacy_namespace_marker_chars() -> (r: Vec<char>)
    ensures
        r@ == legacy_namespace_marker(),
{
    let r = vec!['r', 'e', 's', 'p', 'o', 'n', 's', 'e', 's', '_', 'u', 'n', 'i', 't', '_', '_'];
    assert(r@ =~= legacy_namespace_marker());
    r
}

#[derive(Debug, Clone, Copy, PartialEq, Eq, Hash, Structural)]
pub enum ToolCallKind {
    Function,
    ToolSearch,
    Custom,
}

#[derive(Debug, PartialEq, Eq, Hash)]
pub struct ToolCallTarget {
    pub kind: ToolCallKind,
    pub namespace: Option<String>,
    pub name: String,
}

/// A tool call target as plain values: kind, namespace, name.
pub type TargetView = (ToolCallKind, Option<Seq<char>>, Seq<char>);

pub open spec fn opt_view(o: Option<String>) -> Option<Seq<char>> {
    match o {
        Some(s) => Some(s@),
        None => None,
    }
}

impl View for ToolCallTarget {
    type V = TargetView;

    open spec fn view(&self) -> TargetView {
        (self.kind, opt_view(self.namespace), self.name@)
    }
}

impl Clone for ToolCallTarget {
    fn clone(&self) -> (r: Self)
        ensures
            r@ == self@,
    {
        ToolCallTarget {
            kind: self.kind,
            namespace: match &self.namespace {
                Some(s) => Some(s.clone()),
                None => None,
            },
            name: self.name.clone(),
        }
    }
}

impl ViewEq for ToolCallTarget {
    fn view_eq(&self, other: &Self) -> (r: bool) {
        if self.kind != other.kind {
            return false;
        }
        let same_ns = match (&self.namespace, &other.namespace) {
            (Some(a), Some(b)) => *a == *b,
            (None, None) => true,
            _ => false,
        };
        same_ns && self.name == other.name
    }
}

/// The namespace after trimming, or nothing when it is blank.
pub open spec fn clean_namespace(namespace: Option<Seq<char>>) -> Option<Seq<char>> {
    match namespace {
        Some(ns) => if trim(ns).len() > 0 { Some(trim(ns)) } else { None },
        None => None,
    }
}

/// `ToolCallTarget::function`: namespace trimmed and dropped when blank; name kept as given.
pub open spec fn function_target(namespace: Option<Seq<char>>, name: Seq<char>) -> TargetView {
    (ToolCallKind::Function, clean_namespace(namespace), name)
}

pub open spec fn tool_search_target() -> TargetView {
    (ToolCallKind::ToolSearch, None, tool_search_name())
}

pub open spec fn custom_target(name: Seq<char>) -> TargetView {
    (ToolCallKind::Custom, None, name)
}

fn opt_str_view(o: Option<&str>) -> (r: Option<Vec<char>>)
    ensures
        match o {
            Some(s) => r matches Some(v) && v@ == s@,
            None => r is None,
        },
{
    match o {
        Some(s) => Some(to_chars(s)),
        None => None,
    }
}

impl ToolCallTarget {
    pub fn function(namespace: Option<&str>, name: &str) -> (r: Self)
        ensures
            r@ == function_target(
                match namespace {
                    Some(s) => Some(s@),
                    None => None,
                },
                name@,
            ),
    {
        let ns = match namespace {
            Some(s) => {
                let t = trim_str(s);
                if t.as_str().is_empty() {
                    None
                } else {
                    Some(t)
                }
            },
            None => None,
        };
        ToolCallTarget { kind: ToolCallKind::Function, namespace: ns, name: String::from_str(name) }
    }

    pub fn tool_search() -> (r: Self)
        ensures
            r@ == tool_search_target(),
    {
        let n = tool_search_chars();
        ToolCallTarget { kind: ToolCallKind::ToolSearch, namespace: None, name: from_chars(&n) }
    }

    pub fn custom(name: &str) -> (r: Self)
        ensures
            r@ == custom_target(name@),
    {
        ToolCallTarget { kind: ToolCallKind::Custom, namespace: None, name: String::from_str(name) }
    }
}

// ─── provider-safe names ───────────────────────────────────────────────

pub open spec fn is_safe_char(c: char) -> bool {
    is_ascii_alnum(c) || c == '_' || c == '-'
}

pub open spec fn safe_char(c: char) -> char {
    if is_safe_char(c) {
        c
    } else {
        '_'
    }
}

pub open spec fn tool_word() -> Seq<char> {
    seq!['t', 'o', 'o', 'l']
}

/// Every character is one that providers accept in a tool name.
pub open spec fn all_safe(s: Seq<char>) -> bool {
    forall|i: int| 0 <= i < s.len() ==> is_safe_char(#[trigger] s[i])
}

/// `provider_safe_tool_name`: trim, replace every other character with `_`,
/// and fall back to `tool` when nothing is left.
pub open spec fn provider_safe(name: Seq<char>) -> Seq<char> {
    let t = trim(name);
    if t.len() == 0 {
        tool_word()
    } else {
        Seq::new(t.len(), |i: int| safe_char(t[i]))
    }
}

pub proof fn lemma_provider_safe_is_safe(name: Seq<char>)
    ensures
        all_safe(provider_safe(name)),
        provider_safe(name).len() > 0,
{
}

fn tool_word_chars() -> (r: Vec<char>)
    ensures
        r@ == tool_word(),
{
    let r = vec!['t', 'o', 'o', 'l'];
    assert(r@ =~= tool_word());
    r
}

fn provider_safe_tool_name(name: &[char]) -> (r: Vec<char>)
    ensures
        r@ == provider_safe(name@),
{
    let t = trim_vec(name);
    if t.len() == 0 {
        return tool_word_chars();
    }
    let mut out: Vec<char> = Vec::new();
    let mut i: usize = 0;
    while i < t.len()
        invariant
            i <= t@.len(),
            t@ == trim(name@),
            t@.len() > 0,
            out@ =~= provider_safe(name@).take(i as int),
        decreases t@.len() - i,
    {
        let ch = t[i];
        let safe = if is_alnum(ch) || ch == '_' || ch == '-' {
            ch
        } else {
            '_'
        };
        out.push(safe);
        i += 1;
    }
    assert(provider_safe(name@).take(t@.len() as int) =~= provider_safe(name@));
    out
}

// ─── byte lengths ──────────────────────────────────────────────────────

/// The number of bytes that `char::len_utf8` reports.
pub open spec fn utf8_width(c: char) -> nat {
    if (c as u32) < 0x80 {
        1
    } else if (c as u32) < 0x800 {
        2
    } else if (c as u32) < 0x10000 {
        3
    } else {
        4
    }
}

/// The byte length of the UTF-8 encoding of `s`.
pub open spec fn utf8_len(s: Seq<char>) -> nat
    decreases s.len(),
{
    if s.len() == 0 {
        0
    } else {
        utf8_width(s[0]) + utf8_len(s.drop_first())
    }
}

/// The longest prefix of `s` whose encoding fits in `max` bytes
/// (`trim_to_char_boundary`).
pub open spec fn prefix_within(s: Seq<char>, max: int) -> Seq<char>
    decreases s.len(),
{
    if s.len() == 0 || utf8_width(s[0]) > max {
        Seq::empty()
    } else {
        seq![s[0]] + prefix_within(s.drop_first(), max - utf8_width(s[0]))
    }
}

pub(crate) fn char_width(c: char) -> (w: usize)
    ensures
        w == utf8_width(c),
{
    let v = c as u32;
    if v < 0x80 {
        1
    } else if v < 0x800 {
        2
    } else if v < 0x10000 {
        3
    } else {
        4
    }
}

proof fn lemma_prefix_within_step(s: Seq<char>, i: int, max: int)
    requires
        0 <= i < s.len(),
        utf8_width(s[i]) <= max,
    ensures
        s.take(i) + prefix_within(s.skip(i), max) == s.take(i + 1) + prefix_within(
            s.skip(i + 1),
            max - utf8_width(s[i]),
        ),
{
    assert(s.skip(i)[0] == s[i]);
    assert(s.skip(i).drop_first() =~= s.skip(i + 1));
    assert(s.take(i) + seq![s[i]] =~= s.take(i + 1));
    assert(s.take(i) + (seq![s[i]] + prefix_within(s.skip(i + 1), max - utf8_width(s[i])))
        =~= (s.take(i) + seq![s[i]]) + prefix_within(s.skip(i + 1), max - utf8_width(s[i])));
}

/// `trim_to_char_boundary`: the longest prefix that fits in `max_len` bytes.
pub(crate) fn trim_to_char_boundary(value: &[char], max_len: usize) -> (r: Vec<char>)
    ensures
        r@ == prefix_within(value@, max_len as int),
{
    let mut i: usize = 0;
    let mut room: usize = max_len;
    assert(value@.take(0) + prefix_within(value@.skip(0), max_len as int) =~= prefix_within(
        value@,
        max_len as int,
    )) by {
        assert(value@.skip(0) =~= value@);
    }
    while i < value.len() && char_width(value[i]) <= room
        invariant
            i <= value@.len(),
            room <= max_len,
            value@.take(i as int) + prefix_within(value@.skip(i as int), room as int)
                == prefix_within(value@, max_len as int),
        decreases value@.len() - i,
    {
        proof {
            lemma_prefix_within_step(value@, i as int, room as int);
        }
        room = room - char_width(value[i]);
        i += 1;
    }
    proof {
        if i < value@.len() {
            assert(value@.skip(i as int)[0] == value@[i as int]);
        }
        assert(prefix_within(value@.skip(i as int), room as int) =~= Seq::<char>::empty());
        assert(value@.take(i as int) + Seq::<char>::empty() =~= value@.take(i as int));
    }
    slice_range(value, 0, i)
}

/// ASCII text: one byte per character.
pub proof fn lemma_ascii_prefix_within(s: Seq<char>, max: int)
    requires
        all_safe(s),
        max >= 0,
    ensures
        prefix_within(s, max) == s.take(if s.len() <= max { s.len() as int } else { max }),
        utf8_len(s) == s.len(),
    decreases s.len(),
{
    if s.len() == 0 {
        assert(s.take(0) =~= s);
    } else {
        assert(all_safe(s.drop_first())) by {
            assert forall|i: int| 0 <= i < s.drop_first().len() implies is_safe_char(#[trigger] s.drop_first()[i]) by {
                assert(s.drop_first()[i] == s[i + 1]);
            }
        }
        assert(is_safe_char(s[0]));
        lemma_ascii_prefix_within(s.drop_first(), if max == 0 { 0 } else { max - 1 });
        if max == 0 {
            assert(s.take(0) =~= Seq::<char>::empty());
        } else {
            let k = if s.len() <= max { s.len() as int } else { max };
            assert(seq![s[0]] + s.drop_first().take(k - 1) =~= s.take(k));
        }
    }
}

// ─── provider tool names without a table ───────────────────────────────

/// A provider-safe name for a possibly namespaced tool.
pub open spec fn encode_provider_name(namespace: Option<Seq<char>>, name: Seq<char>) -> Seq<char> {
    match clean_namespace(namespace) {
        Some(ns) => if trim(name).len() > 0 {
            ns + namespace_marker() + trim(name)
        } else {
            trim(name)
        },
        None => trim(name),
    }
}

/// `split_marker`: the parts before and after the first occurrence of the
/// marker, when both are non-empty.
pub open spec fn split_at_marker(value: Seq<char>, marker: Seq<char>) -> Option<(Seq<char>, Seq<char>)> {
    match first_occurrence(value, marker) {
        Some(i) => {
            let ns = value.take(i);
            let name = value.skip(i + marker.len());
            if ns.len() == 0 || name.len() == 0 {
                None
            } else {
                Some((ns, name))
            }
        },
        None => None,
    }
}

/// The tool a provider-safe name stands for, read from the name itself.
pub open spec fn decode_provider_name(encoded: Seq<char>) -> TargetView {
    if encoded == tool_search_name() {
        tool_search_target()
    } else {
        match split_at_marker(encoded, namespace_marker()) {
            Some((ns, name)) => function_target(Some(ns), name),
            None => match split_at_marker(encoded, legacy_namespace_marker()) {
                Some((ns, name)) => function_target(Some(ns), name),
                None => function_target(None, encoded),
            },
        }
    }
}

fn split_marker(value: &[char], marker: &[char]) -> (r: Option<(Vec<char>, Vec<char>)>)
    ensures
        match split_at_marker(value@, marker@) {
            Some((a, b)) => r matches Some((x, y)) && x@ == a && y@ == b,
            None => r is None,
        },
{
    let idx = match find(value, marker) {
        Some(i) => i,
        None => return None,
    };
    proof {
        lemma_first_occurrence_is_least(value@, marker@);
    }
    assert(idx + marker@.len() <= value@.len());
    assert(value@.len() == value.len());
    let namespace = slice_range(value, 0, idx);
    let name = slice_from(value, idx + marker.len());
    assert(namespace@ =~= value@.take(idx as int));
    if namespace.len() == 0 || name.len() == 0 {
        return None;
    }
    Some((namespace, name))
}

pub fn encode_provider_tool_name(namespace: Option<&str>, name: &str) -> (r: String)
    ensures
        r@ == encode_provider_name(
            match namespace {
                Some(s) => Some(s@),
                None => None,
            },
            name@,
        ),
{
    let ns = match namespace {
        Some(s) => {
            let t = trim_str(s);
            if t.as_str().is_empty() {
                None
            } else {
                Some(to_chars(t.as_str()))
            }
        },
        None => None,
    };
    let name_chars = to_chars(name);
    let name_t = trim_vec(&name_chars);
    match ns {
        Some(ns) => {
            if name_t.len() > 0 {
                let m = namespace_marker_chars();
                let a = concat(&ns, &m);
                let out = concat(&a, &name_t);
                return from_chars(&out);
            }
            from_chars(&name_t)
        },
        None => from_chars(&name_t),
    }
}

fn function_from_chars(namespace: Option<Vec<char>>, name: &[char]) -> (r: ToolCallTarget)
    ensures
        r@ == function_target(
            match namespace {
                Some(v) => Some(v@),
                None => None,
            },
            name@,
        ),
{
    let ns = match namespace {
        Some(v) => {
            let t = trim_vec(&v);
            if t.len() == 0 {
                None
            } else {
                Some(from_chars(&t))
            }
        },
        None => None,
    };
    ToolCallTarget { kind: ToolCallKind::Function, namespace: ns, name: from_chars(name) }
}

fn decode_provider_chars(encoded: &[char]) -> (r: ToolCallTarget)
    ensures
        r@ == decode_provider_name(encoded@),
{
    let ts = tool_search_chars();
    if eq_vec(encoded, &ts) {
        return ToolCallTarget::tool_search();
    }
    let m = namespace_marker_chars();
    if let Some((ns, name)) = split_marker(encoded, &m) {
        return function_from_chars(Some(ns), &name);
    }
    let lm = legacy_namespace_marker_chars();
    if let Some((ns, name)) = split_marker(encoded, &lm) {
        return function_from_chars(Some(ns), &name);
    }
    function_from_chars(None, encoded)
}

pub fn decode_provider_tool_name(encoded: &str) -> (r: ToolCallTarget)
    ensures
        r@ == decode_provider_name(encoded@),
{
    let v = to_chars(encoded);
    decode_provider_chars(&v)
}

// ─── hashing of colliding names ────────────────────────────────────────

/// SHA-256 digest of the given bytes.
pub uninterp spec fn sha256(data: Seq<u8>) -> Seq<u8>;

/// `sha2::Sha256::digest`: the 32-byte SHA-256 digest of `data`.
#[verifier::external_body]
fn sha256_digest(data: &[u8]) -> (r: Vec<u8>)
    ensures
        r@ == sha256(data@),
        r@.len() == 32,
{
    sha2::Sha256::digest(data).to_vec()
}

/// `format!("{:?}", kind)`.
pub open spec fn kind_debug(kind: ToolCallKind) -> Seq<char> {
    match kind {
        ToolCallKind::Function => "Function"@,
        ToolCallKind::ToolSearch => "ToolSearch"@,
        ToolCallKind::Custom => "Custom"@,
    }
}

/// The bytes that identify a target for hashing.
pub open spec fn hash_input(t: TargetView) -> Seq<u8> {
    encode_utf8("codexhub-tool-name-v1"@) + seq![0u8] + encode_utf8(kind_debug(t.0)) + seq![0u8]
        + encode_utf8(
        match t.1 {
            Some(ns) => ns,
            None => Seq::empty(),
        },
    ) + seq![0u8] + encode_utf8(t.2)
}

pub open spec fn hex_digit(n: u8) -> char {
    if n == 0 { '0' } else if n == 1 { '1' } else if n == 2 { '2' } else if n == 3 { '3' }
    else if n == 4 { '4' } else if n == 5 { '5' } else if n == 6 { '6' } else if n == 7 { '7' }
    else if n == 8 { '8' } else if n == 9 { '9' } else if n == 10 { 'a' } else if n == 11 { 'b' }
    else if n == 12 { 'c' } else if n == 13 { 'd' } else if n == 14 { 'e' } else { 'f' }
}

pub open spec fn is_hex_char(c: char) -> bool {
    ('0' <= c && c <= '9') || ('a' <= c && c <= 'f')
}

/// Lower-case hexadecimal, two digits per byte (`hex::encode`).
pub open spec fn hex_lower(b: Seq<u8>) -> Seq<char>
    decreases b.len(),
{
    if b.len() == 0 {
        Seq::empty()
    } else {
        hex_lower(b.drop_last()) + seq![hex_digit(b.last() / 16), hex_digit(b.last() % 16)]
    }
}

/// The first five bytes of a digest (SHA-256 digests have 32).
pub open spec fn digest_head(d: Seq<u8>) -> Seq<u8> {
    Seq::new(5, |i: int| if i < d.len() { d[i] } else { 0u8 })
}

/// `target_hash`: ten hex digits of the SHA-256 of the target.
pub open spec fn target_hash_chars(t: TargetView) -> Seq<char> {
    hex_lower(digest_head(sha256(hash_input(t))))
}

/// The hash part of a hashed name is ten lower-case hex digits.
pub proof fn lemma_target_hash_shape(t: TargetView)
    ensures
        target_hash_chars(t).len() == 10,
        forall|i: int| 0 <= i < 10 ==> is_hex_char(#[trigger] target_hash_chars(t)[i]),
{
    lemma_hex_lower_shape(digest_head(sha256(hash_input(t))));
}

fn hex_digit_exec(n: u8) -> (c: char)
    requires
        n < 16,
    ensures
        c == hex_digit(n),
{
    if n == 0 { '0' } else if n == 1 { '1' } else if n == 2 { '2' } else if n == 3 { '3' }
    else if n == 4 { '4' } else if n == 5 { '5' } else if n == 6 { '6' } else if n == 7 { '7' }
    else if n == 8 { '8' } else if n == 9 { '9' } else if n == 10 { 'a' } else if n == 11 { 'b' }
    else if n == 12 { 'c' } else if n == 13 { 'd' } else if n == 14 { 'e' } else { 'f' }
}

pub proof fn lemma_hex_lower_shape(b: Seq<u8>)
    ensures
        hex_lower(b).len() == 2 * b.len(),
        forall|i: int| 0 <= i < hex_lower(b).len() ==> is_hex_char(#[trigger] hex_lower(b)[i]),
    decreases b.len(),
{
    if b.len() > 0 {
        lemma_hex_lower_shape(b.drop_last());
        let h = hex_lower(b);
        let h0 = hex_lower(b.drop_last());
        assert forall|i: int| 0 <= i < h.len() implies is_hex_char(#[trigger] h[i]) by {
            if i < h0.len() {
                assert(h[i] == h0[i]);
            }
        }
    }
}

fn push_bytes(v: &mut Vec<u8>, b: &[u8])
    ensures
        final(v)@ == old(v)@ + b@,
{
    let mut i: usize = 0;
    while i < b.len()
        invariant
            i <= b.len(),
            v@ =~= old(v)@ + b@.take(i as int),
        decreases b.len() - i,
    {
        v.push(b[i]);
        i += 1;
    }
    assert(b@.take(b.len() as int) =~= b@);
}

fn kind_debug_str(kind: ToolCallKind) -> (r: &'static str)
    ensures
        r@ == kind_debug(kind),
{
    match kind {
        ToolCallKind::Function => "Function",
        ToolCallKind::ToolSearch => "ToolSearch",
        ToolCallKind::Custom => "Custom",
    }
}

/// Ten hex digits of the SHA-256 of the target's identity.
fn target_hash(target: &ToolCallTarget) -> (r: Vec<char>)
    ensures
        r@ == target_hash_chars(target@),
        r@.len() == 10,
        forall|i: int| 0 <= i < r@.len() ==> is_hex_char(#[trigger] r@[i]),
{
    let mut data: Vec<u8> = Vec::new();
    push_bytes(&mut data, "codexhub-tool-name-v1".as_bytes());
    data.push(0u8);
    push_bytes(&mut data, kind_debug_str(target.kind).as_bytes());
    data.push(0u8);
    match &target.namespace {
        Some(ns) => push_bytes(&mut data, ns.as_str().as_bytes()),
        None => push_bytes(&mut data, "".as_bytes()),
    }
    data.push(0u8);
    push_bytes(&mut data, target.name.as_str().as_bytes());
    proof {
        reveal_strlit("");
        assert(encode_utf8(""@) =~= Seq::<u8>::empty()) by {
            assert(""@ =~= Seq::<char>::empty());
        }
        assert(data@ =~= hash_input(target@));
    }
    let digest = sha256_digest(&data);
    let mut out: Vec<char> = Vec::new();
    let mut i: usize = 0;
    while i < 5
        invariant
            i <= 5,
            digest@.len() == 32,
            out@ == hex_lower(digest@.take(i as int)),
        decreases 5 - i,
    {
        let b = digest[i];
        out.push(hex_digit_exec(b / 16));
        out.push(hex_digit_exec(b % 16));
        proof {
            assert(digest@.take(i + 1).drop_last() =~= digest@.take(i as int));
            assert(out@ =~= hex_lower(digest@.take(i as int)) + seq![hex_digit(b / 16), hex_digit(b % 16)]);
        }
        i += 1;
    }
    proof {
        assert(digest@.take(5) =~= digest_head(digest@));
        lemma_hex_lower_shape(digest@.take(5));
    }
    out
}

// ─── decimal counters ──────────────────────────────────────────────────

pub open spec fn digit_char(d: nat) -> char {
    if d == 0 { '0' } else if d == 1 { '1' } else if d == 2 { '2' } else if d == 3 { '3' }
    else if d == 4 { '4' } else if d == 5 { '5' } else if d == 6 { '6' } else if d == 7 { '7' }
    else if d == 8 { '8' } else { '9' }
}

/// The decimal representation of `n` (`format!("{n}")`).
pub open spec fn decimal(n: nat) -> Seq<char>
    decreases n,
{
    if n < 10 {
        seq![digit_char(n)]
    } else {
        decimal(n / 10).push(digit_char(n % 10))
    }
}

fn digit_exec(d: usize) -> (c: char)
    requires
        d < 10,
    ensures
        c == digit_char(d as nat),
{
    if d == 0 { '0' } else if d == 1 { '1' } else if d == 2 { '2' } else if d == 3 { '3' }
    else if d == 4 { '4' } else if d == 5 { '5' } else if d == 6 { '6' } else if d == 7 { '7' }
    else if d == 8 { '8' } else { '9' }
}

pub fn decimal_exec(n: usize) -> (r: Vec<char>)
    ensures
        r@ == decimal(n as nat),
    decreases n,
{
    if n < 10 {
        let r = vec![digit_exec(n)];
        assert(r@ =~= decimal(n as nat));
        r
    } else {
        let mut r = decimal_exec(n / 10);
        r.push(digit_exec(n % 10));
        r
    }
}

pub fn decimal_u64(n: u64) -> (r: Vec<char>)
    ensures
        r@ == decimal(n as nat),
    decreases n,
{
    if n < 10 {
        let r = vec![digit_exec(n as usize)];
        assert(r@ =~= decimal(n as nat));
        r
    } else {
        let mut r = decimal_u64(n / 10);
        r.push(digit_exec((n % 10) as usize));
        r
    }
}

pub proof fn lemma_decimal_digits(n: nat)
    ensures
        decimal(n).len() >= 1,
        forall|i: int| 0 <= i < decimal(n).len() ==> ('0' <= #[trigger] decimal(n)[i] && decimal(n)[i] <= '9'),
    decreases n,
{
    if n >= 10 {
        lemma_decimal_digits(n / 10);
        let d = decimal(n);
        let d0 = decimal(n / 10);
        assert forall|i: int| 0 <= i < d.len() implies ('0' <= #[trigger] d[i] && d[i] <= '9') by {
            if i < d0.len() {
                assert(d[i] == d0[i]);
            }
        }
    }
}

proof fn lemma_decimal_injective(a: nat, b: nat)
    requires
        decimal(a) == decimal(b),
    ensures
        a == b,
    decreases a,
{
    lemma_decimal_digits(a / 10);
    lemma_decimal_digits(b / 10);
    if a < 10 && b < 10 {
        assert(decimal(a) == seq![digit_char(a)]);
        assert(decimal(b) == seq![digit_char(b)]);
        assert(decimal(a)[0] == digit_char(a));
        assert(decimal(b)[0] == digit_char(b));
        assert(digit_char(a) == digit_char(b));
    } else if a < 10 {
        assert(decimal(b).len() >= 2);
    } else if b < 10 {
        assert(decimal(a).len() >= 2);
    } else {
        assert(decimal(a) == decimal(a / 10).push(digit_char(a % 10)));
        assert(decimal(b) == decimal(b / 10).push(digit_char(b % 10)));
        assert(decimal(a).last() == digit_char(a % 10));
        assert(decimal(b).last() == digit_char(b % 10));
        assert(decimal(a).drop_last() =~= decimal(a / 10));
        assert(decimal(b).drop_last() =~= decimal(b / 10));
        lemma_decimal_injective(a / 10, b / 10);
        assert(digit_char(a % 10) == digit_char(b % 10));
        assert(a % 10 == b % 10);
        assert(a == 10 * (a / 10) + a % 10);
        assert(b == 10 * (b / 10) + b % 10);
    }
}

pub open spec fn pow10(k: nat) -> nat
    decreases k,
{
    if k == 0 {
        1
    } else {
        10 * pow10((k - 1) as nat)
    }
}

proof fn lemma_decimal_len(n: nat, k: nat)
    requires
        k >= 1,
        n < pow10(k),
    ensures
        decimal(n).len() <= k,
    decreases k,
{
    if n >= 10 {
        assert(k >= 2) by {
            if k == 1 {
                assert(pow10(1) == 10 * pow10(0));
            }
        }
        let p = pow10((k - 1) as nat);
        assert(n / 10 < p) by (nonlinear_arith)
            requires
                n < 10 * p,
        ;
        lemma_decimal_len(n / 10, (k - 1) as nat);
    }
}

proof fn lemma_usize_decimal_len(n: usize)
    ensures
        decimal(n as nat).len() <= 20,
{
    reveal_with_fuel(pow10, 21);
    assert(pow10(20) == 100000000000000000000nat);
    lemma_decimal_len(n as nat, 20);
}

// ─── candidate names ───────────────────────────────────────────────────

/// `str::trim_end_matches('_')`.
pub open spec fn trim_end_underscores(s: Seq<char>) -> Seq<char>
    decreases s.len(),
{
    if s.len() > 0 && s.last() == '_' {
        trim_end_underscores(s.drop_last())
    } else {
        s
    }
}

/// The counter digits in a hashed name: none for the first attempt.
pub open spec fn counter_digits(counter: nat) -> Seq<char> {
    if counter == 0 {
        Seq::empty()
    } else {
        decimal(counter)
    }
}

/// `_h{hash}` or `_h{hash}{counter}`.
pub open spec fn hash_suffix(hash: Seq<char>, counter: nat) -> Seq<char> {
    seq!['_', 'h'] + hash + counter_digits(counter)
}

/// The hashed name tried for the given counter.
pub open spec fn hashed_candidate(base: Seq<char>, hash: Seq<char>, counter: nat) -> Seq<char> {
    let suffix = hash_suffix(hash, counter);
    let limit = if suffix.len() <= 64 { 64 - suffix.len() } else { 0 };
    let prefix = trim_end_underscores(prefix_within(base, limit));
    if prefix.len() == 0 {
        tool_word() + suffix
    } else {
        prefix + suffix
    }
}

/// A name can be handed to `target` when it is unused or already names it.
pub open spec fn name_free(e2t: Map<Seq<char>, TargetView>, name: Seq<char>, t: TargetView) -> bool {
    !e2t.contains_key(name) || e2t[name] == t
}

pub open spec fn is_least_free_counter(
    e2t: Map<Seq<char>, TargetView>,
    base: Seq<char>,
    hash: Seq<char>,
    t: TargetView,
    c: nat,
) -> bool {
    name_free(e2t, hashed_candidate(base, hash, c), t) && forall|d: nat|
        d < c ==> !name_free(e2t, #[trigger] hashed_candidate(base, hash, d), t)
}

/// `allocate_encoded_name`: the safe form of the preferred name when it is
/// short enough and free, otherwise the first free hashed candidate.
pub open spec fn allocate_name(e2t: Map<Seq<char>, TargetView>, preferred: Seq<char>, t: TargetView) -> Seq<char> {
    let base = provider_safe(preferred);
    if utf8_len(base) <= 64 && name_free(e2t, base, t) {
        base
    } else {
        let hash = target_hash_chars(t);
        hashed_candidate(base, hash, choose|c: nat| is_least_free_counter(e2t, base, hash, t, c))
    }
}

proof fn lemma_least_counter_unique(
    e2t: Map<Seq<char>, TargetView>,
    base: Seq<char>,
    hash: Seq<char>,
    t: TargetView,
    c: nat,
)
    requires
        is_least_free_counter(e2t, base, hash, t, c),
    ensures
        (choose|d: nat| is_least_free_counter(e2t, base, hash, t, d)) == c,
{
    let d = choose|d: nat| is_least_free_counter(e2t, base, hash, t, d);
    assert(is_least_free_counter(e2t, base, hash, t, d));
    if d < c {
        assert(!name_free(e2t, hashed_candidate(base, hash, d), t));
    } else if d > c {
        assert(!name_free(e2t, hashed_candidate(base, hash, c), t));
    }
}

/// The segment after the last `_` identifies the counter.
proof fn lemma_last_segment(a: Seq<char>, x: Seq<char>, b: Seq<char>, y: Seq<char>)
    requires
        a + seq!['_'] + x == b + seq!['_'] + y,
        forall|i: int| 0 <= i < x.len() ==> #[trigger] x[i] != '_',
        forall|i: int| 0 <= i < y.len() ==> #[trigger] y[i] != '_',
    ensures
        x == y,
{
    let e = a + seq!['_'] + x;
    assert(e.len() == a.len() + 1 + x.len());
    assert(e.len() == b.len() + 1 + y.len());
    if x.len() < y.len() {
        let p = a.len() as int;
        assert(e[p] == '_');
        let q = p - (b.len() + 1);
        assert(0 <= q < y.len());
        assert(e[p] == (b + seq!['_'] + y)[p]);
        assert((b + seq!['_'] + y)[p] == y[q]);
    } else if y.len() < x.len() {
        let p = b.len() as int;
        assert((b + seq!['_'] + y)[p] == '_');
        let q = p - (a.len() + 1);
        assert(0 <= q < x.len());
        assert(e[p] == x[q]);
    } else {
        assert forall|i: int| 0 <= i < x.len() implies x[i] == y[i] by {
            assert(e[a.len() + 1 + i] == x[i]);
            assert((b + seq!['_'] + y)[b.len() + 1 + i] == y[i]);
        }
        assert(x =~= y);
    }
}

proof fn lemma_candidate_shape(base: Seq<char>, hash: Seq<char>, counter: nat)
    requires
        hash.len() == 10,
        forall|i: int| 0 <= i < hash.len() ==> is_hex_char(#[trigger] hash[i]),
    ensures
        exists|p: Seq<char>| #[trigger] (p + seq!['_'] + (seq!['h'] + hash + counter_digits(counter)))
            == hashed_candidate(base, hash, counter),
        forall|i: int| 0 <= i < (seq!['h'] + hash + counter_digits(counter)).len() ==>
            #[trigger] (seq!['h'] + hash + counter_digits(counter))[i] != '_',
{
    let x = seq!['h'] + hash + counter_digits(counter);
    let suffix = hash_suffix(hash, counter);
    assert(suffix =~= seq!['_'] + x);
    let limit = if suffix.len() <= 64 { 64 - suffix.len() } else { 0 };
    let prefix = trim_end_underscores(prefix_within(base, limit));
    let p = if prefix.len() == 0 { tool_word() } else { prefix };
    assert(p + seq!['_'] + x =~= hashed_candidate(base, hash, counter));
    if counter > 0 {
        lemma_decimal_digits(counter);
    }
    assert forall|i: int| 0 <= i < x.len() implies #[trigger] x[i] != '_' by {
        if i == 0 {
        } else if i < 11 {
            assert(x[i] == hash[i - 1]);
        } else {
            assert(x[i] == counter_digits(counter)[i - 11]);
        }
    }
}

proof fn lemma_candidate_injective(base: Seq<char>, hash: Seq<char>, c1: nat, c2: nat)
    requires
        hash.len() == 10,
        forall|i: int| 0 <= i < hash.len() ==> is_hex_char(#[trigger] hash[i]),
        hashed_candidate(base, hash, c1) == hashed_candidate(base, hash, c2),
    ensures
        c1 == c2,
{
    lemma_candidate_shape(base, hash, c1);
    lemma_candidate_shape(base, hash, c2);
    let x1 = seq!['h'] + hash + counter_digits(c1);
    let x2 = seq!['h'] + hash + counter_digits(c2);
    let p1 = choose|p: Seq<char>| #[trigger] (p + seq!['_'] + x1) == hashed_candidate(base, hash, c1);
    let p2 = choose|p: Seq<char>| #[trigger] (p + seq!['_'] + x2) == hashed_candidate(base, hash, c2);
    lemma_last_segment(p1, x1, p2, x2);
    assert(counter_digits(c1) =~= x1.skip(11));
    assert(counter_digits(c2) =~= x2.skip(11));
    if c1 > 0 {
        lemma_decimal_digits(c1);
    }
    if c2 > 0 {
        lemma_decimal_digits(c2);
    }
    if c1 > 0 && c2 > 0 {
        lemma_decimal_injective(c1, c2);
    }
}

proof fn lemma_trim_end_underscores_prefix(s: Seq<char>)
    ensures
        trim_end_underscores(s).len() <= s.len(),
        trim_end_underscores(s) == s.take(trim_end_underscores(s).len() as int),
    decreases s.len(),
{
    if s.len() > 0 && s.last() == '_' {
        lemma_trim_end_underscores_prefix(s.drop_last());
        let t = trim_end_underscores(s.drop_last());
        assert(s.drop_last().take(t.len() as int) =~= s.take(t.len() as int));
    } else {
        assert(s.take(s.len() as int) =~= s);
    }
}

proof fn lemma_candidate_safe(base: Seq<char>, hash: Seq<char>, counter: nat)
    requires
        all_safe(base),
        hash.len() == 10,
        forall|i: int| 0 <= i < hash.len() ==> is_hex_char(#[trigger] hash[i]),
        decimal(counter).len() <= 20,
    ensures
        all_safe(hashed_candidate(base, hash, counter)),
        hashed_candidate(base, hash, counter).len() <= 64,
{
    let suffix = hash_suffix(hash, counter);
    if counter > 0 {
        lemma_decimal_digits(counter);
    }
    assert(suffix.len() <= 32);
    let limit = 64 - suffix.len();
    lemma_ascii_prefix_within(base, limit);
    let pw = prefix_within(base, limit);
    lemma_trim_end_underscores_prefix(pw);
    let prefix = trim_end_underscores(pw);
    assert(all_safe(prefix)) by {
        assert forall|i: int| 0 <= i < prefix.len() implies is_safe_char(#[trigger] prefix[i]) by {
            assert(prefix[i] == pw[i]);
            assert(pw[i] == base[i]);
        }
    }
    assert(all_safe(suffix)) by {
        assert forall|i: int| 0 <= i < suffix.len() implies is_safe_char(#[trigger] suffix[i]) by {
            if i >= 12 {
                assert(suffix[i] == counter_digits(counter)[i - 12]);
            } else if i >= 2 {
                assert(suffix[i] == hash[i - 2]);
            }
        }
    }
    let c = hashed_candidate(base, hash, counter);
    assert forall|i: int| 0 <= i < c.len() implies is_safe_char(#[trigger] c[i]) by {
        if prefix.len() == 0 {
            if i >= 4 {
                assert(c[i] == suffix[i - 4]);
            }
        } else {
            if i >= prefix.len() {
                assert(c[i] == suffix[i - prefix.len()]);
            } else {
                assert(c[i] == prefix[i]);
            }
        }
    }
}

/// A short safe base that does not end in `_` is kept whole in the first
/// hashed candidate: the name is the base, `_h` and the hash.
pub proof fn lemma_first_candidate_keeps_base(base: Seq<char>, hash: Seq<char>)
    requires
        all_safe(base),
        0 < base.len() <= 52,
        base.last() != '_',
        hash.len() == 10,
    ensures
        hashed_candidate(base, hash, 0) == base + seq!['_', 'h'] + hash,
        hashed_candidate(base, hash, 0).len() == base.len() + 12,
{
    let suffix = hash_suffix(hash, 0);
    assert(suffix =~= seq!['_', 'h'] + hash);
    lemma_ascii_prefix_within(base, 52);
    assert(base.take(base.len() as int) =~= base);
    assert(trim_end_underscores(base) == base);
}

/// When the preferred name cannot be used and the first hashed candidate is
/// free, allocation hands out that first candidate.
pub proof fn lemma_allocate_first_candidate(
    e2t: Map<Seq<char>, TargetView>,
    preferred: Seq<char>,
    t: TargetView,
)
    requires
        !(utf8_len(provider_safe(preferred)) <= 64 && name_free(e2t, provider_safe(preferred), t)),
        name_free(e2t, hashed_candidate(provider_safe(preferred), target_hash_chars(t), 0), t),
    ensures
        allocate_name(e2t, preferred, t) == hashed_candidate(
            provider_safe(preferred),
            target_hash_chars(t),
            0,
        ),
{
    let base = provider_safe(preferred);
    let hash = target_hash_chars(t);
    assert(is_least_free_counter(e2t, base, hash, t, 0));
    lemma_least_counter_unique(e2t, base, hash, t, 0);
}

fn trim_end_underscores_exec(v: &[char]) -> (r: Vec<char>)
    ensures
        r@ == trim_end_underscores(v@),
{
    let mut i: usize = v.len();
    assert(v@.take(v.len() as int) =~= v@);
    while i > 0 && v[i - 1] == '_'
        invariant
            i <= v@.len(),
            trim_end_underscores(v@) == trim_end_underscores(v@.take(i as int)),
        decreases i,
    {
        assert(v@.take(i as int).drop_last() =~= v@.take(i - 1));
        i -= 1;
    }
    let r = slice_range(v, 0, i);
    assert(r@ =~= v@.take(i as int));
    r
}

fn hashed_candidate_exec(base: &[char], hash: &[char], counter: usize) -> (r: Vec<char>)
    ensures
        r@ == hashed_candidate(base@, hash@, counter as nat),
{
    let mut suffix = vec!['_', 'h'];
    append_vec(&mut suffix, hash);
    if counter != 0 {
        let d = decimal_exec(counter);
        append_vec(&mut suffix, &d);
    }
    assert(suffix@ =~= hash_suffix(hash@, counter as nat));
    let limit = if suffix.len() <= PROVIDER_TOOL_NAME_MAX_LEN {
        PROVIDER_TOOL_NAME_MAX_LEN - suffix.len()
    } else {
        0
    };
    let trimmed = trim_to_char_boundary(base, limit);
    let prefix = trim_end_underscores_exec(&trimmed);
    if prefix.len() == 0 {
        let t = tool_word_chars();
        concat(&t, &suffix)
    } else {
        concat(&prefix, &suffix)
    }
}

// ─── the table ─────────────────────────────────────────────────────────

/// The name that `encode` prefers for a target before making it unique.
pub open spec fn preferred_name(t: TargetView) -> Seq<char> {
    match t.0 {
        ToolCallKind::Function => encode_provider_name(t.1, t.2),
        ToolCallKind::ToolSearch => tool_search_name(),
        ToolCallKind::Custom => t.2,
    }
}

/// A table from provider-safe names to tool call targets and back.
#[derive(Debug)]
pub struct ToolNameMap {
    encoded_to_target: AssocMap<String, ToolCallTarget>,
    target_to_encoded: AssocMap<ToolCallTarget, String>,
}

/// The name `encode` returns for `t` on a table with the given directions.
pub open spec fn encode_result(
    e2t: Map<Seq<char>, TargetView>,
    t2e: Map<TargetView, Seq<char>>,
    t: TargetView,
) -> Seq<char> {
    if t2e.contains_key(t) {
        t2e[t]
    } else {
        allocate_name(e2t, preferred_name(t), t)
    }
}

/// Both directions of a table after `encode` of a target.
pub open spec fn names_after(
    e2t: Map<Seq<char>, TargetView>,
    t2e: Map<TargetView, Seq<char>>,
    t: TargetView,
) -> (Map<Seq<char>, TargetView>, Map<TargetView, Seq<char>>) {
    let r = encode_result(e2t, t2e, t);
    (if t2e.contains_key(t) { e2t } else { e2t.insert(r, t) }, t2e.insert(t, r))
}

/// What `decode` returns on a table: the recorded target, or the target
/// read back from the name itself.
pub open spec fn decode_result(e2t: Map<Seq<char>, TargetView>, encoded: Seq<char>) -> TargetView {
    if e2t.contains_key(encoded) {
        e2t[encoded]
    } else {
        decode_provider_name(encoded)
    }
}

/// The two directions of a table are inverse to each other.
pub open spec fn directions_consistent(e2t: Map<Seq<char>, TargetView>, t2e: Map<TargetView, Seq<char>>) -> bool {
    &&& forall|t: TargetView| #[trigger] t2e.contains_key(t) ==> e2t.contains_key(t2e[t]) && e2t[t2e[t]] == t
    &&& forall|e: Seq<char>| #[trigger] e2t.contains_key(e) ==> t2e.contains_key(e2t[e]) && t2e[e2t[e]] == e
}

impl ToolNameMap {
    pub closed spec fn wf(&self) -> bool {
        self.encoded_to_target.wf() && self.target_to_encoded.wf()
    }

    /// Provider name → target.
    pub closed spec fn encoded_view(&self) -> Map<Seq<char>, TargetView> {
        self.encoded_to_target.view()
    }

    /// Target → provider name.
    pub closed spec fn target_view(&self) -> Map<TargetView, Seq<char>> {
        self.target_to_encoded.view()
    }

    pub open spec fn consistent(&self) -> bool {
        directions_consistent(self.encoded_view(), self.target_view())
    }

    /// Both directions of a table are finite maps.
    pub proof fn lemma_views_finite(&self)
        requires
            self.wf(),
        ensures
            self.encoded_view().dom().finite(),
            self.target_view().dom().finite(),
    {
        self.encoded_to_target.lemma_len();
        self.target_to_encoded.lemma_len();
    }

    pub fn is_empty(&self) -> (r: bool)
        requires
            self.wf(),
        ensures
            r == (self.encoded_view().len() == 0),
            r == (self.encoded_view() == Map::<Seq<char>, TargetView>::empty()),
    {
        proof {
            self.lemma_views_finite();
            if self.encoded_view().len() == 0 {
                assert(self.encoded_view().dom() =~= Set::<Seq<char>>::empty());
                assert(self.encoded_view() =~= Map::<Seq<char>, TargetView>::empty());
            } else {
                assert(self.encoded_view() != Map::<Seq<char>, TargetView>::empty()) by {
                    assert(Map::<Seq<char>, TargetView>::empty().len() == 0);
                }
            }
        }
        self.encoded_to_target.len() == 0
    }

    /// Records `encoded` ↔ `target` in both directions.
    pub fn insert(&mut self, encoded: String, target: ToolCallTarget)
        requires
            old(self).wf(),
        ensures
            final(self).wf(),
            final(self).encoded_view() == old(self).encoded_view().insert(encoded@, target@),
            final(self).target_view() == old(self).target_view().insert(target@, encoded@),
            final(self).encoded_view().dom().finite(),
            final(self).encoded_view().len() > 0,
    {
        self.encoded_to_target.insert(encoded.clone(), target.clone());
        self.target_to_encoded.insert(target, encoded);
        proof {
            self.lemma_views_finite();
            assert(self.encoded_view().dom().contains(encoded@));
        }
    }

    pub fn encode_function(&mut self, namespace: Option<&str>, name: &str) -> (r: String)
        requires
            old(self).wf(),
        ensures
            final(self).wf(),
            ({
                let t = function_target(
                    match namespace {
                        Some(s) => Some(s@),
                        None => None,
                    },
                    name@,
                );
                &&& r@ == encode_result(old(self).encoded_view(), old(self).target_view(), t)
                &&& final(self).encoded_view() == old(self).encoded_view().insert(r@, t)
                    || old(self).target_view().contains_key(t)
                &&& final(self).target_view() == old(self).target_view().insert(t, r@)
                &&& old(self).target_view().contains_key(t) ==> final(self).encoded_view()
                    == old(self).encoded_view()
                &&& old(self).consistent() ==> final(self).consistent()
                &&& (final(self).encoded_view(), final(self).target_view()) == names_after(
                    old(self).encoded_view(),
                    old(self).target_view(),
                    t,
                )
            }),
    {
        self.encode(ToolCallTarget::function(namespace, name))
    }

    pub fn encode_custom(&mut self, name: &str) -> (r: String)
        requires
            old(self).wf(),
        ensures
            final(self).wf(),
            r@ == encode_result(old(self).encoded_view(), old(self).target_view(), custom_target(name@)),
            final(self).target_view() == old(self).target_view().insert(custom_target(name@), r@),
            old(self).consistent() ==> final(self).consistent(),
            (final(self).encoded_view(), final(self).target_view()) == names_after(
                old(self).encoded_view(),
                old(self).target_view(),
                custom_target(name@),
            ),
    {
        self.encode(ToolCallTarget::custom(name))
    }

    pub fn encode_tool_search(&mut self) -> (r: String)
        requires
            old(self).wf(),
        ensures
            final(self).wf(),
            r@ == encode_result(old(self).encoded_view(), old(self).target_view(), tool_search_target()),
            final(self).target_view() == old(self).target_view().insert(tool_search_target(), r@),
            old(self).consistent() ==> final(self).consistent(),
            (final(self).encoded_view(), final(self).target_view()) == names_after(
                old(self).encoded_view(),
                old(self).target_view(),
                tool_search_target(),
            ),
    {
        self.encode(ToolCallTarget::tool_search())
    }

    /// The provider name for `target`: the recorded one, or a newly
    /// allocated name that is then recorded in both directions.
    pub fn encode(&mut self, target: ToolCallTarget) -> (r: String)
        requires
            old(self).wf(),
        ensures
            final(self).wf(),
            r@ == encode_result(old(self).encoded_view(), old(self).target_view(), target@),
            old(self).target_view().contains_key(target@) ==> final(self).encoded_view()
                == old(self).encoded_view() && final(self).target_view() == old(self).target_view(),
            !old(self).target_view().contains_key(target@) ==> final(self).encoded_view()
                == old(self).encoded_view().insert(r@, target@) && final(self).target_view()
                == old(self).target_view().insert(target@, r@),
            final(self).target_view() == old(self).target_view().insert(target@, r@),
            old(self).consistent() ==> final(self).consistent(),
            !old(self).target_view().contains_key(target@) ==> all_safe(r@) && r@.len() <= 64,
    {
        if let Some(encoded) = self.target_to_encoded.get(&target) {
            let r = encoded.clone();
            proof {
                assert(self.target_view() =~= self.target_view().insert(target@, r@));
            }
            return r;
        }
        let preferred = match target.kind {
            ToolCallKind::Function => {
                let ns = match &target.namespace {
                    Some(s) => Some(s.as_str()),
                    None => None,
                };
                let p = encode_provider_tool_name(ns, target.name.as_str());
                to_chars(p.as_str())
            },
            ToolCallKind::ToolSearch => tool_search_chars(),
            ToolCallKind::Custom => to_chars(target.name.as_str()),
        };
        assert(preferred@ == preferred_name(target@));
        let encoded = self.allocate_encoded_name(&preferred, &target);
        let encoded_str = from_chars(&encoded);
        let ghost old_e2t = self.encoded_view();
        let ghost old_t2e = self.target_view();
        let ghost tv = target@;
        self.insert(encoded_str.clone(), target);
        proof {
            if directions_consistent(old_e2t, old_t2e) {
                if old_e2t.contains_key(encoded@) {
                    assert(old_e2t[encoded@] == tv);
                    assert(old_t2e.contains_key(old_e2t[encoded@]));
                }
                lemma_insert_keeps_consistent(old_e2t, old_t2e, encoded@, tv);
            }
        }
        encoded_str
    }

    /// The target that the provider name stands for.
    pub fn decode(&self, encoded: &str) -> (r: ToolCallTarget)
        requires
            self.wf(),
        ensures
            r@ == decode_result(self.encoded_view(), encoded@),
    {
        let key = String::from_str(encoded);
        match self.encoded_to_target.get(&key) {
            Some(t) => t.clone(),
            None => decode_provider_tool_name(encoded),
        }
    }

    pub fn has_encoded(&self, encoded: &str) -> (r: bool)
        requires
            self.wf(),
        ensures
            r == self.encoded_view().contains_key(encoded@),
    {
        let key = String::from_str(encoded);
        self.encoded_to_target.contains_key(&key)
    }

    fn allocate_encoded_name(&self, preferred: &[char], target: &ToolCallTarget) -> (r: Vec<char>)
        requires
            self.wf(),
        ensures
            r@ == allocate_name(self.encoded_view(), preferred@, target@),
            name_free(self.encoded_view(), r@, target@),
            all_safe(r@),
            r@.len() <= 64,
    {
        let base = provider_safe_tool_name(preferred);
        proof {
            lemma_provider_safe_is_safe(preferred@);
            lemma_ascii_prefix_within(base@, 0);
        }
        if base.len() <= PROVIDER_TOOL_NAME_MAX_LEN {
            let key = from_chars(&base);
            match self.encoded_to_target.get(&key) {
                None => return base,
                Some(existing) => {
                    if existing.view_eq(target) {
                        return base;
                    }
                },
            }
        }
        let hash = target_hash(target);
        let ghost e2t = self.encoded_view();
        let ghost mut tried: Seq<Seq<char>> = Seq::empty();
        proof {
            self.encoded_to_target.lemma_len();
        }
        let mut counter: usize = 0;
        loop
            invariant
                self.wf(),
                e2t == self.encoded_view(),
                e2t.dom().finite(),
                e2t.len() == self.encoded_to_target.entries@.len(),
                base@ == provider_safe(preferred@),
                all_safe(base@),
                hash@ == target_hash_chars(target@),
                hash@.len() == 10,
                forall|i: int| 0 <= i < hash@.len() ==> is_hex_char(#[trigger] hash@[i]),
                !(utf8_len(base@) <= 64 && name_free(e2t, base@, target@)),
                tried.len() == counter,
                forall|d: int| 0 <= d < counter ==> tried[d] == hashed_candidate(base@, hash@, d as nat),
                forall|d: nat| d < counter ==> !name_free(e2t, #[trigger] hashed_candidate(base@, hash@, d), target@),
                tried.no_duplicates(),
                tried.to_set().subset_of(e2t.dom()),
                counter <= e2t.len(),
            decreases e2t.len() - counter,
        {
            let encoded = hashed_candidate_exec(&base, &hash, counter);
            let key = from_chars(&encoded);
            let free = match self.encoded_to_target.get(&key) {
                None => true,
                Some(existing) => existing.view_eq(target),
            };
            if free {
                proof {
                    lemma_least_counter_unique(e2t, base@, hash@, target@, counter as nat);
                    lemma_usize_decimal_len(counter);
                    lemma_candidate_safe(base@, hash@, counter as nat);
                }
                return encoded;
            }
            proof {
                let c = hashed_candidate(base@, hash@, counter as nat);
                assert forall|d: int| 0 <= d < tried.len() implies tried[d] != c by {
                    if tried[d] == c {
                        lemma_candidate_injective(base@, hash@, d as nat, counter as nat);
                    }
                }
                let t2 = tried.push(c);
                assert(t2.no_duplicates()) by {
                    assert forall|i: int, j: int| 0 <= i < t2.len() && 0 <= j < t2.len() && i != j implies t2[i] != t2[j] by {
                        if i < tried.len() && j < tried.len() {
                        } else if i < tried.len() {
                            assert(t2[i] == tried[i]);
                        } else {
                            assert(t2[j] == tried[j]);
                        }
                    }
                }
                assert(t2.to_set().subset_of(e2t.dom())) by {
                    assert forall|k: Seq<char>| t2.to_set().contains(k) implies e2t.dom().contains(k) by {
                        let i = choose|i: int| 0 <= i < t2.len() && t2[i] == k;
                        if i < tried.len() {
                            assert(tried[i] == k);
                            assert(tried.to_set().contains(k));
                        }
                    }
                }
                t2.unique_seq_to_set();
                vstd::set_lib::lemma_len_subset(t2.to_set(), e2t.dom());
                tried = t2;
            }
            assert(counter < self.encoded_to_target.entries@.len());
            assert(self.encoded_to_target.entries@.len() == self.encoded_to_target.entries.len());
            counter = counter + 1;
        }
    }
}

proof fn lemma_insert_keeps_consistent(
    e2t: Map<Seq<char>, TargetView>,
    t2e: Map<TargetView, Seq<char>>,
    e: Seq<char>,
    t: TargetView,
)
    requires
        directions_consistent(e2t, t2e),
        !t2e.contains_key(t),
        !e2t.contains_key(e),
    ensures
        directions_consistent(e2t.insert(e, t), t2e.insert(t, e)),
{
    let e2 = e2t.insert(e, t);
    let t2 = t2e.insert(t, e);
    assert forall|x: TargetView| #[trigger] t2.contains_key(x) implies e2.contains_key(t2[x]) && e2[t2[x]] == x by {
        if x != t {
            assert(e2t.contains_key(t2e[x]));
            if t2e[x] == e {
            }
        }
    }
    assert forall|y: Seq<char>| #[trigger] e2.contains_key(y) implies t2.contains_key(e2[y]) && t2[e2[y]] == y by {
        if y != e {
            assert(t2e.contains_key(e2t[y]));
            if e2t[y] == t {
            }
        }
    }
}

impl Default for ToolNameMap {
    fn default() -> (r: Self)
        ensures
            r.wf(),
            r.encoded_view() == Map::<Seq<char>, TargetView>::empty(),
            r.target_view() == Map::<TargetView, Seq<char>>::empty(),
            r.consistent(),
    {
        ToolNameMap { encoded_to_target: AssocMap::new(), target_to_encoded: AssocMap::new() }
    }
}

// ─── laws ──────────────────────────────────────────────────────────────

/// On a consistent table, decoding the name that `encode` hands out gives
/// back the encoded target.
pub proof fn law_decode_after_encode(
    e2t: Map<Seq<char>, TargetView>,
    t2e: Map<TargetView, Seq<char>>,
    t: TargetView,
)
    requires
        directions_consistent(e2t, t2e),
    ensures
        ({
            let r = encode_result(e2t, t2e, t);
            let e2t_after = if t2e.contains_key(t) { e2t } else { e2t.insert(r, t) };
            decode_result(e2t_after, r) == t
        }),
{
}

/// On a consistent table, different targets have different names.
pub proof fn law_distinct_targets_distinct_names(
    e2t: Map<Seq<char>, TargetView>,
    t2e: Map<TargetView, Seq<char>>,
    t1: TargetView,
    t2: TargetView,
)
    requires
        directions_consistent(e2t, t2e),
        t2e.contains_key(t1),
        t2e.contains_key(t2),
        t1 != t2,
    ensures
        t2e[t1] != t2e[t2],
{
}

/// On a consistent table every recorded name decodes to its target. As
/// `encode` keeps a table consistent (its contract) and never changes a
/// recorded name (`law_encode_keeps_recorded_names`), a name handed out
/// earlier keeps decoding to its target after any later encoding.
pub proof fn law_recorded_names_decode(
    e2t: Map<Seq<char>, TargetView>,
    t2e: Map<TargetView, Seq<char>>,
    t: TargetView,
)
    requires
        directions_consistent(e2t, t2e),
        t2e.contains_key(t),
    ensures
        decode_result(e2t, t2e[t]) == t,
{
}

/// Encoding any target leaves the names already recorded as they were.
pub proof fn law_encode_keeps_recorded_names(
    e2t: Map<Seq<char>, TargetView>,
    t2e: Map<TargetView, Seq<char>>,
    t: TargetView,
    t0: TargetView,
)
    requires
        t2e.contains_key(t0),
    ensures
        t2e.insert(t, encode_result(e2t, t2e, t))[t0] == t2e[t0],
{
}

/// Encoding the same target again returns the same name.
pub proof fn law_encode_is_stable(
    e2t: Map<Seq<char>, TargetView>,
    t2e: Map<TargetView, Seq<char>>,
    t: TargetView,
)
    ensures
        ({
            let r = encode_result(e2t, t2e, t);
            let e2t_after = if t2e.contains_key(t) { e2t } else { e2t.insert(r, t) };
            encode_result(e2t_after, t2e.insert(t, r), t) == r
        }),
{
}

/// `decode_provider_tool_name` undoes `encode_provider_tool_name` for a
/// namespaced name, provided the marker first occurs right after the
/// namespace and the name has no surrounding whitespace.
pub proof fn law_provider_name_roundtrip(namespace: Seq<char>, name: Seq<char>)
    requires
        trim(namespace).len() > 0,
        name.len() > 0,
        trim(name) == name,
        first_occurrence(trim(namespace) + namespace_marker() + name, namespace_marker()) == Some(
            trim(namespace).len() as int,
        ),
    ensures
        decode_provider_name(encode_provider_name(Some(namespace), name)) == function_target(
            Some(namespace),
            name,
        ),
{
    let ns = trim(namespace);
    let e = ns + namespace_marker() + name;
    assert(encode_provider_name(Some(namespace), name) == e);
    assert(e != tool_search_name()) by {
        assert(e.len() > tool_search_name().len());
    }
    assert(e.take(ns.len() as int) =~= ns);
    assert(e.skip((ns.len() + namespace_marker().len()) as int) =~= name);
    crate::text::lemma_trim_idempotent(namespace);
}
} // verus!
