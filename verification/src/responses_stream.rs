//! Incremental decoding used while streaming tool calls to the Responses API.
//!
//! Chat providers stream a custom tool's input wrapped as
//! `{"input":"..."}`, one fragment at a time. The functions here decode the
//! part of the wrapped string that has arrived so far, so that it can be
//! forwarded as `response.custom_tool_call_input.delta` events.
use vstd::prelude::*;
use crate::text::{
    append_vec, from_chars, is_ws, slice_from, starts_with, str_ends_with, str_starts_with,
    to_chars, trim, trim_start, trim_start_vec,
};
use crate::tool_names::{TargetView, ToolCallKind, ToolCallTarget};
use crate::json::{get_str, jget_str, parse_json, parsed_json, Json};

verus! {

// ─── JSON string prefixes ──────────────────────────────────────────────

/// `char::from_u32`: the scalar value, unless `v` is a surrogate or too large.
#[verifier::external_body]
pub(crate) fn char_from_u32(v: u32) -> (r: Option<char>)
    ensures
        r is Some <==> is_scalar_value(v),
        r matches Some(c) ==> c as u32 == v && c == v as char,
{
    char::from_u32(v)
}

pub open spec fn is_scalar_value(v: u32) -> bool {
    v < 0xD800 || (0xE000 <= v && v <= 0x10FFFF)
}

pub open spec fn hex_value(c: char) -> Option<nat> {
    if '0' <= c && c <= '9' {
        Some((c as u32 - '0' as u32) as nat)
    } else if 'a' <= c && c <= 'f' {
        Some((c as u32 - 'a' as u32 + 10) as nat)
    } else if 'A' <= c && c <= 'F' {
        Some((c as u32 - 'A' as u32 + 10) as nat)
    } else {
        None
    }
}

/// The value of a string of hex digits.
pub open spec fn hex_number(s: Seq<char>) -> Option<nat>
    decreases s.len(),
{
    if s.len() == 0 {
        Some(0)
    } else {
        match (hex_number(s.drop_last()), hex_value(s.last())) {
            (Some(a), Some(d)) => Some(a * 16 + d),
            _ => None,
        }
    }
}

/// `u16::from_str_radix(s, 16)` on four characters: an optional `+` and hex digits.
pub open spec fn parse_hex4(s: Seq<char>) -> Option<nat> {
    if s.len() == 4 && s[0] == '+' {
        hex_number(s.skip(1))
    } else if s.len() == 4 {
        hex_number(s)
    } else {
        None
    }
}

/// `read_hex_u16`: the four characters at `offset`, read as hexadecimal.
pub open spec fn read_hex4(s: Seq<char>, offset: int) -> Option<nat> {
    if 0 <= offset && offset + 4 <= s.len() {
        parse_hex4(s.subrange(offset, offset + 4))
    } else {
        None
    }
}

/// `decode_json_unicode_escape`: the character of a `\uXXXX` escape whose
/// digits start at `offset` (a surrogate pair takes a second escape), and
/// the position after it.
pub open spec fn decode_unicode_escape(s: Seq<char>, offset: int) -> Option<(char, int)> {
    match read_hex4(s, offset) {
        Some(first) => {
            let first_end = offset + 4;
            if 0xD800 <= first && first <= 0xDBFF {
                let low_offset = first_end + 2;
                if !(low_offset <= s.len() && s[first_end] == '\\' && s[first_end + 1] == 'u') {
                    None
                } else {
                    match read_hex4(s, low_offset) {
                        Some(second) => if 0xDC00 <= second && second <= 0xDFFF {
                            let cp = 0x10000 + (first - 0xD800) * 1024 + (second - 0xDC00);
                            Some(((cp as u32) as char, low_offset + 4))
                        } else {
                            None
                        },
                        None => None,
                    }
                }
            } else if is_scalar_value(first as u32) {
                Some(((first as u32) as char, first_end))
            } else {
                None
            }
        },
        None => None,
    }
}

/// The character a one-letter JSON escape stands for; any other letter
/// stands for itself.
pub open spec fn simple_escape(c: char) -> char {
    if c == 'b' {
        '\u{8}'
    } else if c == 'f' {
        '\u{c}'
    } else if c == 'n' {
        '\n'
    } else if c == 'r' {
        '\r'
    } else if c == 't' {
        '\t'
    } else {
        c
    }
}

/// Decodes the body of a JSON string from position `pos`, having produced
/// `out` so far: the decoded text and what follows the closing quote, or
/// the whole rest when the string is not closed yet; nothing on a broken
/// escape.
pub open spec fn scan_string(s: Seq<char>, pos: int, out: Seq<char>) -> Option<(Seq<char>, Seq<char>)>
    decreases s.len() - pos,
{
    if pos < 0 || pos >= s.len() {
        Some((out, Seq::empty()))
    } else if s[pos] == '"' {
        Some((out, s.skip(pos + 1)))
    } else if s[pos] == '\\' {
        if pos + 1 >= s.len() {
            None
        } else if s[pos + 1] == 'u' {
            match decode_unicode_escape(s, pos + 2) {
                Some((c, end)) => if end > pos {
                    scan_string(s, end, out.push(c))
                } else {
                    None
                },
                None => None,
            }
        } else {
            scan_string(s, pos + 2, out.push(simple_escape(s[pos + 1])))
        }
    } else {
        scan_string(s, pos + 1, out.push(s[pos]))
    }
}

/// `parse_json_string_prefix`: the decoded text of the JSON string that
/// starts the input, and what follows it.
pub open spec fn json_string_prefix(s: Seq<char>) -> Option<(Seq<char>, Seq<char>)> {
    if s.len() > 0 && s[0] == '"' {
        scan_string(s, 1, Seq::empty())
    } else {
        None
    }
}

fn hex_digit_value(c: char) -> (r: Option<u32>)
    ensures
        match hex_value(c) {
            Some(d) => r matches Some(x) && x == d,
            None => r is None,
        },
{
    if '0' <= c && c <= '9' {
        Some((c as u32) - ('0' as u32))
    } else if 'a' <= c && c <= 'f' {
        Some((c as u32) - ('a' as u32) + 10)
    } else if 'A' <= c && c <= 'F' {
        Some((c as u32) - ('A' as u32) + 10)
    } else {
        None
    }
}

fn hex_number_exec(s: &[char], from: usize, to: usize) -> (r: Option<u32>)
    requires
        from <= to <= s@.len(),
        to - from <= 4,
    ensures
        match hex_number(s@.subrange(from as int, to as int)) {
            Some(v) => r matches Some(x) && x == v && v < 65536,
            None => r is None,
        },
{
    let mut acc: u32 = 0;
    let mut i = from;
    while i < to
        invariant
            from <= i <= to,
            to <= s@.len(),
            to - from <= 4,
            hex_number(s@.subrange(from as int, i as int)) == Some(acc as nat),
            (acc as nat) < pow16((i - from) as nat),
        decreases to - i,
    {
        assert(s@.subrange(from as int, i + 1).drop_last() =~= s@.subrange(from as int, i as int));
        assert(s@.subrange(from as int, i + 1).last() == s@[i as int]);
        match hex_digit_value(s[i]) {
            Some(d) => {
                proof {
                    lemma_pow16_bound((i - from) as nat);
                    assert(acc * 16 + d < pow16((i + 1 - from) as nat)) by (nonlinear_arith)
                        requires
                            acc < pow16((i - from) as nat),
                            d < 16,
                            pow16((i + 1 - from) as nat) == 16 * pow16((i - from) as nat),
                    ;
                }
                acc = acc * 16 + d;
            },
            None => {
                proof {
                    assert(s@.subrange(from as int, i + 1) =~= s@.subrange(from as int, to as int).take(i + 1 - from));
                    lemma_hex_number_none(s@.subrange(from as int, to as int), s@.subrange(from as int, i + 1));
                }
                return None;
            },
        }
        i += 1;
    }
    proof {
        lemma_pow16_bound((to - from) as nat);
    }
    Some(acc)
}

pub open spec fn pow16(k: nat) -> nat
    decreases k,
{
    if k == 0 {
        1
    } else {
        16 * pow16((k - 1) as nat)
    }
}

proof fn lemma_pow16_bound(k: nat)
    requires
        k <= 4,
    ensures
        pow16(k) <= 65536,
        pow16(k + 1) == 16 * pow16(k),
{
    reveal_with_fuel(pow16, 6);
}

/// A failing prefix makes the whole digit string fail.
proof fn lemma_hex_number_none(s: Seq<char>, p: Seq<char>)
    requires
        p.len() <= s.len(),
        p == s.take(p.len() as int),
        hex_number(p) is None,
    ensures
        hex_number(s) is None,
    decreases s.len(),
{
    if s.len() > p.len() {
        assert(s.drop_last().take(p.len() as int) =~= p);
        lemma_hex_number_none(s.drop_last(), p);
    } else {
        assert(s =~= p);
    }
}

/// `read_hex_u16`.
pub fn read_hex_u16(input: &[char], offset: usize) -> (r: Option<u32>)
    ensures
        match read_hex4(input@, offset as int) {
            Some(v) => r matches Some(x) && x == v && v < 65536,
            None => r is None,
        },
{
    if offset > input.len() || input.len() - offset < 4 {
        return None;
    }
    let end = offset + 4;
    if input[offset] == '+' {
        let r = hex_number_exec(input, offset + 1, end);
        assert(input@.subrange(offset as int, end as int).skip(1) =~= input@.subrange(offset + 1, end as int));
        r
    } else {
        hex_number_exec(input, offset, end)
    }
}

/// Decodes a `\u` escape (a surrogate pair too) at the offset: the character and where it ends.
pub fn decode_json_unicode_escape(input: &[char], offset: usize) -> (r: Option<(char, usize)>)
    ensures
        match decode_unicode_escape(input@, offset as int) {
            Some((c, end)) => r matches Some((x, e)) && x == c && e == end,
            None => r is None,
        },
{
    let first = match read_hex_u16(input, offset) {
        Some(v) => v,
        None => return None,
    };
    assert(offset + 4 <= input@.len());
    assert(input@.len() == input.len());
    let first_end = offset + 4;
    if 0xD800 <= first && first <= 0xDBFF {
        if first_end > input.len() || input.len() - first_end < 2 || input[first_end] != '\\'
            || input[first_end + 1] != 'u' {
            return None;
        }
        let low_offset = first_end + 2;
        let second = match read_hex_u16(input, low_offset) {
            Some(v) => v,
            None => return None,
        };
        if !(0xDC00 <= second && second <= 0xDFFF) {
            return None;
        }
        let codepoint: u32 = 0x10000 + (((first - 0xD800) * 1024) + (second - 0xDC00));
        match char_from_u32(codepoint) {
            Some(ch) => Some((ch, low_offset + 4)),
            None => None,
        }
    } else {
        match char_from_u32(first) {
            Some(ch) => Some((ch, first_end)),
            None => None,
        }
    }
}

fn escape_char(c: char) -> (r: char)
    ensures
        r == simple_escape(c),
{
    if c == 'b' {
        '\u{8}'
    } else if c == 'f' {
        '\u{c}'
    } else if c == 'n' {
        '\n'
    } else if c == 'r' {
        '\r'
    } else if c == 't' {
        '\t'
    } else {
        c
    }
}

/// Decodes the JSON string at the start of the input: its text and the rest.
pub fn parse_json_string_prefix(input: &[char]) -> (r: Option<(Vec<char>, Vec<char>)>)
    ensures
        match json_string_prefix(input@) {
            Some((text, rest)) => r matches Some((a, b)) && a@ == text && b@ == rest,
            None => r is None,
        },
{
    if input.len() == 0 || input[0] != '"' {
        return None;
    }
    let mut output: Vec<char> = Vec::new();
    let mut pos: usize = 1;
    while pos < input.len()
        invariant
            1 <= pos,
            input@.len() > 0 && input@[0] == '"',
            json_string_prefix(input@) == scan_string(input@, pos as int, output@),
        decreases input@.len() - pos,
    {
        let ch = input[pos];
        if ch == '"' {
            let rest = slice_from(input, pos + 1);
            return Some((output, rest));
        } else if ch == '\\' {
            if pos + 1 >= input.len() {
                return None;
            }
            let escaped = input[pos + 1];
            if escaped == 'u' {
                match decode_json_unicode_escape(input, pos + 2) {
                    Some((c, end)) => {
                        assert(end > pos);
                        output.push(c);
                        pos = end;
                    },
                    None => return None,
                }
            } else {
                output.push(escape_char(escaped));
                pos = pos + 2;
            }
        } else {
            output.push(ch);
            pos = pos + 1;
        }
    }
    Some((output, Vec::new()))
}

/// `partial_wrapped_input_prefix`: the decoded (possibly unfinished) value
/// of a leading `"input"` key in `{"input": "..."`.
pub open spec fn wrapped_input_prefix(arguments: Seq<char>) -> Option<Seq<char>> {
    let rest = trim_start(arguments);
    if rest.len() > 0 && rest[0] == '{' {
        match json_string_prefix(trim_start(rest.skip(1))) {
            Some((key, after_key)) => if key == seq!['i', 'n', 'p', 'u', 't'] {
                let r2 = trim_start(after_key);
                if r2.len() > 0 && r2[0] == ':' {
                    match json_string_prefix(trim_start(r2.skip(1))) {
                        Some((value, _)) => Some(value),
                        None => None,
                    }
                } else {
                    None
                }
            } else {
                None
            },
            None => None,
        }
    } else {
        None
    }
}

fn partial_wrapped_input_prefix_chars(arguments: &[char]) -> (r: Option<Vec<char>>)
    ensures
        match wrapped_input_prefix(arguments@) {
            Some(v) => r matches Some(x) && x@ == v,
            None => r is None,
        },
{
    let rest = trim_start_vec(arguments);
    if rest.len() == 0 || rest[0] != '{' {
        return None;
    }
    let after_brace = slice_from(&rest, 1);
    let r1 = trim_start_vec(&after_brace);
    let (key, after_key) = match parse_json_string_prefix(&r1) {
        Some(p) => p,
        None => return None,
    };
    let input_word = vec!['i', 'n', 'p', 'u', 't'];
    if !crate::text::eq_vec(&key, &input_word) {
        assert(input_word@ =~= seq!['i', 'n', 'p', 'u', 't']);
        return None;
    }
    assert(input_word@ =~= seq!['i', 'n', 'p', 'u', 't']);
    let r2 = trim_start_vec(&after_key);
    if r2.len() == 0 || r2[0] != ':' {
        return None;
    }
    let after_colon = slice_from(&r2, 1);
    let r3 = trim_start_vec(&after_colon);
    match parse_json_string_prefix(&r3) {
        Some((value, _)) => Some(value),
        None => None,
    }
}

/// The decoded part of the `input` string that has arrived so far.
pub fn partial_wrapped_input_prefix(arguments: &str) -> (r: Option<String>)
    ensures
        crate::tool_names::opt_view(r) == wrapped_input_prefix(arguments@),
{
    let v = to_chars(arguments);
    match partial_wrapped_input_prefix_chars(&v) {
        Some(x) => Some(from_chars(&x)),
        None => None,
    }
}

// ─── custom tool input ─────────────────────────────────────────────────

/// The string value of the top-level `input` field of the JSON document in
/// `arguments`, if it parses as JSON and that field is a string.
pub open spec fn json_input_field(arguments: Seq<char>) -> Option<Seq<char>> {
    match parsed_json(arguments) {
        Some(v) => jget_str(v, "input"@),
        None => None,
    }
}

/// `serde_json::from_str::<Value>` followed by reading the `input` string field.
fn parse_custom_tool_input(arguments: &str) -> (r: Option<String>)
    ensures
        crate::tool_names::opt_view(r) == json_input_field(arguments@),
{
    match parse_json(arguments) {
        Some(v) => match get_str(&v, "input") {
            Some(s) => Some(String::from_str(s)),
            None => None,
        },
        None => None,
    }
}

/// `extract_custom_tool_input`: the `input` field, or the raw arguments.
pub fn extract_custom_tool_input(arguments: &str) -> (r: String)
    ensures
        r@ == match json_input_field(arguments@) {
            Some(v) => v,
            None => arguments@,
        },
{
    match parse_custom_tool_input(arguments) {
        Some(v) => v,
        None => String::from_str(arguments),
    }
}

/// `partial_custom_tool_input`: the complete `input` field, or else the
/// decoded prefix of a wrapped input that is still arriving.
pub open spec fn partial_custom_input(arguments: Seq<char>) -> Option<Seq<char>> {
    match json_input_field(arguments) {
        Some(v) => Some(v),
        None => wrapped_input_prefix(arguments),
    }
}

pub fn partial_custom_tool_input(arguments: &str) -> (r: Option<String>)
    ensures
        crate::tool_names::opt_view(r) == partial_custom_input(arguments@),
{
    match parse_custom_tool_input(arguments) {
        Some(v) => Some(v),
        None => partial_wrapped_input_prefix(arguments),
    }
}

/// The streaming state of one tool call.
pub struct ToolCallState {
    pub id: String,
    pub target: ToolCallTarget,
    pub arguments: String,
    pub custom_emitted_input: String,
    pub item_id: String,
    pub output_index: usize,
}

/// A delta event to forward for a tool call.
pub struct ToolDeltaEvent {
    pub event_type: &'static str,
    pub item_id: String,
    pub output_index: usize,
    pub delta: String,
}

/// The full custom input known so far: decoded input, or the raw text when
/// it does not even look like a JSON object.
pub open spec fn custom_full_input(arguments: Seq<char>) -> Option<Seq<char>> {
    match partial_custom_input(arguments) {
        Some(v) => Some(v),
        None => if !(trim_start(arguments).len() > 0 && trim_start(arguments)[0] == '{') {
            Some(arguments)
        } else {
            None
        },
    }
}

/// What is new in `full` after `emitted` (`strip_prefix`, else all of it).
pub open spec fn new_part(full: Seq<char>, emitted: Seq<char>) -> Seq<char> {
    if starts_with(full, emitted) {
        full.skip(emitted.len() as int)
    } else {
        full
    }
}

pub open spec fn custom_input_delta_type() -> Seq<char> {
    "response.custom_tool_call_input.delta"@
}

pub open spec fn function_arguments_delta_type() -> Seq<char> {
    "response.function_call_arguments.delta"@
}

/// The delta event for new tool call arguments, if there is anything new to send.
pub fn tool_delta_event(tc_state: &mut ToolCallState, raw_delta: &str) -> (r: Option<ToolDeltaEvent>)
    ensures
        final(tc_state).id == old(tc_state).id,
        final(tc_state).target == old(tc_state).target,
        final(tc_state).arguments == old(tc_state).arguments,
        final(tc_state).item_id == old(tc_state).item_id,
        final(tc_state).output_index == old(tc_state).output_index,
        match old(tc_state).target.kind {
            ToolCallKind::Custom => match custom_full_input(old(tc_state).arguments@) {
                Some(full) => {
                    let delta = new_part(full, old(tc_state).custom_emitted_input@);
                    if delta.len() == 0 {
                        r is None && final(tc_state).custom_emitted_input == old(tc_state).custom_emitted_input
                    } else {
                        &&& r matches Some(e) && e.event_type@ == custom_input_delta_type()
                            && e.item_id@ == old(tc_state).item_id@ && e.output_index
                            == old(tc_state).output_index && e.delta@ == delta
                        &&& final(tc_state).custom_emitted_input@ == full
                    }
                },
                None => r is None && final(tc_state).custom_emitted_input == old(tc_state).custom_emitted_input,
            },
            ToolCallKind::Function => {
                &&& r matches Some(e) && e.event_type@ == function_arguments_delta_type()
                    && e.item_id@ == old(tc_state).item_id@ && e.output_index == old(tc_state).output_index
                    && e.delta@ == raw_delta@
                &&& final(tc_state).custom_emitted_input == old(tc_state).custom_emitted_input
            },
            ToolCallKind::ToolSearch => r is None && final(tc_state).custom_emitted_input
                == old(tc_state).custom_emitted_input,
        },
{
    match tc_state.target.kind {
        ToolCallKind::Custom => {
            let full_input = match partial_custom_tool_input(tc_state.arguments.as_str()) {
                Some(input) => input,
                None => {
                    let args = to_chars(tc_state.arguments.as_str());
                    let t = trim_start_vec(&args);
                    if !(t.len() > 0 && t[0] == '{') {
                        tc_state.arguments.clone()
                    } else {
                        return None;
                    }
                },
            };
            let full = to_chars(full_input.as_str());
            let emitted = to_chars(tc_state.custom_emitted_input.as_str());
            let delta_chars = if crate::text::starts_with_vec(&full, &emitted) {
                slice_from(&full, emitted.len())
            } else {
                full
            };
            if delta_chars.len() == 0 {
                return None;
            }
            tc_state.custom_emitted_input = full_input;
            proof {
                reveal_strlit("response.custom_tool_call_input.delta");
            }
            Some(
                ToolDeltaEvent {
                    event_type: "response.custom_tool_call_input.delta",
                    item_id: tc_state.item_id.clone(),
                    output_index: tc_state.output_index,
                    delta: from_chars(&delta_chars),
                },
            )
        },
        ToolCallKind::Function => Some(
            ToolDeltaEvent {
                event_type: "response.function_call_arguments.delta",
                item_id: tc_state.item_id.clone(),
                output_index: tc_state.output_index,
                delta: String::from_str(raw_delta),
            },
        ),
        ToolCallKind::ToolSearch => None,
    }
}

// ─── server-sent events ────────────────────────────────────────────────

pub open spec fn data_prefix() -> Seq<char> {
    seq!['d', 'a', 't', 'a', ':']
}

/// `sse_data_value`: the payload of a `data:` line, without one leading space.
pub open spec fn sse_data(line: Seq<char>) -> Option<Seq<char>> {
    if starts_with(line, data_prefix()) {
        let data = line.skip(5);
        if data.len() > 0 && data[0] == ' ' {
            Some(data.skip(1))
        } else {
            Some(data)
        }
    } else {
        None
    }
}

pub fn sse_data_value(line: &str) -> (r: Option<String>)
    ensures
        crate::tool_names::opt_view(r) == sse_data(line@),
{
    let v = to_chars(line);
    let p = vec!['d', 'a', 't', 'a', ':'];
    assert(p@ =~= data_prefix());
    if !crate::text::starts_with_vec(&v, &p) {
        return None;
    }
    let data = slice_from(&v, 5);
    if data.len() > 0 && data[0] == ' ' {
        let d2 = slice_from(&data, 1);
        Some(from_chars(&d2))
    } else {
        Some(from_chars(&data))
    }
}

/// `p` is the position of the first `\n` in `s`.
pub open spec fn is_first_newline(s: Seq<char>, p: int) -> bool {
    &&& 0 <= p < s.len()
    &&& s[p] == '\n'
    &&& forall|j: int| 0 <= j < p ==> s[j] != '\n'
}

/// `str::trim_end_matches('\r')`.
pub open spec fn trim_trailing_cr(s: Seq<char>) -> Seq<char>
    decreases s.len(),
{
    if s.len() > 0 && s.last() == '\r' {
        trim_trailing_cr(s.drop_last())
    } else {
        s
    }
}

/// The text of a stream that has arrived but not yet been split into lines.
pub struct SseLineBuffer {
    buf: Vec<char>,
}

impl View for SseLineBuffer {
    type V = Seq<char>;

    closed spec fn view(&self) -> Seq<char> {
        self.buf@
    }
}

impl SseLineBuffer {
    pub fn new() -> (r: Self)
        ensures
            r@ == Seq::<char>::empty(),
    {
        SseLineBuffer { buf: Vec::new() }
    }

    /// Appends newly arrived text.
    pub fn push_text(&mut self, text: &str)
        ensures
            final(self)@ == old(self)@ + text@,
    {
        let v = to_chars(text);
        append_vec(&mut self.buf, &v);
    }

    /// Takes the first complete line off the buffer, without its `\n` and
    /// trailing `\r`s; nothing while no `\n` has arrived.
    pub fn next_line(&mut self) -> (r: Option<String>)
        ensures
            match r {
                Option::None => final(self)@ == old(self)@ && (forall|i: int|
                    0 <= i < old(self)@.len() ==> old(self)@[i] != '\n'),
                Option::Some(line) => {
                    let p = old(self)@.len() - final(self)@.len() - 1;
                    &&& is_first_newline(old(self)@, p)
                    &&& final(self)@ == old(self)@.skip(p + 1)
                    &&& line@ == trim_trailing_cr(old(self)@.take(p))
                },
            },
    {
        let mut i: usize = 0;
        while i < self.buf.len()
            invariant
                i <= self.buf@.len(),
                self.buf@ == old(self).buf@,
                forall|j: int| 0 <= j < i ==> self.buf@[j] != '\n',
            decreases self.buf@.len() - i,
        {
            if self.buf[i] == '\n' {
                let mut end: usize = i;
                while end > 0 && self.buf[end - 1] == '\r'
                    invariant
                        end <= i < self.buf@.len(),
                        self.buf@ == old(self).buf@,
                        forall|j: int| 0 <= j < i ==> self.buf@[j] != '\n',
                        self.buf@[i as int] == '\n',
                        trim_trailing_cr(self.buf@.take(end as int)) == trim_trailing_cr(
                            self.buf@.take(i as int),
                        ),
                    decreases end,
                {
                    assert(self.buf@.take(end as int).drop_last() =~= self.buf@.take(end - 1));
                    end = end - 1;
                }
                let line = crate::text::slice_range(&self.buf, 0, end);
                let rest = slice_from(&self.buf, i + 1);
                proof {
                    assert(line@ =~= self.buf@.take(end as int));
                    assert(trim_trailing_cr(line@) == line@);
                }
                self.buf = rest;
                return Some(from_chars(&line));
            }
            i += 1;
        }
        None
    }
}

/// What one line of a Chat Completions stream asks for.
pub enum ChatSseLine {
    /// Not a `data:` line, or data that is no JSON.
    Ignore,
    /// `data: [DONE]`: the stream is finished.
    Done,
    /// A chunk to convert.
    Chunk(Json),
}

pub open spec fn done_marker() -> Seq<char> {
    seq!['[', 'D', 'O', 'N', 'E', ']']
}

/// Reads one complete line of a Chat Completions stream.
pub fn classify_chat_sse_line(line: &str) -> (r: ChatSseLine)
    ensures
        match r {
            ChatSseLine::Done => sse_data(line@) matches Some(d) && trim(d) == done_marker(),
            ChatSseLine::Chunk(j) => sse_data(line@) matches Some(d) && trim(d) != done_marker()
                && parsed_json(d) == Some(j@),
            ChatSseLine::Ignore => match sse_data(line@) {
                None => true,
                Some(d) => trim(d) != done_marker() && parsed_json(d) is None,
            },
        },
{
    let data = match sse_data_value(line) {
        Some(d) => d,
        None => return ChatSseLine::Ignore,
    };
    let t = crate::text::trim_vec(&to_chars(data.as_str()));
    let marker = vec!['[', 'D', 'O', 'N', 'E', ']'];
    assert(marker@ =~= done_marker());
    if crate::text::eq_vec(&t, &marker) {
        return ChatSseLine::Done;
    }
    match parse_json(data.as_str()) {
        Some(j) => ChatSseLine::Chunk(j),
        None => ChatSseLine::Ignore,
    }
}

/// `is_first_token_event`: a `response.*.delta` event.
pub open spec fn first_token_event(event_type: Seq<char>) -> bool {
    starts_with(event_type, "response."@) && crate::text::ends_with(event_type, ".delta"@)
}

pub fn is_first_token_event(event_type: &str) -> (r: bool)
    ensures
        r == first_token_event(event_type@),
{
    let v = to_chars(event_type);
    str_starts_with(&v, "response.") && str_ends_with(&v, ".delta")
}

} // verus!
