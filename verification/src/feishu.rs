//! Feishu helpers that involve no network: frame headers of the event
//! stream, and the names under which received attachments are stored.
use vstd::prelude::*;
use crate::text::{append_str, append_vec, contains, eq_str, from_chars, slice_from, slice_range, str_contains, to_chars, trim, trim_str};
use crate::json::{get_str, jget_str, parsed_json, parse_json, Json, JsonV};
use crate::tool_names::opt_view;

verus! {

/// One header of an event-stream frame.
#[derive(Debug)]
pub struct PbHeader {
    pub key: String,
    pub value: String,
}

/// An event-stream frame, as decoded from its protobuf encoding.
#[derive(Debug)]
pub struct PbFrame {
    pub seq_id: u64,
    pub log_id: u64,
    pub service: i32,
    pub method: i32,
    pub headers: Vec<PbHeader>,
    pub payload: Option<Vec<u8>>,
}

/// The value of the first header named `key`, or empty text.
pub open spec fn header_lookup(hs: Seq<PbHeader>, key: Seq<char>) -> Seq<char>
    decreases hs.len(),
{
    if hs.len() == 0 {
        Seq::empty()
    } else if hs[0].key@ == key {
        hs[0].value@
    } else {
        header_lookup(hs.drop_first(), key)
    }
}

impl PbFrame {
    pub fn header_value(&self, key: &str) -> (r: String)
        ensures
            r@ == header_lookup(self.headers@, key@),
    {
        let mut i: usize = 0;
        assert(self.headers@.skip(0) =~= self.headers@);
        while i < self.headers.len()
            invariant
                i <= self.headers@.len(),
                header_lookup(self.headers@, key@) == header_lookup(self.headers@.skip(i as int), key@),
            decreases self.headers@.len() - i,
        {
            let k = to_chars(self.headers[i].key.as_str());
            assert(self.headers@.skip(i as int)[0] == self.headers@[i as int]);
            if eq_str(&k, key) {
                return self.headers[i].value.clone();
            }
            assert(self.headers@.skip(i as int).drop_first() =~= self.headers@.skip(i + 1));
            i += 1;
        }
        String::new()
    }
}

/// What kind of attachment a file is stored as.
#[derive(Debug, Clone, Copy, PartialEq, Eq, Structural)]
pub enum AttachmentKind {
    Image,
    File,
    Video,
}

impl AttachmentKind {
    /// The directory that holds attachments of this kind.
    pub fn as_dir(self) -> (r: &'static str)
        ensures
            r@ == match self {
                AttachmentKind::Image => "images"@,
                AttachmentKind::File => "files"@,
                AttachmentKind::Video => "videos"@,
            },
    {
        match self {
            AttachmentKind::Image => "images",
            AttachmentKind::File => "files",
            AttachmentKind::Video => "videos",
        }
    }
}

// ─── received messages ─────────────────────────────────────────────────

/// Message types whose content is media, not text.
pub open spec fn is_media_type(t: Seq<char>) -> bool {
    t == "image"@ || t == "file"@ || t == "audio"@ || t == "video"@ || t == "media"@ || t == "sticker"@
}

fn is_media_type_exec(t: &str) -> (r: bool)
    ensures
        r == is_media_type(t@),
{
    let v = to_chars(t);
    eq_str(&v, "image") || eq_str(&v, "file") || eq_str(&v, "audio") || eq_str(&v, "video") || eq_str(&v, "media")
        || eq_str(&v, "sticker")
}

/// `extract_text_content`: the `text` of a text message's JSON content (the
/// raw content where it has none), nothing for media, the raw content for
/// anything else.
pub open spec fn text_content(raw: Seq<char>, message_type: Seq<char>) -> Seq<char> {
    if trim(raw).len() == 0 {
        Seq::empty()
    } else if message_type == "text"@ {
        match parsed_json(raw) {
            Some(v) => match jget_str(v, "text"@) {
                Some(t) => t,
                None => raw,
            },
            None => raw,
        }
    } else if is_media_type(message_type) {
        Seq::empty()
    } else {
        raw
    }
}

/// The text of a Feishu message, by message type (see `text_content`).
pub fn extract_text_content(raw_content: &str, message_type: &str) -> (r: String)
    ensures
        r@ == text_content(raw_content@, message_type@),
{
    let trimmed = trim_str(raw_content);
    if trimmed.as_str().is_empty() {
        assert(trim(raw_content@) =~= Seq::<char>::empty());
        return String::new();
    }
    let t = to_chars(message_type);
    if eq_str(&t, "text") {
        match parse_json(raw_content) {
            Some(v) => match get_str(&v, "text") {
                Some(text) => String::from_str(text),
                None => String::from_str(raw_content),
            },
            None => String::from_str(raw_content),
        }
    } else if is_media_type_exec(message_type) {
        String::new()
    } else {
        String::from_str(raw_content)
    }
}

/// `parse_media_keys`: the image key, file key and file name a media
/// message's JSON content names, by message type, with a default file name
/// per type; nothing where the content is no JSON.
pub open spec fn media_keys(raw: Seq<char>, message_type: Seq<char>) -> (
    Option<Seq<char>>,
    Option<Seq<char>>,
    Option<Seq<char>>,
) {
    match parsed_json(raw) {
        None => (None, None, None),
        Some(v) => {
            let image_key = jget_str(v, "image_key"@);
            let file_key = jget_str(v, "file_key"@);
            let file_name = jget_str(v, "file_name"@);
            let named = |d: Seq<char>|
                match file_name {
                    Some(n) => Some(n),
                    None => Some(d),
                };
            if message_type == "image"@ {
                (image_key, None, None)
            } else if message_type == "file"@ {
                (None, file_key, named("attachment.bin"@))
            } else if message_type == "audio"@ {
                (None, file_key, named("audio.bin"@))
            } else if message_type == "video"@ || message_type == "media"@ {
                (image_key, file_key, named("media.bin"@))
            } else if message_type == "sticker"@ {
                (None, file_key, named("sticker.bin"@))
            } else {
                (None, None, None)
            }
        },
    }
}

fn owned(o: Option<&str>) -> (r: Option<String>)
    ensures
        opt_view(r) == crate::json::str_view(o),
{
    match o {
        Some(s) => Some(String::from_str(s)),
        None => None,
    }
}

fn name_or(o: Option<&str>, d: &str) -> (r: Option<String>)
    ensures
        opt_view(r) == match crate::json::str_view(o) {
            Some(n) => Some(n),
            None => Some(d@),
        },
{
    match o {
        Some(s) => Some(String::from_str(s)),
        None => Some(String::from_str(d)),
    }
}

/// The media keys a Feishu message carries, by message type.
pub fn parse_media_keys(raw_content: &str, message_type: &str) -> (r: (Option<String>, Option<String>, Option<String>))
    ensures
        (opt_view(r.0), opt_view(r.1), opt_view(r.2)) == media_keys(raw_content@, message_type@),
{
    let parsed = match parse_json(raw_content) {
        Some(v) => v,
        None => {
            return (None, None, None);
        },
    };
    let t = to_chars(message_type);
    let image_key = get_str(&parsed, "image_key");
    let file_key = get_str(&parsed, "file_key");
    let file_name = get_str(&parsed, "file_name");
    if eq_str(&t, "image") {
        (owned(image_key), None, None)
    } else if eq_str(&t, "file") {
        (None, owned(file_key), name_or(file_name, "attachment.bin"))
    } else if eq_str(&t, "audio") {
        (None, owned(file_key), name_or(file_name, "audio.bin"))
    } else if eq_str(&t, "video") || eq_str(&t, "media") {
        (owned(image_key), owned(file_key), name_or(file_name, "media.bin"))
    } else if eq_str(&t, "sticker") {
        (None, owned(file_key), name_or(file_name, "sticker.bin"))
    } else {
        (None, None, None)
    }
}

/// Whether a received event is let through before its content is read.
#[derive(Debug, PartialEq, Eq)]
pub enum InboundAdmission {
    /// Not a received message.
    NotAMessage,
    /// Sent by an app or a bot.
    FromBot,
    /// The sender is not on the allow-list.
    SenderNotAllowed,
    /// The chat is not on the allow-list.
    ChatNotAllowed,
    /// Let through, from this sender.
    Admitted(String),
}

pub open spec fn strs_contain(list: Seq<String>, x: Seq<char>) -> bool {
    exists|i: int| 0 <= i < list.len() && #[trigger] list[i]@ == x
}

/// The sender's open id, or `unknown`.
pub open spec fn sender_of(open_id: Option<Seq<char>>) -> Seq<char> {
    match open_id {
        Some(id) => id,
        None => "unknown"@,
    }
}

/// `handle_event`'s checks before it reads a message: only received
/// messages, not from apps or bots, from an allowed sender (when senders
/// are restricted) in an allowed chat (when chats are restricted).
pub open spec fn admission(
    event_type: Seq<char>,
    sender_type: Seq<char>,
    open_id: Option<Seq<char>>,
    chat_id: Seq<char>,
    allowed_open_ids: Seq<String>,
    allowed_chat_ids: Seq<String>,
) -> Option<Seq<char>> {
    if event_type != "im.message.receive_v1"@ || sender_type == "app"@ || sender_type == "bot"@ {
        None
    } else if allowed_open_ids.len() > 0 && !strs_contain(allowed_open_ids, sender_of(open_id)) {
        None
    } else if allowed_chat_ids.len() > 0 && !strs_contain(allowed_chat_ids, chat_id) {
        None
    } else {
        Some(sender_of(open_id))
    }
}

fn list_contains(list: &Vec<String>, x: &str) -> (r: bool)
    ensures
        r == strs_contain(list@, x@),
{
    let mut i: usize = 0;
    while i < list.len()
        invariant
            i <= list@.len(),
            forall|j: int| 0 <= j < i ==> list@[j]@ != x@,
        decreases list@.len() - i,
    {
        let v = to_chars(list[i].as_str());
        if eq_str(&v, x) {
            assert(list@[i as int]@ == x@);
            return true;
        }
        i += 1;
    }
    false
}

/// The admission of a received event, with the reason it is ignored.
pub fn inbound_admission(
    event_type: &str,
    sender_type: &str,
    open_id: Option<&str>,
    chat_id: &str,
    settings: &crate::config::FeishuConfig,
) -> (r: InboundAdmission)
    ensures
        match admission(
            event_type@,
            sender_type@,
            crate::json::str_view(open_id),
            chat_id@,
            settings.allowed_open_ids@,
            settings.allowed_chat_ids@,
        ) {
            Some(sender) => r matches InboundAdmission::Admitted(s) && s@ == sender,
            None => !(r is Admitted),
        },
        r is NotAMessage <==> event_type@ != "im.message.receive_v1"@,
        r is FromBot <==> event_type@ == "im.message.receive_v1"@ && (sender_type@ == "app"@ || sender_type@ == "bot"@),
        r is SenderNotAllowed <==> event_type@ == "im.message.receive_v1"@ && sender_type@ != "app"@ && sender_type@
            != "bot"@ && settings.allowed_open_ids@.len() > 0 && !strs_contain(
            settings.allowed_open_ids@,
            sender_of(crate::json::str_view(open_id)),
        ),
{
    let et = to_chars(event_type);
    if !eq_str(&et, "im.message.receive_v1") {
        return InboundAdmission::NotAMessage;
    }
    let st = to_chars(sender_type);
    if eq_str(&st, "app") || eq_str(&st, "bot") {
        return InboundAdmission::FromBot;
    }
    let sender = match open_id {
        Some(id) => String::from_str(id),
        None => String::from_str("unknown"),
    };
    if settings.allowed_open_ids.len() > 0 && !list_contains(&settings.allowed_open_ids, sender.as_str()) {
        return InboundAdmission::SenderNotAllowed;
    }
    if settings.allowed_chat_ids.len() > 0 && !list_contains(&settings.allowed_chat_ids, chat_id) {
        return InboundAdmission::ChatNotAllowed;
    }
    InboundAdmission::Admitted(sender)
}

/// What becomes of an admitted message once its text and attachments are
/// read.
#[derive(Debug, PartialEq, Eq)]
pub enum MessageVerdict {
    /// No text and no attachment.
    Empty,
    /// A group message without a mention where mentions are required.
    GroupWithoutMention,
    /// Handed on: from a direct chat or a group, mentioned or not.
    Deliver { direct: bool, mentioned: bool },
}

/// `handle_event`'s checks after reading a message: something to say, and
/// in a group a mention where one is required; a direct chat counts as a
/// mention.
pub open spec fn verdict(
    text: Seq<char>,
    has_attachments: bool,
    chat_type: Seq<char>,
    mention_count: nat,
    mention_only: bool,
) -> MessageVerdict {
    let direct = chat_type == "p2p"@;
    let mentioned = direct || mention_count > 0;
    if trim(text).len() == 0 && !has_attachments {
        MessageVerdict::Empty
    } else if !direct && mention_only && !mentioned {
        MessageVerdict::GroupWithoutMention
    } else {
        MessageVerdict::Deliver { direct, mentioned }
    }
}

pub fn message_verdict(
    text: &str,
    has_attachments: bool,
    chat_type: &str,
    mention_count: usize,
    mention_only: bool,
) -> (r: MessageVerdict)
    ensures
        r == verdict(text@, has_attachments, chat_type@, mention_count as nat, mention_only),
{
    let ct = to_chars(chat_type);
    let direct = eq_str(&ct, "p2p");
    let mentioned = direct || mention_count > 0;
    let trimmed = trim_str(text);
    if trimmed.as_str().is_empty() && !has_attachments {
        assert(trim(text@) =~= Seq::<char>::empty());
        return MessageVerdict::Empty;
    }
    if !direct && mention_only && !mentioned {
        return MessageVerdict::GroupWithoutMention;
    }
    MessageVerdict::Deliver { direct, mentioned }
}

/// Characters not allowed in stored file names: the reserved ones of
/// common file systems and the control characters.
pub open spec fn is_unsafe_file_char(c: char) -> bool {
    ||| c == '<'
    ||| c == '>'
    ||| c == ':'
    ||| c == '"'
    ||| c == '/'
    ||| c == '\\'
    ||| c == '|'
    ||| c == '?'
    ||| c == '*'
    ||| c <= '\u{1f}'
    ||| ('\u{7f}' <= c && c <= '\u{9f}')
}

/// Every unsafe character replaced by `_`.
pub open spec fn sanitized_name(name: Seq<char>) -> Seq<char> {
    Seq::new(name.len(), |i: int| if is_unsafe_file_char(name[i]) { '_' } else { name[i] })
}

pub fn sanitize_file_name(name: &str) -> (r: String)
    ensures
        r@ == sanitized_name(name@),
{
    let v = to_chars(name);
    let mut out: Vec<char> = Vec::new();
    let mut i: usize = 0;
    while i < v.len()
        invariant
            i <= v@.len(),
            out@ =~= sanitized_name(v@).take(i as int),
        decreases v@.len() - i,
    {
        let c = v[i];
        let safe = c == '<' || c == '>' || c == ':' || c == '"' || c == '/' || c == '\\' || c == '|' || c == '?'
            || c == '*' || c <= '\u{1f}' || ('\u{7f}' <= c && c <= '\u{9f}');
        out.push(if safe { '_' } else { c });
        i += 1;
    }
    assert(sanitized_name(v@).take(v@.len() as int) =~= sanitized_name(v@));
    from_chars(&out)
}

/// The image extension for a content type.
pub open spec fn mime_extension(content_type: Seq<char>) -> Seq<char> {
    if contains(content_type, "jpeg"@) {
        "jpg"@
    } else if contains(content_type, "webp"@) {
        "webp"@
    } else if contains(content_type, "gif"@) {
        "gif"@
    } else {
        "png"@
    }
}

pub fn extension_for_mime(content_type: &str) -> (r: &'static str)
    ensures
        r@ == mime_extension(content_type@),
{
    let v = to_chars(content_type);
    if str_contains(&v, "jpeg") {
        "jpg"
    } else if str_contains(&v, "webp") {
        "webp"
    } else if str_contains(&v, "gif") {
        "gif"
    } else {
        "png"
    }
}

/// The last position of `.` in a name, if any.
pub open spec fn last_dot(n: Seq<char>) -> Option<int>
    decreases n.len(),
{
    if n.len() == 0 {
        None
    } else if n.last() == '.' {
        Some(n.len() - 1)
    } else {
        last_dot(n.drop_last())
    }
}

/// `Path::file_stem` and `Path::extension` of a name without separators:
/// nothing for `.` and `..`; otherwise split at the last `.`, unless that
/// is the leading one.
pub open spec fn stem_and_extension(n: Seq<char>) -> (Option<Seq<char>>, Option<Seq<char>>) {
    if n.len() == 0 || n == seq!['.'] || n == seq!['.', '.'] {
        (None, None)
    } else {
        match last_dot(n) {
            Some(k) => if k == 0 {
                (Some(n), None)
            } else {
                (Some(n.take(k)), Some(n.skip(k + 1)))
            },
            None => (Some(n), None),
        }
    }
}

proof fn lemma_last_dot(n: Seq<char>)
    ensures
        match last_dot(n) {
            Some(k) => 0 <= k < n.len() && n[k] == '.' && forall|j: int| k < j < n.len() ==> n[j] != '.',
            None => forall|j: int| 0 <= j < n.len() ==> n[j] != '.',
        },
    decreases n.len(),
{
    if n.len() > 0 && n.last() != '.' {
        let m = n.drop_last();
        lemma_last_dot(m);
        assert forall|j: int| 0 <= j < m.len() implies m[j] == n[j] by {}
    }
}

fn last_dot_exec(v: &[char]) -> (r: Option<usize>)
    ensures
        match r {
            Some(k) => last_dot(v@) == Some(k as int),
            None => last_dot(v@) is None,
        },
{
    let mut n: usize = v.len();
    assert(v@.take(n as int) =~= v@);
    while n > 0
        invariant
            n <= v@.len(),
            last_dot(v@) == last_dot(v@.take(n as int)),
        decreases n,
    {
        if v[n - 1] == '.' {
            return Some(n - 1);
        }
        assert(v@.take(n as int).drop_last() =~= v@.take(n - 1));
        n -= 1;
    }
    None
}

/// The lower-case hexadecimal digits of a number (`format!("{n:x}")`).
pub open spec fn hex_digits(n: nat) -> Seq<char>
    decreases n,
{
    if n < 16 {
        seq![hex_char(n)]
    } else {
        hex_digits(n / 16).push(hex_char(n % 16))
    }
}

pub open spec fn hex_char(d: nat) -> char {
    if d < 10 {
        ((d + 48) as u32) as char
    } else {
        ((d + 87) as u32) as char
    }
}

fn hex_char_exec(d: u128) -> (c: char)
    requires
        d < 16,
    ensures
        c == hex_char(d as nat),
{
    let table = ['0', '1', '2', '3', '4', '5', '6', '7', '8', '9', 'a', 'b', 'c', 'd', 'e', 'f'];
    let c = table[d as usize];
    assert(c == hex_char(d as nat)) by {
        assert(table@[d as int] == c);
    }
    c
}

pub fn hex_u128(n: u128) -> (r: Vec<char>)
    ensures
        r@ == hex_digits(n as nat),
    decreases n,
{
    if n < 16 {
        let r = vec![hex_char_exec(n)];
        assert(r@ =~= hex_digits(n as nat));
        r
    } else {
        let mut r = hex_u128(n / 16);
        r.push(hex_char_exec(n % 16));
        r
    }
}

/// The suffix that makes a stored name unique: the time in milliseconds and
/// a running count, both in hexadecimal.
pub open spec fn suffix_text(millis: u128, seq: u64) -> Seq<char> {
    hex_digits(millis as nat) + "-"@ + hex_digits(seq as nat)
}

pub fn attachment_suffix(millis: u128, seq: u64) -> (r: String)
    ensures
        r@ == suffix_text(millis, seq),
{
    let mut v = hex_u128(millis);
    append_str(&mut v, "-");
    let s = hex_u128(seq as u128);
    append_vec(&mut v, &s);
    from_chars(&v)
}

/// The stored name of an attachment: the preferred name (or
/// `attachment.bin`) made safe, its stem (or `attachment`) and the unique
/// suffix, then its extension when it has a non-blank one.
pub open spec fn attachment_file_name(preferred: Seq<char>, suffix: Seq<char>) -> Seq<char> {
    let source = trim(preferred);
    let sanitized = sanitized_name(if source.len() == 0 {
        "attachment.bin"@
    } else {
        source
    });
    let (stem, ext) = stem_and_extension(sanitized);
    let stem_text = match stem {
        Some(s) => if trim(s).len() > 0 {
            s
        } else {
            "attachment"@
        },
        None => "attachment"@,
    };
    match ext {
        Some(e) => if trim(e).len() > 0 {
            stem_text + "-"@ + suffix + "."@ + e
        } else {
            stem_text + "-"@ + suffix
        },
        None => stem_text + "-"@ + suffix,
    }
}

pub fn build_attachment_file_name(preferred_name: &str, suffix: &str) -> (r: String)
    ensures
        r@ == attachment_file_name(preferred_name@, suffix@),
{
    let source = trim_str(preferred_name);
    let sanitized = if source.as_str().is_empty() {
        sanitize_file_name("attachment.bin")
    } else {
        sanitize_file_name(source.as_str())
    };
    let n = to_chars(sanitized.as_str());
    let dot = vec!['.'];
    let dotdot = vec!['.', '.'];
    let (stem, ext): (Option<Vec<char>>, Option<Vec<char>>) = if n.len() == 0 || crate::text::eq_vec(&n, &dot)
        || crate::text::eq_vec(&n, &dotdot) {
        (None, None)
    } else {
        match last_dot_exec(&n) {
            Some(k) => {
                proof {
                    lemma_last_dot(n@);
                }
                if k == 0 {
                    (Some(slice_from(&n, 0)), None)
                } else {
                    (Some(slice_range(&n, 0, k)), Some(slice_from(&n, k + 1)))
                }
            },
            None => (Some(slice_from(&n, 0)), None),
        }
    };
    proof {
        assert(dot@ =~= seq!['.']);
        assert(dotdot@ =~= seq!['.', '.']);
        assert(n@.skip(0) =~= n@);
        assert(n@.take(0) =~= Seq::<char>::empty());
    }
    let mut out: Vec<char> = Vec::new();
    match stem {
        Some(s) => {
            let t = crate::text::trim_vec(&s);
            if t.len() > 0 {
                append_vec(&mut out, &s);
            } else {
                append_str(&mut out, "attachment");
            }
        },
        None => append_str(&mut out, "attachment"),
    }
    append_str(&mut out, "-");
    append_str(&mut out, suffix);
    match ext {
        Some(e) => {
            let t = crate::text::trim_vec(&e);
            if t.len() > 0 {
                append_str(&mut out, ".");
                append_vec(&mut out, &e);
            }
        },
        None => {},
    }
    from_chars(&out)
}


/// A name without characters that file systems reserve.
pub open spec fn is_safe_name(s: Seq<char>) -> bool {
    forall|i: int| 0 <= i < s.len() ==> !is_unsafe_file_char(#[trigger] s[i])
}

proof fn lemma_safe_concat(a: Seq<char>, b: Seq<char>)
    requires
        is_safe_name(a),
        is_safe_name(b),
    ensures
        is_safe_name(a + b),
{
    assert forall|i: int| 0 <= i < (a + b).len() implies !is_unsafe_file_char(#[trigger] (a + b)[i]) by {
        if i < a.len() {
            assert((a + b)[i] == a[i]);
        } else {
            assert((a + b)[i] == b[i - a.len()]);
        }
    }
}

proof fn lemma_safe_part(a: Seq<char>, lo: int, hi: int)
    requires
        is_safe_name(a),
        0 <= lo <= hi <= a.len(),
    ensures
        is_safe_name(a.subrange(lo, hi)),
{
    assert forall|i: int| 0 <= i < hi - lo implies !is_unsafe_file_char(#[trigger] a.subrange(lo, hi)[i]) by {
        assert(a.subrange(lo, hi)[i] == a[lo + i]);
    }
}

/// A stored attachment name is safe for the file system whenever the
/// unique suffix is: whatever the preferred name held is replaced.
pub proof fn law_stored_names_are_safe(preferred: Seq<char>, suffix: Seq<char>)
    requires
        is_safe_name(suffix),
    ensures
        is_safe_name(attachment_file_name(preferred, suffix)),
{
    reveal_strlit("attachment.bin");
    reveal_strlit("attachment");
    reveal_strlit("-");
    reveal_strlit(".");
    let source = trim(preferred);
    let raw = if source.len() == 0 {
        "attachment.bin"@
    } else {
        source
    };
    let n = sanitized_name(raw);
    assert(is_safe_name(n));
    lemma_last_dot(n);
    let (stem, ext) = stem_and_extension(n);
    let stem_text = match stem {
        Some(x) => if trim(x).len() > 0 {
            x
        } else {
            "attachment"@
        },
        None => "attachment"@,
    };
    assert(is_safe_name("attachment"@));
    assert(is_safe_name("-"@));
    assert(is_safe_name("."@));
    match last_dot(n) {
        Some(k) => {
            if k > 0 {
                lemma_safe_part(n, 0, k);
                lemma_safe_part(n, k + 1, n.len() as int);
                assert(n.take(k) == n.subrange(0, k));
                assert(n.skip(k + 1) == n.subrange(k + 1, n.len() as int));
            }
        },
        None => {},
    }
    assert(is_safe_name(stem_text));
    lemma_safe_concat(stem_text, "-"@);
    lemma_safe_concat(stem_text + "-"@, suffix);
    match ext {
        Some(e) => {
            assert(is_safe_name(e));
            lemma_safe_concat(stem_text + "-"@ + suffix, "."@);
            lemma_safe_concat(stem_text + "-"@ + suffix + "."@, e);
        },
        None => {},
    }
}

} // verus!
