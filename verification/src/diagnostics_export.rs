//! What goes into a connection-diagnostics bundle: which log files, which
//! log lines, and how secrets and identifiers are scrubbed from lines and
//! from status documents before anything leaves the machine.
use vstd::prelude::*;
use crate::json::{lemma_member_views, lemma_views, member_views, views, Json, JsonV};
use crate::text::{
    append_str, append_vec, contains, ends_with, find, first_occurrence, from_chars, is_alnum,
    is_ascii_alnum, is_whitespace, is_ws, lemma_first_occurrence_bounds, lower, lower_str,
    lower_vec, replace_all, replace_str, slice_from, slice_range, starts_with, str_contains,
    str_starts_with, to_chars, eq_str,
};

verus! {

/// At most this many log files go into one bundle.
pub const MAX_LOG_FILES: usize = 4;

/// Of each log file, at most this many trailing bytes go into the bundle.
pub const MAX_LOG_BYTES_PER_FILE: u64 = 262144;

/// Where an export was written.
#[derive(Debug)]
pub struct ConnectionDiagnosticsExport {
    pub path: String,
}

pub open spec fn redacted_text() -> Seq<char> {
    "<redacted>"@
}

// ─── which files ──────────────────────────────────────────────────────

/// A CodexHub log file that belongs in a connection bundle: its lower-cased
/// name starts with `codexhub`, is a `.log`, and is not an AI-gateway or
/// request log.
pub open spec fn is_connection_log_name(name: Seq<char>) -> bool {
    let l = lower(name);
    &&& starts_with(l, "codexhub"@)
    &&& contains(l, ".log"@)
    &&& !contains(l, "ai-gateway"@)
    &&& !contains(l, "ai_gateway"@)
    &&& !contains(l, "request"@)
}

/// `is_codexhub_connection_log`, on the file name of a path.
pub fn is_codexhub_connection_log(file_name: Option<&str>) -> (r: bool)
    ensures
        r == match file_name {
            Some(n) => is_connection_log_name(n@),
            None => false,
        },
{
    match file_name {
        Some(name) => {
            let l = lower_str(name);
            str_starts_with(&l, "codexhub") && str_contains(&l, ".log") && !str_contains(&l, "ai-gateway")
                && !str_contains(&l, "ai_gateway") && !str_contains(&l, "request")
        },
        None => false,
    }
}

/// `logs` next to the state file (in `.` when the state path has no
/// parent): after the portable directory of a state file in one, and just
/// `logs` for a bare file name, whose parent is empty.
pub fn log_dir_for_state_path(state_path: &str) -> (r: String)
    ensures
        ends_with(r@, seq!['l', 'o', 'g', 's']),
        forall|d: Seq<char>, f: Seq<char>|
            #![trigger crate::paths::portable_split(state_path@, d, f)]
            crate::paths::portable_split(state_path@, d, f) ==> crate::paths::joined(r@, d, seq!['l', 'o', 'g', 's']),
        crate::paths::is_plain_file_name(state_path@) ==> r@ == seq!['l', 'o', 'g', 's'],
{
    let dir = crate::paths::parent_or_dot_exec(crate::paths::path_parent(state_path));
    let name = from_chars(&vec!['l', 'o', 'g', 's']);
    assert(name@ =~= seq!['l', 'o', 'g', 's']);
    assert(crate::paths::is_plain_file_name(name@));
    let r = crate::paths::path_join(dir.as_str(), name.as_str());
    assert forall|d: Seq<char>, f: Seq<char>|
        #![trigger crate::paths::portable_split(state_path@, d, f)]
        crate::paths::portable_split(state_path@, d, f) implies crate::paths::joined(
        r@,
        d,
        seq!['l', 'o', 'g', 's'],
    ) by {
        crate::paths::lemma_portable_base(d);
    }
    r
}

// ─── which status fields and log lines ─────────────────────────────────

/// Status fields that describe IM runtime state, which bundles leave out.
pub open spec fn is_im_runtime_status_key_spec(key: Seq<char>) -> bool {
    let k = lower(key);
    ||| k == "imaccounts"@
    ||| k == "im_accounts"@
    ||| k == "feishu"@
    ||| k == "feishuws"@
    ||| k == "feishu_ws"@
    ||| k == "telegram"@
    ||| k == "wechat"@
    ||| k == "wechatrecovery"@
    ||| k == "wechat_recovery"@
    ||| starts_with(k, "im_"@)
}

pub fn is_im_runtime_status_key(key: &str) -> (r: bool)
    ensures
        r == is_im_runtime_status_key_spec(key@),
{
    let k = lower_str(key);
    eq_str(&k, "imaccounts") || eq_str(&k, "im_accounts") || eq_str(&k, "feishu") || eq_str(&k, "feishuws")
        || eq_str(&k, "feishu_ws") || eq_str(&k, "telegram") || eq_str(&k, "wechat") || eq_str(
        &k,
        "wechatrecovery",
    ) || eq_str(&k, "wechat_recovery") || str_starts_with(&k, "im_")
}

/// A remote-control diagnostic line (protocol metadata only).
pub open spec fn is_remote_control_line(line: Seq<char>) -> bool {
    let l = lower(line);
    contains(l, "[remote_control]"@) || contains(l, "kind=remote_control"@) || contains(l, "event=remote_control"@)
}

pub fn is_remote_control_diagnostic_line(line: &[char]) -> (r: bool)
    ensures
        r == is_remote_control_line(line@),
{
    let l = lower_vec(line);
    str_contains(&l, "[remote_control]") || str_contains(&l, "kind=remote_control") || str_contains(
        &l,
        "event=remote_control",
    )
}

/// A line about an IM platform (after the `codexhub-feishu` client id is
/// taken out of it).
pub open spec fn is_im_line(line: Seq<char>) -> bool {
    let l = replace_all(lower(line), "codexhub-feishu"@, Seq::empty());
    ||| contains(l, "@im.bot"@)
    ||| contains(l, "[feishu_"@)
    ||| contains(l, "[im_"@)
    ||| contains(l, "[telegram_"@)
    ||| contains(l, "[wechat_"@)
    ||| contains(l, "api.telegram"@)
    ||| contains(l, "feishu"@)
    ||| contains(l, "feishu="@)
    ||| contains(l, "feishu_"@)
    ||| contains(l, "ilinkai.weixin"@)
    ||| contains(l, "im_route"@)
    ||| contains(l, "im_trace"@)
    ||| contains(l, "platform=feishu"@)
    ||| contains(l, "platform=telegram"@)
    ||| contains(l, "platform=wechat"@)
    ||| contains(l, "telegram"@)
    ||| contains(l, "telegram="@)
    ||| contains(l, "telegram_"@)
    ||| contains(l, "wechat"@)
    ||| contains(l, "wechat="@)
    ||| contains(l, "wechat_"@)
}

pub fn is_im_diagnostics_log_line(line: &[char]) -> (r: bool)
    ensures
        r == is_im_line(line@),
{
    let lw = lower_vec(line);
    proof {
        reveal_strlit("codexhub-feishu");
    }
    let l = replace_str(&lw, "codexhub-feishu", "");
    proof {
        reveal_strlit("");
        assert(""@ =~= Seq::<char>::empty());
    }
    str_contains(&l, "@im.bot") || str_contains(&l, "[feishu_") || str_contains(&l, "[im_") || str_contains(
        &l,
        "[telegram_",
    ) || str_contains(&l, "[wechat_") || str_contains(&l, "api.telegram") || str_contains(&l, "feishu")
        || str_contains(&l, "feishu=") || str_contains(&l, "feishu_") || str_contains(&l, "ilinkai.weixin")
        || str_contains(&l, "im_route") || str_contains(&l, "im_trace") || str_contains(&l, "platform=feishu")
        || str_contains(&l, "platform=telegram") || str_contains(&l, "platform=wechat") || str_contains(
        &l,
        "telegram",
    ) || str_contains(&l, "telegram=") || str_contains(&l, "telegram_") || str_contains(&l, "wechat")
        || str_contains(&l, "wechat=") || str_contains(&l, "wechat_")
}

/// A log line that goes into the bundle: remote-control lines always, any
/// other line unless it is about an IM platform.
pub open spec fn keeps_line(line: Seq<char>) -> bool {
    is_remote_control_line(line) || !is_im_line(line)
}

pub fn should_include_diagnostics_log_line(line: &[char]) -> (r: bool)
    ensures
        r == keeps_line(line@),
{
    if is_remote_control_diagnostic_line(line) {
        return true;
    }
    !is_im_diagnostics_log_line(line)
}

/// A line that mentions a secret-bearing key, `key:`/`key=` included.
pub open spec fn has_sensitive_key(line: Seq<char>) -> bool {
    let l = lower(line);
    has_secret_material(line) || contains(l, "key:"@) || contains(l, "key="@)
}

/// A line that mentions genuine secret material.
pub open spec fn has_secret_material(line: Seq<char>) -> bool {
    let l = lower(line);
    ||| contains(l, "api_key"@)
    ||| contains(l, "apikey"@)
    ||| contains(l, "authorization"@)
    ||| contains(l, "auth_token"@)
    ||| contains(l, "bot_token"@)
    ||| contains(l, "client_secret"@)
    ||| contains(l, "password"@)
    ||| contains(l, "secret"@)
    ||| contains(l, "session_key"@)
    ||| contains(l, "token"@)
}

pub fn line_contains_secret_material(line: &[char]) -> (r: bool)
    ensures
        r == has_secret_material(line@),
{
    let l = lower_vec(line);
    str_contains(&l, "api_key") || str_contains(&l, "apikey") || str_contains(&l, "authorization")
        || str_contains(&l, "auth_token") || str_contains(&l, "bot_token") || str_contains(&l, "client_secret")
        || str_contains(&l, "password") || str_contains(&l, "secret") || str_contains(&l, "session_key")
        || str_contains(&l, "token")
}

pub fn line_contains_sensitive_key(line: &[char]) -> (r: bool)
    ensures
        r == has_sensitive_key(line@),
{
    let l = lower_vec(line);
    line_contains_secret_material(line) || str_contains(&l, "key:") || str_contains(&l, "key=")
}

// ─── how lines are scrubbed ────────────────────────────────────────────

/// The first position of `=` or `:` at or after `i`, if any.
pub open spec fn first_separator_from(line: Seq<char>, i: int) -> Option<int>
    decreases line.len() - i,
{
    if i < 0 || i >= line.len() {
        None
    } else if line[i] == '=' || line[i] == ':' {
        Some(i)
    } else {
        first_separator_from(line, i + 1)
    }
}

/// The line cut after its first `=` or `:` (whole when it has neither),
/// then `<redacted>`.
pub open spec fn redact_line(line: Seq<char>) -> Seq<char> {
    match first_separator_from(line, 0) {
        Some(i) => line.take(i + 1) + redacted_text(),
        None => line + redacted_text(),
    }
}

pub fn redact_sensitive_line(line: &[char]) -> (r: Vec<char>)
    ensures
        r@ == redact_line(line@),
{
    let mut i: usize = 0;
    while i < line.len()
        invariant
            i <= line@.len(),
            first_separator_from(line@, 0) == first_separator_from(line@, i as int),
        decreases line@.len() - i,
    {
        if line[i] == '=' || line[i] == ':' {
            let mut r = slice_range(line, 0, i + 1);
            assert(r@ =~= line@.take(i + 1));
            append_str(&mut r, "<redacted>");
            return r;
        }
        i += 1;
    }
    let mut r = slice_from(line, 0);
    assert(line@.skip(0) =~= line@);
    append_str(&mut r, "<redacted>");
    r
}

/// Whether `c` ends a redacted value: whitespace, or (for IM client keys)
/// anything but an ASCII letter or digit.
pub open spec fn ends_value(c: char, alnum: bool) -> bool {
    if alnum {
        !is_ascii_alnum(c)
    } else {
        is_ws(c)
    }
}

/// The end of the value that starts at `i`.
pub open spec fn value_end(s: Seq<char>, i: int, alnum: bool) -> int
    decreases s.len() - i,
{
    if i < 0 || i >= s.len() {
        s.len() as int
    } else if ends_value(s[i], alnum) {
        i
    } else {
        value_end(s, i + 1, alnum)
    }
}

proof fn lemma_value_end(s: Seq<char>, i: int, alnum: bool)
    requires
        0 <= i <= s.len(),
    ensures
        i <= value_end(s, i, alnum) <= s.len(),
        forall|k: int| i <= k < value_end(s, i, alnum) ==> !ends_value(#[trigger] s[k], alnum),
        value_end(s, i, alnum) < s.len() ==> ends_value(s[value_end(s, i, alnum)], alnum),
    decreases s.len() - i,
{
    if i < s.len() && !ends_value(s[i], alnum) {
        lemma_value_end(s, i + 1, alnum);
    }
}

/// Every value that follows an occurrence of `needle` (up to the end of the
/// value) replaced by `<redacted>`, scanning from the left.
pub open spec fn redact_values(s: Seq<char>, needle: Seq<char>, alnum: bool) -> Seq<char>
    decreases s.len(),
{
    match first_occurrence(s, needle) {
        Some(i) => {
            let start = i + needle.len();
            let end = value_end(s, start, alnum);
            if needle.len() > 0 && 0 <= i && start <= end && end <= s.len() {
                s.take(start) + redacted_text() + redact_values(s.skip(end), needle, alnum)
            } else {
                s
            }
        },
        None => s,
    }
}

fn value_end_exec(s: &[char], i: usize, alnum: bool) -> (r: usize)
    requires
        i <= s@.len(),
    ensures
        r == value_end(s@, i as int, alnum),
{
    let mut k: usize = i;
    while k < s.len()
        invariant
            i <= k <= s@.len(),
            value_end(s@, i as int, alnum) == value_end(s@, k as int, alnum),
        decreases s@.len() - k,
    {
        let stop = if alnum {
            !is_alnum(s[k])
        } else {
            is_whitespace(s[k])
        };
        if stop {
            return k;
        }
        k += 1;
    }
    k
}

fn redact_values_exec(line: &[char], needle: &[char], alnum: bool) -> (r: Vec<char>)
    requires
        needle@.len() > 0,
    ensures
        r@ == redact_values(line@, needle@, alnum),
{
    let mut out: Vec<char> = Vec::new();
    let mut rest: Vec<char> = slice_from(line, 0);
    assert(line@.skip(0) =~= line@);
    loop
        invariant
            needle@.len() > 0,
            redact_values(line@, needle@, alnum) == out@ + redact_values(rest@, needle@, alnum),
        decreases rest@.len(),
    {
        proof {
            lemma_first_occurrence_bounds(rest@, needle@);
        }
        match find(&rest, needle) {
            None => {
                append_vec(&mut out, &rest);
                return out;
            },
            Some(i) => {
                assert(rest.len() == rest@.len());
                let start: usize = i + needle.len();
                proof {
                    lemma_value_end(rest@, start as int, alnum);
                }
                let end = value_end_exec(&rest, start, alnum);
                let head = slice_range(&rest, 0, start);
                let ghost before = out@;
                let ghost old_rest = rest@;
                append_vec(&mut out, &head);
                append_str(&mut out, "<redacted>");
                rest = slice_from(&rest, end);
                assert(head@ =~= old_rest.take(start as int));
                assert(out@ =~= before + old_rest.take(start as int) + redacted_text());
            },
        }
    }
}

/// `redact_key_value_field`: the value after every `field=` redacted, up to
/// the next whitespace.
pub open spec fn redact_field(line: Seq<char>, field: Seq<char>) -> Seq<char> {
    redact_values(line, field + "="@, false)
}

pub fn redact_key_value_field(line: &[char], field: &str) -> (r: Vec<char>)
    ensures
        r@ == redact_field(line@, field@),
{
    let mut needle = to_chars(field);
    append_str(&mut needle, "=");
    proof {
        reveal_strlit("=");
    }
    redact_values_exec(line, &needle, false)
}

/// `redact_im_client_keys`: in `im:<platform>:<hash>` client keys the hash
/// (up to the first character that is not an ASCII letter or digit) is
/// redacted, for Feishu, Telegram and WeChat in turn.
pub open spec fn redact_client_keys(line: Seq<char>) -> Seq<char> {
    let a = redact_values(line, "im:feishu:"@, true);
    let b = redact_values(a, "im:telegram:"@, true);
    redact_values(b, "im:wechat:"@, true)
}

pub fn redact_im_client_keys(line: &[char]) -> (r: Vec<char>)
    ensures
        r@ == redact_client_keys(line@),
{
    proof {
        reveal_strlit("im:feishu:");
        reveal_strlit("im:telegram:");
        reveal_strlit("im:wechat:");
    }
    let n1 = to_chars("im:feishu:");
    let a = redact_values_exec(line, &n1, true);
    let n2 = to_chars("im:telegram:");
    let b = redact_values_exec(&a, &n2, true);
    let n3 = to_chars("im:wechat:");
    redact_values_exec(&b, &n3, true)
}

/// `redact_log_identifiers`: the Feishu client id and IM client keys
/// redacted, then the values of the identifying fields.
pub open spec fn redact_identifiers(line: Seq<char>) -> Seq<char> {
    let base = redact_client_keys(replace_all(line, "codexhub-feishu"@, redacted_text()));
    let l1 = redact_field(base, "account_id"@);
    let l2 = redact_field(l1, "client_id"@);
    let l3 = redact_field(l2, "connection_id"@);
    let l4 = redact_field(l3, "environment_id"@);
    let l5 = redact_field(l4, "installation_id"@);
    let l6 = redact_field(l5, "server_id"@);
    let l7 = redact_field(l6, "server_name"@);
    redact_field(l7, "stream_id"@)
}

pub fn redact_log_identifiers(line: &[char]) -> (r: Vec<char>)
    ensures
        r@ == redact_identifiers(line@),
{
    proof {
        reveal_strlit("codexhub-feishu");
    }
    let replaced = replace_str(line, "codexhub-feishu", "<redacted>");
    let base = redact_im_client_keys(&replaced);
    let l1 = redact_key_value_field(&base, "account_id");
    let l2 = redact_key_value_field(&l1, "client_id");
    let l3 = redact_key_value_field(&l2, "connection_id");
    let l4 = redact_key_value_field(&l3, "environment_id");
    let l5 = redact_key_value_field(&l4, "installation_id");
    let l6 = redact_key_value_field(&l5, "server_id");
    let l7 = redact_key_value_field(&l6, "server_name");
    redact_key_value_field(&l7, "stream_id")
}

/// One kept log line after scrubbing: identifiers redacted, then the whole
/// value redacted when the line still carries a secret (for remote-control
/// lines only genuine secret material counts).
pub open spec fn scrub_line(line: Seq<char>) -> Seq<char> {
    let r = redact_identifiers(line);
    let sensitive = if is_remote_control_line(r) {
        has_secret_material(r)
    } else {
        has_sensitive_key(r)
    };
    if sensitive {
        redact_line(r)
    } else {
        r
    }
}

fn scrub_line_exec(line: &[char]) -> (r: Vec<char>)
    ensures
        r@ == scrub_line(line@),
{
    let redacted = redact_log_identifiers(line);
    let sensitive = if is_remote_control_diagnostic_line(&redacted) {
        line_contains_secret_material(&redacted)
    } else {
        line_contains_sensitive_key(&redacted)
    };
    if sensitive {
        redact_sensitive_line(&redacted)
    } else {
        redacted
    }
}

// ─── whole log texts ───────────────────────────────────────────────────

/// A line without the `\r` of a `\r\n` ending.
pub open spec fn strip_cr(l: Seq<char>) -> Seq<char> {
    if l.len() > 0 && l.last() == '\r' {
        l.drop_last()
    } else {
        l
    }
}

/// `str::lines`: the text split at `\n` (a `\r` right before it dropped),
/// with no empty line after a final `\n`.
pub open spec fn text_lines(s: Seq<char>) -> Seq<Seq<char>>
    decreases s.len(),
{
    if s.len() == 0 {
        Seq::empty()
    } else {
        match first_occurrence(s, seq!['\n']) {
            Some(i) => if 0 <= i < s.len() {
                seq![strip_cr(s.take(i))] + text_lines(s.skip(i + 1))
            } else {
                seq![s]
            },
            None => seq![s],
        }
    }
}

/// The lines joined with `\n` between them.
pub open spec fn join_lines(ls: Seq<Seq<char>>) -> Seq<char>
    decreases ls.len(),
{
    if ls.len() == 0 {
        Seq::empty()
    } else if ls.len() == 1 {
        ls[0]
    } else {
        join_lines(ls.drop_last()) + seq!['\n'] + ls.last()
    }
}

/// The kept lines, each scrubbed.
pub open spec fn scrubbed_lines(ls: Seq<Seq<char>>) -> Seq<Seq<char>>
    decreases ls.len(),
{
    if ls.len() == 0 {
        Seq::empty()
    } else if keeps_line(ls.last()) {
        scrubbed_lines(ls.drop_last()).push(scrub_line(ls.last()))
    } else {
        scrubbed_lines(ls.drop_last())
    }
}

/// `sanitize_log_text`: the lines that belong in a bundle, scrubbed and
/// joined with `\n`.
pub open spec fn sanitized(text: Seq<char>) -> Seq<char> {
    join_lines(scrubbed_lines(text_lines(text)))
}

/// `str::lines` on a character vector.
pub fn split_lines_of(v: &[char]) -> (r: Vec<Vec<char>>)
    ensures
        r@.map_values(|l: Vec<char>| l@) == text_lines(v@),
{
    let mut out: Vec<Vec<char>> = Vec::new();
    let mut rest: Vec<char> = slice_from(v, 0);
    assert(v@.skip(0) =~= v@);
    let nl = vec!['\n'];
    loop
        invariant
            nl@ == seq!['\n'],
            text_lines(v@) == out@.map_values(|l: Vec<char>| l@) + text_lines(rest@),
        decreases rest@.len(),
    {
        if rest.len() == 0 {
            assert(out@.map_values(|l: Vec<char>| l@) + text_lines(rest@) =~= out@.map_values(|l: Vec<char>| l@));
            return out;
        }
        proof {
            lemma_first_occurrence_bounds(rest@, nl@);
        }
        let ghost before = out@;
        let ghost old_rest = rest@;
        match find(&rest, &nl) {
            None => {
                let line = slice_from(&rest, 0);
                assert(line@ =~= old_rest);
                out.push(line);
                assert(out@.map_values(|l: Vec<char>| l@) =~= before.map_values(|l: Vec<char>| l@) + seq![old_rest]);
                assert(text_lines(old_rest) == seq![old_rest]);
                assert(out@.map_values(|l: Vec<char>| l@) + text_lines(Seq::<char>::empty()) =~= out@.map_values(
                    |l: Vec<char>| l@,
                ));
                return out;
            },
            Some(i) => {
                let mut line = slice_range(&rest, 0, i);
                assert(line@ =~= old_rest.take(i as int));
                if line.len() > 0 && line[line.len() - 1] == '\r' {
                    line.pop();
                    assert(line@ =~= strip_cr(old_rest.take(i as int)));
                }
                out.push(line);
                rest = slice_from(&rest, i + 1);
                assert(out@.map_values(|l: Vec<char>| l@) =~= before.map_values(|l: Vec<char>| l@) + seq![
                    strip_cr(old_rest.take(i as int)),
                ]);
            },
        }
    }
}

/// Log text fit for a diagnostics export: the lines worth keeping, with
/// identifiers and secrets redacted.
pub fn sanitize_log_text(value: &str) -> (r: String)
    ensures
        r@ == sanitized(value@),
{
    let v = to_chars(value);
    let lines = split_lines_of(&v);
    let ghost ls = lines@.map_values(|l: Vec<char>| l@);
    let mut out: Vec<char> = Vec::new();
    let mut count: usize = 0;
    let mut i: usize = 0;
    while i < lines.len()
        invariant
            i <= lines@.len(),
            ls == lines@.map_values(|l: Vec<char>| l@),
            ls == text_lines(v@),
            count as nat == scrubbed_lines(ls.take(i as int)).len(),
            out@ == join_lines(scrubbed_lines(ls.take(i as int))),
            count <= i,
        decreases lines@.len() - i,
    {
        let ghost prev = ls.take(i as int);
        assert(ls.take(i + 1).drop_last() =~= prev);
        assert(ls.take(i + 1).last() == lines@[i as int]@);
        if should_include_diagnostics_log_line(&lines[i]) {
            let scrubbed = scrub_line_exec(&lines[i]);
            if count > 0 {
                out.push('\n');
            }
            let ghost before = out@;
            append_vec(&mut out, &scrubbed);
            let ghost sl = scrubbed_lines(ls.take(i + 1));
            assert(sl == scrubbed_lines(prev).push(scrub_line(lines@[i as int]@)));
            assert(sl.drop_last() =~= scrubbed_lines(prev));
            if count > 0 {
                assert(out@ =~= join_lines(sl));
            } else {
                assert(out@ =~= join_lines(sl));
            }
            count += 1;
        }
        i += 1;
    }
    assert(ls.take(lines@.len() as int) =~= ls);
    from_chars(&out)
}

// ─── status documents ──────────────────────────────────────────────────

/// Keys whose values never leave the machine.
pub open spec fn is_sensitive_key_spec(key: Seq<char>) -> bool {
    let k = lower(key);
    if k == "authfilesincluded"@ || k == "imgatewayrequestlogs"@ || k == "imruntimestateincluded"@
        || k == "requestlogsincluded"@ || k == "secretfieldsredacted"@ {
        false
    } else {
        ||| contains(k, "api_key"@)
        ||| contains(k, "apikey"@)
        ||| k == "accountid"@
        ||| k == "account_id"@
        ||| contains(k, "authorization"@)
        ||| contains(k, "auth"@)
        ||| contains(k, "bot_token"@)
        ||| k == "clientid"@
        ||| k == "client_id"@
        ||| contains(k, "client_secret"@)
        ||| k == "environmentid"@
        ||| k == "environment_id"@
        ||| k == "id"@
        ||| k == "installationid"@
        ||| k == "installation_id"@
        ||| k == "key"@
        ||| ends_with(k, "_key"@)
        ||| contains(k, "password"@)
        ||| k == "serverid"@
        ||| k == "server_id"@
        ||| k == "servername"@
        ||| k == "server_name"@
        ||| contains(k, "secret"@)
        ||| contains(k, "session_key"@)
        ||| k == "streamid"@
        ||| k == "stream_id"@
        ||| contains(k, "token"@)
        ||| k == "userid"@
        ||| k == "user_id"@
        ||| k == "useragent"@
        ||| k == "user_agent"@
    }
}

pub fn is_sensitive_key(key: &str) -> (r: bool)
    ensures
        r == is_sensitive_key_spec(key@),
{
    let k = lower_str(key);
    if eq_str(&k, "authfilesincluded") || eq_str(&k, "imgatewayrequestlogs") || eq_str(&k, "imruntimestateincluded")
        || eq_str(&k, "requestlogsincluded") || eq_str(&k, "secretfieldsredacted") {
        return false;
    }
    str_contains(&k, "api_key") || str_contains(&k, "apikey") || eq_str(&k, "accountid") || eq_str(&k, "account_id")
        || str_contains(&k, "authorization") || str_contains(&k, "auth") || str_contains(&k, "bot_token")
        || eq_str(&k, "clientid") || eq_str(&k, "client_id") || str_contains(&k, "client_secret") || eq_str(
        &k,
        "environmentid",
    ) || eq_str(&k, "environment_id") || eq_str(&k, "id") || eq_str(&k, "installationid") || eq_str(
        &k,
        "installation_id",
    ) || eq_str(&k, "key") || crate::text::str_ends_with(&k, "_key") || str_contains(&k, "password")
        || eq_str(&k, "serverid") || eq_str(&k, "server_id") || eq_str(&k, "servername") || eq_str(
        &k,
        "server_name",
    ) || str_contains(&k, "secret") || str_contains(&k, "session_key") || eq_str(&k, "streamid") || eq_str(
        &k,
        "stream_id",
    ) || str_contains(&k, "token") || eq_str(&k, "userid") || eq_str(&k, "user_id") || eq_str(&k, "useragent")
        || eq_str(&k, "user_agent")
}

/// String values that identify an IM bot or the Feishu client.
pub open spec fn redact_string_spec(value: Seq<char>) -> Seq<char> {
    if contains(value, "@im.bot"@) || value == "codexhub-feishu"@ {
        redacted_text()
    } else {
        value
    }
}

pub fn redact_sensitive_string(value: &str) -> (r: String)
    ensures
        r@ == redact_string_spec(value@),
{
    let v = to_chars(value);
    if str_contains(&v, "@im.bot") || eq_str(&v, "codexhub-feishu") {
        let mut m: Vec<char> = Vec::new();
        append_str(&mut m, "<redacted>");
        from_chars(&m)
    } else {
        from_chars(&v)
    }
}


/// A status document with every sensitive field's value replaced by
/// `<redacted>` and identifying strings redacted, at every depth.
pub open spec fn redact_json(j: JsonV) -> JsonV
    decreases j, 2int,
{
    match j {
        JsonV::Object(m) => JsonV::Object(redact_members(m)),
        JsonV::Array(a) => JsonV::Array(redact_items(a)),
        JsonV::Str(t) => JsonV::Str(redact_string_spec(t)),
        _ => j,
    }
}

pub open spec fn redact_items(a: Seq<JsonV>) -> Seq<JsonV>
    decreases a, 1int,
{
    if a.len() == 0 {
        Seq::empty()
    } else {
        redact_items(a.drop_last()).push(redact_json(a.last()))
    }
}

pub open spec fn redact_members(m: Seq<(Seq<char>, JsonV)>) -> Seq<(Seq<char>, JsonV)>
    decreases m, 1int,
{
    if m.len() == 0 {
        Seq::empty()
    } else {
        let (k, v) = m.last();
        redact_members(m.drop_last()).push(
            (k, if is_sensitive_key_spec(k) {
                JsonV::Str(redacted_text())
            } else {
                redact_json(v)
            }),
        )
    }
}

/// A status document without its IM runtime fields, at every depth.
pub open spec fn strip_im_json(j: JsonV) -> JsonV
    decreases j, 2int,
{
    match j {
        JsonV::Object(m) => JsonV::Object(strip_im_members(m)),
        JsonV::Array(a) => JsonV::Array(strip_im_items(a)),
        _ => j,
    }
}

pub open spec fn strip_im_items(a: Seq<JsonV>) -> Seq<JsonV>
    decreases a, 1int,
{
    if a.len() == 0 {
        Seq::empty()
    } else {
        strip_im_items(a.drop_last()).push(strip_im_json(a.last()))
    }
}

pub open spec fn strip_im_members(m: Seq<(Seq<char>, JsonV)>) -> Seq<(Seq<char>, JsonV)>
    decreases m, 1int,
{
    if m.len() == 0 {
        Seq::empty()
    } else {
        let (k, v) = m.last();
        if is_im_runtime_status_key_spec(k) {
            strip_im_members(m.drop_last())
        } else {
            strip_im_members(m.drop_last()).push((k, strip_im_json(v)))
        }
    }
}

fn redacted_json() -> (r: Json)
    ensures
        r@ == JsonV::Str(redacted_text()),
{
    let mut m: Vec<char> = Vec::new();
    append_str(&mut m, "<redacted>");
    Json::Str(from_chars(&m))
}

/// A JSON value with the values of sensitive keys replaced by `<redacted>`,
/// at any depth.
pub fn redact_value(value: &Json) -> (r: Json)
    ensures
        r@ == redact_json(value@),
    decreases value,
{
    match value {
        Json::Object(m) => {
            let mut out: Vec<(String, Json)> = Vec::new();
            let mut i: usize = 0;
            while i < m.len()
                invariant
                    i <= m@.len(),
                    *value == Json::Object(*m),
                    member_views(out@) == redact_members(member_views(m@.take(i as int))),
                decreases m@.len() - i,
            {
                proof {
                    vstd::std_specs::vec::axiom_vec_index_decreases(*m, i as int);
                    assert(decreases_to!(*value => (*value)->Object_0));
                    assert(decreases_to!(m[i as int] => m[i as int].1));
                }
                let key = m[i].0.clone();
                let v = if is_sensitive_key(m[i].0.as_str()) {
                    redacted_json()
                } else {
                    redact_value(&m[i].1)
                };
                let ghost before = out@;
                out.push((key, v));
                proof {
                    let t = m@.take(i + 1);
                    assert(t.drop_last() =~= m@.take(i as int));
                    assert(t.last() == m@[i as int]);
                    let mv = member_views(t);
                    assert(mv.drop_last() =~= member_views(m@.take(i as int)));
                    assert(out@.drop_last() =~= before);
                }
                i += 1;
            }
            assert(m@.take(m@.len() as int) =~= m@);
            Json::Object(out)
        },
        Json::Array(a) => {
            let mut out: Vec<Json> = Vec::new();
            let mut i: usize = 0;
            while i < a.len()
                invariant
                    i <= a@.len(),
                    *value == Json::Array(*a),
                    views(out@) == redact_items(views(a@.take(i as int))),
                decreases a@.len() - i,
            {
                proof {
                    vstd::std_specs::vec::axiom_vec_index_decreases(*a, i as int);
                    assert(decreases_to!(*value => (*value)->Array_0));
                }
                let v = redact_value(&a[i]);
                let ghost before = out@;
                out.push(v);
                proof {
                    let t = a@.take(i + 1);
                    assert(t.drop_last() =~= a@.take(i as int));
                    assert(t.last() == a@[i as int]);
                    assert(views(t).drop_last() =~= views(a@.take(i as int)));
                    assert(out@.drop_last() =~= before);
                }
                i += 1;
            }
            assert(a@.take(a@.len() as int) =~= a@);
            Json::Array(out)
        },
        Json::Str(t) => Json::Str(redact_sensitive_string(t.as_str())),
        _ => value.clone(),
    }
}

/// The value without the keys of IM runtime status, at any depth.
pub fn strip_im_runtime_status_fields(value: &Json) -> (r: Json)
    ensures
        r@ == strip_im_json(value@),
    decreases value,
{
    match value {
        Json::Object(m) => {
            let mut out: Vec<(String, Json)> = Vec::new();
            let mut i: usize = 0;
            while i < m.len()
                invariant
                    i <= m@.len(),
                    *value == Json::Object(*m),
                    member_views(out@) == strip_im_members(member_views(m@.take(i as int))),
                decreases m@.len() - i,
            {
                proof {
                    vstd::std_specs::vec::axiom_vec_index_decreases(*m, i as int);
                    assert(decreases_to!(*value => (*value)->Object_0));
                    assert(decreases_to!(m[i as int] => m[i as int].1));
                }
                let ghost before = out@;
                proof {
                    let t = m@.take(i + 1);
                    assert(t.drop_last() =~= m@.take(i as int));
                    assert(t.last() == m@[i as int]);
                    let mv = member_views(t);
                    assert(mv.drop_last() =~= member_views(m@.take(i as int)));
                }
                if !is_im_runtime_status_key(m[i].0.as_str()) {
                    let key = m[i].0.clone();
                    let v = strip_im_runtime_status_fields(&m[i].1);
                    out.push((key, v));
                    assert(out@.drop_last() =~= before);
                }
                i += 1;
            }
            assert(m@.take(m@.len() as int) =~= m@);
            Json::Object(out)
        },
        Json::Array(a) => {
            let mut out: Vec<Json> = Vec::new();
            let mut i: usize = 0;
            while i < a.len()
                invariant
                    i <= a@.len(),
                    *value == Json::Array(*a),
                    views(out@) == strip_im_items(views(a@.take(i as int))),
                decreases a@.len() - i,
            {
                proof {
                    vstd::std_specs::vec::axiom_vec_index_decreases(*a, i as int);
                    assert(decreases_to!(*value => (*value)->Array_0));
                }
                let v = strip_im_runtime_status_fields(&a[i]);
                let ghost before = out@;
                out.push(v);
                proof {
                    let t = a@.take(i + 1);
                    assert(t.drop_last() =~= a@.take(i as int));
                    assert(t.last() == a@[i as int]);
                    assert(views(t).drop_last() =~= views(a@.take(i as int)));
                    assert(out@.drop_last() =~= before);
                }
                i += 1;
            }
            assert(a@.take(a@.len() as int) =~= a@);
            Json::Array(out)
        },
        _ => value.clone(),
    }
}


/// What a diagnostics bundle is made from.
#[derive(Debug)]
pub struct ConnectionDiagnosticsInput {
    pub app_version: String,
    pub base_url: String,
    pub config_path: String,
    pub state_path: String,
    pub remote_status: Option<Json>,
    pub codex_app_status: Option<Json>,
    pub service_status: Option<Json>,
    pub dashboard: Option<Json>,
}

/// The record of one status request: its path, whether it succeeded, and
/// the response or the error text.
pub open spec fn status_snapshot(path: Seq<char>, result: Result<JsonV, Seq<char>>) -> JsonV {
    match result {
        Ok(response) => JsonV::Object(
            seq![("path"@, JsonV::Str(path)), ("ok"@, JsonV::Bool(true)), ("response"@, response)],
        ),
        Err(error) => JsonV::Object(
            seq![("path"@, JsonV::Str(path)), ("ok"@, JsonV::Bool(false)), ("error"@, JsonV::Str(error))],
        ),
    }
}

pub open spec fn result_view(r: Result<Json, String>) -> Result<JsonV, Seq<char>> {
    match r {
        Ok(v) => Ok(v@),
        Err(e) => Err(e@),
    }
}

pub fn connection_status_snapshot(path: &str, result: Result<Json, String>) -> (r: Json)
    ensures
        r@ == status_snapshot(path@, result_view(result)),
{
    let ghost rv = result_view(result);
    let (ok, key, payload) = match result {
        Ok(response) => (true, String::from_str("response"), response),
        Err(error) => (false, String::from_str("error"), Json::Str(error)),
    };
    let members = vec![
        (String::from_str("path"), Json::Str(String::from_str(path))),
        (String::from_str("ok"), Json::Bool(ok)),
        (key, payload),
    ];
    proof {
        lemma_member_views(members@);
        reveal_strlit("path");
        reveal_strlit("ok");
        reveal_strlit("response");
        reveal_strlit("error");
        assert(member_views(members@) =~= status_snapshot(path@, rv)->Object_0);
    }
    Json::Object(members)
}


// ─── what bundles promise ──────────────────────────────────────────────

/// Every member with a sensitive key holds `<redacted>`, at every depth.
pub open spec fn sensitive_fields_redacted(j: JsonV) -> bool
    decreases j, 2int,
{
    match j {
        JsonV::Object(m) => members_redacted(m),
        JsonV::Array(a) => items_redacted(a),
        _ => true,
    }
}

pub open spec fn items_redacted(a: Seq<JsonV>) -> bool
    decreases a, 1int,
{
    a.len() == 0 || (items_redacted(a.drop_last()) && sensitive_fields_redacted(a.last()))
}

pub open spec fn members_redacted(m: Seq<(Seq<char>, JsonV)>) -> bool
    decreases m, 1int,
{
    m.len() == 0 || (members_redacted(m.drop_last()) && if is_sensitive_key_spec(m.last().0) {
        m.last().1 == JsonV::Str(redacted_text())
    } else {
        sensitive_fields_redacted(m.last().1)
    })
}

/// No member has an IM runtime key, at every depth.
pub open spec fn free_of_im_fields(j: JsonV) -> bool
    decreases j, 2int,
{
    match j {
        JsonV::Object(m) => members_free_of_im(m),
        JsonV::Array(a) => items_free_of_im(a),
        _ => true,
    }
}

pub open spec fn items_free_of_im(a: Seq<JsonV>) -> bool
    decreases a, 1int,
{
    a.len() == 0 || (items_free_of_im(a.drop_last()) && free_of_im_fields(a.last()))
}

pub open spec fn members_free_of_im(m: Seq<(Seq<char>, JsonV)>) -> bool
    decreases m, 1int,
{
    m.len() == 0 || (members_free_of_im(m.drop_last()) && !is_im_runtime_status_key_spec(m.last().0)
        && free_of_im_fields(m.last().1))
}

proof fn lemma_redact_hides(j: JsonV)
    ensures
        sensitive_fields_redacted(redact_json(j)),
    decreases j, 2int,
{
    match j {
        JsonV::Object(m) => lemma_redact_members_hide(m),
        JsonV::Array(a) => lemma_redact_items_hide(a),
        _ => {},
    }
}

proof fn lemma_redact_items_hide(a: Seq<JsonV>)
    ensures
        items_redacted(redact_items(a)),
    decreases a, 1int,
{
    if a.len() > 0 {
        lemma_redact_items_hide(a.drop_last());
        lemma_redact_hides(a.last());
        let r = redact_items(a);
        assert(r.drop_last() =~= redact_items(a.drop_last()));
    }
}

proof fn lemma_redact_members_hide(m: Seq<(Seq<char>, JsonV)>)
    ensures
        members_redacted(redact_members(m)),
    decreases m, 1int,
{
    if m.len() > 0 {
        lemma_redact_members_hide(m.drop_last());
        lemma_redact_hides(m.last().1);
        let r = redact_members(m);
        assert(r.drop_last() =~= redact_members(m.drop_last()));
    }
}

/// A redacted status document holds `<redacted>` in place of the value of
/// every sensitive field, however deep.
pub proof fn law_redaction_hides_sensitive_fields(j: JsonV)
    ensures
        sensitive_fields_redacted(redact_json(j)),
{
    lemma_redact_hides(j);
}

proof fn lemma_redact_idem(j: JsonV)
    ensures
        redact_json(redact_json(j)) == redact_json(j),
    decreases j, 2int,
{
    match j {
        JsonV::Object(m) => {
            lemma_redact_members_idem(m);
        },
        JsonV::Array(a) => {
            lemma_redact_items_idem(a);
        },
        JsonV::Str(t) => {
            lemma_redact_string_idem(t);
        },
        _ => {},
    }
}

proof fn lemma_redact_string_idem(t: Seq<char>)
    ensures
        redact_string_spec(redact_string_spec(t)) == redact_string_spec(t),
{
    reveal_strlit("<redacted>");
    reveal_strlit("codexhub-feishu");
    reveal_strlit("@im.bot");
    if contains(t, "@im.bot"@) || t == "codexhub-feishu"@ {
        assert(!contains(redacted_text(), "@im.bot"@)) by {
            assert forall|i: int| !crate::text::occurs_at(redacted_text(), "@im.bot"@, i) by {
                if crate::text::occurs_at(redacted_text(), "@im.bot"@, i) {
                    assert(redacted_text().subrange(i, i + 7)[0] == '@');
                }
            }
        }
        assert(redacted_text() != "codexhub-feishu"@) by {
            assert(redacted_text()[0] != ("codexhub-feishu"@)[0]);
        }
    }
}

proof fn lemma_redact_items_idem(a: Seq<JsonV>)
    ensures
        redact_items(redact_items(a)) == redact_items(a),
    decreases a, 1int,
{
    if a.len() > 0 {
        lemma_redact_items_idem(a.drop_last());
        lemma_redact_idem(a.last());
        let r = redact_items(a);
        assert(r.drop_last() =~= redact_items(a.drop_last()));
        assert(redact_items(r) =~= r);
    }
}

proof fn lemma_redact_members_idem(m: Seq<(Seq<char>, JsonV)>)
    ensures
        redact_members(redact_members(m)) == redact_members(m),
    decreases m, 1int,
{
    if m.len() > 0 {
        lemma_redact_members_idem(m.drop_last());
        lemma_redact_idem(m.last().1);
        lemma_redact_string_idem(redacted_text());
        let r = redact_members(m);
        assert(r.drop_last() =~= redact_members(m.drop_last()));
        assert(redact_members(r) =~= r);
    }
}

/// Redacting a document that is already redacted changes nothing.
pub proof fn law_redaction_is_idempotent(j: JsonV)
    ensures
        redact_json(redact_json(j)) == redact_json(j),
{
    lemma_redact_idem(j);
}

proof fn lemma_strip_free(j: JsonV)
    ensures
        free_of_im_fields(strip_im_json(j)),
    decreases j, 2int,
{
    match j {
        JsonV::Object(m) => lemma_strip_members_free(m),
        JsonV::Array(a) => lemma_strip_items_free(a),
        _ => {},
    }
}

proof fn lemma_strip_items_free(a: Seq<JsonV>)
    ensures
        items_free_of_im(strip_im_items(a)),
    decreases a, 1int,
{
    if a.len() > 0 {
        lemma_strip_items_free(a.drop_last());
        lemma_strip_free(a.last());
        let r = strip_im_items(a);
        assert(r.drop_last() =~= strip_im_items(a.drop_last()));
    }
}

proof fn lemma_strip_members_free(m: Seq<(Seq<char>, JsonV)>)
    ensures
        members_free_of_im(strip_im_members(m)),
    decreases m, 1int,
{
    if m.len() > 0 {
        lemma_strip_members_free(m.drop_last());
        lemma_strip_free(m.last().1);
        let r = strip_im_members(m);
        if !is_im_runtime_status_key_spec(m.last().0) {
            assert(r.drop_last() =~= strip_im_members(m.drop_last()));
        }
    }
}

/// A status document stripped for a bundle carries no IM runtime field at
/// any depth.
pub proof fn law_stripped_status_has_no_im_fields(j: JsonV)
    ensures
        free_of_im_fields(strip_im_json(j)),
{
    lemma_strip_free(j);
}

// ─── the bundle's documents ────────────────────────────────────────────

fn member(key: &str, value: Json) -> (r: (String, Json))
    ensures
        r.0@ == key@,
        r.1 == value,
{
    (String::from_str(key), value)
}

fn text(s: &str) -> (r: Json)
    ensures
        r@ == JsonV::Str(s@),
{
    Json::Str(String::from_str(s))
}

/// `summary.json`: what the bundle is, where it comes from, what it holds
/// and what it leaves out. `exported_at_ms`, `platform` and `arch` are the
/// clock and the build target at export time.
pub open spec fn summary_json(
    input: ConnectionDiagnosticsInput,
    exported_at_ms: u64,
    platform: Seq<char>,
    arch: Seq<char>,
) -> JsonV {
    JsonV::Object(
        seq![
            ("kind"@, JsonV::Str("codexhub_connection_diagnostics"@)),
            ("exportedAtMs"@, JsonV::Number(crate::tool_names::decimal(exported_at_ms as nat))),
            ("appVersion"@, JsonV::Str(input.app_version@)),
            ("baseUrl"@, JsonV::Str(input.base_url@)),
            ("configPath"@, JsonV::Str(input.config_path@)),
            ("statePath"@, JsonV::Str(input.state_path@)),
            ("platform"@, JsonV::Str(platform)),
            ("arch"@, JsonV::Str(arch)),
            (
                "included"@,
                JsonV::Object(
                    seq![
                        ("remoteStatus"@, JsonV::Bool(input.remote_status is Some)),
                        ("codexAppStatus"@, JsonV::Bool(input.codex_app_status is Some)),
                        ("serviceStatus"@, JsonV::Bool(input.service_status is Some)),
                        ("dashboard"@, JsonV::Bool(input.dashboard is Some)),
                        ("aiGatewayRequestLogs"@, JsonV::Bool(false)),
                    ],
                ),
            ),
            (
                "logLimits"@,
                JsonV::Object(seq![("maxFiles"@, JsonV::Number("4"@)), ("maxBytesPerFile"@, JsonV::Number("262144"@))]),
            ),
            (
                "privacy"@,
                JsonV::Object(
                    seq![
                        ("secretFieldsRedacted"@, JsonV::Bool(true)),
                        ("requestLogsIncluded"@, JsonV::Bool(false)),
                        ("authFilesIncluded"@, JsonV::Bool(false)),
                        ("imRuntimeStateIncluded"@, JsonV::Bool(false)),
                    ],
                ),
            ),
        ],
    )
}

pub fn diagnostics_summary(input: &ConnectionDiagnosticsInput, exported_at_ms: u64, platform: &str, arch: &str) -> (r:
    Json)
    ensures
        r@ == summary_json(*input, exported_at_ms, platform@, arch@),
{
    let included = vec![
        member("remoteStatus", Json::Bool(input.remote_status.is_some())),
        member("codexAppStatus", Json::Bool(input.codex_app_status.is_some())),
        member("serviceStatus", Json::Bool(input.service_status.is_some())),
        member("dashboard", Json::Bool(input.dashboard.is_some())),
        member("aiGatewayRequestLogs", Json::Bool(false)),
    ];
    let limits = vec![
        member("maxFiles", Json::Number(String::from_str("4"))),
        member("maxBytesPerFile", Json::Number(String::from_str("262144"))),
    ];
    let privacy = vec![
        member("secretFieldsRedacted", Json::Bool(true)),
        member("requestLogsIncluded", Json::Bool(false)),
        member("authFilesIncluded", Json::Bool(false)),
        member("imRuntimeStateIncluded", Json::Bool(false)),
    ];
    proof {
        lemma_member_views(included@);
        lemma_member_views(limits@);
        lemma_member_views(privacy@);
        assert(member_views(included@) =~= seq![
            ("remoteStatus"@, JsonV::Bool(input.remote_status is Some)),
            ("codexAppStatus"@, JsonV::Bool(input.codex_app_status is Some)),
            ("serviceStatus"@, JsonV::Bool(input.service_status is Some)),
            ("dashboard"@, JsonV::Bool(input.dashboard is Some)),
            ("aiGatewayRequestLogs"@, JsonV::Bool(false)),
        ]);
        assert(member_views(limits@) =~= seq![
            ("maxFiles"@, JsonV::Number("4"@)),
            ("maxBytesPerFile"@, JsonV::Number("262144"@)),
        ]);
        assert(member_views(privacy@) =~= seq![
            ("secretFieldsRedacted"@, JsonV::Bool(true)),
            ("requestLogsIncluded"@, JsonV::Bool(false)),
            ("authFilesIncluded"@, JsonV::Bool(false)),
            ("imRuntimeStateIncluded"@, JsonV::Bool(false)),
        ]);
    }
    let ms = crate::tool_names::decimal_u64(exported_at_ms);
    let members = vec![
        member("kind", text("codexhub_connection_diagnostics")),
        member("exportedAtMs", Json::Number(from_chars(&ms))),
        member("appVersion", Json::Str(input.app_version.clone())),
        member("baseUrl", Json::Str(input.base_url.clone())),
        member("configPath", Json::Str(input.config_path.clone())),
        member("statePath", Json::Str(input.state_path.clone())),
        member("platform", text(platform)),
        member("arch", text(arch)),
        member("included", Json::Object(included)),
        member("logLimits", Json::Object(limits)),
        member("privacy", Json::Object(privacy)),
    ];
    proof {
        lemma_member_views(members@);
    }
    let r = Json::Object(members);
    proof {
        if let JsonV::Object(expected) = summary_json(*input, exported_at_ms, platform@, arch@) {
            assert(member_views(members@) =~= expected);
        }
    }
    r
}

pub open spec fn optional_entry(name: Seq<char>, value: Option<Json>) -> Seq<(Seq<char>, JsonV)> {
    match value {
        Some(j) => seq![(name, redact_json(j@))],
        None => Seq::empty(),
    }
}

/// The JSON documents of a bundle, by file name and in the order written,
/// each with its secrets redacted: the summary, then each status that was
/// given (the service status without its IM runtime fields).
pub open spec fn bundle_documents(
    input: ConnectionDiagnosticsInput,
    exported_at_ms: u64,
    platform: Seq<char>,
    arch: Seq<char>,
) -> Seq<(Seq<char>, JsonV)> {
    seq![("summary.json"@, redact_json(summary_json(input, exported_at_ms, platform, arch)))] + optional_entry(
        "remote-control-status.json"@,
        input.remote_status,
    ) + optional_entry("codex-app-status.json"@, input.codex_app_status) + match input.service_status {
        Some(j) => seq![("service-status.json"@, redact_json(strip_im_json(j@)))],
        None => Seq::empty(),
    } + optional_entry("gui-dashboard.json"@, input.dashboard)
}

fn push_optional(out: &mut Vec<(String, Json)>, name: &str, value: &Option<Json>)
    ensures
        member_views(final(out)@) == member_views(old(out)@) + optional_entry(name@, *value),
{
    let ghost before = out@;
    match value {
        Some(j) => {
            out.push((String::from_str(name), redact_value(j)));
            proof {
                assert(out@.drop_last() =~= before);
            }
        },
        None => {},
    }
    assert(member_views(out@) =~= member_views(before) + optional_entry(name@, *value));
}

/// `export_connection_diagnostics_to_path`'s JSON documents, ready to be
/// written to the bundle as they come.
pub fn diagnostics_documents(input: &ConnectionDiagnosticsInput, exported_at_ms: u64, platform: &str, arch: &str) -> (r:
    Vec<(String, Json)>)
    ensures
        member_views(r@) == bundle_documents(*input, exported_at_ms, platform@, arch@),
{
    let summary = diagnostics_summary(input, exported_at_ms, platform, arch);
    let mut out: Vec<(String, Json)> = Vec::new();
    out.push((String::from_str("summary.json"), redact_value(&summary)));
    proof {
        lemma_member_views(out@);
        assert(member_views(out@) =~= seq![
            ("summary.json"@, redact_json(summary_json(*input, exported_at_ms, platform@, arch@))),
        ]);
    }
    push_optional(&mut out, "remote-control-status.json", &input.remote_status);
    push_optional(&mut out, "codex-app-status.json", &input.codex_app_status);
    let ghost before = out@;
    match &input.service_status {
        Some(j) => {
            let stripped = strip_im_runtime_status_fields(j);
            out.push((String::from_str("service-status.json"), redact_value(&stripped)));
            proof {
                assert(out@.drop_last() =~= before);
            }
        },
        None => {},
    }
    push_optional(&mut out, "gui-dashboard.json", &input.dashboard);
    out
}

// ─── log tails ─────────────────────────────────────────────────────────

/// Where reading a log of `len` bytes starts: at most the last
/// `MAX_LOG_BYTES_PER_FILE` bytes are taken.
pub fn log_tail_start(len: u64) -> (r: u64)
    ensures
        r == if len > MAX_LOG_BYTES_PER_FILE { len - MAX_LOG_BYTES_PER_FILE } else { 0 },
{
    len.saturating_sub(MAX_LOG_BYTES_PER_FILE)
}

pub open spec fn log_tail_spec(start: u64, read: usize, len: u64, contents: Seq<char>) -> Seq<char> {
    if start > 0 {
        "[codexhub diagnostics] log truncated; showing last "@ + crate::tool_names::decimal(read as nat)
            + " bytes of "@ + crate::tool_names::decimal(len as nat) + " bytes\n"@ + contents
    } else {
        contents
    }
}

/// The text a log contributes: what was read from `start` on (`read`
/// bytes, as text), headed by a note when the log was cut.
pub fn log_tail_text(start: u64, read: usize, len: u64, contents: &str) -> (r: String)
    ensures
        r@ == log_tail_spec(start, read, len, contents@),
{
    if start == 0 {
        return String::from_str(contents);
    }
    let mut m = to_chars("[codexhub diagnostics] log truncated; showing last ");
    append_vec(&mut m, &crate::tool_names::decimal_exec(read));
    append_str(&mut m, " bytes of ");
    append_vec(&mut m, &crate::tool_names::decimal_u64(len));
    append_str(&mut m, " bytes\n");
    append_str(&mut m, contents);
    from_chars(&m)
}

// ─── which logs ────────────────────────────────────────────────────────

/// A log file found in the log directory: its name, when it was last
/// modified (nanoseconds since the Unix epoch) and its length in bytes.
#[derive(Debug)]
pub struct LogCandidate {
    pub file_name: String,
    pub modified_ns: u128,
    pub len: u64,
}

impl View for LogCandidate {
    type V = (Seq<char>, u128, u64);

    open spec fn view(&self) -> (Seq<char>, u128, u64) {
        (self.file_name@, self.modified_ns, self.len)
    }
}

impl LogCandidate {
    pub fn copy(&self) -> (r: LogCandidate)
        ensures
            r@ == self@,
    {
        LogCandidate { file_name: self.file_name.clone(), modified_ns: self.modified_ns, len: self.len }
    }
}

pub open spec fn logs_view(s: Seq<LogCandidate>) -> Seq<(Seq<char>, u128, u64)> {
    s.map_values(|c: LogCandidate| c@)
}

/// `a` sorts before `b` as strings, comparing from position `i` on.
pub open spec fn name_lt_from(a: Seq<char>, b: Seq<char>, i: int) -> bool
    decreases a.len() - i,
{
    if i < 0 || i >= a.len() {
        0 <= i < b.len()
    } else if i >= b.len() {
        false
    } else if a[i] != b[i] {
        (a[i] as u32) < (b[i] as u32)
    } else {
        name_lt_from(a, b, i + 1)
    }
}

pub open spec fn name_lt(a: Seq<char>, b: Seq<char>) -> bool {
    name_lt_from(a, b, 0)
}

/// The bundle's order of logs: newer first, then by file name.
pub open spec fn log_before(a: (Seq<char>, u128, u64), b: (Seq<char>, u128, u64)) -> bool {
    a.1 > b.1 || (a.1 == b.1 && name_lt(a.0, b.0))
}

pub open spec fn log_not_after(a: (Seq<char>, u128, u64), b: (Seq<char>, u128, u64)) -> bool {
    !log_before(b, a)
}

proof fn lemma_name_lt_trans(a: Seq<char>, b: Seq<char>, c: Seq<char>, i: int)
    requires
        0 <= i,
        name_lt_from(a, b, i),
        name_lt_from(b, c, i),
    ensures
        name_lt_from(a, c, i),
    decreases a.len() - i,
{
    if i < a.len() && i < b.len() && i < c.len() && a[i] == b[i] && b[i] == c[i] {
        lemma_name_lt_trans(a, b, c, i + 1);
    }
}

proof fn lemma_name_lt_irreflexive(a: Seq<char>, i: int)
    requires
        0 <= i,
    ensures
        !name_lt_from(a, a, i),
    decreases a.len() - i,
{
    if i < a.len() {
        lemma_name_lt_irreflexive(a, i + 1);
    }
}

proof fn lemma_log_before_trans(a: (Seq<char>, u128, u64), b: (Seq<char>, u128, u64), c: (Seq<char>, u128, u64))
    requires
        log_before(a, b),
        log_before(b, c),
    ensures
        log_before(a, c),
{
    if a.1 == b.1 && b.1 == c.1 {
        lemma_name_lt_trans(a.0, b.0, c.0, 0);
    }
}

fn name_lt_exec(a: &str, b: &str) -> (r: bool)
    ensures
        r == name_lt(a@, b@),
{
    let av = to_chars(a);
    let bv = to_chars(b);
    let mut i: usize = 0;
    loop
        invariant
            av@ == a@,
            bv@ == b@,
            i <= av@.len(),
            i <= bv@.len(),
            name_lt(a@, b@) == name_lt_from(a@, b@, i as int),
        decreases av@.len() - i,
    {
        if i >= av.len() {
            return i < bv.len();
        }
        if i >= bv.len() {
            return false;
        }
        if av[i] != bv[i] {
            return (av[i] as u32) < (bv[i] as u32);
        }
        i += 1;
    }
}

fn log_before_exec(a: &LogCandidate, b: &LogCandidate) -> (r: bool)
    ensures
        r == log_before(a@, b@),
{
    a.modified_ns > b.modified_ns || (a.modified_ns == b.modified_ns && name_lt_exec(
        a.file_name.as_str(),
        b.file_name.as_str(),
    ))
}

/// `taken` picks `r` out of `c`: each from a different candidate, and
/// none left out comes before any taken.
pub open spec fn picks(r: Seq<(Seq<char>, u128, u64)>, c: Seq<(Seq<char>, u128, u64)>, taken: Seq<int>) -> bool {
    &&& taken.len() == r.len()
    &&& forall|k: int| 0 <= k < taken.len() ==> 0 <= #[trigger] taken[k] < c.len()
    &&& forall|k: int| 0 <= k < taken.len() ==> r[k] == c[#[trigger] taken[k]]
    &&& taken.no_duplicates()
    &&& forall|k: int, j: int|
        0 <= k < taken.len() && 0 <= j < c.len() && !taken.contains(j) ==> log_not_after(#[trigger] r[k], #[trigger] c[j])
}

/// The logs a bundle takes, in the order it writes them: the
/// `MAX_LOG_FILES` first of the candidates in the bundle's order (newest
/// first, then by name).
pub fn select_logs(candidates: &Vec<LogCandidate>) -> (r: Vec<LogCandidate>)
    ensures
        r@.len() == if candidates@.len() < MAX_LOG_FILES { candidates@.len() } else { MAX_LOG_FILES as nat },
        exists|taken: Seq<int>| #[trigger] picks(logs_view(r@), logs_view(candidates@), taken),
        forall|k: int, l: int|
            0 <= k < l < r@.len() ==> log_not_after(#[trigger] logs_view(r@)[k], #[trigger] logs_view(r@)[l]),
{
    let n = candidates.len();
    let want: usize = if n < MAX_LOG_FILES { n } else { MAX_LOG_FILES };
    let ghost cv = logs_view(candidates@);
    let mut taken: Vec<usize> = Vec::new();
    let mut out: Vec<LogCandidate> = Vec::new();
    let ghost mut tk: Seq<int> = Seq::empty();
    while out.len() < want
        invariant
            n == candidates@.len(),
            cv == logs_view(candidates@),
            want <= n,
            want == if n < MAX_LOG_FILES { n } else { MAX_LOG_FILES },
            out@.len() <= want,
            taken@.len() == out@.len(),
            tk.len() == taken@.len(),
            forall|k: int| 0 <= k < tk.len() ==> #[trigger] tk[k] == taken@[k] as int,
            picks(logs_view(out@), cv, tk),
            forall|k: int, l: int|
                0 <= k < l < out@.len() ==> log_not_after(#[trigger] logs_view(out@)[k], #[trigger] logs_view(out@)[l]),
        decreases want - out@.len(),
    {
        let ghost ov = logs_view(out@);
        // the best candidate not taken yet
        let mut best: Option<usize> = None;
        let mut j: usize = 0;
        while j < n
            invariant
                n == candidates@.len(),
                cv == logs_view(candidates@),
                j <= n,
                tk.len() == taken@.len(),
                forall|k: int| 0 <= k < tk.len() ==> #[trigger] tk[k] == taken@[k] as int,
                match best {
                    Some(b) => {
                        &&& b < j
                        &&& !tk.contains(b as int)
                        &&& forall|x: int| 0 <= x < j && !tk.contains(x) ==> log_not_after(cv[b as int], #[trigger] cv[x])
                    },
                    None => forall|x: int| 0 <= x < j ==> tk.contains(x),
                },
            decreases n - j,
        {
            let mut is_taken = false;
            let mut t: usize = 0;
            while t < taken.len()
                invariant
                    t <= taken@.len(),
                    tk.len() == taken@.len(),
                    forall|k: int| 0 <= k < tk.len() ==> #[trigger] tk[k] == taken@[k] as int,
                    is_taken ==> tk.contains(j as int),
                    !is_taken ==> forall|k: int| 0 <= k < t ==> tk[k] != j as int,
                decreases taken@.len() - t,
            {
                if taken[t] == j {
                    is_taken = true;
                    proof {
                        assert(tk[t as int] == j as int);
                    }
                }
                t += 1;
            }
            proof {
                lemma_name_lt_irreflexive(cv[j as int].0, 0);
            }
            if !is_taken {
                match best {
                    None => {
                        best = Some(j);
                    },
                    Some(b) => {
                        if log_before_exec(&candidates[j], &candidates[b]) {
                            proof {
                                assert forall|x: int| 0 <= x < j + 1 && !tk.contains(x) implies log_not_after(
                                    cv[j as int],
                                    #[trigger] cv[x],
                                ) by {
                                    if x < j && log_before(cv[x], cv[j as int]) {
                                        lemma_log_before_trans(cv[x], cv[j as int], cv[b as int]);
                                    }
                                }
                            }
                            best = Some(j);
                        }
                    },
                }
            }
            j += 1;
        }
        // fewer are taken than there are candidates, so one is left
        let b = match best {
            Some(b) => b,
            None => {
                proof {
                    tk.unique_seq_to_set();
                    vstd::seq_lib::seq_to_set_is_finite(tk);
                    vstd::set_lib::lemma_int_range(0, n as int);
                    assert(vstd::set_lib::set_int_range(0, n as int).subset_of(tk.to_set()));
                    vstd::set_lib::lemma_len_subset(vstd::set_lib::set_int_range(0, n as int), tk.to_set());
                    assert(false);
                }
                0
            },
        };
        let c = candidates[b].copy();
        out.push(c);
        taken.push(b);
        proof {
            let old_tk = tk;
            tk = tk.push(b as int);
            let nv = logs_view(out@);
            assert(nv =~= ov.push(cv[b as int]));
            assert forall|k: int| 0 <= k < tk.len() implies nv[k] == cv[#[trigger] tk[k]] by {
                if k < old_tk.len() {
                    assert(nv[k] == ov[k]);
                }
            }
            assert forall|k: int, j: int|
                0 <= k < tk.len() && 0 <= j < n && !tk.contains(j) implies log_not_after(
                    #[trigger] nv[k],
                    #[trigger] cv[j],
                ) by {
                assert(!old_tk.contains(j)) by {
                    if old_tk.contains(j) {
                        let i = choose|i: int| 0 <= i < old_tk.len() && old_tk[i] == j;
                        assert(tk[i] == j);
                    }
                }
                if k < old_tk.len() {
                    assert(nv[k] == ov[k]);
                }
            }
            assert(tk.no_duplicates()) by {
                assert forall|x: int, y: int| 0 <= x < tk.len() && 0 <= y < tk.len() && x != y implies tk[x] != tk[y] by {
                    if x == old_tk.len() && y < old_tk.len() {
                        assert(old_tk.contains(tk[y]));
                    }
                    if y == old_tk.len() && x < old_tk.len() {
                        assert(old_tk.contains(tk[x]));
                    }
                }
            }
            assert forall|k: int, l: int| 0 <= k < l < out@.len() implies log_not_after(
                #[trigger] nv[k],
                #[trigger] nv[l],
            ) by {
                if l < ov.len() {
                    assert(nv[k] == ov[k] && nv[l] == ov[l]);
                } else {
                    assert(nv[k] == ov[k]);
                    assert(0 <= old_tk[k] < n);
                }
            }
            assert(picks(nv, cv, tk));
        }
    }
    out
}

} // verus!
