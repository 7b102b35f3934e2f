//! The chain log: which lines are written, when the file is flushed and
//! rotated, and how the written size is tracked. The file itself is opened,
//! written and renamed by the caller, which reports back what happened.
use vstd::prelude::*;
use crate::paths::is_plain_file_name;
use crate::text::{append_str, append_vec, contains, ends_with, from_chars, lower, lower_str, starts_with, str_contains, str_starts_with, to_chars};
use crate::tool_names::{decimal, utf8_len};

verus! {

/// The state of the open chain log.
#[derive(Debug)]
pub struct ChainLog {
    /// The active log file.
    pub path: String,
    /// Diagnostic logging: every line is written.
    pub diagnostic: bool,
    /// Rotate once this many bytes were written (0: never).
    pub max_bytes: u64,
    /// Bytes written since the file was opened or rotated.
    pub written_bytes: u64,
    /// Whether a file is open to write to.
    pub file_open: bool,
}

/// A line that reports a problem.
pub open spec fn is_problem_line(line: Seq<char>) -> bool {
    let l = lower(line);
    ||| contains(l, "level=error"@)
    ||| contains(l, "level=warn"@)
    ||| contains(l, "err="@)
    ||| contains(l, "failed"@)
    ||| contains(l, "timeout"@)
}

/// A line written outside diagnostic mode: problems and errors.
pub open spec fn writes_by_default(line: Seq<char>, diagnostic: bool) -> bool {
    diagnostic || is_problem_line(line) || contains(lower(line), " error"@)
}

pub fn should_flush(line: &str) -> (r: bool)
    ensures
        r == is_problem_line(line@),
{
    let l = lower_str(line);
    str_contains(&l, "level=error") || str_contains(&l, "level=warn") || str_contains(&l, "err=") || str_contains(
        &l,
        "failed",
    ) || str_contains(&l, "timeout")
}

pub fn should_write_default(line: &str, diagnostic: bool) -> (r: bool)
    ensures
        r == writes_by_default(line@, diagnostic),
{
    if diagnostic {
        return true;
    }
    let l = lower_str(line);
    should_flush(line) || str_contains(&l, " error")
}

pub open spec fn diagnostic_on(log: Option<&ChainLog>) -> bool {
    match log {
        Some(l) => l.diagnostic,
        None => false,
    }
}

pub fn diagnostic_enabled(log: Option<&ChainLog>) -> (r: bool)
    ensures
        r == diagnostic_on(log),
{
    match log {
        Some(l) => l.diagnostic,
        None => false,
    }
}

pub fn active_path(log: Option<&ChainLog>) -> (r: Option<String>)
    ensures
        match log {
            Some(l) => r matches Some(p) && p@ == l.path@,
            None => r is None,
        },
{
    match log {
        Some(l) => Some(l.path.clone()),
        None => None,
    }
}

/// `write_line`: whether a line is written, and if so whether the file is
/// flushed after it. Nothing is written without an open log.
pub fn write_line(log: Option<&ChainLog>, line: &str) -> (r: Option<bool>)
    ensures
        match log {
            Some(l) => if writes_by_default(line@, l.diagnostic) {
                r == Some(is_problem_line(line@))
            } else {
                r is None
            },
            None => r is None,
        },
{
    match log {
        Some(l) => {
            if !should_write_default(line, l.diagnostic) {
                return None;
            }
            Some(should_flush(line))
        },
        None => None,
    }
}

/// `write_diagnostic_lazy`: the line is built, and written without a
/// flush, only in diagnostic mode.
pub fn write_diagnostic_lazy<F: FnOnce() -> String>(log: Option<&ChainLog>, build: F) -> (r: Option<String>)
    requires
        build.requires(()),
    ensures
        diagnostic_on(log) == r is Some,
        r matches Some(s) ==> build.ensures((), s),
{
    if !diagnostic_enabled(log) {
        return None;
    }
    Some(build())
}

/// The text of a written line: `[ts_ms=<now>] <line>`.
pub open spec fn written_text(now_ms: u64, line: Seq<char>) -> Seq<char> {
    "[ts_ms="@ + decimal(now_ms as nat) + "] "@ + line
}

pub fn format_line(now_ms: u64, line: &str) -> (r: String)
    ensures
        r@ == written_text(now_ms, line@),
{
    let mut v: Vec<char> = Vec::new();
    append_str(&mut v, "[ts_ms=");
    let d = crate::tool_names::decimal_u64(now_ms);
    append_vec(&mut v, &d);
    append_str(&mut v, "] ");
    append_str(&mut v, line);
    from_chars(&v)
}

/// The UTF-8 length of a line, saturated at `u64::MAX`.
pub fn utf8_len_saturating(line: &str) -> (r: u64)
    ensures
        r == if utf8_len(line@) > u64::MAX {
            u64::MAX as nat
        } else {
            utf8_len(line@)
        },
{
    let v = to_chars(line);
    let mut total: u64 = 0;
    let mut i: usize = v.len();
    while i > 0
        invariant
            i <= v@.len(),
            total == if utf8_len(v@.skip(i as int)) > u64::MAX {
                u64::MAX as nat
            } else {
                utf8_len(v@.skip(i as int))
            },
        decreases i,
    {
        i -= 1;
        assert(v@.skip(i as int).drop_first() =~= v@.skip(i + 1));
        assert(v@.skip(i as int)[0] == v@[i as int]);
        let w = crate::tool_names::char_width(v[i]) as u64;
        total = total.saturating_add(w);
    }
    assert(v@.skip(0) =~= v@);
    total
}

pub open spec fn sat_add(a: nat, b: nat) -> nat {
    if a + b > u64::MAX {
        u64::MAX as nat
    } else {
        a + b
    }
}

impl ChainLog {
    /// A log opened at `path` whose file already holds `written_bytes`.
    pub fn new(path: String, diagnostic: bool, max_bytes: u64, written_bytes: u64) -> (r: ChainLog)
        ensures
            r.path@ == path@,
            r.diagnostic == diagnostic,
            r.max_bytes == max_bytes,
            r.written_bytes == written_bytes,
            r.file_open,
    {
        ChainLog { path, diagnostic, max_bytes, written_bytes, file_open: true }
    }

    /// The file must be rotated before the next line.
    pub fn needs_rotation(&self) -> (r: bool)
        ensures
            r == (self.max_bytes > 0 && self.written_bytes >= self.max_bytes),
    {
        self.max_bytes > 0 && self.written_bytes >= self.max_bytes
    }

    /// After a rotation: a fresh file if it could be reopened, none
    /// otherwise; either way nothing written yet.
    pub fn rotated(&mut self, reopened: bool)
        ensures
            final(self).file_open == reopened,
            final(self).written_bytes == 0,
            final(self).path@ == old(self).path@,
            final(self).diagnostic == old(self).diagnostic,
            final(self).max_bytes == old(self).max_bytes,
    {
        self.file_open = reopened;
        self.written_bytes = 0;
    }

    /// After a line was written: its bytes plus 24 for the time stamp and
    /// line end are counted, saturating.
    pub fn record_write(&mut self, line: &str)
        ensures
            final(self).written_bytes == if old(self).file_open {
                sat_add(sat_add(old(self).written_bytes as nat, utf8_len(line@)), 24)
            } else {
                old(self).written_bytes as nat
            },
            final(self).file_open == old(self).file_open,
            final(self).path@ == old(self).path@,
            final(self).diagnostic == old(self).diagnostic,
            final(self).max_bytes == old(self).max_bytes,
    {
        if self.file_open {
            let n = utf8_len_saturating(line);
            self.written_bytes = self.written_bytes.saturating_add(n).saturating_add(24);
        }
    }

    /// After the logs were cleared: a fresh file, nothing written.
    pub fn cleared(&mut self)
        ensures
            final(self).file_open,
            final(self).written_bytes == 0,
            final(self).path@ == old(self).path@,
            final(self).diagnostic == old(self).diagnostic,
            final(self).max_bytes == old(self).max_bytes,
    {
        self.file_open = true;
        self.written_bytes = 0;
    }
}

/// A CodexHub log file (case-sensitive, unlike the diagnostics filter).
pub open spec fn is_log_file_name(name: Seq<char>) -> bool {
    starts_with(name, "codexhub"@) && contains(name, ".log"@)
}

pub fn is_codexhub_log_path(file_name: Option<&str>) -> (r: bool)
    ensures
        r == match file_name {
            Some(n) => is_log_file_name(n@),
            None => false,
        },
{
    match file_name {
        Some(n) => {
            let v = to_chars(n);
            str_starts_with(&v, "codexhub") && str_contains(&v, ".log")
        },
        None => false,
    }
}

/// The name the rotated file gets: the active file's name (or
/// `codexhub-chain.log`) with `.1` appended.
pub open spec fn rotated_name(file_name: Option<Seq<char>>) -> Seq<char> {
    match file_name {
        Some(n) => n + ".1"@,
        None => "codexhub-chain.log.1"@,
    }
}

pub fn rotated_file_name(file_name: Option<&str>) -> (r: String)
    ensures
        r@ == rotated_name(crate::json::str_view(file_name)),
{
    let mut v: Vec<char> = Vec::new();
    match file_name {
        Some(n) => {
            append_str(&mut v, n);
            append_str(&mut v, ".1");
        },
        None => append_str(&mut v, "codexhub-chain.log.1"),
    }
    from_chars(&v)
}

/// The rotated file next to `path`, given the final component of `path`.
pub fn rotated_path_for(path: &str, file_name: Option<&str>) -> (r: String)
    ensures
        is_plain_file_name(rotated_name(crate::json::str_view(file_name))) ==> ends_with(
            r@,
            rotated_name(crate::json::str_view(file_name)),
        ),
        is_plain_file_name(rotated_name(crate::json::str_view(file_name))) && is_plain_file_name(path@) ==> r@
            == rotated_name(crate::json::str_view(file_name)),
        forall|d: Seq<char>, f: Seq<char>|
            #![trigger crate::paths::portable_split(path@, d, f)]
            crate::paths::portable_split(path@, d, f) && is_plain_file_name(
                rotated_name(crate::json::str_view(file_name)),
            ) ==> crate::paths::joined(r@, d, rotated_name(crate::json::str_view(file_name))),
{
    let name = rotated_file_name(file_name);
    crate::paths::path_with_file_name(path, name.as_str())
}

/// `rotated_path`: the path with its file name replaced by that name with
/// `.1` appended (`codexhub-chain.log.1` where it has none). A bare file
/// name becomes that name with `.1`; a file in a portable directory stays
/// in it. Which file name the platform reads from other paths is left
/// unsaid, beyond its being a part of the path.
pub fn rotated_path(path: &str) -> (r: String)
    ensures
        exists|name: Option<Seq<char>>|
            #![trigger rotated_name(name)]
            crate::paths::is_file_name_of(path@, name) && (is_plain_file_name(rotated_name(name)) ==> ends_with(
                r@,
                rotated_name(name),
            )),
        is_plain_file_name(path@) ==> r@ == path@ + seq!['.', '1'],
        forall|d: Seq<char>, f: Seq<char>|
            #![trigger crate::paths::portable_split(path@, d, f)]
            crate::paths::portable_split(path@, d, f) ==> crate::paths::joined(r@, d, f + seq!['.', '1']),
{
    let name = crate::paths::path_file_name(path);
    let ghost nv = crate::tool_names::opt_view(name);
    let r = match name {
        Some(n) => {
            let s = n.as_str();
            assert(crate::json::str_view(Some(s)) == nv);
            rotated_path_for(path, Some(s))
        },
        None => rotated_path_for(path, None),
    };
    assert(rotated_name(nv) == rotated_name(nv));
    proof {
        reveal_strlit(".1");
        if is_plain_file_name(path@) {
            crate::paths::lemma_plain_suffix(path@);
            assert(".1"@ =~= seq!['.', '1']);
        }
        assert forall|d: Seq<char>, f: Seq<char>|
            #![trigger crate::paths::portable_split(path@, d, f)]
            crate::paths::portable_split(path@, d, f) implies crate::paths::joined(r@, d, f + seq!['.', '1']) by {
            crate::paths::lemma_plain_suffix(f);
            assert(".1"@ =~= seq!['.', '1']);
        }
    }
    r
}

/// Every line that is flushed is also written, in either mode.
pub proof fn law_flushed_lines_are_written(line: Seq<char>, diagnostic: bool)
    ensures
        is_problem_line(line) ==> writes_by_default(line, diagnostic),
{
}

} // verus!
