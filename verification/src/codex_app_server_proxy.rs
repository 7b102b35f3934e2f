//! The app-server proxy between the Codex App and the real Codex CLI:
//! which requests are account reads, how their responses are rewritten to
//! a local account, and how the real CLI is picked among candidates.
use vstd::prelude::*;
use crate::diagnostics_export::{split_lines_of, text_lines};
use crate::json::{insert_member, jget, jget_str, json_string_literal, json_string_text, json_text, lemma_member_views, member_views, parse_json, parsed_json, set_member, to_json_text, Json, JsonV};
use crate::text::{append_str, append_vec, contains, ends_with, eq_str, eq_vec, from_chars, lower, lower_vec, str_contains, str_ends_with, to_chars, trim, trim_str, trim_vec};

verus! {

/// The environment variable through which the Codex App runs this proxy.
pub const CODEX_CLI_PATH_ENV: &'static str = "CODEX_CLI_PATH";

/// The environment variable naming the real Codex CLI.
pub const REAL_CODEX_CLI_PATH_ENV: &'static str = "CODEXHUB_REAL_CODEX_CLI_PATH";

// ─── JSON text of ids ──────────────────────────────────────────────────

/// The key by which a request id is remembered: its JSON text, for string
/// and number ids only.
pub open spec fn id_key(id: JsonV) -> Option<Seq<char>> {
    match id {
        JsonV::Str(s) => Some(json_string_literal(s)),
        JsonV::Number(n) => Some(n),
        _ => None,
    }
}

pub fn request_id_key(id: &Json) -> (r: Option<String>)
    ensures
        crate::tool_names::opt_view(r) == id_key(id@),
{
    match id {
        Json::Str(s) => Some(json_string_text(s.as_str())),
        Json::Number(n) => Some(n.clone()),
        _ => None,
    }
}

/// The id key of an `account/read` request.
pub open spec fn account_read_id(request: JsonV) -> Option<Seq<char>> {
    if jget_str(request, "method"@) == Some("account/read"@) {
        match jget(request, "id"@) {
            Some(id) => id_key(id),
            None => None,
        }
    } else {
        None
    }
}

pub fn account_read_id_of(request: &Json) -> (r: Option<String>)
    ensures
        crate::tool_names::opt_view(r) == account_read_id(request@),
{
    let is_read = match request.get("method") {
        Some(m) => match m.as_str() {
            Some(t) => {
                let v = to_chars(t);
                eq_str(&v, "account/read")
            },
            None => false,
        },
        None => false,
    };
    if !is_read {
        return None;
    }
    match request.get("id") {
        Some(id) => request_id_key(id),
        None => None,
    }
}

/// The id key of a request line, when it is an `account/read` request.
pub open spec fn line_account_read_id(line: Seq<char>) -> Option<Seq<char>> {
    match parsed_json(trim(line)) {
        Some(request) => account_read_id(request),
        None => None,
    }
}

/// The id key of an `account/read` request line; nothing for any other line.
pub fn account_read_request_id(line: &str) -> (r: Option<String>)
    ensures
        crate::tool_names::opt_view(r) == line_account_read_id(line@),
{
    let trimmed = trim_str(line);
    match parse_json(trimmed.as_str()) {
        Some(request) => account_read_id_of(&request),
        None => None,
    }
}

// ─── rewriting the response ────────────────────────────────────────────

/// The local account reported to the Codex App.
pub open spec fn local_account() -> JsonV {
    JsonV::Object(
        seq![
            ("type"@, JsonV::Str("chatgpt"@)),
            ("email"@, JsonV::Str("codexhub-local@example.local"@)),
            ("planType"@, JsonV::Str("pro"@)),
        ],
    )
}

/// The response with its `result` object claiming the local account and no
/// OpenAI authentication; nothing when `result` is not an object.
pub open spec fn with_local_account_spec(response: JsonV) -> Option<JsonV> {
    match response {
        JsonV::Object(m) => match jget(response, "result"@) {
            Some(JsonV::Object(r)) => {
                let r2 = insert_member(
                    insert_member(r, "account"@, local_account()),
                    "requiresOpenaiAuth"@,
                    JsonV::Bool(false),
                );
                Some(JsonV::Object(insert_member(m, "result"@, JsonV::Object(r2))))
            },
            _ => None,
        },
        _ => None,
    }
}

fn local_account_json() -> (r: Json)
    ensures
        r@ == local_account(),
{
    let members = vec![
        (String::from_str("type"), Json::Str(String::from_str("chatgpt"))),
        (String::from_str("email"), Json::Str(String::from_str("codexhub-local@example.local"))),
        (String::from_str("planType"), Json::Str(String::from_str("pro"))),
    ];
    proof {
        lemma_member_views(members@);
        assert(member_views(members@) =~= local_account()->Object_0);
    }
    Json::Object(members)
}

pub fn with_local_account(response: &Json) -> (r: Option<Json>)
    ensures
        match r {
            Some(j) => with_local_account_spec(response@) == Some(j@),
            None => with_local_account_spec(response@) is None,
        },
{
    match response {
        Json::Object(m) => {
            let result = match response.get("result") {
                Some(Json::Object(r)) => r,
                _ => return None,
            };
            let mut r2: Vec<(String, Json)> = Vec::new();
            let mut k: usize = 0;
            while k < result.len()
                invariant
                    k <= result@.len(),
                    member_views(r2@) == member_views(result@.take(k as int)),
                decreases result@.len() - k,
            {
                let name = result[k].0.clone();
                let v = result[k].1.clone();
                let ghost before = r2@;
                r2.push((name, v));
                proof {
                    assert(r2@.drop_last() =~= before);
                    assert(result@.take(k + 1).drop_last() =~= result@.take(k as int));
                }
                k += 1;
            }
            assert(result@.take(result@.len() as int) =~= result@);
            set_member(&mut r2, "account", local_account_json());
            set_member(&mut r2, "requiresOpenaiAuth", Json::Bool(false));
            let mut top: Vec<(String, Json)> = Vec::new();
            let mut k: usize = 0;
            while k < m.len()
                invariant
                    k <= m@.len(),
                    member_views(top@) == member_views(m@.take(k as int)),
                decreases m@.len() - k,
            {
                let name = m[k].0.clone();
                let v = m[k].1.clone();
                let ghost before = top@;
                top.push((name, v));
                proof {
                    assert(top@.drop_last() =~= before);
                    assert(m@.take(k + 1).drop_last() =~= m@.take(k as int));
                }
                k += 1;
            }
            assert(m@.take(m@.len() as int) =~= m@);
            set_member(&mut top, "result", Json::Object(r2));
            Some(Json::Object(top))
        },
        _ => None,
    }
}

/// The line ending a response line had, to be kept after rewriting.
pub open spec fn line_ending(line: Seq<char>) -> Seq<char> {
    if ends_with(line, seq!['\r', '\n']) {
        seq!['\r', '\n']
    } else if ends_with(line, seq!['\n']) {
        seq!['\n']
    } else {
        Seq::empty()
    }
}

pub fn line_ending_of(line: &str) -> (r: &'static str)
    ensures
        r@ == line_ending(line@),
{
    let v = to_chars(line);
    proof {
        reveal_strlit("\r\n");
        reveal_strlit("\n");
        reveal_strlit("");
        assert("\r\n"@ =~= seq!['\r', '\n']);
        assert("\n"@ =~= seq!['\n']);
        assert(""@ =~= Seq::<char>::empty());
    }
    if str_ends_with(&v, "\r\n") {
        "\r\n"
    } else if str_ends_with(&v, "\n") {
        "\n"
    } else {
        ""
    }
}

/// The id key of a response.
pub open spec fn response_id(response: JsonV) -> Option<Seq<char>> {
    match jget(response, "id"@) {
        Some(id) => id_key(id),
        None => None,
    }
}

/// The ids as plain text.
pub open spec fn id_views(v: Seq<String>) -> Seq<Seq<char>> {
    v.map_values(|s: String| s@)
}

/// What becomes of a response line and of the pending `account/read` ids.
/// A line that is not JSON, has no usable id, or answers no pending read
/// is passed on unchanged. The response to a pending read is taken off the
/// pending list; when its `result` is an object, the line becomes that
/// response claiming the local account, with the line's own ending.
pub open spec fn rewrite_outcome(line: Seq<char>, pending: Seq<Seq<char>>) -> (Seq<char>, Seq<Seq<char>>) {
    match parsed_json(trim(line)) {
        None => (line, pending),
        Some(response) => match response_id(response) {
            None => (line, pending),
            Some(id) => if !pending.contains(id) {
                (line, pending)
            } else {
                match with_local_account_spec(response) {
                    Some(rewritten) => (json_text(rewritten) + line_ending(line), pending.remove_value(id)),
                    None => (line, pending.remove_value(id)),
                }
            },
        },
    }
}

/// The position of `id` among the pending ids.
fn pending_index(pending: &Vec<String>, id: &String) -> (r: Option<usize>)
    ensures
        id_views(pending@).index_of_first(id@) == match r {
            Some(i) => Some(i as int),
            None => None::<int>,
        },
{
    let ghost ps = id_views(pending@);
    let key = to_chars(id.as_str());
    let mut i: usize = 0;
    while i < pending.len()
        invariant
            i <= pending@.len(),
            ps == id_views(pending@),
            key@ == id@,
            forall|j: int| 0 <= j < i ==> ps[j] != id@,
        decreases pending@.len() - i,
    {
        let cand = to_chars(pending[i].as_str());
        if eq_vec(&cand, &key) {
            proof {
                ps.index_of_first_ensures(id@);
                assert(ps[i as int] == id@);
                assert(ps.contains(id@));
                let k = ps.index_of_first(id@)->0;
                if k < i {
                    assert(ps[k] != id@);
                } else if k > i {
                }
            }
            return Some(i);
        }
        i += 1;
    }
    proof {
        ps.index_of_first_ensures(id@);
        if ps.contains(id@) {
            let k = ps.index_of_first(id@)->0;
            assert(ps[k] == id@);
        }
    }
    None
}

/// Rewrites the response to a pending `account/read` request so that it
/// reports the local account, and takes its id off the pending list.
pub fn rewrite_account_read_response(line: &str, pending: &mut Vec<String>) -> (r: String)
    ensures
        (r@, id_views(final(pending)@)) == rewrite_outcome(line@, id_views(old(pending)@)),
{
    let unchanged = String::from_str(line);
    let trimmed = trim_str(line);
    let response = match parse_json(trimmed.as_str()) {
        Some(j) => j,
        None => return unchanged,
    };
    let id = match response.get("id") {
        Some(v) => match request_id_key(v) {
            Some(k) => k,
            None => return unchanged,
        },
        None => return unchanged,
    };
    let index = match pending_index(pending, &id) {
        Some(i) => i,
        None => {
            proof {
                id_views(pending@).index_of_first_ensures(id@);
            }
            return unchanged;
        },
    };
    let ghost before = id_views(pending@);
    proof {
        before.index_of_first_ensures(id@);
    }
    pending.remove(index);
    proof {
        assert(id_views(pending@) =~= before.remove(index as int));
    }
    match with_local_account(&response) {
        Some(rewritten) => {
            let text = to_json_text(&rewritten);
            let mut out = to_chars(text.as_str());
            append_str(&mut out, line_ending_of(line));
            from_chars(&out)
        },
        None => unchanged,
    }
}

// ─── picking the real CLI ──────────────────────────────────────────────

/// A path inside the Windows Store package directory (on Windows only).
pub open spec fn is_store_package_path(path: Seq<char>, windows: bool) -> bool {
    let unified = Seq::new(path.len(), |i: int| if path[i] == '/' { '\\' } else { path[i] });
    windows && contains(lower(unified), "\\program files\\windowsapps\\"@)
}

pub fn is_windows_store_package_path(path: &str, windows: bool) -> (r: bool)
    ensures
        r == is_store_package_path(path@, windows),
{
    if !windows {
        return false;
    }
    let v = to_chars(path);
    let mut u: Vec<char> = Vec::new();
    let mut i: usize = 0;
    while i < v.len()
        invariant
            i <= v@.len(),
            u@ =~= Seq::new(v@.len(), |k: int| if v@[k] == '/' { '\\' } else { v@[k] }).take(i as int),
        decreases v@.len() - i,
    {
        u.push(if v[i] == '/' { '\\' } else { v[i] });
        i += 1;
    }
    assert(u@ =~= Seq::new(v@.len(), |k: int| if v@[k] == '/' { '\\' } else { v@[k] }));
    let l = lower_vec(&u);
    str_contains(&l, "\\program files\\windowsapps\\")
}

/// ASCII case-insensitive equality (`str::eq_ignore_ascii_case`).
pub open spec fn eq_ignore_ascii_case(a: Seq<char>, b: Seq<char>) -> bool {
    lower(a) == lower(b)
}

/// Whether std's `Path` equality (component by component) holds of two
/// path texts.
pub uninterp spec fn paths_same(a: Seq<char>, b: Seq<char>) -> bool;

/// `Path == Path`: equal by components, named by `paths_same`. Equal text
/// gives equal paths.
#[verifier::external_body]
fn path_eq(left: &str, right: &str) -> (r: bool)
    ensures
        r == paths_same(left@, right@),
        left@ == right@ ==> r,
{
    std::path::Path::new(left) == std::path::Path::new(right)
}

/// `paths_equivalent` on the canonical forms of two paths: ASCII
/// case-insensitive text on Windows, path equality elsewhere.
pub fn paths_equivalent(left: &str, right: &str, windows: bool) -> (r: bool)
    ensures
        windows ==> r == eq_ignore_ascii_case(left@, right@),
        !windows ==> r == paths_same(left@, right@),
        !windows && left@ == right@ ==> r,
{
    if windows {
        let a = crate::text::lower_str(left);
        let b = crate::text::lower_str(right);
        crate::text::eq_vec(&a, &b)
    } else {
        path_eq(left, right)
    }
}

/// A real CLI can be used: an existing file that is not this proxy and not
/// inside the Store package.
pub fn is_usable_real_cli(is_file: bool, is_current_exe: bool, is_store_package: bool) -> (r: bool)
    ensures
        r == (is_file && !is_current_exe && !is_store_package),
{
    is_file && !is_current_exe && !is_store_package
}

/// The first candidate that can be used.
pub fn resolve_platform_codex_cli(candidates: &Vec<String>, usable: &Vec<bool>) -> (r: Option<String>)
    requires
        candidates@.len() == usable@.len(),
    ensures
        match r {
            Some(p) => exists|i: int|
                0 <= i < candidates@.len() && usable@[i] && p@ == candidates@[i]@ && forall|j: int|
                    0 <= j < i ==> !usable@[j],
            None => forall|i: int| 0 <= i < usable@.len() ==> !usable@[i],
        },
{
    let mut i: usize = 0;
    while i < candidates.len()
        invariant
            i <= candidates@.len(),
            candidates@.len() == usable@.len(),
            forall|j: int| 0 <= j < i ==> !usable@[j],
        decreases candidates@.len() - i,
    {
        if usable[i] {
            return Some(candidates[i].clone());
        }
        i += 1;
    }
    None
}

/// The paths that `which`/`where` printed: its lines, trimmed, blanks
/// dropped.
pub open spec fn printed_paths(lines: Seq<Seq<char>>) -> Seq<Seq<char>>
    decreases lines.len(),
{
    if lines.len() == 0 {
        Seq::empty()
    } else if trim(lines.last()).len() > 0 {
        printed_paths(lines.drop_last()).push(trim(lines.last()))
    } else {
        printed_paths(lines.drop_last())
    }
}

pub fn command_path_candidates(stdout: &str) -> (r: Vec<String>)
    ensures
        crate::config::strs(r@) == printed_paths(text_lines(stdout@)),
{
    let v = to_chars(stdout);
    let lines = split_lines_of(&v);
    let ghost ls = lines@.map_values(|l: Vec<char>| l@);
    let mut out: Vec<String> = Vec::new();
    let mut i: usize = 0;
    while i < lines.len()
        invariant
            i <= lines@.len(),
            ls == lines@.map_values(|l: Vec<char>| l@),
            ls == text_lines(v@),
            crate::config::strs(out@) == printed_paths(ls.take(i as int)),
        decreases lines@.len() - i,
    {
        assert(ls.take(i + 1).drop_last() =~= ls.take(i as int));
        assert(ls.take(i + 1).last() == lines@[i as int]@);
        let t = trim_vec(&lines[i]);
        if t.len() > 0 {
            let ghost before = out@;
            out.push(from_chars(&t));
            assert(crate::config::strs(out@) =~= crate::config::strs(before).push(t@));
        }
        i += 1;
    }
    assert(ls.take(lines@.len() as int) =~= ls);
    out
}

} // verus!
