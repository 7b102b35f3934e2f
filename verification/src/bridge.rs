//! Where the IM bridge keeps what it receives.
use vstd::prelude::*;
use crate::paths::{is_plain_file_name, parent_or_dot_exec, path_join, path_parent};
use crate::codex::{array_strings_of, join_with, or_default};
use crate::diagnostics_export::{split_lines_of, text_lines};
use crate::json::{get_str, jget, jget_str, json_text, str_view, Json, JsonV};
use crate::text::{append_str, append_vec, ends_with, from_chars, starts_with, str_starts_with, to_chars};

verus! {

pub open spec fn attachments_name() -> Seq<char> {
    seq!['a', 't', 't', 'a', 'c', 'h', 'm', 'e', 'n', 't', 's']
}

pub open spec fn im_name() -> Seq<char> {
    seq!['.', 'i', 'm']
}

/// `r` is `d`, a separator, `.im`, a separator and `attachments`.
pub open spec fn under_im_attachments(r: Seq<char>, d: Seq<char>) -> bool {
    let k = d.len() + 1 + im_name().len() as int;
    &&& r.len() > k
    &&& crate::paths::joined(r.take(k), d, im_name())
    &&& crate::paths::joined(r, r.take(k), attachments_name())
}

/// `.im/attachments` next to the state file (in `.` when the state path
/// has no parent): after the portable directory of a state file in one,
/// and `.im` then `attachments` for a bare file name, whose parent is empty.
pub fn attachment_root(state_path: &str) -> (r: String)
    ensures
        ends_with(r@, attachments_name()),
        forall|d: Seq<char>, f: Seq<char>|
            #![trigger crate::paths::portable_split(state_path@, d, f)]
            crate::paths::portable_split(state_path@, d, f) ==> under_im_attachments(r@, d),
        is_plain_file_name(state_path@) ==> crate::paths::joined(r@, im_name(), attachments_name()),
{
    let dir = parent_or_dot_exec(path_parent(state_path));
    let im = from_chars(&vec!['.', 'i', 'm']);
    assert(im@ =~= im_name());
    assert(is_plain_file_name(im@));
    let im_dir = path_join(dir.as_str(), im.as_str());
    let name = from_chars(&vec!['a', 't', 't', 'a', 'c', 'h', 'm', 'e', 'n', 't', 's']);
    assert(name@ =~= attachments_name());
    assert(is_plain_file_name(name@));
    let r = path_join(im_dir.as_str(), name.as_str());
    assert forall|d: Seq<char>, f: Seq<char>|
        #![trigger crate::paths::portable_split(state_path@, d, f)]
        crate::paths::portable_split(state_path@, d, f) implies under_im_attachments(r@, d) by {
        crate::paths::lemma_portable_base(d);
        crate::paths::lemma_joined_base(im_dir@, d, im_name());
        assert(r@.take(d.len() + 1 + im_name().len() as int) =~= im_dir@);
    }
    assert(crate::paths::is_join_base(im_name()));
    r
}

/// The command a summary line names: the text between `command: \``
/// (or its Chinese form) and a closing backtick.
pub open spec fn command_in_line(line: Seq<char>) -> Option<Seq<char>> {
    let rest = if starts_with(line, "command: `"@) {
        Some(line.skip(("command: `"@).len() as int))
    } else if starts_with(line, "命令：`"@) {
        Some(line.skip(("命令：`"@).len() as int))
    } else {
        None
    };
    match rest {
        Some(r) => if r.len() > 0 && r.last() == '`' {
            Some(r.drop_last())
        } else {
            None
        },
        None => None,
    }
}

pub open spec fn first_command_line(lines: Seq<Seq<char>>) -> Option<Seq<char>>
    decreases lines.len(),
{
    if lines.len() == 0 {
        None
    } else {
        match command_in_line(lines[0]) {
            Some(c) => Some(c),
            None => first_command_line(lines.drop_first()),
        }
    }
}

pub open spec fn field_text(params: Option<JsonV>, key: Seq<char>) -> Seq<char> {
    match params {
        Some(p) => or_default(jget_str(p, key), Seq::empty()),
        None => Seq::empty(),
    }
}

/// The command of an approval: from the request's `command`, else from the
/// summary's `command:` line.
pub open spec fn approval_command(params: Option<JsonV>, summary: Seq<char>) -> Seq<char> {
    let from_params = match params {
        Some(p) => match jget(p, "command"@) {
            Some(JsonV::Str(t)) => Some(t),
            Some(JsonV::Array(items)) => Some(join_with(crate::codex::array_strings(items), " "@)),
            _ => None,
        },
        None => None,
    };
    match from_params {
        Some(c) => c,
        None => or_default(first_command_line(text_lines(summary)), Seq::empty()),
    }
}

/// The event text recorded when an approval is requested.
pub open spec fn approval_event_text(kind: Seq<char>, request_id: JsonV, params: Option<JsonV>, summary: Seq<char>) -> Seq<char> {
    "kind="@ + kind + " request_id="@ + json_text(request_id) + " turn="@ + field_text(params, "turnId"@) + " item="@
        + field_text(params, "itemId"@) + " cwd="@ + field_text(params, "cwd"@) + " command="@ + approval_command(
        params,
        summary,
    )
}

fn field_text_exec(params: Option<&Json>, key: &str) -> (r: Vec<char>)
    ensures
        r@ == field_text(crate::json::ref_view(params), key@),
{
    match params {
        Some(p) => match get_str(p, key) {
            Some(t) => to_chars(t),
            None => Vec::new(),
        },
        None => Vec::new(),
    }
}

fn command_in_line_exec(line: &Vec<char>) -> (r: Option<Vec<char>>)
    ensures
        crate::codex::opt_chars(r) == command_in_line(line@),
{
    let p1 = to_chars("command: `");
    let p2 = to_chars("命令：`");
    let rest = if crate::text::starts_with_vec(line, &p1) {
        Some(crate::text::slice_from(line, p1.len()))
    } else if crate::text::starts_with_vec(line, &p2) {
        Some(crate::text::slice_from(line, p2.len()))
    } else {
        None
    };
    match rest {
        Some(r) => {
            if r.len() > 0 && r[r.len() - 1] == '`' {
                let c = crate::text::slice_range(&r, 0, r.len() - 1);
                assert(c@ =~= r@.drop_last());
                Some(c)
            } else {
                None
            }
        },
        None => None,
    }
}

fn first_command_line_exec(summary: &str) -> (r: Option<Vec<char>>)
    ensures
        crate::codex::opt_chars(r) == first_command_line(text_lines(summary@)),
{
    let lines = split_lines_of(&to_chars(summary));
    let ghost ls = lines@.map_values(|l: Vec<char>| l@);
    let mut i: usize = 0;
    assert(ls.skip(0) =~= ls);
    while i < lines.len()
        invariant
            i <= lines@.len(),
            ls == lines@.map_values(|l: Vec<char>| l@),
            ls == text_lines(summary@),
            first_command_line(ls) == first_command_line(ls.skip(i as int)),
        decreases lines@.len() - i,
    {
        assert(ls.skip(i as int)[0] == lines@[i as int]@);
        assert(ls.skip(i as int).drop_first() =~= ls.skip(i + 1));
        match command_in_line_exec(&lines[i]) {
            Some(c) => return Some(c),
            None => {},
        }
        i += 1;
    }
    None
}

pub fn approval_event_details(request_kind: &str, request_id: &Json, params: Option<&Json>, summary: &str) -> (r: String)
    ensures
        r@ == approval_event_text(request_kind@, request_id@, crate::json::ref_view(params), summary@),
{
    let from_params: Option<Vec<char>> = match params {
        Some(p) => match p.get("command") {
            Some(Json::Str(t)) => Some(to_chars(t.as_str())),
            Some(Json::Array(items)) => Some(crate::codex::join_vecs(&array_strings_of(items), " ")),
            _ => None,
        },
        None => None,
    };
    let command = match from_params {
        Some(c) => c,
        None => match first_command_line_exec(summary) {
            Some(c) => c,
            None => Vec::new(),
        },
    };
    assert(command@ == approval_command(crate::json::ref_view(params), summary@));
    let mut out = to_chars("kind=");
    append_str(&mut out, request_kind);
    append_str(&mut out, " request_id=");
    let id = crate::json::to_json_text(request_id);
    append_str(&mut out, id.as_str());
    append_str(&mut out, " turn=");
    append_vec(&mut out, &field_text_exec(params, "turnId"));
    append_str(&mut out, " item=");
    append_vec(&mut out, &field_text_exec(params, "itemId"));
    append_str(&mut out, " cwd=");
    append_vec(&mut out, &field_text_exec(params, "cwd"));
    append_str(&mut out, " command=");
    append_vec(&mut out, &command);
    from_chars(&out)
}

} // verus!
