//! File-system paths as strings, with the platform's own path rules
//! applied by `std::path`.
use vstd::prelude::*;

verus! {

/// A file name that `Path::join` appends as one final component on every
/// platform: not empty, not `.` or `..`, and free of separators and drive
/// colons.
pub open spec fn is_plain_file_name(name: Seq<char>) -> bool {
    &&& name.len() > 0
    &&& name != seq!['.']
    &&& name != seq!['.', '.']
    &&& forall|i: int| 0 <= i < name.len() ==> #[trigger] name[i] != '/' && name[i] != '\\' && name[i] != ':'
}

/// A path separator on some platform: `/` everywhere, `\` on Windows.
pub open spec fn is_sep(c: char) -> bool {
    c == '/' || c == '\\'
}

/// Where the first `/` of `d` stands, or `d`'s length when it has none.
pub open spec fn slash_index(d: Seq<char>) -> int
    decreases d.len(),
{
    if d.len() == 0 {
        0
    } else if d[0] == '/' {
        0
    } else {
        1 + slash_index(d.drop_first())
    }
}

pub proof fn lemma_slash_index(d: Seq<char>)
    ensures
        0 <= slash_index(d) <= d.len(),
        slash_index(d) < d.len() ==> d[slash_index(d)] == '/',
        forall|j: int| 0 <= j < slash_index(d) ==> d[j] != '/',
    decreases d.len(),
{
    if d.len() > 0 && d[0] != '/' {
        lemma_slash_index(d.drop_first());
        assert forall|j: int| 0 <= j < slash_index(d) implies d[j] != '/' by {
            if j > 0 {
                assert(d[j] == d.drop_first()[j - 1]);
            }
        }
    }
}

/// Plain file names joined by single `/`: a relative directory that reads
/// the same on every platform.
pub open spec fn is_name_run(d: Seq<char>) -> bool
    decreases d.len(),
{
    let i = slash_index(d);
    if i >= d.len() {
        is_plain_file_name(d)
    } else {
        proof {
            lemma_slash_index(d);
        }
        i >= 0 && is_plain_file_name(d.take(i)) && is_name_run(d.skip(i + 1))
    }
}

/// A directory written portably: a run of plain names, relative or after a
/// leading `/`.
pub open spec fn is_portable_dir(d: Seq<char>) -> bool {
    is_name_run(d) || (d.len() > 0 && d[0] == '/' && is_name_run(d.drop_first()))
}

/// `path` is the plain file name `f` in the portable directory `d`.
pub open spec fn portable_split(path: Seq<char>, d: Seq<char>, f: Seq<char>) -> bool {
    path == d + seq!['/'] + f && is_portable_dir(d) && is_plain_file_name(f)
}

/// A base that `Path::join` extends by one separator on every platform:
/// not empty, no drive colon, not starting with `\` (a Windows prefix) and
/// not ending with a separator.
pub open spec fn is_join_base(base: Seq<char>) -> bool {
    &&& base.len() > 0
    &&& base[0] != '\\'
    &&& !is_sep(base.last())
    &&& forall|i: int| 0 <= i < base.len() ==> #[trigger] base[i] != ':'
}

/// `r` is `base`, one separator, then `name`.
pub open spec fn joined(r: Seq<char>, base: Seq<char>, name: Seq<char>) -> bool {
    &&& r.len() == base.len() + 1 + name.len()
    &&& r.take(base.len() as int) == base
    &&& is_sep(r[base.len() as int])
    &&& r.skip(base.len() as int + 1) == name
}

pub proof fn lemma_name_run_base(d: Seq<char>)
    requires
        is_name_run(d),
    ensures
        d.len() > 0,
        d[0] != '/' && d[0] != '\\',
        !is_sep(d.last()),
        forall|i: int| 0 <= i < d.len() ==> #[trigger] d[i] != ':' && d[i] != '\\',
    decreases d.len(),
{
    lemma_slash_index(d);
    let i = slash_index(d);
    if i >= d.len() {
        assert(d[0] != '/');
        assert(d[d.len() - 1] != '/');
    } else {
        let head = d.take(i);
        let tail = d.skip(i + 1);
        lemma_name_run_base(tail);
        assert(head.len() > 0);
        assert(d[0] == head[0]);
        assert(d.last() == tail.last());
        assert forall|k: int| 0 <= k < d.len() implies #[trigger] d[k] != ':' && d[k] != '\\' by {
            if k < i {
                assert(d[k] == head[k]);
            } else if k > i {
                assert(d[k] == tail[k - i - 1]);
            }
        }
    }
}

/// A portable directory is a base that `Path::join` extends by one
/// separator.
pub proof fn lemma_portable_base(d: Seq<char>)
    requires
        is_portable_dir(d),
    ensures
        is_join_base(d),
{
    if is_name_run(d) {
        lemma_name_run_base(d);
    } else {
        let t = d.drop_first();
        lemma_name_run_base(t);
        assert(d.last() == t.last());
        assert forall|i: int| 0 <= i < d.len() implies #[trigger] d[i] != ':' by {
            if i > 0 {
                assert(d[i] == t[i - 1]);
            }
        }
    }
}

/// A plain name joined onto a join base gives a join base again.
pub proof fn lemma_joined_base(r: Seq<char>, d: Seq<char>, a: Seq<char>)
    requires
        joined(r, d, a),
        is_join_base(d),
        is_plain_file_name(a),
    ensures
        is_join_base(r),
{
    assert(r[0] == r.take(d.len() as int)[0]);
    assert(r.last() == r.skip(d.len() as int + 1).last());
    assert forall|i: int| 0 <= i < r.len() implies #[trigger] r[i] != ':' by {
        if i < d.len() {
            assert(r[i] == r.take(d.len() as int)[i]);
        } else if i > d.len() {
            assert(r[i] == r.skip(d.len() as int + 1)[i - d.len() - 1]);
        }
    }
}

/// A plain file name with a suffix of plain characters stays plain.
pub proof fn lemma_plain_suffix(f: Seq<char>)
    requires
        is_plain_file_name(f),
    ensures
        is_plain_file_name(f + seq!['.', '1']),
{
    let g = f + seq!['.', '1'];
    assert(g.len() >= 3);
    assert(g != seq!['.']);
    assert(g != seq!['.', '.']);
    assert forall|i: int| 0 <= i < g.len() implies #[trigger] g[i] != '/' && g[i] != '\\' && g[i] != ':' by {
        if i < f.len() {
            assert(g[i] == f[i]);
        }
    }
}

/// What `Path::parent` gives for a path text (valid UTF-8 throughout).
pub uninterp spec fn parent_of(path: Seq<char>) -> Option<Seq<char>>;

/// What `Path::join` gives for a base and a name.
pub uninterp spec fn joined_path(base: Seq<char>, name: Seq<char>) -> Seq<char>;

/// What `PathBuf::set_file_name` makes of a path and a name.
pub uninterp spec fn renamed_path(path: Seq<char>, name: Seq<char>) -> Seq<char>;

/// A directory whose last component `Path::parent` gives back as written:
/// `.`, or a non-empty portable directory.
pub open spec fn is_dir_for_join(d: Seq<char>) -> bool {
    d == seq!['.'] || (is_portable_dir(d) && d.len() > 0)
}

/// `Path::parent`, as text, named by `parent_of`. The parent is the start of the path; a plain
/// file name has the empty parent, and a plain file name in a portable
/// directory has that directory. What other paths give follows the
/// platform's separator rules and is left unsaid.
#[verifier::external_body]
pub(crate) fn path_parent(path: &str) -> (r: Option<String>)
    ensures
        crate::tool_names::opt_view(r) == parent_of(path@),
        crate::tool_names::opt_view(r) matches Some(p) ==> crate::text::starts_with(path@, p),
        is_plain_file_name(path@) ==> crate::tool_names::opt_view(r) == Some(Seq::<char>::empty()),
        forall|d: Seq<char>, f: Seq<char>|
            #![trigger portable_split(path@, d, f)]
            portable_split(path@, d, f) ==> crate::tool_names::opt_view(r) == Some(d),
{
    std::path::Path::new(path).parent().map(|p| p.to_string_lossy().into_owned())
}

/// `Path::join`, as text, named by `joined_path`. A plain file name is appended as the last
/// component: onto an empty base it is the whole result, onto a base that
/// every platform extends the same way it follows one separator (`/`, or
/// `\` on Windows). Other bases are left unsaid.
#[verifier::external_body]
pub(crate) fn path_join(base: &str, name: &str) -> (r: String)
    ensures
        r@ == joined_path(base@, name@),
        is_plain_file_name(name@) ==> crate::text::ends_with(r@, name@),
        is_plain_file_name(name@) && base@.len() == 0 ==> r@ == name@,
        is_plain_file_name(name@) && is_join_base(base@) ==> joined(r@, base@, name@),
{
    std::path::Path::new(base).join(name).to_string_lossy().into_owned()
}

/// A file name of `path`: a non-empty part of its text.
pub open spec fn is_file_name_of(path: Seq<char>, name: Option<Seq<char>>) -> bool {
    name matches Some(n) ==> n.len() > 0 && crate::text::contains(path, n)
}

/// `Path::file_name`, as text: the final component, if the path has one
/// that is valid UTF-8. It is a non-empty part of the path's text; a plain
/// file name is its own file name, and so is the name after a portable
/// directory. Other paths follow the platform's separator rules and are
/// left unsaid.
#[verifier::external_body]
pub(crate) fn path_file_name(path: &str) -> (r: Option<String>)
    ensures
        is_file_name_of(path@, crate::tool_names::opt_view(r)),
        is_plain_file_name(path@) ==> crate::tool_names::opt_view(r) == Some(path@),
        forall|d: Seq<char>, f: Seq<char>|
            #![trigger portable_split(path@, d, f)]
            portable_split(path@, d, f) ==> crate::tool_names::opt_view(r) == Some(f),
{
    std::path::Path::new(path).file_name().and_then(|n| n.to_str()).map(|n| n.to_string())
}

/// `PathBuf::set_file_name`, as text, named by `renamed_path`. A plain file
/// name replaces a plain file name, and follows one separator after a
/// portable directory; the result always ends with it. A plain name joined
/// onto `.` or a portable directory is popped back to that directory before
/// the new name is joined on. Other paths are left unsaid.
#[verifier::external_body]
pub(crate) fn path_with_file_name(path: &str, name: &str) -> (r: String)
    ensures
        r@ == renamed_path(path@, name@),
        forall|d: Seq<char>, f: Seq<char>|
            #![trigger joined_path(d, f)]
            is_dir_for_join(d) && is_plain_file_name(f) && is_plain_file_name(name@) && path@ == joined_path(d, f)
                ==> r@ == joined_path(d, name@),
        is_plain_file_name(name@) ==> crate::text::ends_with(r@, name@),
        is_plain_file_name(name@) && is_plain_file_name(path@) ==> r@ == name@,
        forall|d: Seq<char>, f: Seq<char>|
            #![trigger portable_split(path@, d, f)]
            portable_split(path@, d, f) && is_plain_file_name(name@) ==> joined(r@, d, name@),
{
    let mut p = std::path::PathBuf::from(path);
    p.set_file_name(name);
    p.to_string_lossy().into_owned()
}

/// The directory that holds a file: its parent, unless that is missing or
/// empty, in which case the current directory `.`.
pub open spec fn dir_or_current(parent: Option<Seq<char>>) -> Seq<char> {
    match parent {
        Some(p) => if p.len() > 0 {
            p
        } else {
            seq!['.']
        },
        None => seq!['.'],
    }
}

pub fn dir_or_current_exec(parent: Option<String>) -> (r: String)
    ensures
        r@ == dir_or_current(crate::tool_names::opt_view(parent)),
{
    match parent {
        Some(p) => {
            if p.as_str().is_empty() {
                let d = vec!['.'];
                assert(d@ =~= seq!['.']);
                crate::text::from_chars(&d)
            } else {
                p
            }
        },
        None => {
            let d = vec!['.'];
            assert(d@ =~= seq!['.']);
            crate::text::from_chars(&d)
        },
    }
}


/// The parent of a path as `Path::parent` gives it (possibly empty), or
/// `.` when it has none.
pub open spec fn parent_or_dot(parent: Option<Seq<char>>) -> Seq<char> {
    match parent {
        Some(p) => p,
        None => seq!['.'],
    }
}

pub fn parent_or_dot_exec(parent: Option<String>) -> (r: String)
    ensures
        r@ == parent_or_dot(crate::tool_names::opt_view(parent)),
{
    match parent {
        Some(p) => p,
        None => {
            let d = vec!['.'];
            assert(d@ =~= seq!['.']);
            crate::text::from_chars(&d)
        },
    }
}

} // verus!
