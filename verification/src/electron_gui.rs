//! Settings the desktop shell derives for the daemon it talks to.
use vstd::prelude::*;
use crate::text::{append_str, append_vec, from_chars, slice_range, starts_with, str_starts_with, to_chars};

verus! {

/// The text without its trailing `/` characters (`trim_end_matches('/')`).
pub open spec fn trim_trailing_slashes(s: Seq<char>) -> Seq<char>
    decreases s.len(),
{
    if s.len() > 0 && s.last() == '/' {
        trim_trailing_slashes(s.drop_last())
    } else {
        s
    }
}

fn trim_trailing_slashes_exec(v: &[char]) -> (r: Vec<char>)
    ensures
        r@ == trim_trailing_slashes(v@),
{
    let mut n: usize = v.len();
    assert(v@.take(n as int) =~= v@);
    while n > 0 && v[n - 1] == '/'
        invariant
            n <= v@.len(),
            trim_trailing_slashes(v@) == trim_trailing_slashes(v@.take(n as int)),
        decreases n,
    {
        assert(v@.take(n as int).drop_last() =~= v@.take(n - 1));
        n -= 1;
    }
    let r = slice_range(v, 0, n);
    assert(r@ =~= v@.take(n as int));
    r
}

/// The daemon's base URL for a bind address: an `http(s)://` address as
/// given, otherwise `http://` before it; trailing slashes dropped.
pub open spec fn base_url(bind: Seq<char>) -> Seq<char> {
    if starts_with(bind, "http://"@) || starts_with(bind, "https://"@) {
        trim_trailing_slashes(bind)
    } else {
        "http://"@ + trim_trailing_slashes(bind)
    }
}

pub fn daemon_base_url(bind: &str) -> (r: String)
    ensures
        r@ == base_url(bind@),
{
    let v = to_chars(bind);
    let t = trim_trailing_slashes_exec(&v);
    if str_starts_with(&v, "http://") || str_starts_with(&v, "https://") {
        return from_chars(&t);
    }
    let mut out: Vec<char> = Vec::new();
    append_str(&mut out, "http://");
    append_vec(&mut out, &t);
    from_chars(&out)
}

/// The npm launcher: `npm.cmd` on Windows, `npm` elsewhere.
pub fn npm_command(windows: bool) -> (r: &'static str)
    ensures
        r@ == if windows {
            "npm.cmd"@
        } else {
            "npm"@
        },
{
    if windows {
        "npm.cmd"
    } else {
        "npm"
    }
}


proof fn lemma_trim_slashes_shape(s: Seq<char>)
    ensures
        trim_trailing_slashes(s).len() <= s.len(),
        trim_trailing_slashes(s) == s.take(trim_trailing_slashes(s).len() as int),
        trim_trailing_slashes(s).len() == 0 || trim_trailing_slashes(s).last() != '/',
    decreases s.len(),
{
    if s.len() > 0 && s.last() == '/' {
        lemma_trim_slashes_shape(s.drop_last());
        let t = trim_trailing_slashes(s.drop_last());
        assert(s.drop_last().take(t.len() as int) =~= s.take(t.len() as int));
    } else {
        assert(s.take(s.len() as int) =~= s);
    }
}

proof fn lemma_prefix_kept(s: Seq<char>, p: Seq<char>)
    requires
        starts_with(s, p),
        trim_trailing_slashes(s).len() >= p.len(),
    ensures
        starts_with(trim_trailing_slashes(s), p),
{
    lemma_trim_slashes_shape(s);
    let t = trim_trailing_slashes(s);
    assert(t.subrange(0, p.len() as int) =~= s.subrange(0, p.len() as int));
}

/// Normalising a base URL again changes nothing, unless the bind address
/// is no more than a scheme and slashes (`""`, `"/"`, `"http://"`).
pub proof fn law_base_url_is_idempotent(bind: Seq<char>)
    requires
        trim_trailing_slashes(bind).len() > if starts_with(bind, "https://"@) {
            8int
        } else if starts_with(bind, "http://"@) {
            7int
        } else {
            0int
        },
    ensures
        base_url(base_url(bind)) == base_url(bind),
{
    reveal_strlit("http://");
    reveal_strlit("https://");
    let t = trim_trailing_slashes(bind);
    lemma_trim_slashes_shape(bind);
    let b = base_url(bind);
    if starts_with(bind, "http://"@) {
        lemma_prefix_kept(bind, "http://"@);
        assert(b == t);
    } else if starts_with(bind, "https://"@) {
        lemma_prefix_kept(bind, "https://"@);
        assert(b == t);
    } else {
        assert(b == "http://"@ + t);
        assert(b.subrange(0, 7) =~= "http://"@);
        assert(b.last() == t.last());
    }
    assert(b.len() > 0 && b.last() != '/');
    assert(trim_trailing_slashes(b) == b);
}

} // verus!
