//! Filesystem paths, held as strings.
//!
//! A path is the text of a Unix path. Joining follows `PathBuf::push`: an
//! absolute right-hand side replaces the left one; otherwise a `/` is put
//! between the two unless the left side is empty or already ends with one.

use vstd::prelude::*;
use crate::text::{chars_of, push_all, push_str, string_from, starts_with};

verus! {

/// `p` is an absolute path (it starts at the root).
pub open spec fn is_absolute(p: Seq<char>) -> bool {
    p.len() > 0 && p[0] == '/'
}

/// The text of `base.join(rest)`.
pub open spec fn join(base: Seq<char>, rest: Seq<char>) -> Seq<char> {
    if is_absolute(rest) {
        rest
    } else if base.len() > 0 && base.last() != '/' {
        base.push('/') + rest
    } else {
        base + rest
    }
}

/// The text of `expand_tilde(path)` given the home directory the environment reports:
/// `~` alone becomes the home directory, `~/rest` becomes `home.join(rest)`,
/// anything else (or no home directory) is kept as it is.
pub open spec fn expand_tilde_with(path: Seq<char>, home: Option<Seq<char>>) -> Seq<char> {
    match home {
        Some(h) => {
            if path =~= seq!['~'] {
                h
            } else if starts_with(path, seq!['~', '/']) {
                join(h, path.subrange(2, path.len() as int))
            } else {
                path
            }
        },
        None => path,
    }
}

/// The views of an optional string.
pub open spec fn opt_view(o: Option<String>) -> Option<Seq<char>> {
    match o {
        Some(s) => Some(s@),
        None => None,
    }
}

/// `base.join(rest)` on character sequences.
pub(crate) fn join_chars(base: &[char], rest: &[char]) -> (r: Vec<char>)
    ensures
        r@ == join(base@, rest@),
{
    let mut out: Vec<char> = Vec::new();
    if rest.len() > 0 && rest[0] == '/' {
        push_all(&mut out, rest);
        assert(out@ =~= rest@);
        return out;
    }
    push_all(&mut out, base);
    if base.len() > 0 && base[base.len() - 1] != '/' {
        out.push('/');
    }
    push_all(&mut out, rest);
    assert(out@ =~= join(base@, rest@));
    out
}

/// `Path::join`: the text of `base` joined with `rest`.
pub fn join_path(base: &str, rest: &str) -> (r: String)
    ensures
        r@ == join(base@, rest@),
{
    let b = chars_of(base);
    let t = chars_of(rest);
    let v = join_chars(b.as_slice(), t.as_slice());
    string_from(v.as_slice())
}

/// Expand a leading `~` of `path`, given the home directory.
pub fn expand_tilde_in(path: &str, home: &Option<String>) -> (r: String)
    ensures
        r@ == expand_tilde_with(path@, opt_view(*home)),
{
    let p = chars_of(path);
    match home {
        None => string_from(p.as_slice()),
        Some(h) => {
            if p.len() == 1 && p[0] == '~' {
                assert(p@ =~= seq!['~']);
                return h.clone();
            }
            if p.len() >= 2 && p[0] == '~' && p[1] == '/' {
                assert(starts_with(p@, seq!['~', '/']));
                let mut rest: Vec<char> = Vec::new();
                let mut i: usize = 2;
                while i < p.len()
                    invariant
                        2 <= i <= p@.len(),
                        rest@ =~= p@.subrange(2, i as int),
                    decreases p@.len() - i,
                {
                    rest.push(p[i]);
                    i = i + 1;
                }
                let hv = chars_of(h.as_str());
                let v = join_chars(hv.as_slice(), rest.as_slice());
                return string_from(v.as_slice());
            }
            assert(!(p@ =~= seq!['~']));
            assert(!starts_with(p@, seq!['~', '/'])) by {
                if starts_with(p@, seq!['~', '/']) {
                    assert(p@.subrange(0, 2)[0] == p@[0]);
                    assert(p@.subrange(0, 2)[1] == p@[1]);
                }
            }
            string_from(p.as_slice())
        },
    }
}

/// The home directory the environment reports (`dirs::home_dir`), as text.
/// Nothing is stated of it: it comes from `$HOME` or the password database.
#[verifier::external_body]
pub(crate) fn home_dir() -> (r: Option<String>) {
    dirs::home_dir().map(|p| p.to_string_lossy().into_owned())
}

/// The user's configuration directory (`dirs::config_dir`), as text.
/// Nothing is stated of it: it comes from `$XDG_CONFIG_HOME` or the home directory.
#[verifier::external_body]
pub(crate) fn config_dir() -> (r: Option<String>) {
    dirs::config_dir().map(|p| p.to_string_lossy().into_owned())
}

/// The user's data directory (`dirs::data_dir`), as text.
/// Nothing is stated of it: it comes from `$XDG_DATA_HOME` or the home directory.
#[verifier::external_body]
pub(crate) fn data_dir() -> (r: Option<String>) {
    dirs::data_dir().map(|p| p.to_string_lossy().into_owned())
}

/// Whether something exists at `path` (`Path::exists`). Nothing is stated: it reads the disk.
#[verifier::external_body]
pub(crate) fn path_exists(path: &str) -> (r: bool) {
    std::path::Path::new(path).exists()
}

/// Two path texts denote the same path (`Path` equality, which compares components).
pub uninterp spec fn same_path(a: Seq<char>, b: Seq<char>) -> bool;

/// `Path` equality: whether `a` and `b` have the same components.
#[verifier::external_body]
pub(crate) fn paths_equal(a: &str, b: &str) -> (r: bool)
    ensures
        r == same_path(a@, b@),
        a@ == b@ ==> r,
{
    std::path::Path::new(a) == std::path::Path::new(b)
}

/// Expand a leading `~` of `path` to the home directory the environment reports.
pub fn expand_tilde(path: &str) -> (r: String)
    ensures
        exists|h: Option<Seq<char>>| r@ == #[trigger] expand_tilde_with(path@, h),
{
    let home = home_dir();
    let r = expand_tilde_in(path, &home);
    assert(r@ == expand_tilde_with(path@, opt_view(home)));
    r
}

} // verus!
