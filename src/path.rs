//! Paths, held as strings, with the joining and prefix-stripping rules of
//! Unix paths.

use vstd::prelude::*;
use crate::text::{has_prefix, starts_with};

verus! {

/// The path begins at the filesystem root.
pub open spec fn is_absolute(p: Seq<char>) -> bool {
    p.len() > 0 && p[0] == '/'
}

/// `rel` joined onto `base`: an absolute `rel` replaces `base`; otherwise a
/// separator goes between the two unless `base` is empty or already ends in one.
pub open spec fn join_path(base: Seq<char>, rel: Seq<char>) -> Seq<char> {
    if is_absolute(rel) {
        rel
    } else if base.len() == 0 || base.last() == '/' {
        base + rel
    } else {
        base + seq!['/'] + rel
    }
}

/// `root` as the front part of the paths below it: with a trailing separator.
pub open spec fn dir_prefix(root: Seq<char>) -> Seq<char> {
    if root.len() == 0 || root.last() == '/' {
        root
    } else {
        root + seq!['/']
    }
}

/// The path of `path` relative to `root`, where `path` lies strictly below
/// `root` and is written as `root` joined with a relative path.
pub open spec fn relative_to(root: Seq<char>, path: Seq<char>) -> Option<Seq<char>> {
    let prefix = dir_prefix(root);
    if has_prefix(path, prefix) && path.len() > prefix.len() && !is_absolute(
        path.subrange(prefix.len() as int, path.len() as int),
    ) {
        Some(path.subrange(prefix.len() as int, path.len() as int))
    } else {
        None
    }
}

/// Joining a path relative to `root` back onto `root` gives the path itself.
pub proof fn lemma_join_relative(root: Seq<char>, path: Seq<char>)
    requires
        relative_to(root, path) is Some,
    ensures
        join_path(root, relative_to(root, path)->Some_0) == path,
{
    let prefix = dir_prefix(root);
    let rel = path.subrange(prefix.len() as int, path.len() as int);
    assert(path =~= prefix + rel);
    if root.len() == 0 || root.last() == '/' {
        assert(join_path(root, rel) == root + rel);
    } else {
        assert(join_path(root, rel) == root + seq!['/'] + rel);
    }
}

/// Whether the path begins at the filesystem root.
pub fn path_is_absolute(p: &str) -> (r: bool)
    ensures
        r == is_absolute(p@),
{
    if p.unicode_len() == 0 {
        false
    } else {
        p.get_char(0) == '/'
    }
}

/// Whether the path is empty or ends in a separator.
fn ends_in_separator_or_empty(p: &str) -> (r: bool)
    ensures
        r == (p@.len() == 0 || p@.last() == '/'),
{
    let n = p.unicode_len();
    if n == 0 {
        true
    } else {
        p.get_char(n - 1) == '/'
    }
}

/// Joins `rel` onto `base`.
pub fn join(base: &str, rel: &str) -> (r: String)
    ensures
        r@ == join_path(base@, rel@),
{
    proof {
        reveal_strlit("/");
    }
    if path_is_absolute(rel) {
        rel.to_owned()
    } else if ends_in_separator_or_empty(base) {
        let mut r = base.to_owned();
        r.append(rel);
        r
    } else {
        let mut r = base.to_owned();
        r.append("/");
        r.append(rel);
        assert(r@ =~= base@ + seq!['/'] + rel@);
        r
    }
}

/// Takes `root` off the front of `path`, where `path` lies strictly below it.
pub fn relativize(root: &str, path: &str) -> (r: Option<String>)
    ensures
        r matches Some(s) ==> relative_to(root@, path@) == Some(s@),
        r is None ==> relative_to(root@, path@) is None,
{
    proof {
        reveal_strlit("/");
    }
    let n = path.unicode_len();
    let plen: usize = if ends_in_separator_or_empty(root) {
        if !starts_with(path, root) {
            return None;
        }
        root.unicode_len()
    } else {
        let m = root.unicode_len();
        if !starts_with(path, root) || m >= n || path.get_char(m) != '/' {
            proof {
                let prefix = dir_prefix(root@);
                if has_prefix(path@, prefix) {
                    assert(prefix =~= root@ + seq!['/']);
                    assert(path@.subrange(0, m as int) =~= prefix.subrange(0, m as int));
                    assert(prefix.subrange(0, m as int) =~= root@);
                    assert(path@[m as int] == path@.subrange(0, prefix.len() as int)[m as int]);
                }
            }
            return None;
        }
        assert(path@.subrange(0, m + 1) =~= dir_prefix(root@)) by {
            assert(path@.subrange(0, m as int) == root@);
        }
        m + 1
    };
    assert(plen == dir_prefix(root@).len());
    if plen >= n {
        return None;
    }
    let rest = path.substring_char(plen, n);
    if path_is_absolute(rest) {
        return None;
    }
    Some(rest.to_owned())
}

} // verus!
