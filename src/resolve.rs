//! Where a clone of a repository goes, and which VCS a URI suggests.

use vstd::prelude::*;
use crate::path::{join, join_path};
use crate::text::{
    ends_with, find, first_occurrence, has_prefix, has_suffix, last_occurrence, rfind,
    starts_with, strip_prefix, trim_leading,
};
use crate::vcs::Vcs;

verus! {

/// Why no destination can be derived from a URI.
#[derive(Debug, Clone, Copy, PartialEq, Eq)]
pub enum DestinationError {
    /// The URI has no `:`, or a `/` before its first `:`: it names a local path.
    LocalPath,
    /// The URI has an empty host and would give a path from the filesystem root.
    RootedPath,
}

/// `.git`
pub open spec fn dotgit() -> Seq<char> {
    seq!['.', 'g', 'i', 't']
}

/// `git@`, the generic user of hosted git services.
pub open spec fn git_user() -> Seq<char> {
    seq!['g', 'i', 't', '@']
}

/// `git://`
pub open spec fn git_scheme() -> Seq<char> {
    seq!['g', 'i', 't', ':', '/', '/']
}

/// `://`
pub open spec fn scheme_separator() -> Seq<char> {
    seq![':', '/', '/']
}

/// `uri` without one trailing `.git`, unless the clone is bare.
pub open spec fn strip_dotgit(uri: Seq<char>, bare: bool) -> Seq<char> {
    if !bare && has_suffix(uri, dotgit()) {
        uri.subrange(0, uri.len() - 4)
    } else {
        uri
    }
}

/// The destination, relative to a collection's root, of a git clone of `uri`.
///
/// An scp-like `[user@]host:path` gives `host/path` (the user kept unless it is
/// `git`, leading `/`s of the path dropped); a URL `scheme://[git@]rest` gives
/// `rest`. A URI with no `:`, or with a `/` before its first `:`, is a local
/// path and has no destination; nor has a URL whose result would be absolute.
pub open spec fn dest_relpath(uri_orig: Seq<char>, bare: bool) -> Result<
    Seq<char>,
    DestinationError,
> {
    let uri = strip_dotgit(uri_orig, bare);
    match first_occurrence(uri, seq![':']) {
        None => Err(DestinationError::LocalPath),
        Some(colon) => {
            let before = uri.subrange(0, colon);
            let after = uri.subrange(colon + 1, uri.len() as int);
            if first_occurrence(before, seq!['/']) is Some {
                Err(DestinationError::LocalPath)
            } else if !has_prefix(after, seq!['/', '/']) {
                Ok(join_path(strip_prefix(before, git_user()), trim_leading(after, '/')))
            } else {
                let host_and_path = strip_prefix(after.subrange(2, after.len() as int), git_user());
                if host_and_path.len() > 0 && host_and_path[0] == '/' {
                    Err(DestinationError::RootedPath)
                } else {
                    Ok(host_and_path)
                }
            }
        },
    }
}

/// The host name in the authority of a `scheme://authority[/...]` URI: the
/// authority (what follows `://` up to the next `/`, or to the end) without
/// its user information and its port.
pub open spec fn uri_hostname(uri: Seq<char>) -> Option<Seq<char>> {
    match first_occurrence(uri, scheme_separator()) {
        None => None,
        Some(i) => {
            let rest = uri.subrange(i + 3, uri.len() as int);
            let authority = match first_occurrence(rest, seq!['/']) {
                Some(j) => rest.subrange(0, j),
                None => rest,
            };
            let start = match last_occurrence(authority, seq!['@']) {
                Some(a) => a + 1,
                None => 0,
            };
            let end = match last_occurrence(authority, seq![':']) {
                Some(c) => if c > start {
                    c
                } else {
                    authority.len() as int
                },
                None => authority.len() as int,
            };
            Some(authority.subrange(start, end))
        },
    }
}

/// The VCS that a URI suggests: git for a `.git` suffix, a `git://` scheme, or
/// a host name that begins with `git`; none otherwise.
pub open spec fn supposed_vcs(uri: Seq<char>) -> Option<Vcs> {
    if has_suffix(uri, dotgit()) || has_prefix(uri, git_scheme()) {
        Some(Vcs::Git)
    } else if uri_hostname(uri) matches Some(h) && has_prefix(h, seq!['g', 'i', 't']) {
        Some(Vcs::Git)
    } else {
        None
    }
}

/// `s` without its leading `/` characters.
fn trim_leading_slashes(s: &str) -> (r: &str)
    ensures
        r@ == trim_leading(s@, '/'),
{
    let n = s.unicode_len();
    let mut k: usize = 0;
    assert(s@.subrange(0, n as int) =~= s@);
    while k < n && s.get_char(k) == '/'
        invariant
            n == s@.len(),
            k <= n,
            trim_leading(s@.subrange(k as int, n as int), '/') == trim_leading(s@, '/'),
        decreases n - k,
    {
        assert(s@.subrange(k as int, n as int).drop_first() =~= s@.subrange(k + 1, n as int));
        k += 1;
    }
    s.substring_char(k, n)
}

/// `s` without one leading `git@`.
fn strip_git_user(s: &str) -> (r: &str)
    ensures
        r@ == strip_prefix(s@, git_user()),
{
    proof {
        reveal_strlit("git@");
        assert("git@"@ =~= git_user());
    }
    if starts_with(s, "git@") {
        s.substring_char(4, s.unicode_len())
    } else {
        s
    }
}

/// Calculates the destination of a git clone of `uri_orig`, relative to the
/// root of the collection that receives it.
pub fn git_dest_relpath(uri_orig: &str, bare: bool) -> (r: Result<String, DestinationError>)
    ensures
        match r {
            Ok(p) => dest_relpath(uri_orig@, bare) == Ok::<Seq<char>, DestinationError>(p@),
            Err(e) => dest_relpath(uri_orig@, bare) == Err::<Seq<char>, DestinationError>(e),
        },
{
    proof {
        reveal_strlit(".git");
        reveal_strlit(":");
        reveal_strlit("/");
        reveal_strlit("//");
        assert(".git"@ =~= dotgit());
        assert(":"@ =~= seq![':']);
        assert("/"@ =~= seq!['/']);
        assert("//"@ =~= seq!['/', '/']);
    }
    let n = uri_orig.unicode_len();
    let end = if !bare && ends_with(uri_orig, ".git") {
        n - 4
    } else {
        n
    };
    let uri = uri_orig.substring_char(0, end);
    assert(uri@ == strip_dotgit(uri_orig@, bare));
    let colon = match find(uri, ":") {
        None => return Err(DestinationError::LocalPath),
        Some(c) => c,
    };
    let before = uri.substring_char(0, colon);
    if find(before, "/").is_some() {
        return Err(DestinationError::LocalPath);
    }
    let after = uri.substring_char(colon + 1, end);
    if !starts_with(after, "//") {
        let userhost = strip_git_user(before);
        let path = trim_leading_slashes(after);
        return Ok(join(userhost, path));
    }
    let host_and_path = strip_git_user(after.substring_char(2, after.unicode_len()));
    if crate::path::path_is_absolute(host_and_path) {
        return Err(DestinationError::RootedPath);
    }
    Ok(host_and_path.to_owned())
}

/// Guesses the VCS of a repository from its URI.
pub fn suppose_vcs_from_uri(uri: &str) -> (r: Option<Vcs>)
    ensures
        r == supposed_vcs(uri@),
{
    proof {
        reveal_strlit(".git");
        reveal_strlit("git://");
        reveal_strlit("://");
        reveal_strlit("/");
        reveal_strlit("@");
        reveal_strlit(":");
        reveal_strlit("git");
        assert(".git"@ =~= dotgit());
        assert("git://"@ =~= git_scheme());
        assert("://"@ =~= scheme_separator());
        assert("/"@ =~= seq!['/']);
        assert("@"@ =~= seq!['@']);
        assert(":"@ =~= seq![':']);
        assert("git"@ =~= seq!['g', 'i', 't']);
    }
    if ends_with(uri, ".git") {
        return Some(Vcs::Git);
    }
    if starts_with(uri, "git://") {
        return Some(Vcs::Git);
    }
    let n = uri.unicode_len();
    if let Some(sep) = find(uri, "://") {
        let rest = uri.substring_char(sep + 3, n);
        let authority = match find(rest, "/") {
            Some(first_slash) => rest.substring_char(0, first_slash),
            None => rest,
        };
        let start: usize = match rfind(authority, "@") {
            Some(a) => a + 1,
            None => 0,
        };
        let alen = authority.unicode_len();
        let end: usize = match rfind(authority, ":") {
            Some(c) => if c > start {
                c
            } else {
                alen
            },
            None => alen,
        };
        let hostname = authority.substring_char(start, end);
        if starts_with(hostname, "git") {
            return Some(Vcs::Git);
        }
    }
    None
}

} // verus!
