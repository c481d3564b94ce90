use std::path::Path;

use magro::resolve::{git_dest_relpath, suppose_vcs_from_uri, DestinationError};
use magro::vcs::Vcs;

fn dest(uri: &str, bare: bool) -> Option<String> {
    git_dest_relpath(uri, bare).ok()
}

#[test]
fn normal_cases() {
    assert_eq!(
        dest("user@example.com:path/to/repo", false).as_deref().map(Path::new),
        Some(Path::new("user@example.com/path/to/repo"))
    );
    assert_eq!(
        dest("https://user@example.com/path/to/repo", false).as_deref().map(Path::new),
        Some(Path::new("user@example.com/path/to/repo"))
    );
    assert_eq!(
        dest("https://example.com/path/to/repo", false).as_deref().map(Path::new),
        Some(Path::new("example.com/path/to/repo"))
    );
    assert_eq!(
        dest("git://user@example.com/path/to/repo", false).as_deref().map(Path::new),
        Some(Path::new("user@example.com/path/to/repo"))
    );
}

#[test]
fn omit_dotgit_suffix_for_non_bare() {
    assert_eq!(
        dest("user@example.com:path/to/repo.git", false).as_deref().map(Path::new),
        Some(Path::new("user@example.com/path/to/repo"))
    );
    assert_eq!(
        dest("https://example.com/path/to/repo.git", false).as_deref().map(Path::new),
        Some(Path::new("example.com/path/to/repo"))
    );
    assert_eq!(
        dest("https://example.com/path/to/repo.git.git", false).as_deref().map(Path::new),
        Some(Path::new("example.com/path/to/repo.git"))
    );
}

#[test]
fn omit_git_user() {
    assert_eq!(
        dest("git@example.com:path/to/repo", false).as_deref().map(Path::new),
        Some(Path::new("example.com/path/to/repo"))
    );
    assert_eq!(
        dest("https://git@example.com/path/to/repo", false).as_deref().map(Path::new),
        Some(Path::new("example.com/path/to/repo"))
    );
}

#[test]
fn path_relative() {
    assert_eq!(
        dest("example.com:/path/to/repo", false).as_deref().map(Path::new),
        Some(Path::new("example.com/path/to/repo"))
    );
    assert_eq!(
        dest("https://example.com//path/to/repo", false).as_deref().map(Path::new),
        Some(Path::new("example.com/path/to/repo"))
    );
}

#[test]
fn resolver_literal_strings() {
    assert_eq!(
        git_dest_relpath("user@example.com:path/to/repo", false),
        Ok("user@example.com/path/to/repo".to_string())
    );
    assert_eq!(
        git_dest_relpath("https://example.com/path/to/repo.git", false),
        Ok("example.com/path/to/repo".to_string())
    );
    assert_eq!(
        git_dest_relpath("https://example.com/path/to/repo.git.git", false),
        Ok("example.com/path/to/repo.git".to_string())
    );
    assert_eq!(
        git_dest_relpath("git@example.com:path/to/repo", false),
        Ok("example.com/path/to/repo".to_string())
    );
    assert_eq!(
        git_dest_relpath("example.com:/path/to/repo", false),
        Ok("example.com/path/to/repo".to_string())
    );
    assert_eq!(git_dest_relpath("/local/path", false), Err(DestinationError::LocalPath));
}

#[test]
fn resolver_rejects_local_shapes() {
    assert_eq!(git_dest_relpath("relative/path", false), Err(DestinationError::LocalPath));
    assert_eq!(git_dest_relpath("./dir:with/colon", false), Err(DestinationError::LocalPath));
    assert_eq!(git_dest_relpath("https:///etc/passwd", false), Err(DestinationError::RootedPath));
}

#[test]
fn resolver_keeps_suffix_for_bare_clones() {
    assert_eq!(
        git_dest_relpath("https://example.com/path/to/repo.git", true),
        Ok("example.com/path/to/repo.git".to_string())
    );
    assert_eq!(
        git_dest_relpath("host:repo.git", true),
        Ok("host/repo.git".to_string())
    );
}

#[test]
fn resolver_keeps_port_and_other_users() {
    assert_eq!(
        git_dest_relpath("ssh://git@example.com:2222/org/repo.git", false),
        Ok("example.com:2222/org/repo".to_string())
    );
    assert_eq!(
        git_dest_relpath("alice@example.com:/org/repo", false),
        Ok("alice@example.com/org/repo".to_string())
    );
    assert_eq!(
        git_dest_relpath("alice@example.com:///org/repo", false),
        Err(DestinationError::RootedPath)
    );
}

#[test]
fn vcs_is_supposed_from_uri() {
    assert_eq!(suppose_vcs_from_uri("https://example.com/repo.git"), Some(Vcs::Git));
    assert_eq!(suppose_vcs_from_uri("git://example.com/repo"), Some(Vcs::Git));
    assert_eq!(suppose_vcs_from_uri("https://user@github.com:443/repo"), Some(Vcs::Git));
    assert_eq!(suppose_vcs_from_uri("https://gitlab.com/repo"), Some(Vcs::Git));
    assert_eq!(suppose_vcs_from_uri("https://example.com/repo"), None);
    assert_eq!(suppose_vcs_from_uri("https://example.com"), None);
    assert_eq!(suppose_vcs_from_uri("https://github.com"), Some(Vcs::Git));
    assert_eq!(suppose_vcs_from_uri("ssh://user@gitea.example:2222"), Some(Vcs::Git));
    assert_eq!(suppose_vcs_from_uri("ssh://git@example.com:22"), None);
    assert_eq!(suppose_vcs_from_uri("example.com:repo"), None);
}
