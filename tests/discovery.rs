use magro::discovery::{test_repo_candidate, ErrorKind, RepoSeeker, RootState, SeekAction, SeekEvent};
use magro::vcs::Vcs;

fn seeker() -> RepoSeeker {
    RepoSeeker::new(RootState::Directory).ok().unwrap().unwrap()
}

fn entry(path: &str, is_dir: bool) -> SeekEvent {
    SeekEvent::Entry { path: path.to_string(), is_dir }
}

#[test]
fn root_states() {
    assert!(matches!(RepoSeeker::new(RootState::Missing), Ok(None)));
    match RepoSeeker::new(RootState::BrokenSymlink) {
        Err(e) => assert_eq!(e.kind(), ErrorKind::RootBrokenSymlink),
        Ok(_) => panic!("a broken symlink root is an error"),
    }
    match RepoSeeker::new(RootState::Unreadable) {
        Err(e) => assert_eq!(e.kind(), ErrorKind::RootUnreadable),
        Ok(_) => panic!("an unreadable root is an error"),
    }
}

#[test]
fn candidates_are_named_git() {
    assert!(test_repo_candidate("/c/proj/.git", true));
    assert!(test_repo_candidate("/c/bare.git", true));
    assert!(!test_repo_candidate("/c/bare.git", false));
    assert!(!test_repo_candidate("/c/git", true));
    assert!(!test_repo_candidate("/c/.git/objects", true));
    assert!(!test_repo_candidate("/c/x.gitx", true));
}

#[test]
fn repository_in_its_work_tree_prunes_both() {
    let mut s = seeker();
    assert!(matches!(s.step(entry("/c/proj", true)), SeekAction::Advance));
    match s.step(entry("/c/proj/.git", true)) {
        SeekAction::Open(p) => assert_eq!(p, "/c/proj/.git"),
        _ => panic!("a .git directory is opened"),
    }
    match s.step(SeekEvent::Opened { workdir: Some("/c/proj/".to_string()) }) {
        SeekAction::Found { entry, skip } => {
            assert_eq!(entry.path(), "/c/proj/.git");
            assert_eq!(entry.vcs(), Vcs::Git);
            assert_eq!(skip, 2);
        }
        _ => panic!("an opened repository is handed out"),
    }
    assert!(matches!(s.step(SeekEvent::WalkEnd), SeekAction::Finish));
}

#[test]
fn bare_repository_prunes_itself_only() {
    let mut s = seeker();
    assert!(matches!(s.step(entry("/c/bare.git", true)), SeekAction::Open(_)));
    match s.step(SeekEvent::Opened { workdir: None }) {
        SeekAction::Found { entry, skip } => {
            assert_eq!(entry.path(), "/c/bare.git");
            assert_eq!(skip, 1);
        }
        _ => panic!("an opened repository is handed out"),
    }
    assert!(matches!(s.step(entry("/c/proj/.git", true)), SeekAction::Open(_)));
    match s.step(SeekEvent::Opened { workdir: Some("/elsewhere".to_string()) }) {
        SeekAction::Found { skip, .. } => assert_eq!(skip, 1),
        _ => panic!("an opened repository is handed out"),
    }
}

#[test]
fn false_positive_is_walked_into() {
    let mut s = seeker();
    assert!(matches!(s.step(entry("/c/.git", true)), SeekAction::Open(_)));
    assert!(matches!(s.step(SeekEvent::NotRepository), SeekAction::Advance));
    assert!(matches!(s.step(entry("/c/.git/inner", true)), SeekAction::Advance));
    assert!(matches!(s.step(entry("/c/.git/inner/.git", true)), SeekAction::Open(_)));
}

#[test]
fn walk_errors_are_handed_out() {
    let mut s = seeker();
    match s.step(SeekEvent::WalkError("permission denied".to_string())) {
        SeekAction::Fail(e) => {
            assert_eq!(e.kind(), ErrorKind::Traversal);
            assert_eq!(e.message(), "permission denied");
        }
        _ => panic!("a walk error is handed out"),
    }
    assert!(matches!(s.step(SeekEvent::Opened { workdir: None }), SeekAction::Advance));
    assert!(matches!(s.step(entry("/c/file.git", false)), SeekAction::Advance));
}
