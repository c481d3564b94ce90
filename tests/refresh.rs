use magro::cache::{Cache, CollectionReposCache, RepoCacheEntry};
use magro::collection::CollectionName;
use magro::discovery::{Error, ErrorKind, RepoEntry};
use magro::path::{join, relativize};
use magro::refresh::{discover_repositories, Refresh, RefreshError, Scan};
use magro::vcs::Vcs;

fn name(s: &str) -> CollectionName {
    CollectionName::new(s).unwrap()
}

fn found(path: &str) -> Result<RepoEntry, Error> {
    Ok(RepoEntry::new(Vcs::Git, path.to_string()))
}

fn walk_error() -> Result<RepoEntry, Error> {
    Err(Error::new(ErrorKind::Traversal, "denied".to_string()))
}

fn listing(cache: &Cache, n: &str) -> Option<Vec<String>> {
    cache
        .collection_repos(&name(n))
        .map(|c| c.repositories().iter().map(|e| e.path().to_string()).collect())
}

fn walked(root: &str, items: Vec<Result<RepoEntry, Error>>) -> Scan {
    Scan::Walked { root: root.to_string(), items }
}

#[test]
fn relative_paths_join_back() {
    for (root, path) in [("/r", "/r/a/.git"), ("/r/", "/r/a/.git"), ("/", "/x.git"), ("r", "r/b/.git")] {
        let rel = relativize(root, path).unwrap();
        assert_eq!(join(root, &rel), path);
    }
    assert_eq!(relativize("/r", "/r/a/.git").unwrap(), "a/.git");
    assert!(relativize("/r", "/rx/.git").is_none());
    assert!(relativize("/r", "/r").is_none());
}

#[test]
fn discovery_relativizes_and_applies_policy() {
    let items = || vec![found("/r/b/.git"), walk_error(), found("/r/a.git")];
    let v = discover_repositories("/r", items(), true).ok().unwrap();
    let got: Vec<&str> = v.iter().map(|e| e.path()).collect();
    assert_eq!(got, vec!["b/.git", "a.git"]);
    match discover_repositories("/r", items(), false) {
        Err(e) => assert_eq!(e.message(), "denied"),
        Ok(_) => panic!("the first walk error stops the discovery"),
    }
    assert_eq!(discover_repositories("/r", vec![found("/r/x/.git")], false).ok().unwrap().len(), 1);
}

#[test]
fn keep_going_isolates_a_broken_root() {
    let mut old = Cache::new();
    let mut stale = CollectionReposCache::new();
    stale.insert(RepoCacheEntry::new(Vcs::Git, "stale/.git".to_string()));
    old.cache_collection_repos(name("broken"), stale);
    let mut refresh = Refresh::new(old, true);
    refresh.record(name("one"), walked("/one", vec![found("/one/p/.git")]));
    refresh.record(
        name("broken"),
        Scan::RootInaccessible(Error::new(ErrorKind::RootBrokenSymlink, "dangling".to_string())),
    );
    refresh.record(name("two"), walked("/two", vec![found("/two/q.git"), walk_error()]));
    assert!(!refresh.is_aborted());
    let outcome = refresh.finish();
    let saved = outcome.save.unwrap();
    assert_eq!(listing(&saved, "one"), Some(vec!["p/.git".to_string()]));
    assert_eq!(listing(&saved, "two"), Some(vec!["q.git".to_string()]));
    assert_eq!(listing(&saved, "broken"), Some(vec![]));
    match outcome.result {
        Err(RefreshError::Failed(names)) => {
            let names: Vec<&str> = names.iter().map(|n| n.as_str()).collect();
            assert_eq!(names, vec!["broken"]);
        }
        _ => panic!("the failed collection is reported"),
    }
}

#[test]
fn without_keep_going_a_failure_saves_nothing() {
    let mut refresh = Refresh::new(Cache::new(), false);
    refresh.record(name("one"), walked("/one", vec![found("/one/p/.git")]));
    refresh.record(name("ghost"), Scan::CollectionMissing);
    assert!(refresh.is_aborted());
    refresh.record(name("two"), walked("/two", vec![found("/two/q.git")]));
    let outcome = refresh.finish();
    assert!(outcome.save.is_none());
    match outcome.result {
        Err(RefreshError::NotFound(n)) => assert_eq!(n.as_str(), "ghost"),
        _ => panic!("the missing collection is reported"),
    }

    let mut refresh = Refresh::new(Cache::new(), false);
    refresh.record(name("one"), walked("/one", vec![walk_error()]));
    let outcome = refresh.finish();
    assert!(outcome.save.is_none());
    match outcome.result {
        Err(RefreshError::Collection { name, error }) => {
            assert_eq!(name.as_str(), "one");
            assert_eq!(error.message(), "denied");
        }
        _ => panic!("the collection whose walk failed is reported"),
    }
}

#[test]
fn missing_collection_fails_under_keep_going() {
    let mut refresh = Refresh::new(Cache::new(), true);
    refresh.record(name("ghost"), Scan::CollectionMissing);
    refresh.record(name("absent"), Scan::RootAbsent);
    let outcome = refresh.finish();
    let saved = outcome.save.unwrap();
    assert_eq!(listing(&saved, "absent"), Some(vec![]));
    assert_eq!(listing(&saved, "ghost"), None);
    assert!(matches!(outcome.result, Err(RefreshError::Failed(ref n)) if n.len() == 1));
}

#[test]
fn refreshing_twice_gives_the_same_cache() {
    let scans = || {
        vec![
            (name("b"), walked("/b", vec![found("/b/z/.git"), found("/b/a/.git")])),
            (name("a"), Scan::RootAbsent),
        ]
    };
    let mut first = Refresh::new(Cache::new(), true);
    for (n, s) in scans() {
        first.record(n, s);
    }
    let once = first.finish();
    assert!(once.result.is_ok());
    let once = once.save.unwrap();
    let mut second = Refresh::new(Cache::new(), true);
    for (n, s) in scans() {
        second.record(n, s);
    }
    let mut again = Refresh::new(second.finish().save.unwrap(), true);
    for (n, s) in scans() {
        again.record(n, s);
    }
    let twice = again.finish().save.unwrap();
    for n in ["a", "b"] {
        assert_eq!(listing(&once, n), listing(&twice, n));
    }
    assert_eq!(listing(&twice, "b"), Some(vec!["a/.git".to_string(), "z/.git".to_string()]));
}
