use magro::cache::{Cache, CollectionReposCache, RepoCacheEntry};
use magro::collection::CollectionName;
use magro::vcs::Vcs;

fn paths(c: &CollectionReposCache) -> Vec<String> {
    c.repositories().iter().map(|e| e.path().to_string()).collect()
}

#[test]
fn same_path_is_one_slot() {
    let mut c = CollectionReposCache::new();
    c.insert(RepoCacheEntry::new(Vcs::Git, "a".to_string()));
    c.insert(RepoCacheEntry::new(Vcs::Git, "a".to_string()));
    assert_eq!(c.len(), 1);
    assert_eq!(paths(&c), vec!["a"]);
    assert_eq!(c.repositories()[0].vcs(), Vcs::Git);
}

#[test]
fn entries_are_sorted_by_bytes_whatever_the_order_of_insertion() {
    let input = ["b/.git", "a-b/.git", "a/b/.git", "A/.git", "\u{e9}/.git", "a/.git"];
    let mut forward = CollectionReposCache::new();
    forward.extend(input.iter().map(|p| RepoCacheEntry::new(Vcs::Git, p.to_string())).collect());
    let mut backward = CollectionReposCache::new();
    for p in input.iter().rev() {
        backward.insert(RepoCacheEntry::new(Vcs::Git, p.to_string()));
    }
    let expected = vec!["A/.git", "a-b/.git", "a/.git", "a/b/.git", "b/.git", "\u{e9}/.git"];
    assert_eq!(paths(&forward), expected);
    assert_eq!(paths(&backward), expected);
    assert!(!forward.is_empty());
}

#[test]
fn cache_replaces_and_removes_collections() {
    let mut cache = Cache::new();
    let work = CollectionName::new("work").unwrap();
    assert!(cache.collection_repos(&work).is_none());
    let mut repos = CollectionReposCache::new();
    repos.insert(RepoCacheEntry::new(Vcs::Git, "x/.git".to_string()));
    assert!(cache.cache_collection_repos(work.clone(), repos).is_none());
    assert_eq!(cache.collection_repos(&work).unwrap().len(), 1);
    let old = cache.cache_collection_repos(work.clone(), CollectionReposCache::new()).unwrap();
    assert_eq!(paths(&old), vec!["x/.git"]);
    assert!(cache.collection_repos(&work).unwrap().is_empty());
    let other = CollectionName::new("a").unwrap();
    cache.cache_collection_repos(other, CollectionReposCache::new());
    let names: Vec<&str> = cache.collections().iter().map(|c| c.name().as_str()).collect();
    assert_eq!(names, vec!["a", "work"]);
    assert!(cache.remove_collection_repos_cache("work").is_some());
    assert!(cache.remove_collection_repos_cache("work").is_none());
    assert!(cache.collection_repos(&work).is_none());
}

#[test]
fn entry_accessors() {
    let e = RepoCacheEntry::new(Vcs::Git, "p/.git".to_string());
    assert_eq!(e.vcs(), Vcs::Git);
    assert_eq!(e.path(), "p/.git");
    assert_eq!(e.into_path(), "p/.git");
}

#[test]
fn paths_can_be_mapped() {
    let e = RepoCacheEntry::new(Vcs::Git, "p/.git".to_string());
    let mapped = e.try_map_ref_path(|p| Ok::<String, ()>(format!("/root/{}", p))).unwrap();
    assert_eq!(mapped.path(), "/root/p/.git");
    assert_eq!(mapped.vcs(), Vcs::Git);
    assert_eq!(e.try_map_ref_path(|_| Err::<String, &str>("refused")), Err("refused"));
}
