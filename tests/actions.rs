use magro::actions::{
    add_collection, clone_collection, clone_destination, listed_repos, record_clone, rename_collection,
    select_targets, set_collection_path, set_default, show_path, try_relativize, unregister_collections,
    CommandError,
};
use magro::cache::{Cache, CollectionReposCache, RepoCacheEntry};
use magro::collection::CollectionName;
use magro::collections::Collections;
use magro::config::{Config, CollectionsConfig, MainConfig};
use magro::options::{OptionBool, PathBase};
use magro::resolve::DestinationError;
use magro::vcs::Vcs;

fn name(s: &str) -> CollectionName {
    CollectionName::new(s).unwrap()
}

fn config() -> Config {
    let mut c = Config::new(MainConfig::default(), None);
    assert!(c.take_dirty());
    assert!(!c.take_dirty());
    add_collection(&mut c, name("work"), "/w".to_string()).unwrap();
    add_collection(&mut c, name("play"), "p".to_string()).unwrap();
    assert!(c.take_dirty());
    c
}

#[test]
fn defaults_must_be_registered() {
    let mut c = config();
    assert!(matches!(set_default(&mut c, Some(name("nope"))), Err(CommandError::NotFound(_))));
    assert!(c.default_collection().is_none());
    set_default(&mut c, Some(name("work"))).unwrap();
    assert_eq!(c.default_collection().unwrap().as_str(), "work");
    set_default(&mut c, None).unwrap();
    assert!(c.default_collection().is_none());
    let loaded = Config::new(MainConfig::default(), Some(CollectionsConfig::new(Some(name("x")), Collections::new())));
    assert_eq!(loaded.default_collection().unwrap().as_str(), "x");
}

#[test]
fn registry_commands() {
    let mut c = config();
    let mut cache = Cache::new();
    cache.cache_collection_repos(name("work"), CollectionReposCache::new());
    assert!(matches!(add_collection(&mut c, name("work"), "/x".to_string()), Err(CommandError::AlreadyExists(_))));
    assert_eq!(c.collections().get("work").unwrap().path(), "/w");
    assert!(matches!(
        rename_collection(&mut c, &mut cache, &name("work"), name("play")),
        Err(CommandError::AlreadyExists(_))
    ));
    assert!(matches!(
        rename_collection(&mut c, &mut cache, &name("nope"), name("other")),
        Err(CommandError::NotFound(_))
    ));
    rename_collection(&mut c, &mut cache, &name("work"), name("work")).unwrap();
    assert_eq!(c.collections().get("work").unwrap().path(), "/w");
    rename_collection(&mut c, &mut cache, &name("work"), name("job")).unwrap();
    assert!(c.collections().get("work").is_none());
    assert_eq!(c.collections().get("job").unwrap().path(), "/w");
    assert!(cache.collection_repos(&name("job")).is_some());
    set_collection_path(&mut c, &name("job"), "/j".to_string()).unwrap();
    assert_eq!(c.collections().get("job").unwrap().path(), "/j");
    assert!(set_collection_path(&mut c, &name("none"), "/j".to_string()).is_err());
    let gone = vec!["job".to_string(), "nope".to_string()];
    assert!(unregister_collections(&mut c, &mut cache, &gone, false).is_err());
    let mut c = config();
    let mut cache = Cache::new();
    cache.cache_collection_repos(name("work"), CollectionReposCache::new());
    let gone = vec!["work".to_string(), "nope".to_string()];
    unregister_collections(&mut c, &mut cache, &gone, true).unwrap();
    assert_eq!(c.collections().len(), 1);
    assert!(cache.collection_repos(&name("work")).is_none());
}

#[test]
fn clone_targets_and_destinations() {
    let mut c = config();
    assert!(matches!(clone_collection(&c, None), Err(CommandError::NoTarget)));
    assert_eq!(clone_collection(&c, Some(&name("play"))).ok().unwrap().path(), "p");
    assert!(matches!(clone_collection(&c, Some(&name("x"))), Err(CommandError::NotFound(_))));
    set_default(&mut c, Some(name("work"))).unwrap();
    assert_eq!(clone_collection(&c, None).ok().unwrap().path(), "/w");

    let (vcs, dest) = clone_destination("https://example.com/o/r.git", None, OptionBool::Auto).ok().unwrap();
    assert_eq!((vcs, dest.as_str()), (Vcs::Git, "example.com/o/r"));
    let (_, dest) = clone_destination("https://example.com/o/r.git", None, OptionBool::Yes).ok().unwrap();
    assert_eq!(dest, "example.com/o/r.git");
    assert!(matches!(clone_destination("https://example.com/o/r", None, OptionBool::No), Err(CommandError::UnknownVcs)));
    assert!(matches!(
        clone_destination("/local", Some(Vcs::Git), OptionBool::No),
        Err(CommandError::Destination(DestinationError::LocalPath))
    ));
}

#[test]
fn clones_are_recorded_in_their_collections() {
    let mut cache = Cache::new();
    cache.cache_collection_repos(name("work"), CollectionReposCache::new());
    record_clone(&mut cache, &name("work"), Vcs::Git, "h/o/r".to_string());
    record_clone(&mut cache, &name("other"), Vcs::Git, "h/o/r".to_string());
    record_clone(&mut cache, &name("work"), Vcs::Git, "h/o/s".to_string());
    assert_eq!(cache.collection_repos(&name("work")).unwrap().len(), 2);
    assert_eq!(cache.collection_repos(&name("other")).unwrap().len(), 1);
}

#[test]
fn listing_selects_and_shows_paths() {
    let c = config();
    let targets = select_targets(c.collections(), &vec![]);
    let all: Vec<&str> = targets.iter().map(|t| t.as_ref().ok().unwrap().name().as_str()).collect();
    assert_eq!(all, vec!["play", "work"]);
    let targets = select_targets(c.collections(), &vec![name("work"), name("zzz")]);
    assert!(targets[0].is_ok());
    assert_eq!(targets[1].as_ref().err().unwrap().as_str(), "zzz");

    let mut cache = Cache::new();
    let mut repos = CollectionReposCache::new();
    repos.insert(RepoCacheEntry::new(Vcs::Git, "b/.git".to_string()));
    repos.insert(RepoCacheEntry::new(Vcs::Git, "a.git".to_string()));
    cache.cache_collection_repos(name("play"), repos);
    let play = c.collections().get("play").unwrap();
    let listed = listed_repos(&cache, play, "/home/me", &None);
    let paths: Vec<&str> = listed.iter().map(|(_, p)| p.as_str()).collect();
    assert_eq!(paths, vec!["/home/me/p/a.git", "/home/me/p/b/.git"]);
    assert_eq!(listed_repos(&cache, play, "/home/me", &Some(vec![])).len(), 0);
    assert_eq!(listed_repos(&cache, play, "/home/me", &Some(vec![Vcs::Git])).len(), 2);
    let work = c.collections().get("work").unwrap();
    assert!(listed_repos(&cache, work, "/home/me", &None).is_empty());

    assert_eq!(try_relativize("/home/me/p/a.git", "/home/me"), "p/a.git");
    assert_eq!(try_relativize("/srv/x", "/home/me"), "/srv/x");
    assert_eq!(try_relativize("/home/me", "/home/me"), "");
    assert_eq!(show_path(PathBase::Root, "/home/me/p/a.git", "/home/me/p", "/home/me"), "/home/me/p/a.git");
    assert_eq!(show_path(PathBase::Collection, "/home/me/p/a.git", "/home/me/p", "/home/me"), "a.git");
    assert_eq!(show_path(PathBase::Home, "/home/me/p/a.git", "/home/me/p", "/home/me"), "p/a.git");
}
