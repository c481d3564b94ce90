use magro::actions::{clone_collection, CommandError};
use magro::collection::{Collection, CollectionName};
use magro::collections::Collections;
use magro::config::{CollectionsConfig, Config, LoadError, LoadErrorKind, MainConfig};

fn name(s: &str) -> CollectionName {
    CollectionName::new(s).unwrap()
}

#[test]
fn loaded_config_is_clean_until_changed() {
    let mut list = Collections::new();
    list.insert(Collection::new(name("work"), "w".to_string()));
    let mut config = Config::new(MainConfig::default(), Some(CollectionsConfig::new(None, list)));
    assert!(!config.take_dirty());
    assert_eq!(config.collections().len(), 1);
    config.collections_mut().remove("work");
    assert!(config.take_dirty());
    assert!(config.collections().is_empty());
    config.set_default_collection(Some(name("w")));
    assert!(config.take_dirty());
    assert_eq!(config.collections_config().default_collection().unwrap().as_str(), "w");
}

#[test]
fn missing_default_collection_is_reported() {
    let config = Config::new(MainConfig::default(), Some(CollectionsConfig::new(Some(name("gone")), Collections::new())));
    match clone_collection(&config, None) {
        Err(CommandError::DefaultNotFound(n)) => assert_eq!(n.as_str(), "gone"),
        _ => panic!("a default collection that is not registered is reported"),
    }
}

#[test]
fn load_errors_carry_kind_path_and_message() {
    let e = LoadError::from_decode("bad toml".to_string());
    assert_eq!(e.kind(), LoadErrorKind::Decode);
    assert_eq!(e.path(), None);
    let e = e.and_path("/c/collections.toml".to_string());
    assert_eq!(e.path(), Some("/c/collections.toml"));
    assert_eq!(e.message(), "bad toml");
    assert_eq!(e.kind().as_str(), "Decode error");
    let io = LoadError::from_io("denied".to_string());
    assert_eq!(io.kind(), LoadErrorKind::Io);
    assert_eq!(io.kind().as_str(), "I/O error");
}
