use magro::collection::{Collection, CollectionName, CollectionNameErrorKind};
use magro::collections::Collections;

fn name(s: &str) -> CollectionName {
    CollectionName::new(s).unwrap()
}

fn names(c: &Collections) -> Vec<String> {
    c.iter().iter().map(|c| c.name().as_str().to_string()).collect()
}

#[test]
fn collection_names_are_validated() {
    assert_eq!(name("hello").as_str(), "hello");
    assert_eq!(name("hello-world").as_str(), "hello-world");
    assert_eq!(name("_hello").as_str(), "_hello");
    assert_eq!(name("1234").as_str(), "1234");
    let kind = |s: &str| CollectionName::new(s).unwrap_err().error_kind();
    assert_eq!(kind(""), CollectionNameErrorKind::Empty);
    assert_eq!(kind("-foo"), CollectionNameErrorKind::LeadingHyphen);
    assert_eq!(kind("foo bar"), CollectionNameErrorKind::InvalidChar(' '));
    assert_eq!(kind("foo/bar"), CollectionNameErrorKind::InvalidChar('/'));
    assert_eq!(kind("\u{03B1}"), CollectionNameErrorKind::InvalidChar('\u{03B1}'));
    assert!("ok_name".parse::<CollectionName>().is_ok());
    assert!(CollectionName::from_string("a b".to_string()).is_err());
}

#[test]
fn collection_paths_resolve_against_home() {
    let rel = Collection::new(name("work"), "src/work".to_string());
    assert_eq!(rel.abspath("/home/me"), "/home/me/src/work");
    assert_eq!(rel.abspath("/home/me/"), "/home/me/src/work");
    let abs = Collection::new(name("abs"), "/srv/repos".to_string());
    assert_eq!(abs.abspath("/home/me"), "/srv/repos");
}

#[test]
fn registry_is_keyed_by_name_and_sorted() {
    let mut c = Collections::new();
    assert!(c.is_empty());
    assert!(c.insert(Collection::new(name("b"), "pb".to_string())).is_none());
    assert!(c.insert(Collection::new(name("a"), "pa".to_string())).is_none());
    assert!(c.insert(Collection::new(name("c"), "pc".to_string())).is_none());
    assert_eq!(names(&c), vec!["a", "b", "c"]);
    let old = c.insert(Collection::new(name("b"), "pb2".to_string())).unwrap();
    assert_eq!(old.path(), "pb");
    assert_eq!(c.len(), 3);
    assert_eq!(c.get("b").unwrap().path(), "pb2");
    assert!(c.get("d").is_none());
    assert!(c.get("not a name").is_none());
    assert_eq!(c.remove("a").unwrap().path(), "pa");
    assert!(c.remove("a").is_none());
    assert_eq!(names(&c), vec!["b", "c"]);
    assert!(c.set_path("c", "elsewhere".to_string()));
    assert_eq!(c.get("c").unwrap().path(), "elsewhere");
    assert!(!c.set_path("zz", "x".to_string()));
}

#[test]
fn duplicate_names_are_refused_on_load() {
    let ok = Collections::from_collections(vec![
        Collection::new(name("x"), "1".to_string()),
        Collection::new(name("w"), "2".to_string()),
    ])
    .ok()
    .unwrap();
    assert_eq!(names(&ok), vec!["w", "x"]);
    let dup = Collections::from_collections(vec![
        Collection::new(name("x"), "1".to_string()),
        Collection::new(name("y"), "2".to_string()),
        Collection::new(name("x"), "3".to_string()),
    ]);
    match dup {
        Err(d) => assert_eq!(d.name.as_str(), "x"),
        Ok(_) => panic!("duplicate names must be refused"),
    }
}
