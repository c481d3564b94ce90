use magro::options::{parse_collection_names, parse_vcs_list, split_list, OptionBool, PathBase};
use magro::vcs::Vcs;

#[test]
fn path_style_consistent_string_conversion() {
    for opt in PathBase::possible_opt_values() {
        assert_eq!(opt, opt.parse::<PathBase>().unwrap().as_opt_value())
    }
}

#[test]
fn option_bool_values() {
    assert_eq!(OptionBool::possible_opt_values(), vec!["auto", "yes", "no"]);
    for (s, v) in [
        ("auto", OptionBool::Auto),
        ("yes", OptionBool::Yes),
        ("y", OptionBool::Yes),
        ("true", OptionBool::Yes),
        ("no", OptionBool::No),
        ("n", OptionBool::No),
        ("false", OptionBool::No),
    ] {
        assert_eq!(s.parse::<OptionBool>(), Ok(v));
    }
    assert!("maybe".parse::<OptionBool>().is_err());
    assert!("Yes".parse::<OptionBool>().is_err());
    assert_eq!(OptionBool::Yes.as_str(), "yes");
}

#[test]
fn path_base_values() {
    assert_eq!(PathBase::default(), PathBase::Root);
    assert_eq!(PathBase::from_opt_value("home"), Some(PathBase::Home));
    assert_eq!(PathBase::from_opt_value("collection"), Some(PathBase::Collection));
    assert_eq!(PathBase::from_opt_value("cwd"), None);
}

#[test]
fn lists_split_on_spaces_and_commas() {
    assert_eq!(split_list("a, b\tc,,d "), vec!["a", "b", "c", "d"]);
    assert_eq!(split_list(""), Vec::<&str>::new());
    assert_eq!(split_list(" , "), Vec::<&str>::new());
    assert_eq!(split_list("one"), vec!["one"]);
}

#[test]
fn lists_of_names_and_vcs() {
    let names = parse_collection_names("work, play").unwrap();
    let names: Vec<&str> = names.iter().map(|n| n.as_str()).collect();
    assert_eq!(names, vec!["work", "play"]);
    assert!(parse_collection_names("ok bad/name").is_err());
    assert_eq!(parse_vcs_list("git,git").unwrap(), vec![Vcs::Git, Vcs::Git]);
    assert!(parse_vcs_list("git hg").is_err());
}
