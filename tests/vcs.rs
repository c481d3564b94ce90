use std::collections::HashSet;
use std::convert::TryFrom;
use std::mem;

use magro::vcs::{Vcs, VcsVariants};

fn all(mut it: VcsVariants) -> Vec<Vcs> {
    let mut v = Vec::new();
    while let Some(x) = it.next() {
        v.push(x);
    }
    v
}

#[test]
fn correct_exact_len() {
    assert_eq!(
        all(Vcs::variants()).len(),
        Vcs::variants().len(),
        "ExactSizeIterator must be correctly implemented"
    );
}

#[test]
fn no_duplicates() {
    let variants: HashSet<_> = all(Vcs::variants()).iter().map(|v| mem::discriminant(v)).collect();
    assert_eq!(
        variants.len(),
        Vcs::variants().len(),
        "VcsVariants iterator must not return duplicate variants"
    );
}

#[test]
fn unique_name_lower() {
    let names: HashSet<_> = all(Vcs::variants()).iter().map(|v| v.name_lower()).collect();
    assert_eq!(
        names.len(),
        Vcs::variants().len(),
        "Vcs::name_lower() must not return the same value for different variants"
    );
}

#[test]
fn consistent_from_str() {
    for vcs in all(Vcs::variants()) {
        assert_eq!(
            vcs,
            Vcs::try_from_name_lower(vcs.name_lower()).unwrap(),
            "Vcs::try_from_name_lower must be able to convert lowercase names into Vcs value"
        );
        assert_eq!(
            vcs,
            Vcs::try_from(vcs.name_lower()).unwrap(),
            "TryFrom must be able to convert lowercase names into Vcs value"
        );
        assert_eq!(
            vcs,
            vcs.name_lower().parse::<Vcs>().unwrap(),
            "FromStr must be able to convert lowercase names into Vcs value"
        );
    }
}

#[test]
fn ordered_alphabetically() {
    let variants = all(Vcs::variants());
    for (i, current) in variants.iter().enumerate() {
        let next = &variants[(i + 1) % variants.len()];
        assert!(current <= next, "Variants must be ordered alphabetically");
        assert!(
            current.name_lower() <= next.name_lower(),
            "Variants must be ordered alphabetically"
        );
    }
}

#[test]
fn vcs_names_parse_strictly() {
    assert_eq!(Vcs::Git.name_lower(), "git");
    assert_eq!(Vcs::try_from_name_lower("git"), Ok(Vcs::Git));
    assert!(Vcs::try_from_name_lower("Git").is_err());
    assert!(Vcs::try_from_name_lower("no-such-vcs").is_err());
    assert!(Vcs::try_from_name_lower("").is_err());
}

#[test]
fn variants_advance_and_peek() {
    let mut it = Vcs::variants();
    assert_eq!(it.len(), 1);
    assert_eq!(it.peek(), Some(Vcs::Git));
    assert_eq!(it.next(), Some(Vcs::Git));
    assert_eq!(it.len(), 0);
    assert_eq!(it.peek(), None);
    assert_eq!(it.next(), None);
}
