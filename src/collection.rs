//! Collections: named directories that hold repositories.

use vstd::prelude::*;
use crate::path::{join, join_path};

verus! {

/// A character that may stand in a collection name: an ASCII letter or digit,
/// `_` or `-`.
pub open spec fn is_name_char(c: char) -> bool {
    ('a' <= c && c <= 'z') || ('A' <= c && c <= 'Z') || ('0' <= c && c <= '9') || c == '_' || c
        == '-'
}

/// `i` is the index of the first character of `s` that may not stand in a name.
pub open spec fn is_first_bad_char(s: Seq<char>, i: int) -> bool {
    0 <= i < s.len() && !is_name_char(s[i]) && forall|k: int| 0 <= k < i ==> is_name_char(s[k])
}

/// Why a string is not a collection name, if it is not one.
pub open spec fn name_error(s: Seq<char>) -> Option<CollectionNameErrorKind> {
    if s.len() == 0 {
        Some(CollectionNameErrorKind::Empty)
    } else if s[0] == '-' {
        Some(CollectionNameErrorKind::LeadingHyphen)
    } else if exists|i: int| is_first_bad_char(s, i) {
        Some(CollectionNameErrorKind::InvalidChar(s[choose|i: int| is_first_bad_char(s, i)]))
    } else {
        None
    }
}

/// A collection name: non-empty, made of ASCII letters, digits, `_` and `-`,
/// and not starting with `-`.
pub open spec fn is_valid_name(s: Seq<char>) -> bool {
    s.len() > 0 && s[0] != '-' && forall|i: int| 0 <= i < s.len() ==> is_name_char(s[i])
}

/// What makes a string an invalid collection name.
#[derive(Debug, Clone, Copy, PartialEq, Eq, Structural)]
pub enum CollectionNameErrorKind {
    /// The string is empty.
    Empty,
    /// The string starts with `-`.
    LeadingHyphen,
    /// The string holds this character, the first that may not stand in a name.
    InvalidChar(char),
}

/// Collection name error.
#[derive(Debug, Clone, Copy, PartialEq, Eq)]
pub struct CollectionNameError {
    /// What is wrong with the name.
    kind: CollectionNameErrorKind,
}

impl CollectionNameError {
    /// Creates an error of the given kind.
    fn with_kind(kind: CollectionNameErrorKind) -> (r: Self)
        ensures
            r.kind() == kind,
    {
        CollectionNameError { kind }
    }

    /// What is wrong with the name.
    pub closed spec fn kind(&self) -> CollectionNameErrorKind {
        self.kind
    }

    /// Returns what is wrong with the name.
    pub fn error_kind(&self) -> (r: CollectionNameErrorKind)
        ensures
            r == self.kind(),
    {
        self.kind
    }
}

/// Whether the character may stand in a collection name.
fn name_char(c: char) -> (r: bool)
    ensures
        r == is_name_char(c),
{
    ('a' <= c && c <= 'z') || ('A' <= c && c <= 'Z') || ('0' <= c && c <= '9') || c == '_' || c
        == '-'
}

/// Collection name.
#[derive(Debug, PartialEq, Eq, PartialOrd, Ord, Hash)]
pub struct CollectionName(String);

impl Clone for CollectionName {
    /// Returns a copy of the name.
    fn clone(&self) -> (r: Self)
        ensures
            r@ == self@,
    {
        self.duplicate()
    }
}

impl View for CollectionName {
    type V = Seq<char>;

    closed spec fn view(&self) -> Seq<char> {
        self.0@
    }
}

impl CollectionName {
    #[verifier::type_invariant]
    spec fn valid(self) -> bool {
        is_valid_name(self.0@)
    }

    /// Validates the given string as a collection name.
    pub fn validate(s: &str) -> (r: Result<(), CollectionNameError>)
        ensures
            match r {
                Ok(()) => name_error(s@) is None,
                Err(e) => name_error(s@) == Some(e.kind()),
            },
            name_error(s@) is None <==> is_valid_name(s@),
    {
        let n = s.unicode_len();
        if n == 0 {
            return Err(CollectionNameError::with_kind(CollectionNameErrorKind::Empty));
        }
        if s.get_char(0) == '-' {
            return Err(CollectionNameError::with_kind(CollectionNameErrorKind::LeadingHyphen));
        }
        let mut i: usize = 0;
        while i < n
            invariant
                n == s@.len(),
                n > 0,
                s@[0] != '-',
                i <= n,
                forall|k: int| 0 <= k < i ==> is_name_char(s@[k]),
            decreases n - i,
        {
            let c = s.get_char(i);
            if !name_char(c) {
                proof {
                    assert(is_first_bad_char(s@, i as int));
                    let j = choose|j: int| is_first_bad_char(s@, j);
                    if j < i {
                        assert(is_name_char(s@[j]));
                    } else if i < j {
                        assert(is_name_char(s@[i as int]));
                    }
                    assert(!is_valid_name(s@)) by {
                        assert(!is_name_char(s@[i as int]));
                    }
                }
                return Err(CollectionNameError::with_kind(CollectionNameErrorKind::InvalidChar(c)));
            }
            i += 1;
        }
        assert forall|j: int| !is_first_bad_char(s@, j) by {
            if 0 <= j < n {
                assert(is_name_char(s@[j]));
            }
        }
        Ok(())
    }

    /// Creates a collection name from a string, if it is a valid name.
    pub fn new(s: &str) -> (r: Result<CollectionName, CollectionNameError>)
        ensures
            match r {
                Ok(name) => name@ == s@ && is_valid_name(s@),
                Err(e) => name_error(s@) == Some(e.kind()),
            },
            r is Ok <==> is_valid_name(s@),
    {
        match CollectionName::validate(s) {
            Ok(()) => Ok(CollectionName(s.to_owned())),
            Err(e) => Err(e),
        }
    }

    /// Creates a collection name from an owned string, if it is a valid name.
    pub fn from_string(s: String) -> (r: Result<CollectionName, CollectionNameError>)
        ensures
            match r {
                Ok(name) => name@ == s@ && is_valid_name(s@),
                Err(e) => name_error(s@) == Some(e.kind()),
            },
            r is Ok <==> is_valid_name(s@),
    {
        match CollectionName::validate(s.as_str()) {
            Ok(()) => Ok(CollectionName(s)),
            Err(e) => Err(e),
        }
    }

    /// Returns the string slice for the collection name.
    pub fn as_str(&self) -> (r: &str)
        ensures
            r@ == self@,
            is_valid_name(r@),
    {
        proof {
            use_type_invariant(self);
        }
        self.0.as_str()
    }

    /// Returns the name as an owned string.
    pub fn into_string(self) -> (r: String)
        ensures
            r@ == self@,
    {
        self.0
    }

    /// Whether the name is the given string.
    pub fn is(&self, s: &str) -> (r: bool)
        ensures
            r == (self@ == s@),
    {
        crate::text::str_eq(self.0.as_str(), s)
    }

    /// Returns a copy of the name.
    pub fn duplicate(&self) -> (r: CollectionName)
        ensures
            r@ == self@,
    {
        proof {
            use_type_invariant(self);
        }
        CollectionName(self.0.as_str().to_owned())
    }
}

impl std::str::FromStr for CollectionName {
    type Err = CollectionNameError;

    /// Parses a collection name.
    fn from_str(s: &str) -> Result<CollectionName, CollectionNameError> {
        CollectionName::new(s)
    }
}

/// Repositories collection: a name and the directory that holds the
/// repositories.
///
/// A relative path is relative to the base directory (the home directory);
/// an absolute path is used as it is.
#[derive(Debug, Clone)]
pub struct Collection {
    /// Collection name.
    name: CollectionName,
    /// Path to the collection directory.
    path: String,
}

impl Collection {
    /// The collection's name.
    pub closed spec fn spec_name(&self) -> Seq<char> {
        self.name@
    }

    /// The collection's path, as it was given.
    pub closed spec fn spec_path(&self) -> Seq<char> {
        self.path@
    }

    /// Creates a new collection.
    pub fn new(name: CollectionName, path: String) -> (r: Self)
        ensures
            r.spec_name() == name@,
            r.spec_path() == path@,
    {
        Collection { name, path }
    }

    /// Returns the collection name.
    pub fn name(&self) -> (r: &CollectionName)
        ensures
            r@ == self.spec_name(),
    {
        &self.name
    }

    /// Returns the path of the collection directory, as it was given.
    pub fn path(&self) -> (r: &str)
        ensures
            r@ == self.spec_path(),
    {
        self.path.as_str()
    }

    /// Renames the collection.
    pub fn set_name(&mut self, name: CollectionName)
        ensures
            final(self).spec_name() == name@,
            final(self).spec_path() == old(self).spec_path(),
    {
        self.name = name;
    }

    /// Sets the path of the collection directory.
    pub fn set_path(&mut self, path: String)
        ensures
            final(self).spec_name() == old(self).spec_name(),
            final(self).spec_path() == path@,
    {
        self.path = path;
    }

    /// Returns the absolute path of the collection: its path joined onto the
    /// home directory `home` (an absolute path stays as it is).
    pub fn abspath(&self, home: &str) -> (r: String)
        ensures
            r@ == join_path(home@, self.spec_path()),
    {
        join(home, self.path.as_str())
    }
}

} // verus!
