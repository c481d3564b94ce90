//! Values of command options: their names, and lists of names.

use vstd::prelude::*;
use crate::collection::{CollectionName, CollectionNameError};
use crate::text::str_eq;
use crate::vcs::{Vcs, VcsParseError};

verus! {

/// A yes/no choice that may be left to the program.
#[derive(Debug, Clone, Copy, PartialEq, Eq, Structural)]
pub enum OptionBool {
    /// Auto.
    Auto,
    /// Yes.
    Yes,
    /// No.
    No,
}

/// The value is not one that the option accepts.
#[derive(Debug, Clone, Copy, PartialEq, Eq)]
pub struct UnsupportedValue;

/// The name of an `OptionBool` value.
pub open spec fn option_bool_text(v: OptionBool) -> Seq<char> {
    match v {
        OptionBool::Auto => seq!['a', 'u', 't', 'o'],
        OptionBool::Yes => seq!['y', 'e', 's'],
        OptionBool::No => seq!['n', 'o'],
    }
}

/// The `OptionBool` value that a string denotes: `auto`; `yes`, `y` or `true`;
/// `no`, `n` or `false`.
pub open spec fn parse_option_bool(s: Seq<char>) -> Option<OptionBool> {
    if s == seq!['a', 'u', 't', 'o'] {
        Some(OptionBool::Auto)
    } else if s == seq!['y', 'e', 's'] || s == seq!['y'] || s == seq!['t', 'r', 'u', 'e'] {
        Some(OptionBool::Yes)
    } else if s == seq!['n', 'o'] || s == seq!['n'] || s == seq!['f', 'a', 'l', 's', 'e'] {
        Some(OptionBool::No)
    } else {
        None
    }
}

impl OptionBool {
    /// Returns the possible option values.
    pub fn possible_opt_values() -> (r: Vec<&'static str>)
        ensures
            r@.len() == 3,
            r@[0]@ == option_bool_text(OptionBool::Auto),
            r@[1]@ == option_bool_text(OptionBool::Yes),
            r@[2]@ == option_bool_text(OptionBool::No),
    {
        vec![OptionBool::Auto.as_str(), OptionBool::Yes.as_str(), OptionBool::No.as_str()]
    }

    /// Returns the string value.
    pub fn as_str(&self) -> (r: &'static str)
        ensures
            r@ == option_bool_text(*self),
    {
        proof {
            reveal_strlit("auto");
            reveal_strlit("yes");
            reveal_strlit("no");
            assert("auto"@ =~= option_bool_text(OptionBool::Auto));
            assert("yes"@ =~= option_bool_text(OptionBool::Yes));
            assert("no"@ =~= option_bool_text(OptionBool::No));
        }
        match self {
            OptionBool::Auto => "auto",
            OptionBool::Yes => "yes",
            OptionBool::No => "no",
        }
    }

    /// Parses the string value.
    pub fn parse(s: &str) -> (r: Result<OptionBool, UnsupportedValue>)
        ensures
            match r {
                Ok(v) => parse_option_bool(s@) == Some(v),
                Err(_) => parse_option_bool(s@) is None,
            },
    {
        proof {
            reveal_strlit("auto");
            reveal_strlit("yes");
            reveal_strlit("y");
            reveal_strlit("true");
            reveal_strlit("no");
            reveal_strlit("n");
            reveal_strlit("false");
            assert("auto"@ =~= seq!['a', 'u', 't', 'o']);
            assert("yes"@ =~= seq!['y', 'e', 's']);
            assert("y"@ =~= seq!['y']);
            assert("true"@ =~= seq!['t', 'r', 'u', 'e']);
            assert("no"@ =~= seq!['n', 'o']);
            assert("n"@ =~= seq!['n']);
            assert("false"@ =~= seq!['f', 'a', 'l', 's', 'e']);
        }
        if str_eq(s, "auto") {
            Ok(OptionBool::Auto)
        } else if str_eq(s, "yes") || str_eq(s, "y") || str_eq(s, "true") {
            Ok(OptionBool::Yes)
        } else if str_eq(s, "no") || str_eq(s, "n") || str_eq(s, "false") {
            Ok(OptionBool::No)
        } else {
            Err(UnsupportedValue)
        }
    }
}

impl std::str::FromStr for OptionBool {
    type Err = UnsupportedValue;

    /// Parses the string value.
    fn from_str(s: &str) -> Result<OptionBool, UnsupportedValue> {
        OptionBool::parse(s)
    }
}

/// The directory that listed paths are relative to.
#[derive(Debug, Clone, Copy, PartialEq, Eq, Structural)]
pub enum PathBase {
    /// The filesystem's root directory: paths are absolute.
    Root,
    /// The collection directory.
    Collection,
    /// The home directory.
    Home,
}

/// The name of a `PathBase` value.
pub open spec fn path_base_text(v: PathBase) -> Seq<char> {
    match v {
        PathBase::Root => seq!['r', 'o', 'o', 't'],
        PathBase::Collection => seq!['c', 'o', 'l', 'l', 'e', 'c', 't', 'i', 'o', 'n'],
        PathBase::Home => seq!['h', 'o', 'm', 'e'],
    }
}

impl PathBase {
    /// Returns the possible option values.
    pub fn possible_opt_values() -> (r: Vec<&'static str>)
        ensures
            r@.len() == 3,
            r@[0]@ == path_base_text(PathBase::Root),
            r@[1]@ == path_base_text(PathBase::Collection),
            r@[2]@ == path_base_text(PathBase::Home),
    {
        vec![PathBase::Root.as_opt_value(), PathBase::Collection.as_opt_value(), PathBase::Home.as_opt_value()]
    }

    /// Returns the option value.
    pub fn as_opt_value(&self) -> (r: &'static str)
        ensures
            r@ == path_base_text(*self),
    {
        proof {
            reveal_strlit("root");
            reveal_strlit("collection");
            reveal_strlit("home");
            assert("root"@ =~= path_base_text(PathBase::Root));
            assert("collection"@ =~= path_base_text(PathBase::Collection));
            assert("home"@ =~= path_base_text(PathBase::Home));
        }
        match self {
            PathBase::Root => "root",
            PathBase::Collection => "collection",
            PathBase::Home => "home",
        }
    }

    /// Parses the option value.
    pub fn from_opt_value(s: &str) -> (r: Option<PathBase>)
        ensures
            match r {
                Some(v) => path_base_text(v) == s@,
                None => forall|v: PathBase| path_base_text(v) != s@,
            },
    {
        let root = PathBase::Root.as_opt_value();
        let collection = PathBase::Collection.as_opt_value();
        let home = PathBase::Home.as_opt_value();
        if str_eq(s, root) {
            Some(PathBase::Root)
        } else if str_eq(s, collection) {
            Some(PathBase::Collection)
        } else if str_eq(s, home) {
            Some(PathBase::Home)
        } else {
            proof {
                assert forall|v: PathBase| path_base_text(v) != s@ by {
                    match v {
                        PathBase::Root => {},
                        PathBase::Collection => {},
                        PathBase::Home => {},
                    }
                }
            }
            None
        }
    }
}

impl Default for PathBase {
    /// Paths are absolute unless asked otherwise.
    fn default() -> (r: PathBase)
        ensures
            r == PathBase::Root,
    {
        PathBase::Root
    }
}

impl std::str::FromStr for PathBase {
    type Err = UnsupportedValue;

    /// Parses the option value.
    fn from_str(s: &str) -> Result<PathBase, UnsupportedValue> {
        match PathBase::from_opt_value(s) {
            Some(v) => Ok(v),
            None => Err(UnsupportedValue),
        }
    }
}

/// A character that separates the items of a list: ASCII white space or `,`.
pub open spec fn is_list_separator(c: char) -> bool {
    c == ' ' || c == '\t' || c == '\n' || c == '\x0C' || c == '\r' || c == ','
}

/// The index of the first separator of `s`, or its length if it has none.
pub open spec fn first_separator(s: Seq<char>) -> int
    decreases s.len(),
{
    if s.len() == 0 {
        0
    } else if is_list_separator(s[0]) {
        0
    } else {
        1 + first_separator(s.drop_first())
    }
}

/// The non-empty pieces of `s` between separators, in order.
pub open spec fn list_items(s: Seq<char>) -> Seq<Seq<char>>
    decreases s.len(),
{
    if s.len() == 0 {
        Seq::empty()
    } else {
        let k = first_separator(s);
        let tail = if 0 <= k < s.len() {
            list_items(s.subrange(k + 1, s.len() as int))
        } else {
            Seq::empty()
        };
        if k > 0 {
            seq![s.subrange(0, k)] + tail
        } else {
            tail
        }
    }
}

proof fn lemma_first_separator(s: Seq<char>, j: int)
    requires
        0 <= j <= s.len(),
        forall|k: int| 0 <= k < j ==> !is_list_separator(s[k]),
        j == s.len() || is_list_separator(s[j]),
    ensures
        first_separator(s) == j,
    decreases s.len(),
{
    if s.len() > 0 && j > 0 {
        assert forall|k: int| 0 <= k < j - 1 implies !is_list_separator(s.drop_first()[k]) by {
            assert(s.drop_first()[k] == s[k + 1]);
        }
        lemma_first_separator(s.drop_first(), j - 1);
    }
}

/// Whether the character separates the items of a list.
fn list_separator(c: char) -> (r: bool)
    ensures
        r == is_list_separator(c),
{
    c == ' ' || c == '\t' || c == '\n' || c == '\x0C' || c == '\r' || c == ','
}

/// Splits `s` into the non-empty pieces between separators.
pub fn split_list(s: &str) -> (r: Vec<&str>)
    ensures
        r@.map_values(|p: &str| p@) == list_items(s@),
{
    let n = s.unicode_len();
    let mut r: Vec<&str> = Vec::new();
    let mut i: usize = 0;
    assert(s@.subrange(0, n as int) =~= s@);
    while i < n
        invariant
            n == s@.len(),
            i <= n,
            r@.map_values(|p: &str| p@) + list_items(s@.subrange(i as int, n as int)) == list_items(s@),
        decreases n - i,
    {
        let mut j: usize = i;
        while j < n && !list_separator(s.get_char(j))
            invariant
                n == s@.len(),
                i <= j <= n,
                forall|k: int| i <= k < j ==> !is_list_separator(s@[k]),
            decreases n - j,
        {
            j += 1;
        }
        let ghost rest = s@.subrange(i as int, n as int);
        proof {
            lemma_first_separator(rest, j - i);
        }
        let ghost tail = if j < n {
            list_items(s@.subrange(j + 1, n as int))
        } else {
            Seq::<Seq<char>>::empty()
        };
        if j < n {
            assert(rest.subrange(j - i + 1, rest.len() as int) =~= s@.subrange(j + 1, n as int));
        }
        if j > i {
            let piece = s.substring_char(i, j);
            let ghost before = r@.map_values(|p: &str| p@);
            r.push(piece);
            assert(rest.subrange(0, j - i) =~= piece@);
            assert(r@.map_values(|p: &str| p@) =~= before.push(piece@));
            assert(list_items(rest) == seq![piece@] + tail);
            assert(before + list_items(rest) =~= r@.map_values(|p: &str| p@) + tail);
        } else {
            assert(list_items(rest) == tail);
        }
        if j < n {
            i = j + 1;
        } else {
            i = n;
            assert(s@.subrange(n as int, n as int) =~= Seq::<char>::empty());
        }
    }
    assert(s@.subrange(n as int, n as int) =~= Seq::<char>::empty());
    assert(r@.map_values(|p: &str| p@) + Seq::<Seq<char>>::empty() =~= r@.map_values(|p: &str| p@));
    r
}

/// Parses a space- or comma-separated list of collection names.
pub fn parse_collection_names(s: &str) -> (r: Result<Vec<CollectionName>, CollectionNameError>)
    ensures
        match r {
            Ok(v) => v@.map_values(|n: CollectionName| n@) == list_items(s@),
            Err(_) => exists|i: int|
                0 <= i < list_items(s@).len() && !crate::collection::is_valid_name(
                    #[trigger] list_items(s@)[i],
                ),
        },
{
    let pieces = split_list(s);
    let mut names: Vec<CollectionName> = Vec::new();
    let mut i: usize = 0;
    let ghost items = list_items(s@);
    while i < pieces.len()
        invariant
            i <= pieces@.len(),
            items == list_items(s@),
            pieces@.map_values(|p: &str| p@) == items,
            names@.len() == i,
            names@.map_values(|n: CollectionName| n@) == items.subrange(0, i as int),
        decreases pieces@.len() - i,
    {
        assert(pieces@.map_values(|p: &str| p@)[i as int] == pieces@[i as int]@);
        let ghost before = names@;
        match CollectionName::new(pieces[i]) {
            Ok(name) => {
                names.push(name);
                assert(names@.map_values(|n: CollectionName| n@) =~= items.subrange(0, i + 1)) by {
                    assert forall|k: int| 0 <= k < i implies names@.map_values(|n: CollectionName| n@)[k]
                        == items[k] by {
                        assert(names@[k] == before[k]);
                        assert(before.map_values(|n: CollectionName| n@)[k] == items.subrange(0, i as int)[k]);
                    }
                }
            },
            Err(e) => {
                assert(items.len() == pieces@.len());
                assert(!crate::collection::is_valid_name(list_items(s@)[i as int]));
                return Err(e);
            },
        }
        i += 1;
    }
    assert(items.subrange(0, i as int) =~= items);
    Ok(names)
}

/// Parses a space- or comma-separated list of VCS names.
pub fn parse_vcs_list(s: &str) -> (r: Result<Vec<Vcs>, VcsParseError>)
    ensures
        match r {
            Ok(v) => v@.len() == list_items(s@).len() && forall|i: int|
                0 <= i < v@.len() ==> crate::vcs::vcs_name(#[trigger] v@[i]) == list_items(s@)[i],
            Err(_) => exists|i: int|
                0 <= i < list_items(s@).len() && forall|v: Vcs|
                    crate::vcs::vcs_name(v) != #[trigger] list_items(s@)[i],
        },
{
    let pieces = split_list(s);
    let mut list: Vec<Vcs> = Vec::new();
    let mut i: usize = 0;
    let ghost items = list_items(s@);
    while i < pieces.len()
        invariant
            i <= pieces@.len(),
            items == list_items(s@),
            pieces@.map_values(|p: &str| p@) == items,
            list@.len() == i,
            forall|k: int| 0 <= k < i ==> crate::vcs::vcs_name(#[trigger] list@[k]) == items[k],
        decreases pieces@.len() - i,
    {
        assert(pieces@.map_values(|p: &str| p@)[i as int] == pieces@[i as int]@);
        match Vcs::try_from_name_lower(pieces[i]) {
            Ok(v) => {
                list.push(v);
            },
            Err(e) => {
                assert(items.len() == pieces@.len());
                assert(forall|v: Vcs| crate::vcs::vcs_name(v) != list_items(s@)[i as int]);
                return Err(e);
            },
        }
        i += 1;
    }
    Ok(list)
}

} // verus!
