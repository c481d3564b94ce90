//! The registry of collections, keyed by name.

use vstd::prelude::*;
use crate::collection::{Collection, CollectionName};
use crate::keyed::{keyed, Keyed, KeyedItem, KeyedVec};

verus! {

impl Keyed for Collection {
    open spec fn key(&self) -> Seq<char> {
        self.spec_name()
    }
}

impl KeyedItem for Collection {
    fn key_str(&self) -> (r: &str) {
        self.name().as_str()
    }
}

/// The names of the collections in `v` differ.
pub open spec fn names_distinct(v: Seq<Collection>) -> bool {
    forall|i: int, j: int| 0 <= i < j < v.len() ==> v[i].spec_name() != v[j].spec_name()
}

/// Each name in `v` mapped to the last collection of that name.
pub open spec fn collections_map(v: Seq<Collection>) -> Map<Seq<char>, Collection>
    decreases v.len(),
{
    if v.len() == 0 {
        Map::empty()
    } else {
        collections_map(v.drop_last()).insert(v.last().spec_name(), v.last())
    }
}

/// A collection name given twice.
#[derive(Debug, Clone)]
pub struct DuplicateName {
    /// The name.
    pub name: CollectionName,
}

/// Set of collections, ordered by name.
pub struct Collections {
    /// Collections, by increasing name.
    collections: KeyedVec<Collection>,
}

impl View for Collections {
    type V = Map<Seq<char>, Collection>;

    /// Each collection, under its name.
    closed spec fn view(&self) -> Map<Seq<char>, Collection> {
        self.collections@
    }
}

impl Collections {
    /// Creates an empty set of collections.
    pub fn new() -> (r: Collections)
        ensures
            r@ == Map::<Seq<char>, Collection>::empty(),
    {
        Collections { collections: KeyedVec::new() }
    }

    /// Returns the collection with the given name, if available.
    pub fn get(&self, name: &str) -> (r: Option<&Collection>)
        ensures
            match r {
                Some(c) => self@.contains_key(name@) && *c == self@[name@] && c.spec_name()
                    == name@,
                None => !self@.contains_key(name@),
            },
    {
        self.collections.get(name)
    }

    /// Adds the given collection, and returns the one of the same name that it
    /// replaces, if any.
    pub fn insert(&mut self, collection: Collection) -> (r: Option<Collection>)
        ensures
            final(self)@ == old(self)@.insert(collection.spec_name(), collection),
            match r {
                Some(c) => old(self)@.contains_key(collection.spec_name()) && c == old(
                    self,
                )@[collection.spec_name()] && c.spec_name() == collection.spec_name(),
                None => !old(self)@.contains_key(collection.spec_name()),
            },
    {
        self.collections.insert(collection)
    }

    /// Removes the collection with the given name and returns it, if it exists.
    pub fn remove(&mut self, name: &str) -> (r: Option<Collection>)
        ensures
            final(self)@ == old(self)@.remove(name@),
            match r {
                Some(c) => old(self)@.contains_key(name@) && c == old(self)@[name@] && c.spec_name()
                    == name@,
                None => !old(self)@.contains_key(name@),
            },
    {
        self.collections.remove(name)
    }

    /// Returns the number of the collections.
    pub fn len(&self) -> (r: usize)
        ensures
            r == self@.len(),
    {
        self.collections.len()
    }

    /// Returns `true` if there are no collections.
    pub fn is_empty(&self) -> (r: bool)
        ensures
            r == (self@.len() == 0),
    {
        self.collections.len() == 0
    }

    /// The collections, by increasing name.
    pub closed spec fn iter_spec(&self) -> Seq<Collection> {
        self.collections.spec_items()
    }

    /// Returns the collections, by increasing name.
    pub fn iter(&self) -> (r: &Vec<Collection>)
        ensures
            keyed(r@, self@),
            r@ == self.iter_spec(),
    {
        self.collections.items()
    }

    /// Sets the path of the collection with the given name; returns whether it
    /// exists.
    pub fn set_path(&mut self, name: &str, path: String) -> (r: bool)
        ensures
            r == old(self)@.contains_key(name@),
            r ==> final(self)@.dom() == old(self)@.dom() && final(self)@[name@].spec_name()
                == name@ && final(self)@[name@].spec_path() == path@ && forall|k: Seq<char>|
                k != name@ ==> #[trigger] final(self)@.contains_key(k) ==> final(self)@[k] == old(
                self,
            )@[k],
            !r ==> final(self)@ == old(self)@,
    {
        match self.remove(name) {
            None => false,
            Some(mut c) => {
                c.set_path(path);
                let _ = self.insert(c);
                assert(final(self)@.dom() =~= old(self)@.dom());
                true
            },
        }
    }

    /// Builds the set from a list of collections, whose names must differ.
    pub fn from_collections(list: Vec<Collection>) -> (r: Result<Collections, DuplicateName>)
        ensures
            match r {
                Ok(c) => names_distinct(list@) && c@ == collections_map(list@),
                Err(d) => !names_distinct(list@) && exists|i: int, j: int|
                    0 <= i < j < list@.len() && list@[i].spec_name() == d.name@
                        && list@[j].spec_name() == d.name@,
            },
    {
        let ghost orig = list@;
        let mut rest = list;
        let mut result = Collections::new();
        let mut i: usize = 0;
        let n = rest.len();
        assert(orig.subrange(0, 0) =~= Seq::<Collection>::empty());
        assert(orig.subrange(0, n as int) =~= orig);
        while i < n
            invariant
                n == orig.len(),
                orig == list@,
                i <= n,
                rest@ == orig.subrange(i as int, n as int),
                names_distinct(orig.subrange(0, i as int)),
                result@ == collections_map(orig.subrange(0, i as int)),
                forall|k: Seq<char>|
                    result@.contains_key(k) <==> exists|j: int|
                        0 <= j < i && orig[j].spec_name() == k,
            decreases n - i,
        {
            let c = rest.remove(0);
            assert(c == orig[i as int]);
            assert(orig.subrange(0, i + 1).drop_last() =~= orig.subrange(0, i as int));
            let ghost before = result@;
            match result.insert(c) {
                Some(prev) => {
                    let dup = prev.name().clone();
                    proof {
                        let name = orig[i as int].spec_name();
                        let j = choose|j: int| 0 <= j < i && orig[j].spec_name() == name;
                        assert(orig[j].spec_name() == orig[i as int].spec_name());
                        assert(!names_distinct(orig));
                        assert(0 <= j < i < orig.len() && orig[j].spec_name() == dup@ && orig[i as int].spec_name() == dup@);
                    }
                    return Err(DuplicateName { name: dup });
                },
                None => {},
            }
            assert(rest@ =~= orig.subrange(i + 1, n as int));
            let ghost upto = orig.subrange(0, i + 1);
            assert forall|a: int, b: int|
                #![trigger upto[a], upto[b]]
                0 <= a < b < i + 1 implies upto[a].spec_name() != upto[b].spec_name() by {
                if b == i {
                    assert(before.contains_key(orig[a].spec_name()));
                } else {
                    assert(orig.subrange(0, i as int)[a] == orig[a]);
                    assert(orig.subrange(0, i as int)[b] == orig[b]);
                }
            }
            assert forall|k: Seq<char>|
                result@.contains_key(k) <==> exists|j: int|
                    0 <= j < i + 1 && orig[j].spec_name() == k by {
                if result@.contains_key(k) && k != orig[i as int].spec_name() {
                    assert(before.contains_key(k));
                }
            }
            i += 1;
        }
        Ok(result)
    }
}

} // verus!
