//! The repository cache: for each collection, the repositories found in it at
//! its last refresh.

use vstd::prelude::*;
use crate::collection::CollectionName;
use crate::keyed::{keyed, lemma_keyed_unique, Keyed, KeyedItem, KeyedVec};
use crate::vcs::Vcs;

verus! {

/// A cache entry for a repository.
#[derive(Debug, Clone, PartialEq, Eq)]
pub struct RepoCacheEntry {
    /// Path of the repository (for git, the `.git` directory or the `*.git`
    /// directory), relative to the root of its collection.
    path: String,
    /// VCS type.
    vcs: Vcs,
}

impl View for RepoCacheEntry {
    type V = (Seq<char>, Vcs);

    closed spec fn view(&self) -> (Seq<char>, Vcs) {
        (self.path@, self.vcs)
    }
}

impl Keyed for RepoCacheEntry {
    open spec fn key(&self) -> Seq<char> {
        self@.0
    }
}

impl KeyedItem for RepoCacheEntry {
    fn key_str(&self) -> (r: &str) {
        self.path.as_str()
    }
}

/// An entry as a path and a VCS type is keyed by its path.
impl Keyed for (Seq<char>, Vcs) {
    open spec fn key(&self) -> Seq<char> {
        self.0
    }
}

impl RepoCacheEntry {
    /// Creates a new `RepoCacheEntry`.
    pub fn new(vcs: Vcs, path: String) -> (r: Self)
        ensures
            r@ == (path@, vcs),
    {
        RepoCacheEntry { path, vcs }
    }

    /// Returns the VCS type.
    pub fn vcs(&self) -> (r: Vcs)
        ensures
            r == self@.1,
    {
        self.vcs
    }

    /// Returns the repository path.
    pub fn path(&self) -> (r: &str)
        ensures
            r@ == self@.0,
    {
        self.path.as_str()
    }

    /// Returns the owned repository path.
    pub fn into_path(self) -> (r: String)
        ensures
            r@ == self@.0,
    {
        self.path
    }

    /// The path.
    pub closed spec fn spec_path_string(&self) -> &String {
        &self.path
    }

    /// Applies the given function to the path: the entry with the path that it
    /// returns, or its error.
    pub fn try_map_ref_path<F, E>(&self, f: F) -> (r: Result<Self, E>)
        where
            F: FnOnce(&String) -> Result<String, E>,
        requires
            f.requires((self.spec_path_string(),)),
        ensures
            self.spec_path_string()@ == self@.0,
            match r {
                Ok(e) => e@.1 == self@.1 && exists|p: String|
                    #[trigger] f.ensures((self.spec_path_string(),), Ok::<String, E>(p)) && e@.0 == p@,
                Err(err) => f.ensures((self.spec_path_string(),), Err::<String, E>(err)),
            },
    {
        let res = f(&self.path);
        match res {
            Ok(path) => {
                assert(f.ensures((self.spec_path_string(),), Ok::<String, E>(path)));
                let e = RepoCacheEntry { path, vcs: self.vcs };
                assert(e@.0 == path@);
                Ok(e)
            },
            Err(e) => Err(e),
        }
    }
}

/// The entries as paths and VCS types.
pub open spec fn listing(s: Seq<RepoCacheEntry>) -> Seq<(Seq<char>, Vcs)> {
    s.map_values(|e: RepoCacheEntry| e@)
}

/// Each path mapped to its entry.
pub open spec fn slots(m: Map<Seq<char>, Vcs>) -> Map<Seq<char>, (Seq<char>, Vcs)> {
    Map::new(|p: Seq<char>| m.contains_key(p), |p: Seq<char>| (p, m[p]))
}

/// Two caches of a collection that hold the same slots list the same entries
/// in the same order: the listing does not depend on how the cache was built.
pub proof fn lemma_listing_canonical(
    a: Seq<(Seq<char>, Vcs)>,
    b: Seq<(Seq<char>, Vcs)>,
    m: Map<Seq<char>, Vcs>,
)
    requires
        keyed(a, slots(m)),
        keyed(b, slots(m)),
    ensures
        a == b,
{
    lemma_keyed_unique(a, b, slots(m));
}

/// Two entries with one path fill one slot: the later VCS type stays.
pub proof fn lemma_same_path_one_slot(m: Map<Seq<char>, Vcs>, path: Seq<char>, first: Vcs, second: Vcs)
    ensures
        m.insert(path, first).insert(path, second) == m.insert(path, second),
        m.insert(path, first).insert(path, second).dom() == m.dom().insert(path),
{
    assert(m.insert(path, first).insert(path, second) =~= m.insert(path, second));
    assert(m.insert(path, second).dom() =~= m.dom().insert(path));
}

/// Cache of repositories in a collection: at most one entry per path, in
/// increasing order of paths.
pub struct CollectionReposCache {
    /// The entries, by increasing path.
    repos: KeyedVec<RepoCacheEntry>,
}

impl View for CollectionReposCache {
    type V = Map<Seq<char>, Vcs>;

    /// Each path mapped to the VCS type of its entry.
    closed spec fn view(&self) -> Map<Seq<char>, Vcs> {
        self.repos@.map_values(|e: RepoCacheEntry| e@.1)
    }
}

impl CollectionReposCache {
    /// Creates an empty cache.
    pub fn new() -> (r: Self)
        ensures
            r@ == Map::<Seq<char>, Vcs>::empty(),
    {
        let r = CollectionReposCache { repos: KeyedVec::new() };
        assert(r@ =~= Map::<Seq<char>, Vcs>::empty());
        r
    }

    /// Stores an entry. An entry of the same path is replaced: entries are the
    /// same slot when their paths are equal, whatever their VCS types.
    pub fn insert(&mut self, entry: RepoCacheEntry)
        ensures
            final(self)@ == old(self)@.insert(entry@.0, entry@.1),
    {
        let ghost e = entry;
        let _ = self.repos.insert(entry);
        assert(final(self)@ =~= old(self)@.insert(e@.0, e@.1));
    }

    /// Stores the entries in order.
    pub fn extend(&mut self, entries: Vec<RepoCacheEntry>)
        ensures
            final(self)@ == insert_all(old(self)@, listing(entries@)),
    {
        let ghost orig = entries@;
        let mut rest = entries;
        let n = rest.len();
        let mut i: usize = 0;
        assert(listing(orig).subrange(0, 0) =~= Seq::<(Seq<char>, Vcs)>::empty());
        while i < n
            invariant
                n == orig.len(),
                i <= n,
                rest@ == orig.subrange(i as int, n as int),
                self@ == insert_all(old(self)@, listing(orig).subrange(0, i as int)),
            decreases n - i,
        {
            let e = rest.remove(0);
            assert(e == orig[i as int]);
            assert(listing(orig).subrange(0, i + 1).drop_last() =~= listing(orig).subrange(0, i as int));
            self.insert(e);
            assert(rest@ =~= orig.subrange(i + 1, n as int));
            i += 1;
        }
        assert(listing(orig).subrange(0, n as int) =~= listing(orig));
    }

    /// Returns the entries, by increasing path.
    pub fn repositories(&self) -> (r: &Vec<RepoCacheEntry>)
        ensures
            keyed(listing(r@), slots(self@)),
    {
        let r = self.repos.items();
        proof {
            let s = listing(r@);
            let m = slots(self@);
            assert forall|k: Seq<char>| #[trigger] m.contains_key(k) <==> exists|i: int|
                0 <= i < s.len() && s[i].key() == k by {
                if m.contains_key(k) {
                    let i = choose|i: int| 0 <= i < r@.len() && r@[i].key() == k;
                    assert(s[i].key() == k);
                }
                if exists|i: int| 0 <= i < s.len() && s[i].key() == k {
                    let i = choose|i: int| 0 <= i < s.len() && s[i].key() == k;
                    assert(r@[i].key() == k);
                }
            }
            assert forall|i: int| 0 <= i < s.len() implies m[#[trigger] s[i].key()] == s[i] by {
                assert(self.repos@[r@[i].key()] == r@[i]);
            }
            assert forall|i: int, j: int| #![trigger s[i], s[j]] 0 <= i < j < s.len() implies crate::order::str_lt(
                s[i].key(),
                s[j].key(),
            ) by {
                assert(r@[i].key() == s[i].key() && r@[j].key() == s[j].key());
            }
        }
        r
    }

    /// Returns the number of entries.
    pub fn len(&self) -> (r: usize)
        ensures
            r == self@.len(),
    {
        let r = self.repos.len();
        assert(self@.dom() =~= self.repos@.dom());
        r
    }

    /// Returns `true` if there are no entries.
    pub fn is_empty(&self) -> (r: bool)
        ensures
            r == (self@.len() == 0),
    {
        self.len() == 0
    }
}

/// `m` with the entries of `s` stored in order.
pub open spec fn insert_all(m: Map<Seq<char>, Vcs>, s: Seq<(Seq<char>, Vcs)>) -> Map<Seq<char>, Vcs>
    decreases s.len(),
{
    if s.len() == 0 {
        m
    } else {
        insert_all(m, s.drop_last()).insert(s.last().0, s.last().1)
    }
}

/// The cache of one collection, under the collection's name.
pub struct CachedCollection {
    /// Collection name.
    name: CollectionName,
    /// Repositories of the collection.
    repos: CollectionReposCache,
}

impl Keyed for CachedCollection {
    open spec fn key(&self) -> Seq<char> {
        self.spec_name()
    }
}

impl KeyedItem for CachedCollection {
    fn key_str(&self) -> (r: &str) {
        self.name.as_str()
    }
}

impl CachedCollection {
    /// The collection's name.
    pub closed spec fn spec_name(&self) -> Seq<char> {
        self.name@
    }

    /// The collection's repositories.
    pub closed spec fn spec_repos(&self) -> Map<Seq<char>, Vcs> {
        self.repos@
    }

    /// Returns the collection name.
    pub fn name(&self) -> (r: &CollectionName)
        ensures
            r@ == self.spec_name(),
    {
        &self.name
    }

    /// Returns the repositories of the collection.
    pub fn repos(&self) -> (r: &CollectionReposCache)
        ensures
            r@ == self.spec_repos(),
    {
        &self.repos
    }
}

/// Global cache data: the repositories of each collection, by collection name.
pub struct Cache {
    /// The caches of the collections, by increasing name.
    collections: KeyedVec<CachedCollection>,
}

impl View for Cache {
    type V = Map<Seq<char>, Map<Seq<char>, Vcs>>;

    /// Each collection name mapped to the repositories cached for it.
    closed spec fn view(&self) -> Map<Seq<char>, Map<Seq<char>, Vcs>> {
        self.collections@.map_values(|c: CachedCollection| c.spec_repos())
    }
}

impl Cache {
    /// Creates an empty cache.
    pub fn new() -> (r: Self)
        ensures
            r@ == Map::<Seq<char>, Map<Seq<char>, Vcs>>::empty(),
    {
        let r = Cache { collections: KeyedVec::new() };
        assert(r@ =~= Map::<Seq<char>, Map<Seq<char>, Vcs>>::empty());
        r
    }

    /// Returns the cache of the collection with the given name.
    pub fn collection_repos(&self, name: &CollectionName) -> (r: Option<&CollectionReposCache>)
        ensures
            match r {
                Some(c) => self@.contains_key(name@) && c@ == self@[name@],
                None => !self@.contains_key(name@),
            },
    {
        match self.collections.get(name.as_str()) {
            Some(c) => Some(c.repos()),
            None => None,
        }
    }

    /// Sets the cache of the given collection, and returns the one it replaces.
    pub fn cache_collection_repos(&mut self, name: CollectionName, coll_cache: CollectionReposCache) -> (r:
        Option<CollectionReposCache>)
        ensures
            final(self)@ == old(self)@.insert(name@, coll_cache@),
            match r {
                Some(c) => old(self)@.contains_key(name@) && c@ == old(self)@[name@],
                None => !old(self)@.contains_key(name@),
            },
    {
        let ghost key = name@;
        let ghost repos = coll_cache@;
        let prev = self.collections.insert(CachedCollection { name, repos: coll_cache });
        assert(final(self)@ =~= old(self)@.insert(key, repos));
        match prev {
            Some(c) => Some(c.repos),
            None => None,
        }
    }

    /// Removes the cache of the collection with the given name, and returns it.
    pub fn remove_collection_repos_cache(&mut self, name: &str) -> (r: Option<CollectionReposCache>)
        ensures
            final(self)@ == old(self)@.remove(name@),
            match r {
                Some(c) => old(self)@.contains_key(name@) && c@ == old(self)@[name@],
                None => !old(self)@.contains_key(name@),
            },
    {
        let prev = self.collections.remove(name);
        assert(final(self)@ =~= old(self)@.remove(name@));
        match prev {
            Some(c) => Some(c.repos),
            None => None,
        }
    }

    /// Returns the caches of the collections, by increasing name.
    pub fn collections(&self) -> (r: &Vec<CachedCollection>)
        ensures
            forall|i: int| 0 <= i < r@.len() ==> self@.contains_key(#[trigger] r@[i].spec_name())
                && self@[r@[i].spec_name()] == r@[i].spec_repos(),
            forall|k: Seq<char>| #[trigger] self@.contains_key(k) ==> exists|i: int| 0 <= i < r@.len() && r@[i].spec_name() == k,
            crate::keyed::sorted_by_key(r@),
    {
        self.collections.items()
    }
}

} // verus!
