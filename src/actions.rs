//! The decisions of the commands: changes to the registry and the cache,
//! where a clone goes, and which repositories are listed and how.

use vstd::prelude::*;
use crate::cache::{listing, slots, Cache, CollectionReposCache, RepoCacheEntry};
use crate::collection::{Collection, CollectionName};
use crate::collections::Collections;
use crate::config::Config;
use crate::keyed::keyed;
use crate::options::{OptionBool, PathBase};
use crate::path::{join, join_path, relative_to, relativize};
use crate::resolve::{dest_relpath, git_dest_relpath, supposed_vcs, suppose_vcs_from_uri, DestinationError};
use crate::vcs::Vcs;

verus! {

/// Why a command cannot be carried out.
#[derive(Debug)]
pub enum CommandError {
    /// No collection of this name is registered.
    NotFound(String),
    /// A collection of this name is already registered.
    AlreadyExists(CollectionName),
    /// The default collection, of this name, is not registered.
    DefaultNotFound(CollectionName),
    /// No collection was named, and there is no default collection.
    NoTarget,
    /// The VCS of the repository was not given, and the URI does not suggest one.
    UnknownVcs,
    /// No destination can be derived from the URI.
    Destination(DestinationError),
}

/// Sets the default collection, which must be registered; `None` unsets it.
pub fn set_default(config: &mut Config, name: Option<CollectionName>) -> (r: Result<(), CommandError>)
    ensures
        match name {
            Some(n) => if old(config).spec_collections().contains_key(n@) {
                r is Ok && final(config).spec_default() == Some(n@)
            } else {
                (r matches Err(CommandError::NotFound(m)) && m@ == n@) && *final(config) == *old(config)
            },
            None => r is Ok && final(config).spec_default() is None,
        },
        r is Ok ==> final(config).spec_collections() == old(config).spec_collections(),
{
    if let Some(n) = &name {
        if config.collections().get(n.as_str()).is_none() {
            return Err(CommandError::NotFound(n.as_str().to_owned()));
        }
    }
    config.set_default_collection(name);
    Ok(())
}

/// Registers a new collection; a registered name is refused.
pub fn add_collection(config: &mut Config, name: CollectionName, path: String) -> (r: Result<(), CommandError>)
    ensures
        if old(config).spec_collections().contains_key(name@) {
            (r matches Err(CommandError::AlreadyExists(m)) && m@ == name@) && *final(config) == *old(config)
        } else {
            r is Ok && final(config).spec_collections().dom() == old(config).spec_collections().dom().insert(name@)
                && final(config).spec_collections()[name@].spec_name() == name@
                && final(config).spec_collections()[name@].spec_path() == path@
                && forall|k: Seq<char>| k != name@ && #[trigger] old(config).spec_collections().contains_key(k)
                    ==> final(config).spec_collections()[k] == old(config).spec_collections()[k]
        },
{
    if config.collections().get(name.as_str()).is_some() {
        return Err(CommandError::AlreadyExists(name));
    }
    let collection = Collection::new(name, path);
    let _ = config.collections_mut().insert(collection);
    assert(final(config).spec_collections().dom() =~= old(config).spec_collections().dom().insert(name@));
    Ok(())
}

/// `m` without the keys `keys`.
pub open spec fn remove_keys<V>(m: Map<Seq<char>, V>, keys: Seq<Seq<char>>) -> Map<Seq<char>, V>
    decreases keys.len(),
{
    if keys.len() == 0 {
        m
    } else {
        remove_keys(m, keys.drop_last()).remove(keys.last())
    }
}

/// Each of `keys` is in `m` when its turn comes to be removed.
pub open spec fn all_present<V>(m: Map<Seq<char>, V>, keys: Seq<Seq<char>>) -> bool {
    forall|i: int| 0 <= i < keys.len() ==> #[trigger] remove_keys(m, keys.subrange(0, i)).contains_key(keys[i])
}

/// The strings, as character sequences.
pub open spec fn strs_view(v: Seq<String>) -> Seq<Seq<char>> {
    v.map_values(|s: String| s@)
}

/// Unregisters the collections of the given names, and drops their caches.
/// A name that is not registered is an error unless `allow_remove_nothing`.
pub fn unregister_collections(config: &mut Config, cache: &mut Cache, names: &Vec<String>, allow_remove_nothing: bool) -> (r: Result<(), CommandError>)
    ensures
        r is Ok <==> allow_remove_nothing || all_present(old(config).spec_collections(), strs_view(names@)),
        r is Ok ==> final(config).spec_collections() == remove_keys(old(config).spec_collections(), strs_view(names@))
            && final(cache)@ == remove_keys(old(cache)@, strs_view(names@))
            && final(config).spec_default() == old(config).spec_default(),
{
    let ghost keys = strs_view(names@);
    let mut i: usize = 0;
    assert(keys.subrange(0, 0) =~= Seq::<Seq<char>>::empty());
    while i < names.len()
        invariant
            i <= names@.len(),
            keys == strs_view(names@),
            config.spec_collections() == remove_keys(old(config).spec_collections(), keys.subrange(0, i as int)),
            cache@ == remove_keys(old(cache)@, keys.subrange(0, i as int)),
            config.spec_default() == old(config).spec_default(),
            !allow_remove_nothing ==> forall|k: int| 0 <= k < i ==> #[trigger] remove_keys(old(config).spec_collections(), keys.subrange(0, k)).contains_key(keys[k]),
        decreases names@.len() - i,
    {
        let name = names[i].as_str();
        assert(name@ == keys[i as int]);
        assert(keys.subrange(0, i + 1).drop_last() =~= keys.subrange(0, i as int));
        let removed = config.collections_mut().remove(name);
        if removed.is_none() && !allow_remove_nothing {
            assert(!remove_keys(old(config).spec_collections(), keys.subrange(0, i as int)).contains_key(keys[i as int]));
            return Err(CommandError::NotFound(name.to_owned()));
        }
        let _ = cache.remove_collection_repos_cache(name);
        i += 1;
    }
    assert(keys.subrange(0, i as int) =~= keys);
    Ok(())
}

/// Renames a collection, and moves its cache to the new name. The old name
/// must be registered, and the new one must not be unless it is the same.
pub fn rename_collection(config: &mut Config, cache: &mut Cache, old_name: &CollectionName, new_name: CollectionName) -> (r: Result<(), CommandError>)
    ensures
        !old(config).spec_collections().contains_key(old_name@) ==> (r matches Err(CommandError::NotFound(m)) && m@ == old_name@),
        old(config).spec_collections().contains_key(old_name@) && new_name@ != old_name@
            && old(config).spec_collections().contains_key(new_name@) ==> (r matches Err(CommandError::AlreadyExists(m)) && m@ == new_name@),
        old(config).spec_collections().contains_key(old_name@) && (new_name@ == old_name@
            || !old(config).spec_collections().contains_key(new_name@)) ==> r is Ok,
        r is Err ==> *final(config) == *old(config) && *final(cache) == *old(cache),
        r is Ok ==> old(config).spec_collections().contains_key(old_name@) && (new_name@ == old_name@
            || !old(config).spec_collections().contains_key(new_name@))
            && final(config).spec_collections().dom() == old(config).spec_collections().dom().remove(old_name@).insert(new_name@)
            && final(config).spec_collections()[new_name@].spec_name() == new_name@
            && final(config).spec_collections()[new_name@].spec_path() == old(config).spec_collections()[old_name@].spec_path()
            && final(cache)@ == old(cache)@.remove(old_name@).insert(new_name@,
                if old(cache)@.contains_key(old_name@) { old(cache)@[old_name@] } else { Map::empty() }),
{
    if config.collections().get(old_name.as_str()).is_none() {
        return Err(CommandError::NotFound(old_name.as_str().to_owned()));
    }
    if !new_name.is(old_name.as_str()) && config.collections().get(new_name.as_str()).is_some() {
        return Err(CommandError::AlreadyExists(new_name));
    }
    let ghost key = new_name@;
    let collections = config.collections_mut();
    let mut collection = match collections.remove(old_name.as_str()) {
        Some(c) => c,
        None => {
            return Err(CommandError::NotFound(old_name.as_str().to_owned()));
        },
    };
    collection.set_name(new_name.clone());
    let _ = collections.insert(collection);
    assert(final(config).spec_collections().dom() =~= old(config).spec_collections().dom().remove(old_name@).insert(key));
    let coll_cache = match cache.remove_collection_repos_cache(old_name.as_str()) {
        Some(c) => c,
        None => CollectionReposCache::new(),
    };
    let _ = cache.cache_collection_repos(new_name, coll_cache);
    Ok(())
}

/// Sets the path of a registered collection.
pub fn set_collection_path(config: &mut Config, name: &CollectionName, path: String) -> (r: Result<(), CommandError>)
    ensures
        if old(config).spec_collections().contains_key(name@) {
            r is Ok && final(config).spec_collections().dom() == old(config).spec_collections().dom()
                && final(config).spec_collections()[name@].spec_path() == path@
                && final(config).spec_collections()[name@].spec_name() == name@
        } else {
            (r matches Err(CommandError::NotFound(m)) && m@ == name@) && *final(config) == *old(config)
        },
{
    if config.collections().get(name.as_str()).is_none() {
        return Err(CommandError::NotFound(name.as_str().to_owned()));
    }
    let _ = config.collections_mut().set_path(name.as_str(), path);
    Ok(())
}

/// The collection that receives a clone: the one named, or else the default
/// one.
pub fn clone_collection<'a>(config: &'a Config, name: Option<&CollectionName>) -> (r: Result<&'a Collection, CommandError>)
    ensures
        match name {
            Some(n) => if config.spec_collections().contains_key(n@) {
                r matches Ok(c) && *c == config.spec_collections()[n@]
            } else {
                r matches Err(CommandError::NotFound(m)) && m@ == n@
            },
            None => match config.spec_default() {
                Some(d) => if config.spec_collections().contains_key(d) {
                    r matches Ok(c) && *c == config.spec_collections()[d]
                } else {
                    r matches Err(CommandError::DefaultNotFound(m)) && m@ == d
                },
                None => r matches Err(CommandError::NoTarget),
            },
        },
{
    match name {
        Some(n) => match config.collections().get(n.as_str()) {
            Some(c) => Ok(c),
            None => Err(CommandError::NotFound(n.as_str().to_owned())),
        },
        None => match config.default_collection() {
            Some(d) => match config.collections().get(d.as_str()) {
                Some(c) => Ok(c),
                None => Err(CommandError::DefaultNotFound(d.clone())),
            },
            None => Err(CommandError::NoTarget),
        },
    }
}

/// The VCS of a clone and its destination relative to the collection's root:
/// the VCS given, or else the one the URI suggests; the destination of a git
/// clone of the URI, bare when `bare` is `Yes`.
pub fn clone_destination(uri: &str, vcs: Option<Vcs>, bare: OptionBool) -> (r: Result<(Vcs, String), CommandError>)
    ensures
        ({
            let chosen = match vcs {
                Some(v) => Some(v),
                None => supposed_vcs(uri@),
            };
            match chosen {
                None => r matches Err(CommandError::UnknownVcs),
                Some(v) => match dest_relpath(uri@, bare == OptionBool::Yes) {
                    Ok(p) => r matches Ok((w, q)) && w == v && q@ == p,
                    Err(e) => r matches Err(CommandError::Destination(f)) && f == e,
                },
            }
        }),
{
    let chosen = match vcs {
        Some(v) => v,
        None => match suppose_vcs_from_uri(uri) {
            Some(v) => v,
            None => {
                return Err(CommandError::UnknownVcs);
            },
        },
    };
    let is_bare = match bare {
        OptionBool::Yes => true,
        _ => false,
    };
    match chosen {
        Vcs::Git => match git_dest_relpath(uri, is_bare) {
            Ok(p) => Ok((chosen, p)),
            Err(e) => Err(CommandError::Destination(e)),
        },
    }
}

/// Records a clone in the cache of its collection; a collection without a
/// cache gets one that holds the clone alone.
pub fn record_clone(cache: &mut Cache, name: &CollectionName, vcs: Vcs, reldest: String)
    ensures
        final(cache)@ == old(cache)@.insert(
            name@,
            (if old(cache)@.contains_key(name@) {
                old(cache)@[name@]
            } else {
                Map::empty()
            }).insert(reldest@, vcs),
        ),
{
    let ghost path = reldest@;
    let mut repos = match cache.remove_collection_repos_cache(name.as_str()) {
        Some(repos) => repos,
        None => CollectionReposCache::new(),
    };
    repos.insert(RepoCacheEntry::new(vcs, reldest));
    let _ = cache.cache_collection_repos(name.clone(), repos);
    assert(final(cache)@ =~= old(cache)@.insert(
        name@,
        (if old(cache)@.contains_key(name@) {
            old(cache)@[name@]
        } else {
            Map::empty()
        }).insert(path, vcs),
    ));
}

/// The collections that a command targets: those named, in order (a name
/// that is not registered stands as itself), or all of them if none is named.
pub fn select_targets<'a>(collections: &'a Collections, names: &Vec<CollectionName>) -> (r: Vec<Result<&'a Collection, CollectionName>>)
    ensures
        names@.len() == 0 ==> r@.len() == collections.iter_spec().len() && forall|i: int| 0 <= i < r@.len() ==> (#[trigger] r@[i] matches Ok(c) && *c == collections.iter_spec()[i]),
        names@.len() > 0 ==> r@.len() == names@.len() && forall|i: int| 0 <= i < r@.len() ==> match #[trigger] r@[i] {
            Ok(c) => collections@.contains_key(names@[i]@) && *c == collections@[names@[i]@],
            Err(n) => !collections@.contains_key(names@[i]@) && n@ == names@[i]@,
        },
{
    let mut r: Vec<Result<&'a Collection, CollectionName>> = Vec::new();
    if names.len() == 0 {
        let all = collections.iter();
        let mut i: usize = 0;
        while i < all.len()
            invariant
                i <= all@.len(),
                all@ == collections.iter_spec(),
                r@.len() == i,
                forall|k: int| 0 <= k < i ==> (#[trigger] r@[k] matches Ok(c) && *c == all@[k]),
            decreases all@.len() - i,
        {
            r.push(Ok(&all[i]));
            i += 1;
        }
    } else {
        let mut i: usize = 0;
        while i < names.len()
            invariant
                i <= names@.len(),
                r@.len() == i,
                forall|k: int| 0 <= k < i ==> match #[trigger] r@[k] {
                    Ok(c) => collections@.contains_key(names@[k]@) && *c == collections@[names@[k]@],
                    Err(n) => !collections@.contains_key(names@[k]@) && n@ == names@[k]@,
                },
            decreases names@.len() - i,
        {
            match collections.get(names[i].as_str()) {
                Some(c) => r.push(Ok(c)),
                None => r.push(Err(names[i].clone())),
            }
            i += 1;
        }
    }
    r
}

/// `path` relative to `base` when it lies below it, empty when it is `base`,
/// and `path` itself otherwise.
pub open spec fn relativized(path: Seq<char>, base: Seq<char>) -> Seq<char> {
    if path == base {
        Seq::empty()
    } else {
        match relative_to(base, path) {
            Some(r) => r,
            None => path,
        }
    }
}

/// Returns `path` relative to `base` where it can, or `path` itself.
pub fn try_relativize(path: &str, base: &str) -> (r: String)
    ensures
        r@ == relativized(path@, base@),
{
    if crate::text::str_eq(path, base) {
        return String::new();
    }
    match relativize(base, path) {
        Some(rel) => rel,
        None => path.to_owned(),
    }
}

/// How a listed path is shown, given the base that the listing asks for.
pub open spec fn shown_path(base: PathBase, path: Seq<char>, collection_root: Seq<char>, home: Seq<char>) -> Seq<char> {
    match base {
        PathBase::Root => path,
        PathBase::Collection => relativized(path, collection_root),
        PathBase::Home => relativized(path, home),
    }
}

/// Returns the path to show for `path`, given the base that the listing asks for.
pub fn show_path(base: PathBase, path: &str, collection_root: &str, home: &str) -> (r: String)
    ensures
        r@ == shown_path(base, path@, collection_root@, home@),
{
    match base {
        PathBase::Root => path.to_owned(),
        PathBase::Collection => try_relativize(path, collection_root),
        PathBase::Home => try_relativize(path, home),
    }
}

/// The VCS type passes the filter: there is none, or it names the type.
pub open spec fn passes_filter(vcs: Vcs, filter: Option<Seq<Vcs>>) -> bool {
    match filter {
        None => true,
        Some(f) => f.contains(vcs),
    }
}

/// Whether the VCS type passes the filter.
fn vcs_selected(vcs: Vcs, filter: &Option<Vec<Vcs>>) -> (r: bool)
    ensures
        r == passes_filter(vcs, filter_view(filter)),
{
    match filter {
        None => true,
        Some(f) => {
            let mut i: usize = 0;
            while i < f.len()
                invariant
                    i <= f@.len(),
                    match filter {
                        Some(g) => g@ == f@,
                        None => false,
                    },
                    forall|k: int| 0 <= k < i ==> f@[k] != vcs,
                decreases f@.len() - i,
            {
                if f[i] == vcs {
                    assert(f@[i as int] == vcs);
                    return true;
                }
                i += 1;
            }
            false
        },
    }
}

/// The entries of `s` whose VCS passes the filter, in order.
pub open spec fn filtered(s: Seq<(Seq<char>, Vcs)>, filter: Option<Seq<Vcs>>) -> Seq<(Seq<char>, Vcs)>
    decreases s.len(),
{
    if s.len() == 0 {
        Seq::empty()
    } else if passes_filter(s.last().1, filter) {
        filtered(s.drop_last(), filter).push(s.last())
    } else {
        filtered(s.drop_last(), filter)
    }
}

/// The filter, as a sequence.
pub open spec fn filter_view(filter: &Option<Vec<Vcs>>) -> Option<Seq<Vcs>> {
    match filter {
        Some(f) => Some(f@),
        None => None,
    }
}

/// The repositories of a collection in the cache whose VCS passes the filter:
/// their VCS types and absolute paths, by increasing relative path. A
/// collection without a cache has none.
pub fn listed_repos(cache: &Cache, collection: &Collection, home: &str, filter: &Option<Vec<Vcs>>) -> (r: Vec<(Vcs, String)>)
    ensures
        !cache@.contains_key(collection.spec_name()) ==> r@.len() == 0,
        cache@.contains_key(collection.spec_name()) ==> exists|entries: Seq<(Seq<char>, Vcs)>|
            keyed(entries, slots(cache@[collection.spec_name()])) && {
                let f = filtered(entries, filter_view(filter));
                &&& r@.len() == f.len()
                &&& forall|i: int| 0 <= i < r@.len() ==> #[trigger] r@[i].0 == f[i].1 && r@[i].1@ == join_path(
                    join_path(home@, collection.spec_path()),
                    f[i].0,
                )
            },
{
    let mut r: Vec<(Vcs, String)> = Vec::new();
    let repos = match cache.collection_repos(collection.name()) {
        Some(c) => c,
        None => {
            return r;
        },
    };
    let root = collection.abspath(home);
    let entries = repos.repositories();
    let ghost all = listing(entries@);
    let ghost ff = filter_view(filter);
    let mut i: usize = 0;
    assert(all.subrange(0, 0) =~= Seq::<(Seq<char>, Vcs)>::empty());
    while i < entries.len()
        invariant
            i <= entries@.len(),
            all == listing(entries@),
            ff == filter_view(filter),
            root@ == join_path(home@, collection.spec_path()),
            r@.len() == filtered(all.subrange(0, i as int), ff).len(),
            forall|k: int| 0 <= k < r@.len() ==> #[trigger] r@[k].0 == filtered(all.subrange(0, i as int), ff)[k].1
                && r@[k].1@ == join_path(root@, filtered(all.subrange(0, i as int), ff)[k].0),
        decreases entries@.len() - i,
    {
        let entry = &entries[i];
        let vcs = entry.vcs();
        let ghost prev = filtered(all.subrange(0, i as int), ff);
        assert(all.subrange(0, i + 1).drop_last() =~= all.subrange(0, i as int));
        assert(all.subrange(0, i + 1).last() == entry@);
        if vcs_selected(vcs, filter) {
            let path = join(root.as_str(), entry.path());
            r.push((vcs, path));
            assert(filtered(all.subrange(0, i + 1), ff) == prev.push(entry@));
        } else {
            assert(filtered(all.subrange(0, i + 1), ff) == prev);
        }
        i += 1;
    }
    assert(all.subrange(0, i as int) =~= all);
    r
}

} // verus!
