//! Refresh of the repository cache, collection by collection, under the
//! keep-going policy.

use vstd::prelude::*;
use crate::cache::{insert_all, listing, Cache, CollectionReposCache, RepoCacheEntry};
use crate::collection::CollectionName;
use crate::discovery::{Error, RepoEntry};
use crate::path::{join_path, lemma_join_relative, relative_to, relativize};
use crate::vcs::Vcs;

verus! {

/// What the walk of one collection gave, or why there was none.
pub enum Scan {
    /// No collection of this name is registered.
    CollectionMissing,
    /// The collection's root does not exist.
    RootAbsent,
    /// The seeker could not start on the collection's root.
    RootInaccessible(Error),
    /// The seeker walked the collection's root `root` and handed out these
    /// items, in order.
    Walked { root: String, items: Vec<Result<RepoEntry, Error>> },
}

/// The walk handed out an error.
pub open spec fn walk_failed(items: Seq<Result<RepoEntry, Error>>) -> bool {
    exists|i: int| 0 <= i < items.len() && items[i] is Err
}

/// `i` is the index of the first error of the walk.
pub open spec fn is_first_failure(items: Seq<Result<RepoEntry, Error>>, i: int) -> bool {
    0 <= i < items.len() && items[i] is Err && forall|k: int| 0 <= k < i ==> items[k] is Ok
}

/// Every repository handed out lies below `root`.
pub open spec fn below_root(root: Seq<char>, items: Seq<Result<RepoEntry, Error>>) -> bool {
    forall|i: int|
        0 <= i < items.len() ==> (#[trigger] items[i] matches Ok(e) ==> relative_to(root, e@.0) is Some)
}

/// The repositories handed out by a walk of `root`, in order, with their paths
/// made relative to `root`; errors are left out.
pub open spec fn found_entries(root: Seq<char>, items: Seq<Result<RepoEntry, Error>>) -> Seq<
    (Seq<char>, Vcs),
>
    decreases items.len(),
{
    if items.len() == 0 {
        Seq::empty()
    } else {
        let rest = found_entries(root, items.drop_last());
        match items.last() {
            Ok(e) => rest.push((relative_to(root, e@.0)->Some_0, e@.1)),
            Err(_) => rest,
        }
    }
}

/// Every entry found in a walk of `root`, joined back onto `root`, is the path
/// of a repository that the walk handed out, with the same VCS type.
pub proof fn lemma_found_entries_rejoin(root: Seq<char>, items: Seq<Result<RepoEntry, Error>>, j: int)
    requires
        below_root(root, items),
        0 <= j < found_entries(root, items).len(),
    ensures
        exists|i: int|
            #![trigger items[i]]
            0 <= i < items.len() && (items[i] matches Ok(e) && join_path(
                root,
                found_entries(root, items)[j].0,
            ) == e@.0 && found_entries(root, items)[j].1 == e@.1),
    decreases items.len(),
{
    let n = items.len();
    let init = items.drop_last();
    assert(below_root(root, init)) by {
        assert forall|i: int| 0 <= i < init.len() implies (#[trigger] init[i] matches Ok(e)
            ==> relative_to(root, e@.0) is Some) by {
            assert(init[i] == items[i]);
        }
    }
    let rest = found_entries(root, init);
    if j < rest.len() {
        lemma_found_entries_rejoin(root, init, j);
        let i = choose|i: int|
            #![trigger init[i]]
            0 <= i < init.len() && (init[i] matches Ok(e) && join_path(root, rest[j].0) == e@.0
                && rest[j].1 == e@.1);
        assert(items[i] == init[i]);
    } else {
        assert(items[n - 1] matches Ok(_));
        let e = items[n - 1]->Ok_0;
        lemma_join_relative(root, e@.0);
    }
}

/// The collection's cache after a walk of `root` (with its errors skipped).
pub open spec fn walked_cache(root: Seq<char>, items: Seq<Result<RepoEntry, Error>>) -> Map<
    Seq<char>,
    Vcs,
> {
    insert_all(Map::empty(), found_entries(root, items))
}

/// Discovers the repositories of a walk of `root`, with paths relative to
/// `root`. An error of the walk is skipped when `keep_going`; otherwise the
/// first one is returned.
pub fn discover_repositories(root: &str, items: Vec<Result<RepoEntry, Error>>, keep_going: bool) -> (r:
    Result<Vec<RepoCacheEntry>, Error>)
    requires
        below_root(root@, items@),
    ensures
        keep_going || !walk_failed(items@) ==> (r matches Ok(v) && listing(v@) == found_entries(
            root@,
            items@,
        )),
        !keep_going && walk_failed(items@) ==> (r matches Err(e) && exists|i: int|
            is_first_failure(items@, i) && items@[i] == Err::<RepoEntry, Error>(e)),
{
    let ghost orig = items@;
    let mut rest = items;
    let n = rest.len();
    let mut result: Vec<RepoCacheEntry> = Vec::new();
    let mut i: usize = 0;
    assert(orig.subrange(0, 0) =~= Seq::<Result<RepoEntry, Error>>::empty());
    while i < n
        invariant
            n == orig.len(),
            orig == items@,
            i <= n,
            rest@ == orig.subrange(i as int, n as int),
            below_root(root@, orig),
            listing(result@) == found_entries(root@, orig.subrange(0, i as int)),
            !keep_going ==> forall|k: int| 0 <= k < i ==> orig[k] is Ok,
        decreases n - i,
    {
        let item = rest.remove(0);
        assert(item == orig[i as int]);
        assert(orig.subrange(0, i + 1).drop_last() =~= orig.subrange(0, i as int));
        assert(rest@ =~= orig.subrange(i + 1, n as int));
        match item {
            Ok(entry) => {
                assert(orig[i as int] matches Ok(e) ==> relative_to(root@, e@.0) is Some);
                let vcs = entry.vcs();
                let rel = relativize(root, entry.path());
                match rel {
                    Some(p) => {
                        result.push(RepoCacheEntry::new(vcs, p));
                        assert(listing(result@) =~= found_entries(root@, orig.subrange(0, i + 1)));
                    },
                    None => {
                        assert(false);
                    },
                }
            },
            Err(e) => {
                if !keep_going {
                    assert(is_first_failure(orig, i as int));
                    return Err(e);
                }
                assert(listing(result@) =~= found_entries(root@, orig.subrange(0, i + 1)));
            },
        }
        i += 1;
    }
    assert(orig.subrange(0, n as int) =~= orig);
    Ok(result)
}

/// What a scan means for its collection.
pub enum Outcome {
    /// The collection is not registered.
    Missing,
    /// The collection's root cannot be walked.
    Inaccessible,
    /// The collection's root does not exist.
    Absent,
    /// These entries were found.
    Found(Seq<(Seq<char>, Vcs)>),
    /// The walk failed, and the policy is to stop at the first failure.
    Broken,
}

/// What `scan` means for its collection under the keep-going policy.
pub open spec fn scan_outcome(scan: Scan, keep_going: bool) -> Outcome {
    match scan {
        Scan::CollectionMissing => Outcome::Missing,
        Scan::RootAbsent => Outcome::Absent,
        Scan::RootInaccessible(_) => Outcome::Inaccessible,
        Scan::Walked { root, items } => if keep_going || !walk_failed(items@) {
            Outcome::Found(found_entries(root@, items@))
        } else {
            Outcome::Broken
        },
    }
}

/// The state of a refresh: the cache being built, the names of the collections
/// that failed, and whether the refresh was given up.
pub struct RefreshState {
    /// The cache.
    pub cache: Map<Seq<char>, Map<Seq<char>, Vcs>>,
    /// The collections that failed, in order.
    pub failed: Seq<Seq<char>>,
    /// The refresh was given up.
    pub aborted: bool,
}

/// The state of a refresh after the scan of the collection `name`.
///
/// A missing collection fails; an inaccessible root fails and leaves its
/// collection's cache empty; a missing root leaves it empty; a walk replaces
/// it with what was found. Without `keep_going`, a failure gives up the
/// refresh. Once given up, nothing changes.
pub open spec fn refresh_step(st: RefreshState, name: Seq<char>, outcome: Outcome, keep_going: bool) -> RefreshState {
    if st.aborted {
        st
    } else {
        match outcome {
            Outcome::Missing => if keep_going {
                RefreshState { cache: st.cache, failed: st.failed.push(name), aborted: false }
            } else {
                RefreshState { cache: st.cache, failed: st.failed, aborted: true }
            },
            Outcome::Inaccessible => if keep_going {
                RefreshState {
                    cache: st.cache.insert(name, Map::empty()),
                    failed: st.failed.push(name),
                    aborted: false,
                }
            } else {
                RefreshState { cache: st.cache, failed: st.failed, aborted: true }
            },
            Outcome::Absent => RefreshState {
                cache: st.cache.insert(name, Map::empty()),
                failed: st.failed,
                aborted: false,
            },
            Outcome::Found(entries) => RefreshState {
                cache: st.cache.insert(name, insert_all(Map::empty(), entries)),
                failed: st.failed,
                aborted: false,
            },
            Outcome::Broken => RefreshState { cache: st.cache, failed: st.failed, aborted: true },
        }
    }
}

/// The state of a refresh after the scans `steps`, in order.
pub open spec fn refresh_run(st: RefreshState, steps: Seq<(Seq<char>, Outcome)>, keep_going: bool) -> RefreshState
    decreases steps.len(),
{
    if steps.len() == 0 {
        st
    } else {
        refresh_step(
            refresh_run(st, steps.drop_last(), keep_going),
            steps.last().0,
            steps.last().1,
            keep_going,
        )
    }
}

/// The cache that `outcome` gives its collection, if it gives one.
pub open spec fn written_cache(outcome: Outcome, keep_going: bool) -> Option<Map<Seq<char>, Vcs>> {
    match outcome {
        Outcome::Missing => None,
        Outcome::Inaccessible => if keep_going {
            Some(Map::empty())
        } else {
            None
        },
        Outcome::Absent => Some(Map::empty()),
        Outcome::Found(entries) => Some(insert_all(Map::empty(), entries)),
        Outcome::Broken => None,
    }
}

/// `c` with the caches that `steps` give written over it, in order.
pub open spec fn overlay(c: Map<Seq<char>, Map<Seq<char>, Vcs>>, steps: Seq<(Seq<char>, Outcome)>, keep_going: bool) -> Map<
    Seq<char>,
    Map<Seq<char>, Vcs>,
>
    decreases steps.len(),
{
    if steps.len() == 0 {
        c
    } else {
        let below = overlay(c, steps.drop_last(), keep_going);
        match written_cache(steps.last().1, keep_going) {
            Some(v) => below.insert(steps.last().0, v),
            None => below,
        }
    }
}

/// The last cache that `steps` give the collection `k`, if any.
pub open spec fn last_written(steps: Seq<(Seq<char>, Outcome)>, k: Seq<char>, keep_going: bool) -> Option<
    Map<Seq<char>, Vcs>,
>
    decreases steps.len(),
{
    if steps.len() == 0 {
        None
    } else if steps.last().0 == k && written_cache(steps.last().1, keep_going) is Some {
        written_cache(steps.last().1, keep_going)
    } else {
        last_written(steps.drop_last(), k, keep_going)
    }
}

proof fn lemma_run_is_overlay(st: RefreshState, steps: Seq<(Seq<char>, Outcome)>, keep_going: bool)
    requires
        !refresh_run(st, steps, keep_going).aborted,
    ensures
        refresh_run(st, steps, keep_going).cache == overlay(st.cache, steps, keep_going),
        !st.aborted,
    decreases steps.len(),
{
    if steps.len() > 0 {
        let prev = refresh_run(st, steps.drop_last(), keep_going);
        assert(!prev.aborted);
        lemma_run_is_overlay(st, steps.drop_last(), keep_going);
    }
}

proof fn lemma_aborted_independent(s1: RefreshState, s2: RefreshState, steps: Seq<(Seq<char>, Outcome)>, keep_going: bool)
    requires
        s1.aborted == s2.aborted,
    ensures
        refresh_run(s1, steps, keep_going).aborted == refresh_run(s2, steps, keep_going).aborted,
    decreases steps.len(),
{
    if steps.len() > 0 {
        lemma_aborted_independent(s1, s2, steps.drop_last(), keep_going);
    }
}

proof fn lemma_overlay_at(c: Map<Seq<char>, Map<Seq<char>, Vcs>>, steps: Seq<(Seq<char>, Outcome)>, k: Seq<char>, keep_going: bool)
    ensures
        match last_written(steps, k, keep_going) {
            Some(v) => overlay(c, steps, keep_going).contains_key(k) && overlay(c, steps, keep_going)[k] == v,
            None => overlay(c, steps, keep_going).contains_key(k) == c.contains_key(k)
                && overlay(c, steps, keep_going)[k] == c[k],
        },
    decreases steps.len(),
{
    if steps.len() > 0 {
        lemma_overlay_at(c, steps.drop_last(), k, keep_going);
    }
}

/// Refreshing again with the same scans gives the same cache: a refresh
/// replaces the caches of the collections it reaches, and does not merge.
pub proof fn lemma_refresh_idempotent(st: RefreshState, steps: Seq<(Seq<char>, Outcome)>, keep_going: bool)
    requires
        !refresh_run(st, steps, keep_going).aborted,
    ensures
        ({
            let first = refresh_run(st, steps, keep_going);
            let second = refresh_run(
                RefreshState { cache: first.cache, failed: Seq::empty(), aborted: false },
                steps,
                keep_going,
            );
            !second.aborted && second.cache == first.cache
        }),
{
    let first = refresh_run(st, steps, keep_going);
    let again = RefreshState { cache: first.cache, failed: Seq::empty(), aborted: false };
    lemma_run_is_overlay(st, steps, keep_going);
    lemma_aborted_independent(st, again, steps, keep_going);
    lemma_run_is_overlay(again, steps, keep_going);
    let once = overlay(st.cache, steps, keep_going);
    let twice = overlay(once, steps, keep_going);
    assert forall|k: Seq<char>| #[trigger] twice.contains_key(k) == once.contains_key(k) && (
    twice.contains_key(k) ==> twice[k] == once[k]) by {
        lemma_overlay_at(st.cache, steps, k, keep_going);
        lemma_overlay_at(once, steps, k, keep_going);
    }
    assert(twice =~= once);
}

/// With `keep_going`, a refresh of three collections of which one has a root
/// that cannot be walked and two have repositories gives the cache of each of
/// the two what was found in it, gives the third an empty cache, and fails
/// naming the third alone.
pub proof fn lemma_keep_going_isolates_failure(
    c: Map<Seq<char>, Map<Seq<char>, Vcs>>,
    steps: Seq<(Seq<char>, Outcome)>,
    broken: int,
)
    requires
        steps.len() == 3,
        0 <= broken < 3,
        steps[broken].1 == Outcome::Inaccessible,
        forall|i: int| 0 <= i < 3 && i != broken ==> (#[trigger] steps[i].1 matches Outcome::Found(f) && f.len() > 0),
        forall|i: int, j: int| 0 <= i < j < 3 ==> steps[i].0 != steps[j].0,
    ensures
        ({
            let st = refresh_run(RefreshState { cache: c, failed: Seq::empty(), aborted: false }, steps, true);
            &&& !st.aborted
            &&& st.failed == seq![steps[broken].0]
            &&& st.cache.contains_key(steps[broken].0)
            &&& st.cache[steps[broken].0] == Map::<Seq<char>, Vcs>::empty()
            &&& forall|i: int| 0 <= i < 3 && i != broken ==> (#[trigger] steps[i].1 matches Outcome::Found(f)
                && st.cache.contains_key(steps[i].0) && st.cache[steps[i].0] == insert_all(Map::empty(), f)
                && st.cache[steps[i].0].contains_key(f.last().0))
        }),
{
    let init = RefreshState { cache: c, failed: Seq::empty(), aborted: false };
    let s1 = steps.drop_last().drop_last();
    let s2 = steps.drop_last();
    assert(s1.drop_last() =~= Seq::<(Seq<char>, Outcome)>::empty());
    assert(s1.last() == steps[0] && s2.last() == steps[1] && steps.last() == steps[2]);
    let r1 = refresh_run(init, s1, true);
    let r2 = refresh_run(init, s2, true);
    let r3 = refresh_run(init, steps, true);
    assert(refresh_run(init, s1.drop_last(), true) == init);
    assert(r1 == refresh_step(init, steps[0].0, steps[0].1, true));
    assert(r2 == refresh_step(r1, steps[1].0, steps[1].1, true));
    assert(r3 == refresh_step(r2, steps[2].0, steps[2].1, true));
    assert forall|i: int| 0 <= i < 3 && i != broken implies (#[trigger] steps[i].1 matches Outcome::Found(f)
        && insert_all(Map::empty(), f).contains_key(f.last().0)) by {
        let f = steps[i].1->Found_0;
        assert(insert_all(Map::<Seq<char>, Vcs>::empty(), f) == insert_all(Map::empty(), f.drop_last()).insert(f.last().0, f.last().1));
    }
    if broken == 0 {
        assert(r3.failed =~= seq![steps[0].0]);
    } else if broken == 1 {
        assert(r3.failed =~= seq![steps[1].0]);
    } else {
        assert(r3.failed =~= seq![steps[2].0]);
    }
}

/// Why a refresh did not succeed.
pub enum RefreshError {
    /// No collection of this name is registered; the refresh was given up.
    NotFound(CollectionName),
    /// The refresh of this collection failed; the refresh was given up.
    Collection { name: CollectionName, error: Error },
    /// The refresh of these collections failed; the others were refreshed and
    /// the cache was saved.
    Failed(Vec<CollectionName>),
}

/// Why a refresh was given up.
enum Abort {
    /// No collection of this name is registered.
    NotFound(CollectionName),
    /// The refresh of this collection failed.
    Collection { name: CollectionName, error: Error },
}

/// Why a refresh was given up, as the contracts speak of it.
pub enum AbortCause {
    /// No collection of this name is registered.
    NotFound(Seq<char>),
    /// The refresh of the collection of this name failed with this error.
    Collection(Seq<char>, Error),
}

/// What a refresh leaves: the cache to save, if any, and the result to report.
pub struct RefreshOutcome {
    /// The cache to save; none when the refresh was given up.
    pub save: Option<Cache>,
    /// The result of the refresh.
    pub result: Result<(), RefreshError>,
}

/// A refresh in progress: the scans of the target collections are recorded
/// one by one, then the refresh is finished.
pub struct Refresh {
    /// The cache being built.
    cache: Cache,
    /// Whether failures are skipped.
    keep_going: bool,
    /// The collections that failed, in order.
    failed: Vec<CollectionName>,
    /// Why the refresh was given up, if it was.
    abort: Option<Abort>,
}

/// The names, as character sequences.
pub open spec fn names_view(v: Seq<CollectionName>) -> Seq<Seq<char>> {
    v.map_values(|n: CollectionName| n@)
}

impl View for Refresh {
    type V = RefreshState;

    closed spec fn view(&self) -> RefreshState {
        RefreshState { cache: self.cache@, failed: names_view(self.failed@), aborted: self.abort is Some }
    }
}

impl Refresh {
    /// Whether failures are skipped.
    pub closed spec fn spec_keep_going(&self) -> bool {
        self.keep_going
    }

    /// Why the refresh was given up, if it was.
    pub closed spec fn spec_abort(&self) -> Option<AbortCause> {
        match self.abort {
            Some(Abort::NotFound(n)) => Some(AbortCause::NotFound(n@)),
            Some(Abort::Collection { name, error }) => Some(AbortCause::Collection(name@, error)),
            None => None,
        }
    }

    /// Starts a refresh of `cache`.
    pub fn new(cache: Cache, keep_going: bool) -> (r: Refresh)
        ensures
            r@ == (RefreshState { cache: cache@, failed: Seq::empty(), aborted: false }),
            r.spec_keep_going() == keep_going,
            r.spec_abort() is None,
    {
        let r = Refresh { cache, keep_going, failed: Vec::new(), abort: None };
        assert(names_view(r.failed@) =~= Seq::<Seq<char>>::empty());
        r
    }

    /// Whether the refresh was given up: further scans change nothing.
    pub fn is_aborted(&self) -> (r: bool)
        ensures
            r == self@.aborted,
    {
        self.abort.is_some()
    }

    /// Records the scan of the collection `name`.
    pub fn record(&mut self, name: CollectionName, scan: Scan)
        requires
            scan matches Scan::Walked { root, items } ==> below_root(root@, items@),
        ensures
            final(self)@ == refresh_step(old(self)@, name@, scan_outcome(scan, old(self).spec_keep_going()), old(self).spec_keep_going()),
            final(self).spec_keep_going() == old(self).spec_keep_going(),
            final(self)@.aborted <==> final(self).spec_abort() is Some,
            old(self)@.aborted ==> final(self).spec_abort() == old(self).spec_abort(),
            !old(self)@.aborted && final(self)@.aborted ==> match scan {
                Scan::CollectionMissing => final(self).spec_abort() == Some(AbortCause::NotFound(name@)),
                Scan::RootInaccessible(e) => final(self).spec_abort() == Some(AbortCause::Collection(name@, e)),
                Scan::Walked { root, items } => exists|i: int|
                    is_first_failure(items@, i) && final(self).spec_abort() == Some(
                        AbortCause::Collection(name@, items@[i]->Err_0),
                    ),
                Scan::RootAbsent => false,
            },
    {
        if self.abort.is_some() {
            return;
        }
        let ghost outcome = scan_outcome(scan, self.keep_going);
        let ghost key = name@;
        match scan {
            Scan::CollectionMissing => {
                if self.keep_going {
                    self.failed.push(name);
                    assert(names_view(self.failed@) =~= names_view(old(self).failed@).push(key));
                } else {
                    self.abort = Some(Abort::NotFound(name));
                }
            },
            Scan::RootAbsent => {
                let _ = self.cache.cache_collection_repos(name, CollectionReposCache::new());
            },
            Scan::RootInaccessible(e) => {
                if self.keep_going {
                    let _ = self.cache.cache_collection_repos(name.clone(), CollectionReposCache::new());
                    self.failed.push(name);
                    assert(names_view(self.failed@) =~= names_view(old(self).failed@).push(key));
                } else {
                    self.abort = Some(Abort::Collection { name, error: e });
                }
            },
            Scan::Walked { root, items } => {
                match discover_repositories(root.as_str(), items, self.keep_going) {
                    Ok(entries) => {
                        let mut repos = CollectionReposCache::new();
                        repos.extend(entries);
                        let _ = self.cache.cache_collection_repos(name, repos);
                    },
                    Err(e) => {
                        self.abort = Some(Abort::Collection { name, error: e });
                    },
                }
            },
        }
    }

    /// Finishes the refresh: the cache is saved unless the refresh was given
    /// up, and the result names every collection that failed.
    pub fn finish(self) -> (r: RefreshOutcome)
        ensures
            self@.aborted ==> r.save is None,
            match self.spec_abort() {
                Some(AbortCause::NotFound(n)) => r.result matches Err(RefreshError::NotFound(m)) && m@ == n,
                Some(AbortCause::Collection(n, e)) => r.result matches Err(
                    RefreshError::Collection { name, error },
                ) && name@ == n && error == e,
                None => !self@.aborted,
            },
            !self@.aborted ==> (r.save matches Some(c) && c@ == self@.cache),
            !self@.aborted && self@.failed.len() == 0 ==> r.result is Ok,
            !self@.aborted && self@.failed.len() > 0 ==> (r.result matches Err(
                RefreshError::Failed(names),
            ) && names_view(names@) == self@.failed),
    {
        let Refresh { cache, keep_going, failed, abort } = self;
        match abort {
            Some(Abort::NotFound(name)) => {
                RefreshOutcome { save: None, result: Err(RefreshError::NotFound(name)) }
            },
            Some(Abort::Collection { name, error }) => {
                RefreshOutcome { save: None, result: Err(RefreshError::Collection { name, error }) }
            },
            None => {
                if failed.len() == 0 {
                    RefreshOutcome { save: Some(cache), result: Ok(()) }
                } else {
                    RefreshOutcome { save: Some(cache), result: Err(RefreshError::Failed(failed)) }
                }
            },
        }
    }
}

} // verus!
