//! Repository discovery: the decisions of the repository seeker.
//!
//! The seeker walks the directories under a collection's root, depth first.
//! Walking and opening repositories is outside work; this module decides, for
//! each thing the walk reports, what happens next: go on, try to open a
//! candidate directory as a repository, or hand out a repository and prune the
//! walk.

use vstd::prelude::*;
use crate::text::{ends_with, has_suffix, last_occurrence, rfind};
use crate::resolve::dotgit;
use crate::vcs::Vcs;

verus! {

/// What kind of failure a discovery error is.
#[derive(Debug, Clone, Copy, PartialEq, Eq, Structural)]
pub enum ErrorKind {
    /// The collection's root is a symbolic link to nothing.
    RootBrokenSymlink,
    /// The collection's root cannot be opened.
    RootUnreadable,
    /// The walk failed at an entry below the root.
    Traversal,
}

/// Repository discovery error.
#[derive(Debug, Clone)]
pub struct Error {
    /// Kind of failure.
    kind: ErrorKind,
    /// What the walk reported.
    message: String,
}

impl Error {
    /// The kind of failure.
    pub closed spec fn spec_kind(&self) -> ErrorKind {
        self.kind
    }

    /// What the walk reported.
    pub closed spec fn spec_message(&self) -> Seq<char> {
        self.message@
    }

    /// Creates a new error.
    pub fn new(kind: ErrorKind, message: String) -> (r: Self)
        ensures
            r.spec_kind() == kind,
            r.spec_message() == message@,
    {
        Error { kind, message }
    }

    /// Returns the kind of failure.
    pub fn kind(&self) -> (r: ErrorKind)
        ensures
            r == self.spec_kind(),
    {
        self.kind
    }

    /// Returns what the walk reported.
    pub fn message(&self) -> (r: &str)
        ensures
            r@ == self.spec_message(),
    {
        self.message.as_str()
    }
}

/// A repository entry.
#[derive(Debug, Clone, PartialEq, Eq, Hash)]
pub struct RepoEntry {
    /// VCS type.
    vcs: Vcs,
    /// Path: for git, the `.git` directory or the `*.git` directory.
    path: String,
}

impl View for RepoEntry {
    type V = (Seq<char>, Vcs);

    closed spec fn view(&self) -> (Seq<char>, Vcs) {
        (self.path@, self.vcs)
    }
}

impl RepoEntry {
    /// Creates a new `RepoEntry`.
    pub fn new(vcs: Vcs, path: String) -> (r: Self)
        ensures
            r@ == (path@, vcs),
    {
        RepoEntry { vcs, path }
    }

    /// Returns the VCS type.
    pub fn vcs(&self) -> (r: Vcs)
        ensures
            r == self@.1,
    {
        self.vcs
    }

    /// Returns the repository path.
    pub fn path(&self) -> (r: &str)
        ensures
            r@ == self@.0,
    {
        self.path.as_str()
    }

    /// Returns the owned repository path.
    pub fn into_path(self) -> (r: String)
        ensures
            r@ == self@.0,
    {
        self.path
    }
}

/// The last component of a path: what follows its last separator.
pub open spec fn file_name(p: Seq<char>) -> Seq<char> {
    match last_occurrence(p, seq!['/']) {
        Some(i) => p.subrange(i + 1, p.len() as int),
        None => p,
    }
}

/// The directory that holds a path: what precedes its last separator (the
/// root for a path directly below it).
pub open spec fn parent_dir(p: Seq<char>) -> Seq<char> {
    match last_occurrence(p, seq!['/']) {
        Some(i) => if i == 0 {
            seq!['/']
        } else {
            p.subrange(0, i)
        },
        None => Seq::empty(),
    }
}

/// `p` without its trailing separators.
pub open spec fn trim_trailing_separators(p: Seq<char>) -> Seq<char>
    decreases p.len(),
{
    if p.len() > 0 && p.last() == '/' {
        trim_trailing_separators(p.drop_last())
    } else {
        p
    }
}

/// Two paths name the same directory when they differ at most in trailing
/// separators.
pub open spec fn same_dir(a: Seq<char>, b: Seq<char>) -> bool {
    trim_trailing_separators(a) == trim_trailing_separators(b)
}

/// A directory may be a repository: its name is `.git`, or ends in `.git`
/// (a bare repository).
pub open spec fn is_repo_candidate(path: Seq<char>, is_dir: bool) -> bool {
    is_dir && has_suffix(file_name(path), dotgit())
}

/// What the outside world observed of a collection's root.
#[derive(Debug, Clone, Copy, PartialEq, Eq, Structural)]
pub enum RootState {
    /// Nothing is there (and it is not a broken symbolic link).
    Missing,
    /// A symbolic link to nothing.
    BrokenSymlink,
    /// It cannot be read.
    Unreadable,
    /// A readable directory, whose walk has begun.
    Directory,
}

/// What the walk, or the attempt to open a candidate, reported.
pub enum SeekEvent {
    /// The walk reached the entry at `path`; `is_dir` tells whether it is a
    /// directory.
    Entry { path: String, is_dir: bool },
    /// The walk failed to advance, with this message.
    WalkError(String),
    /// The walk is over.
    WalkEnd,
    /// The pending candidate opened as a repository, whose working directory
    /// is `workdir`, if it has one.
    Opened { workdir: Option<String> },
    /// The pending candidate did not open as a repository.
    NotRepository,
}

/// What to do next.
pub enum SeekAction {
    /// Ask the walk for its next entry.
    Advance,
    /// Try to open the directory at this path as a repository, and report
    /// `Opened` or `NotRepository`.
    Open(String),
    /// Skip the rest of the contents of the `skip` directories last entered by
    /// the walk, innermost first; then hand out the repository.
    Found { entry: RepoEntry, skip: usize },
    /// Hand out the error.
    Fail(Error),
    /// There is nothing more to find.
    Finish,
}

/// An event, over plain values.
pub enum EventView {
    /// The walk reached an entry: its path, and whether it is a directory.
    Entry(Seq<char>, bool),
    /// The walk failed, with this message.
    WalkError(Seq<char>),
    /// The walk is over.
    WalkEnd,
    /// The pending candidate opened, with this working directory if any.
    Opened(Option<Seq<char>>),
    /// The pending candidate did not open.
    NotRepository,
}

/// An action, over plain values.
pub enum ActionView {
    /// Ask the walk for its next entry.
    Advance,
    /// Try to open this directory.
    Open(Seq<char>),
    /// Skip `skip` directories, then hand out this repository.
    Found((Seq<char>, Vcs), nat),
    /// Hand out an error of this kind and message.
    Fail(ErrorKind, Seq<char>),
    /// Nothing more to find.
    Finish,
}

/// The event as plain values.
pub open spec fn event_view(e: SeekEvent) -> EventView {
    match e {
        SeekEvent::Entry { path, is_dir } => EventView::Entry(path@, is_dir),
        SeekEvent::WalkError(m) => EventView::WalkError(m@),
        SeekEvent::WalkEnd => EventView::WalkEnd,
        SeekEvent::Opened { workdir } => EventView::Opened(
            match workdir {
                Some(w) => Some(w@),
                None => None,
            },
        ),
        SeekEvent::NotRepository => EventView::NotRepository,
    }
}

/// The action as plain values.
pub open spec fn action_view(a: SeekAction) -> ActionView {
    match a {
        SeekAction::Advance => ActionView::Advance,
        SeekAction::Open(p) => ActionView::Open(p@),
        SeekAction::Found { entry, skip } => ActionView::Found(entry@, skip as nat),
        SeekAction::Fail(e) => ActionView::Fail(e.spec_kind(), e.spec_message()),
        SeekAction::Finish => ActionView::Finish,
    }
}

/// The seeker's decision: from the pending candidate and an event, the next
/// pending candidate and the action.
///
/// A directory whose name is or ends in `.git` is opened. If it opens, the
/// repository is handed out and the walk skips its contents, and also the rest
/// of the directory that holds it when that directory is the repository's
/// working tree. If it does not open, nothing is handed out and nothing is
/// skipped: the walk goes on into it.
pub open spec fn seek_transition(pending: Option<Seq<char>>, event: EventView) -> (Option<Seq<char>>, ActionView) {
    match event {
        EventView::Entry(path, is_dir) => if is_repo_candidate(path, is_dir) {
            (Some(path), ActionView::Open(path))
        } else {
            (None, ActionView::Advance)
        },
        EventView::WalkError(m) => (None, ActionView::Fail(ErrorKind::Traversal, m)),
        EventView::WalkEnd => (None, ActionView::Finish),
        EventView::Opened(workdir) => match pending {
            Some(c) => (
                None,
                ActionView::Found(
                    (c, Vcs::Git),
                    if workdir matches Some(w) && same_dir(w, parent_dir(c)) {
                        2
                    } else {
                        1
                    },
                ),
            ),
            None => (None, ActionView::Advance),
        },
        EventView::NotRepository => (None, ActionView::Advance),
    }
}

/// The pending candidate after the events `events`, from a fresh seeker.
pub open spec fn pending_after(events: Seq<EventView>) -> Option<Seq<char>>
    decreases events.len(),
{
    if events.len() == 0 {
        None
    } else {
        seek_transition(pending_after(events.drop_last()), events.last()).0
    }
}

/// The action that a fresh seeker takes on the event at `k` of `events`.
pub open spec fn action_at(events: Seq<EventView>, k: int) -> ActionView {
    seek_transition(pending_after(events.subrange(0, k)), events[k]).1
}

/// Over any sequence of events, a repository is handed out only right after
/// the walk reached it as a candidate directory and it opened; so a candidate
/// that does not open is not handed out. The walk skips the repository's
/// contents, and skips the rest of its working tree exactly when the working
/// tree is the directory that holds it.
pub proof fn lemma_found_only_when_opened(events: Seq<EventView>, k: int)
    requires
        0 <= k < events.len(),
        action_at(events, k) is Found,
    ensures
        ({
            let (entry, skip) = (action_at(events, k)->Found_0, action_at(events, k)->Found_1);
            &&& k >= 1
            &&& events[k - 1] == EventView::Entry(entry.0, true)
            &&& is_repo_candidate(entry.0, true)
            &&& entry.1 == Vcs::Git
            &&& events[k] matches EventView::Opened(w)
            &&& skip == (if w matches Some(d) && same_dir(d, parent_dir(entry.0)) { 2nat } else { 1nat })
        }),
{
    let pre = events.subrange(0, k);
    assert(pending_after(pre) is Some);
    if k == 0 {
        assert(pre.len() == 0);
    }
    assert(pre.drop_last() =~= events.subrange(0, k - 1));
    assert(pre.last() == events[k - 1]);
    let prev = events[k - 1];
    match prev {
        EventView::Entry(p, d) => {
            assert(is_repo_candidate(p, d));
            assert(d);
        },
        _ => {},
    }
}

/// A candidate that does not open leaves nothing pending and nothing skipped:
/// the walk goes on into it.
pub proof fn lemma_false_positive_walked_into(events: Seq<EventView>, k: int)
    requires
        0 <= k < events.len(),
        events[k] == EventView::NotRepository,
    ensures
        action_at(events, k) == ActionView::Advance,
        pending_after(events.subrange(0, k + 1)) is None,
{
    assert(events.subrange(0, k + 1).drop_last() =~= events.subrange(0, k));
}

/// Repositories seeker: decides, event by event, the course of a walk under a
/// collection's root.
#[derive(Debug)]
pub struct RepoSeeker {
    /// The candidate directory that is being opened, if any.
    pending: Option<String>,
}

/// The name of the last component of a path.
fn file_name_of(p: &str) -> (r: &str)
    ensures
        r@ == file_name(p@),
{
    proof {
        reveal_strlit("/");
        assert("/"@ =~= seq!['/']);
    }
    let n = p.unicode_len();
    match rfind(p, "/") {
        Some(i) => p.substring_char(i + 1, n),
        None => p,
    }
}

/// The directory that holds a path.
fn parent_of(p: &str) -> (r: String)
    ensures
        r@ == parent_dir(p@),
{
    proof {
        reveal_strlit("/");
        assert("/"@ =~= seq!['/']);
    }
    match rfind(p, "/") {
        Some(i) => if i == 0 {
            "/".to_owned()
        } else {
            p.substring_char(0, i).to_owned()
        },
        None => String::new(),
    }
}

/// `p` without its trailing separators.
fn trim_trailing(p: &str) -> (r: &str)
    ensures
        r@ == trim_trailing_separators(p@),
{
    let mut k: usize = p.unicode_len();
    assert(p@.subrange(0, k as int) =~= p@);
    while k > 0 && p.get_char(k - 1) == '/'
        invariant
            k <= p@.len(),
            trim_trailing_separators(p@.subrange(0, k as int)) == trim_trailing_separators(p@),
        decreases k,
    {
        assert(p@.subrange(0, k as int).drop_last() =~= p@.subrange(0, k - 1));
        k -= 1;
    }
    p.substring_char(0, k)
}

/// Whether the two paths name the same directory.
fn is_same_dir(a: &str, b: &str) -> (r: bool)
    ensures
        r == same_dir(a@, b@),
{
    crate::text::str_eq(trim_trailing(a), trim_trailing(b))
}

/// Whether the entry is a directory that may be a repository.
pub fn test_repo_candidate(path: &str, is_dir: bool) -> (r: bool)
    ensures
        r == is_repo_candidate(path@, is_dir),
{
    proof {
        reveal_strlit(".git");
        assert(".git"@ =~= dotgit());
    }
    is_dir && ends_with(file_name_of(path), ".git")
}

impl RepoSeeker {
    /// Whether a candidate directory is being opened.
    pub closed spec fn spec_pending(&self) -> Option<Seq<char>> {
        match self.pending {
            Some(p) => Some(p@),
            None => None,
        }
    }

    /// Starts a seeker over a collection's root, given what was observed of it.
    ///
    /// Nothing to discover under a missing root; a broken symbolic link or an
    /// unreadable root is an error.
    pub fn new(root: RootState) -> (r: Result<Option<RepoSeeker>, Error>)
        ensures
            match root {
                RootState::Missing => r matches Ok(None),
                RootState::BrokenSymlink => r matches Err(e) && e.spec_kind()
                    == ErrorKind::RootBrokenSymlink,
                RootState::Unreadable => r matches Err(e) && e.spec_kind()
                    == ErrorKind::RootUnreadable,
                RootState::Directory => r matches Ok(Some(s)) && s.spec_pending() is None,
            },
    {
        match root {
            RootState::Missing => Ok(None),
            RootState::BrokenSymlink => Err(
                Error::new(ErrorKind::RootBrokenSymlink, "the collection directory is a broken symlink".to_owned()),
            ),
            RootState::Unreadable => Err(
                Error::new(ErrorKind::RootUnreadable, "the collection directory cannot be read".to_owned()),
            ),
            RootState::Directory => Ok(Some(RepoSeeker { pending: None })),
        }
    }

    /// Decides what to do after `event`.
    ///
    /// A directory whose name is or ends in `.git` is opened. If it opens as a
    /// repository, the repository is handed out and the walk skips its
    /// contents; when the repository's working directory is the directory that
    /// holds it, the walk skips the rest of that working tree too. If it does
    /// not open, nothing is handed out and the walk goes on into it.
    pub fn step(&mut self, event: SeekEvent) -> (r: SeekAction)
        ensures
            (final(self).spec_pending(), action_view(r)) == seek_transition(
                old(self).spec_pending(),
                event_view(event),
            ),
    {
        match event {
            SeekEvent::Entry { path, is_dir } => {
                if test_repo_candidate(path.as_str(), is_dir) {
                    let p = path.as_str().to_owned();
                    self.pending = Some(path);
                    SeekAction::Open(p)
                } else {
                    self.pending = None;
                    SeekAction::Advance
                }
            },
            SeekEvent::WalkError(message) => {
                self.pending = None;
                SeekAction::Fail(Error::new(ErrorKind::Traversal, message))
            },
            SeekEvent::WalkEnd => {
                self.pending = None;
                SeekAction::Finish
            },
            SeekEvent::Opened { workdir } => {
                let pending = self.pending.take();
                match pending {
                    Some(candidate) => {
                        let parent = parent_of(candidate.as_str());
                        let skip: usize = match workdir {
                            Some(w) => if is_same_dir(w.as_str(), parent.as_str()) {
                                2
                            } else {
                                1
                            },
                            None => 1,
                        };
                        SeekAction::Found { entry: RepoEntry::new(Vcs::Git, candidate), skip }
                    },
                    None => SeekAction::Advance,
                }
            },
            SeekEvent::NotRepository => {
                self.pending = None;
                SeekAction::Advance
            },
        }
    }
}

} // verus!
