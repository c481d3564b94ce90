//! Configuration: the main settings, and the registry of collections with the
//! default collection.

use vstd::prelude::*;
use crate::collection::{Collection, CollectionName};
use crate::collections::Collections;

verus! {

/// Main config.
#[derive(Debug, Clone, Copy, Default)]
pub struct MainConfig {}

/// Collections config.
pub struct CollectionsConfig {
    /// Default collection. It may name a collection that does not exist, in
    /// which case it counts as absent.
    default_collection: Option<CollectionName>,
    /// Collections.
    collections: Collections,
}

/// The name, if any, as a character sequence.
pub open spec fn name_view(n: Option<CollectionName>) -> Option<Seq<char>> {
    match n {
        Some(n) => Some(n@),
        None => None,
    }
}

impl CollectionsConfig {
    /// The default collection's name.
    pub closed spec fn spec_default(&self) -> Option<Seq<char>> {
        name_view(self.default_collection)
    }

    /// The collections.
    pub closed spec fn spec_collections(&self) -> Map<Seq<char>, Collection> {
        self.collections@
    }

    /// Creates a config.
    pub fn new(default_collection: Option<CollectionName>, collections: Collections) -> (r: Self)
        ensures
            r.spec_default() == name_view(default_collection),
            r.spec_collections() == collections@,
    {
        CollectionsConfig { default_collection, collections }
    }

    /// Creates a config with no collection and no default.
    pub fn empty() -> (r: Self)
        ensures
            r.spec_default() is None,
            r.spec_collections() == Map::<Seq<char>, Collection>::empty(),
    {
        CollectionsConfig { default_collection: None, collections: Collections::new() }
    }

    /// Returns a reference to the collections.
    pub fn collections(&self) -> (r: &Collections)
        ensures
            r@ == self.spec_collections(),
    {
        &self.collections
    }

    /// Returns a mutable reference to the collections.
    pub fn collections_mut(&mut self) -> (r: &mut Collections)
        ensures
            r@ == old(self).spec_collections(),
            final(self).spec_collections() == final(r)@,
            final(self).spec_default() == old(self).spec_default(),
    {
        &mut self.collections
    }

    /// Returns the default collection.
    pub fn default_collection(&self) -> (r: Option<&CollectionName>)
        ensures
            match r {
                Some(n) => self.spec_default() == Some(n@),
                None => self.spec_default() is None,
            },
    {
        match &self.default_collection {
            Some(n) => Some(n),
            None => None,
        }
    }

    /// Sets default collection to the given name.
    pub fn set_default_collection(&mut self, name: Option<CollectionName>)
        ensures
            final(self).spec_default() == name_view(name),
            final(self).spec_collections() == old(self).spec_collections(),
    {
        self.default_collection = name;
    }
}

/// Magro config.
pub struct Config {
    /// Main config.
    main: MainConfig,
    /// Collections.
    collections: CollectionsConfig,
    /// Whether the collections config is (possibly) modified since it was
    /// last saved.
    collections_is_dirty: bool,
}

impl Config {
    /// The default collection's name.
    pub closed spec fn spec_default(&self) -> Option<Seq<char>> {
        self.collections.spec_default()
    }

    /// The collections.
    pub closed spec fn spec_collections(&self) -> Map<Seq<char>, Collection> {
        self.collections.spec_collections()
    }

    /// The collections config may differ from what was last saved.
    pub closed spec fn spec_dirty(&self) -> bool {
        self.collections_is_dirty
    }

    /// Creates the config from what was loaded: the main config, and the
    /// collections config if its file exists. Without that file the
    /// collections config is empty, and is to be saved.
    pub fn new(main: MainConfig, collections: Option<CollectionsConfig>) -> (r: Self)
        ensures
            match collections {
                Some(c) => r.spec_default() == c.spec_default() && r.spec_collections()
                    == c.spec_collections() && !r.spec_dirty(),
                None => r.spec_default() is None && r.spec_collections() == Map::<
                    Seq<char>,
                    Collection,
                >::empty() && r.spec_dirty(),
            },
    {
        match collections {
            Some(c) => Config { main, collections: c, collections_is_dirty: false },
            None => Config { main, collections: CollectionsConfig::empty(), collections_is_dirty: true },
        }
    }

    /// Returns the main config.
    pub fn main(&self) -> &MainConfig {
        &self.main
    }

    /// Returns the collections config.
    pub fn collections_config(&self) -> (r: &CollectionsConfig)
        ensures
            r.spec_default() == self.spec_default(),
            r.spec_collections() == self.spec_collections(),
    {
        &self.collections
    }

    /// Returns whether the collections config is to be saved, and marks it
    /// saved.
    pub fn take_dirty(&mut self) -> (r: bool)
        ensures
            r == old(self).spec_dirty(),
            !final(self).spec_dirty(),
            final(self).spec_default() == old(self).spec_default(),
            final(self).spec_collections() == old(self).spec_collections(),
    {
        let r = self.collections_is_dirty;
        self.collections_is_dirty = false;
        r
    }

    /// Returns a default collection.
    pub fn default_collection(&self) -> (r: Option<&CollectionName>)
        ensures
            match r {
                Some(n) => self.spec_default() == Some(n@),
                None => self.spec_default() is None,
            },
    {
        self.collections.default_collection()
    }

    /// Sets default collection to the given name.
    pub fn set_default_collection(&mut self, name: Option<CollectionName>)
        ensures
            final(self).spec_default() == name_view(name),
            final(self).spec_collections() == old(self).spec_collections(),
            final(self).spec_dirty(),
    {
        self.collections_is_dirty = true;
        self.collections.set_default_collection(name);
    }

    /// Returns a reference to the collections.
    pub fn collections(&self) -> (r: &Collections)
        ensures
            r@ == self.spec_collections(),
    {
        self.collections.collections()
    }

    /// Returns a mutable reference to the collections, which are then to be
    /// saved.
    pub fn collections_mut(&mut self) -> (r: &mut Collections)
        ensures
            r@ == old(self).spec_collections(),
            final(self).spec_collections() == final(r)@,
            final(self).spec_default() == old(self).spec_default(),
            final(self).spec_dirty(),
    {
        self.collections_is_dirty = true;
        self.collections.collections_mut()
    }
}

/// Kind of a config load error.
#[derive(Debug, Clone, Copy, PartialEq, Eq, Structural)]
#[non_exhaustive]
pub enum LoadErrorKind {
    /// The file could not be decoded, in its syntax or its meaning.
    Decode,
    /// The file could not be read.
    Io,
}

/// The generic message of a load error kind.
pub open spec fn load_error_text(kind: LoadErrorKind) -> Seq<char> {
    match kind {
        LoadErrorKind::Decode => seq!['D', 'e', 'c', 'o', 'd', 'e', ' ', 'e', 'r', 'r', 'o', 'r'],
        LoadErrorKind::Io => seq!['I', '/', 'O', ' ', 'e', 'r', 'r', 'o', 'r'],
    }
}

impl LoadErrorKind {
    /// Returns a generic error message for the error kind.
    pub fn as_str(&self) -> (r: &'static str)
        ensures
            r@ == load_error_text(*self),
    {
        proof {
            reveal_strlit("Decode error");
            reveal_strlit("I/O error");
            assert("Decode error"@ =~= load_error_text(LoadErrorKind::Decode));
            assert("I/O error"@ =~= load_error_text(LoadErrorKind::Io));
        }
        match self {
            LoadErrorKind::Decode => "Decode error",
            LoadErrorKind::Io => "I/O error",
        }
    }
}

/// Config load error.
#[derive(Debug, Clone)]
pub struct LoadError {
    /// Error kind.
    kind: LoadErrorKind,
    /// The file, if known.
    path: Option<String>,
    /// What the reader or the decoder reported.
    message: String,
}

impl LoadError {
    /// The error kind.
    pub closed spec fn spec_kind(&self) -> LoadErrorKind {
        self.kind
    }

    /// The file, if known.
    pub closed spec fn spec_path(&self) -> Option<Seq<char>> {
        match self.path {
            Some(p) => Some(p@),
            None => None,
        }
    }

    /// What the reader or the decoder reported.
    pub closed spec fn spec_message(&self) -> Seq<char> {
        self.message@
    }

    /// Creates a new decode error.
    pub fn from_decode(message: String) -> (r: Self)
        ensures
            r.spec_kind() == LoadErrorKind::Decode,
            r.spec_path() is None,
            r.spec_message() == message@,
    {
        LoadError { kind: LoadErrorKind::Decode, path: None, message }
    }

    /// Creates a new I/O error.
    pub fn from_io(message: String) -> (r: Self)
        ensures
            r.spec_kind() == LoadErrorKind::Io,
            r.spec_path() is None,
            r.spec_message() == message@,
    {
        LoadError { kind: LoadErrorKind::Io, path: None, message }
    }

    /// Returns the error with the given path.
    pub fn and_path(self, path: String) -> (r: Self)
        ensures
            r.spec_kind() == self.spec_kind(),
            r.spec_path() == Some(path@),
            r.spec_message() == self.spec_message(),
    {
        LoadError { path: Some(path), ..self }
    }

    /// Returns the error kind.
    pub fn kind(&self) -> (r: LoadErrorKind)
        ensures
            r == self.spec_kind(),
    {
        self.kind
    }

    /// Returns the file, if known.
    pub fn path(&self) -> (r: Option<&str>)
        ensures
            match r {
                Some(p) => self.spec_path() == Some(p@),
                None => self.spec_path() is None,
            },
    {
        match &self.path {
            Some(p) => Some(p.as_str()),
            None => None,
        }
    }

    /// Returns what the reader or the decoder reported.
    pub fn message(&self) -> (r: &str)
        ensures
            r@ == self.spec_message(),
    {
        self.message.as_str()
    }
}

} // verus!
