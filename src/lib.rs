//! magro: an index of version-controlled repositories grouped in collections.
//!
//! The library holds the logic of the tool: the collection registry, the
//! repository cache and its merge rules, the decisions of the repository
//! seeker, the refresh policy, and the resolver that maps a repository URI to
//! the place where a clone of it is put.

pub mod actions;
pub mod cache;
pub mod collection;
pub mod collections;
pub mod config;
pub mod discovery;
pub mod keyed;
pub mod options;
pub mod order;
pub mod path;
pub mod refresh;
pub mod resolve;
pub mod text;
pub mod vcs;
