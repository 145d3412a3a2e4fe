//! Catalog records, progress events, and the locator's error taxonomy.

use vstd::prelude::*;

verus! {

/// One catalog entry: a named location to search for.
///
/// `parent` is the anchor token — either a known-folder alias or the
/// full-disk sentinel — and `globs` are the target's patterns, relative to
/// whatever root the anchor resolves to. `image` is passthrough metadata that
/// the locator never interprets.
#[derive(Clone, Debug, PartialEq)]
pub struct LocationData {
    pub name: String,
    pub parent: String,
    pub globs: Vec<String>,
    pub image: String,
}

/// A notification that one target's resolution has completed.
///
/// `total` is the catalog length, fixed for the whole run; `current` is the
/// running count of resolved targets, so over a run it takes every value in
/// `1..=total` exactly once.
#[derive(Clone, Debug, PartialEq)]
pub struct ProgressEvent {
    pub name: String,
    pub total: u64,
    pub current: u64,
}

/// What can go wrong in a locator run.
///
/// The first three are configuration errors: the catalog itself is malformed
/// and the whole invocation fails. `UnresolvedFolder` is an environment
/// condition recovered per target ("this target is absent").
/// `NoVolumesDetected` is fatal because the full-disk path cannot function
/// without a single volume to walk.
#[derive(Clone, Copy, Debug, PartialEq, Eq, Structural)]
pub enum LocateError {
    EmptyCatalog,
    InvalidPattern,
    UnknownAlias,
    UnresolvedFolder,
    NoVolumesDetected,
}

} // verus!
