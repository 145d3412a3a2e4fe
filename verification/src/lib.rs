//! A catalog-driven filesystem locator.
//!
//! Given a catalog of named targets, each described by an anchor (a
//! known-folder alias or the full-disk sentinel) together with a set of glob
//! patterns, the library decides which targets exist on the machine, reports
//! one progress event per resolved target, and returns the confirmed targets.
//!
//! The library itself performs no directory reads: callers enumerate the
//! filesystem into plain values (entry listings, volume snapshots) and the
//! verified logic decides everything else — alias resolution, glob-pattern
//! conjunction, deny-list walking with cycle safety, progress accounting and
//! the error policy for malformed catalogs.

use vstd::prelude::*;

pub mod anchors;
pub mod catalog;
pub mod engine;
pub mod globmatch;
pub mod volumes;
pub mod walker;

verus! {

} // verus!
