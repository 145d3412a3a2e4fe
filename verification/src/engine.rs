//! The locator engine: resolve every catalog target against a filesystem
//! snapshot, emit one progress event per resolved target, and return the
//! confirmed targets.
//!
//! The caller enumerates the machine once — the entry listing under each
//! known folder (or `None` where the profile folder could not be resolved)
//! and the candidate directories of every volume — and the engine decides
//! the rest: catalog validation, the fast-path/slow-path split per target,
//! the conjunction of each target's patterns, and gap-free progress
//! accounting.

use vstd::prelude::*;

use crate::anchors::Anchor;
use crate::anchors::spec_parse_anchor;
use crate::anchors::parse_anchor;
use crate::catalog::LocateError;
use crate::catalog::LocationData;
use crate::catalog::ProgressEvent;
use crate::globmatch::all_patterns_hit;
use crate::globmatch::given_glob_check_if_file_exists;
use crate::globmatch::patterns_valid;
use crate::globmatch::validate_patterns;
use crate::volumes::VolumeDirs;
use crate::volumes::check_if_directory_is_in_disk;
use crate::volumes::spec_disk_has_match;

verus! {

/// Everything the engine reads of the machine, enumerated up front: for each
/// known folder the listing under its resolved root (`None` where the alias
/// could not be resolved on this machine), and the candidate directories of
/// every mounted volume. Every listing holds entry paths relative to its own
/// root, the one shape both resolution paths feed the matcher.
pub struct Snapshot {
    pub public_document: Option<Vec<String>>,
    pub document: Option<Vec<String>>,
    pub local: Option<Vec<String>>,
    pub roaming: Option<Vec<String>>,
    pub program_data: Option<Vec<String>>,
    pub program_files_x86: Option<Vec<String>>,
    pub volumes: Vec<VolumeDirs>,
}

/// The listing a known-folder alias resolves to within a snapshot, or `None`
/// where the folder was unresolved. The full-disk sentinel names no folder.
pub open spec fn spec_folder(s: Snapshot, a: Anchor) -> Option<Vec<String>> {
    match a {
        Anchor::FullDisk => None,
        Anchor::PublicDocument => s.public_document,
        Anchor::Document => s.document,
        Anchor::Local => s.local,
        Anchor::Roaming => s.roaming,
        Anchor::ProgramData => s.program_data,
        Anchor::ProgramFilesX86 => s.program_files_x86,
    }
}

/// The known-folder listing a non-full-disk anchor selects.
fn folder_of<'a>(s: &'a Snapshot, a: Anchor) -> (r: &'a Option<Vec<String>>)
    requires
        a != Anchor::FullDisk,
    ensures
        *r == spec_folder(*s, a),
{
    match a {
        Anchor::FullDisk => {
            assert(false);
            &s.document
        },
        Anchor::PublicDocument => &s.public_document,
        Anchor::Document => &s.document,
        Anchor::Local => &s.local,
        Anchor::Roaming => &s.roaming,
        Anchor::ProgramData => &s.program_data,
        Anchor::ProgramFilesX86 => &s.program_files_x86,
    }
}

/// Is one target present on the machine the snapshot describes? A full-disk
/// target is present iff some directory of some volume satisfies all its
/// patterns; an anchored target iff its resolved folder exists and its
/// listing satisfies all of them. An unresolved folder means absent, and an
/// unknown anchor never reaches this question (validation rejects it first).
pub open spec fn spec_target_found(t: LocationData, s: Snapshot) -> bool {
    match spec_parse_anchor(t.parent@) {
        Some(Anchor::FullDisk) => spec_disk_has_match(s.volumes@, t.globs.deep_view()),
        Some(a) => match spec_folder(s, a) {
            Some(entries) => all_patterns_hit(t.globs.deep_view(), entries.deep_view()),
            None => false,
        },
        None => false,
    }
}

/// The configuration defect of one target, if it has one: an anchor outside
/// the recognized set, or a pattern list that is empty or holds a glob that
/// does not compile.
pub open spec fn spec_target_error(t: LocationData) -> Option<LocateError> {
    if spec_parse_anchor(t.parent@) is None {
        Some(LocateError::UnknownAlias)
    } else if !(t.globs.len() > 0 && patterns_valid(t.globs.deep_view())) {
        Some(LocateError::InvalidPattern)
    } else {
        None
    }
}

/// The first configuration defect over the catalog, in catalog order.
pub open spec fn spec_catalog_error(c: Seq<LocationData>) -> Option<LocateError>
    decreases c.len(),
{
    if c.len() == 0 {
        None
    } else if spec_target_error(c[0]) is Some {
        spec_target_error(c[0])
    } else {
        spec_catalog_error(c.skip(1))
    }
}

/// Does any target take the slow path?
pub open spec fn spec_needs_disk(c: Seq<LocationData>) -> bool {
    exists|i: int|
        0 <= i < c.len() && spec_parse_anchor(c[i].parent@) == Some(Anchor::FullDisk)
}

/// Why a run fails, if it does: an empty catalog, the catalog's first
/// configuration defect, or a slow-path catalog over a machine with no
/// visible volume. Unresolved folders are no run error — those targets are
/// merely absent.
pub open spec fn spec_run_error(c: Seq<LocationData>, s: Snapshot) -> Option<LocateError> {
    if c.len() == 0 {
        Some(LocateError::EmptyCatalog)
    } else if spec_catalog_error(c) is Some {
        spec_catalog_error(c)
    } else if spec_needs_disk(c) && s.volumes@.len() == 0 {
        Some(LocateError::NoVolumesDetected)
    } else {
        None
    }
}

/// The targets a successful run confirms, in catalog order.
pub open spec fn spec_found_targets(c: Seq<LocationData>, s: Snapshot) -> Seq<LocationData> {
    c.filter(|t: LocationData| spec_target_found(t, s))
}

/// A gap-free progress stream for a catalog: one event per target, each
/// carrying the fixed total and the running count of resolved targets.
pub open spec fn spec_events_ok(events: Seq<ProgressEvent>, c: Seq<LocationData>) -> bool {
    &&& events.len() == c.len()
    &&& forall|i: int|
        0 <= i < c.len() ==> {
            &&& (#[trigger] events[i]).name@ == c[i].name@
            &&& events[i].total == c.len() as u64
            &&& events[i].current == i + 1
        }
}

/// What a successful run hands back: the confirmed targets and the progress
/// stream, which the caller forwards to its sink.
#[derive(Debug, PartialEq)]
pub struct FindOutcome {
    pub found: Vec<LocationData>,
    pub events: Vec<ProgressEvent>,
}

/// A catalog free of configuration defects has only defect-free targets.
proof fn lemma_catalog_error_none(c: Seq<LocationData>)
    requires
        spec_catalog_error(c) is None,
    ensures
        forall|i: int| 0 <= i < c.len() ==> spec_target_error(#[trigger] c[i]) is None,
    decreases c.len(),
{
    if c.len() > 0 {
        lemma_catalog_error_none(c.skip(1));
        assert forall|i: int| 0 <= i < c.len() implies spec_target_error(#[trigger] c[i]) is None by {
            if i > 0 {
                assert(c.skip(1)[i - 1] == c[i]);
            }
        }
    }
}

/// The catalog's first configuration defect, found executably.
fn validate_catalog(catalog: &Vec<LocationData>) -> (r: Option<LocateError>)
    ensures
        r == spec_catalog_error(catalog@),
{
    let ghost c = catalog@;
    proof {
        assert(c.skip(0) =~= c);
    }
    for i in 0..catalog.len()
        invariant
            c == catalog@,
            spec_catalog_error(c) == spec_catalog_error(c.skip(i as int)),
            forall|j: int| 0 <= j < i ==> spec_target_error(#[trigger] c[j]) is None,
    {
        let t = &catalog[i];
        let err: Option<LocateError> = if parse_anchor(&t.parent).is_none() {
            Some(LocateError::UnknownAlias)
        } else if !validate_patterns(&t.globs) {
            Some(LocateError::InvalidPattern)
        } else {
            None
        };
        proof {
            assert(c.skip(i as int)[0] == c[i as int]);
            assert(err == spec_target_error(c[i as int]));
            assert(c.skip(i as int).skip(1) =~= c.skip(i as int + 1));
        }
        if err.is_some() {
            return err;
        }
    }
    proof {
        assert(c.skip(c.len() as int).len() == 0);
    }
    None
}

/// Does the catalog hold a full-disk target, found executably.
fn catalog_needs_disk(catalog: &Vec<LocationData>) -> (r: bool)
    ensures
        r == spec_needs_disk(catalog@),
{
    let ghost c = catalog@;
    for i in 0..catalog.len()
        invariant
            c == catalog@,
            forall|j: int|
                0 <= j < i ==> spec_parse_anchor(#[trigger] c[j].parent@) != Some(Anchor::FullDisk),
    {
        match parse_anchor(&catalog[i].parent) {
            Some(Anchor::FullDisk) => {
                assert(spec_parse_anchor(c[i as int].parent@) == Some(Anchor::FullDisk));
                return true;
            },
            _ => {},
        }
    }
    false
}

/// Resolve one defect-free target against the snapshot: the fast path for an
/// anchored target, the full-disk search otherwise.
///
/// `find_games` runs this over a whole catalog; a shell that wants to emit
/// progress live may instead call it target by target, after checking the
/// target with `parse_anchor` and `validate_patterns` (which decide the
/// preconditions) and the volume table against the anchor.
pub fn resolve_target(t: &LocationData, snapshot: &Snapshot) -> (r: bool)
    requires
        spec_target_error(*t) is None,
        spec_parse_anchor(t.parent@) == Some(Anchor::FullDisk) ==> snapshot.volumes@.len() > 0,
    ensures
        r == spec_target_found(*t, *snapshot),
{
    match parse_anchor(&t.parent) {
        Some(Anchor::FullDisk) => match check_if_directory_is_in_disk(&t.globs, &snapshot.volumes) {
            Ok(found) => found,
            Err(_) => {
                assert(false);
                false
            },
        },
        Some(anchor) => match folder_of(snapshot, anchor) {
            Some(entries) => match given_glob_check_if_file_exists(&t.globs, entries) {
                Ok(found) => found,
                Err(_) => {
                    assert(false);
                    false
                },
            },
            None => false,
        },
        None => {
            assert(false);
            false
        },
    }
}

/// Locate every catalog target on the machine the snapshot describes.
///
/// Fails as a whole only on a malformed catalog — empty, an unrecognized
/// anchor, an empty or non-compiling pattern list — or when a full-disk
/// target meets a machine with no visible volume; an unresolved known folder
/// only makes its target absent. On success the outcome holds exactly the
/// confirmed targets, original metadata intact and in catalog order, and one
/// progress event per target with the fixed total and the running count
/// `1..=total`, so progress is delivered in full: no silently truncated
/// result list.
pub fn find_games(catalog: Vec<LocationData>, snapshot: &Snapshot) -> (r: Result<
    FindOutcome,
    LocateError,
>)
    ensures
        match r {
            Ok(o) => {
                &&& spec_run_error(catalog@, *snapshot) is None
                &&& o.found@ == spec_found_targets(catalog@, *snapshot)
                &&& spec_events_ok(o.events@, catalog@)
            },
            Err(e) => spec_run_error(catalog@, *snapshot) == Some(e),
        },
{
    let ghost c = catalog@;
    let total = catalog.len();
    if total == 0 {
        return Err(LocateError::EmptyCatalog);
    }
    match validate_catalog(&catalog) {
        Some(e) => {
            return Err(e);
        },
        None => {},
    }
    proof {
        lemma_catalog_error_none(c);
    }
    if catalog_needs_disk(&catalog) && snapshot.volumes.len() == 0 {
        return Err(LocateError::NoVolumesDetected);
    }
    let mut remaining = catalog;
    let mut found: Vec<LocationData> = Vec::new();
    let mut events: Vec<ProgressEvent> = Vec::new();
    let mut i: usize = 0;
    while i < total
        invariant
            total == c.len(),
            i <= total,
            remaining@ == c.skip(i as int),
            forall|j: int| 0 <= j < c.len() ==> spec_target_error(#[trigger] c[j]) is None,
            spec_needs_disk(c) ==> snapshot.volumes@.len() > 0,
            found@ == spec_found_targets(c.take(i as int), *snapshot),
            events.len() == i,
            forall|j: int|
                0 <= j < i ==> {
                    &&& (#[trigger] events@[j]).name@ == c[j].name@
                    &&& events@[j].total == c.len() as u64
                    &&& events@[j].current == j + 1
                },
        decreases total - i,
    {
        let t = remaining.remove(0);
        proof {
            assert(t == c.skip(i as int)[0]);
            assert(t == c[i as int]);
            assert(c.skip(i as int).remove(0) =~= c.skip(i as int + 1));
        }
        let matched = resolve_target(&t, snapshot);
        events.push(
            ProgressEvent { name: t.name.clone(), total: total as u64, current: (i + 1) as u64 },
        );
        proof {
            reveal(Seq::filter);
            assert(c.take(i as int + 1).drop_last() =~= c.take(i as int));
            assert(c.take(i as int + 1).last() == c[i as int]);
        }
        if matched {
            found.push(t);
            assert(found@ =~= spec_found_targets(c.take(i as int + 1), *snapshot));
        } else {
            assert(found@ =~= spec_found_targets(c.take(i as int + 1), *snapshot));
        }
        i = i + 1;
    }
    proof {
        assert(c.take(c.len() as int) =~= c);
    }
    Ok(FindOutcome { found, events })
}

/// Some event of the stream carries `v` as its running count.
pub open spec fn spec_some_event_has_current(events: Seq<ProgressEvent>, v: int) -> bool {
    exists|i: int| 0 <= i < events.len() && (#[trigger] events[i]).current == v
}

/// Progress is complete and gap-free: over a run of `N` targets the stream
/// holds exactly `N` events, `total == N` on every one, and `current` takes
/// every value in `1..=N` exactly once — no duplicates and no gaps.
pub proof fn lemma_progress_complete(events: Seq<ProgressEvent>, c: Seq<LocationData>)
    requires
        spec_events_ok(events, c),
    ensures
        events.len() == c.len(),
        forall|i: int| 0 <= i < events.len() ==> (#[trigger] events[i]).total == c.len() as u64,
        forall|v: int| 1 <= v <= events.len() ==> #[trigger] spec_some_event_has_current(events, v),
        forall|i: int, j: int|
            0 <= i < events.len() && 0 <= j < events.len() && i != j ==> (#[trigger] events[i]).current
                != (#[trigger] events[j]).current,
{
    assert forall|v: int|
        1 <= v <= events.len() implies #[trigger] spec_some_event_has_current(events, v) by {
        assert(events[v - 1].current == v);
    }
}

/// The result list is exactly the confirmed subset of the catalog: every
/// returned target is a catalog entry whose existence the snapshot confirms,
/// and every catalog entry the snapshot confirms is returned.
pub proof fn lemma_found_targets_exact(c: Seq<LocationData>, s: Snapshot)
    ensures
        forall|j: int|
            0 <= j < spec_found_targets(c, s).len() ==> {
                &&& spec_target_found(#[trigger] spec_found_targets(c, s)[j], s)
                &&& c.contains(spec_found_targets(c, s)[j])
            },
        forall|i: int|
            0 <= i < c.len() && spec_target_found(#[trigger] c[i], s) ==> spec_found_targets(
                c,
                s,
            ).contains(c[i]),
    decreases c.len(),
{
    reveal(Seq::filter);
    let pred = |t: LocationData| spec_target_found(t, s);
    let out = spec_found_targets(c, s);
    assert forall|j: int| 0 <= j < out.len() implies spec_target_found(out[j], s) by {
        c.lemma_filter_pred(pred, j);
    }
    assert forall|i: int| 0 <= i < c.len() && spec_target_found(c[i], s) implies out.contains(
        c[i],
    ) by {
        c.lemma_filter_contains(pred, i);
    }
    if c.len() > 0 {
        lemma_found_targets_exact(c.drop_last(), s);
        let sub = spec_found_targets(c.drop_last(), s);
        assert forall|j: int| 0 <= j < out.len() implies c.contains(out[j]) by {
            if j < sub.len() {
                assert(out[j] == sub[j]);
                assert(c.drop_last().contains(sub[j]));
                let k = choose|k: int|
                    0 <= k < c.drop_last().len() && c.drop_last()[k] == sub[j];
                assert(c[k] == sub[j]);
            } else {
                assert(out[j] == c.last());
                assert(c[c.len() - 1] == c.last());
            }
        }
    }
}

/// Idempotence: the locator's outcome is a function of the catalog and the
/// snapshot alone, so any two successful runs against an unchanged
/// filesystem confirm the same targets and report the same progress.
pub proof fn lemma_locator_idempotent(
    c: Seq<LocationData>,
    s: Snapshot,
    first: FindOutcome,
    second: FindOutcome,
)
    requires
        first.found@ == spec_found_targets(c, s),
        spec_events_ok(first.events@, c),
        second.found@ == spec_found_targets(c, s),
        spec_events_ok(second.events@, c),
    ensures
        first.found@ == second.found@,
        first.events@.len() == second.events@.len(),
        forall|i: int|
            0 <= i < first.events@.len() ==> {
                &&& (#[trigger] first.events@[i]).name@ == second.events@[i].name@
                &&& first.events@[i].total == second.events@[i].total
                &&& first.events@[i].current == second.events@[i].current
            },
{
}

} // verus!
