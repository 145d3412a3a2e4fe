//! The disk side of the locator: parsing the volume table, the full-disk
//! existence check, and the explicit snapshot cache.
//!
//! A volume snapshot holds, for each candidate directory found under that
//! volume, the listing of the directory's entries; the caller produces the
//! snapshots by driving the directory walker over what the OS reports.

use vstd::prelude::*;

use crate::catalog::LocateError;
use crate::globmatch::all_patterns_hit;
use crate::globmatch::given_glob_check_if_file_exists;
use crate::globmatch::patterns_valid;

verus! {

/// The candidate directories of one mounted volume, each as the listing of
/// its entries.
#[derive(Clone, Debug, PartialEq)]
pub struct VolumeDirs {
    pub dirs: Vec<Vec<String>>,
}

/// Some directory of this volume satisfies every pattern.
pub open spec fn spec_volume_has_match(v: VolumeDirs, patterns: Seq<Seq<char>>) -> bool {
    exists|j: int|
        0 <= j < v.dirs.len() && all_patterns_hit(patterns, v.dirs.deep_view()[j])
}

/// Some directory of some volume satisfies every pattern.
pub open spec fn spec_disk_has_match(volumes: Seq<VolumeDirs>, patterns: Seq<Seq<char>>) -> bool {
    exists|i: int| 0 <= i < volumes.len() && spec_volume_has_match(volumes[i], patterns)
}

/// The slow path: is there, anywhere on disk, one directory under which all
/// of a target's globs match?
///
/// Walks the snapshots volume by volume and directory by directory and stops
/// at the first directory where the conjunction holds. An empty volume table
/// is `NoVolumesDetected` — a locator that sees no volume can never answer
/// on this path — and a glob that does not compile is `InvalidPattern`,
/// whether or not an earlier directory matched.
pub fn check_if_directory_is_in_disk(globs: &Vec<String>, volumes: &Vec<VolumeDirs>) -> (r: Result<
    bool,
    LocateError,
>)
    ensures
        volumes.len() == 0 ==> r == Err::<bool, LocateError>(LocateError::NoVolumesDetected),
        volumes.len() > 0 ==> (r is Ok <==> patterns_valid(globs.deep_view())),
        volumes.len() > 0 && !patterns_valid(globs.deep_view()) ==> r == Err::<
            bool,
            LocateError,
        >(LocateError::InvalidPattern),
        r matches Ok(found) ==> found == spec_disk_has_match(volumes@, globs.deep_view()),
{
    if volumes.len() == 0 {
        return Err(LocateError::NoVolumesDetected);
    }
    if !crate::globmatch::patterns_compile(globs) {
        return Err(LocateError::InvalidPattern);
    }
    let ghost pats = globs.deep_view();
    for i in 0..volumes.len()
        invariant
            pats == globs.deep_view(),
            forall|k: int| 0 <= k < i ==> !spec_volume_has_match(volumes@[k], pats),
            patterns_valid(pats),
    {
        let vol = &volumes[i];
        for j in 0..vol.dirs.len()
            invariant
                pats == globs.deep_view(),
                i < volumes.len(),
                vol == volumes@[i as int],
                patterns_valid(pats),
                forall|k: int| 0 <= k < j ==> !all_patterns_hit(pats, vol.dirs.deep_view()[k]),
        {
            match given_glob_check_if_file_exists(globs, &vol.dirs[j]) {
                Ok(true) => {
                    assert(all_patterns_hit(pats, vol.dirs.deep_view()[j as int]));
                    assert(spec_volume_has_match(volumes@[i as int], pats));
                    return Ok(true);
                },
                Ok(false) => {
                    assert(vol.dirs.deep_view()[j as int] == vol.dirs@[j as int].deep_view());
                },
                Err(e) => {
                    return Err(e);
                },
            }
        }
        assert(!spec_volume_has_match(volumes@[i as int], pats));
    }
    Ok(false)
}

/// Relies on String::push: appends one character at the end of the string.
#[verifier::external_body]
fn push_char(s: &mut String, c: char)
    ensures
        final(s)@ == old(s)@.push(c),
{
    s.push(c);
}

/// The names in a NUL-separated volume table, empty entries dropped:
/// `cur` is the name being read, `acc` the names already complete.
pub open spec fn split_volume_names(raw: Seq<char>, cur: Seq<char>, acc: Seq<Seq<char>>) -> Seq<
    Seq<char>,
>
    decreases raw.len(),
{
    if raw.len() == 0 {
        if cur.len() > 0 {
            acc.push(cur)
        } else {
            acc
        }
    } else if raw[0] == '\0' {
        split_volume_names(
            raw.skip(1),
            Seq::empty(),
            if cur.len() > 0 {
                acc.push(cur)
            } else {
                acc
            },
        )
    } else {
        split_volume_names(raw.skip(1), cur.push(raw[0]), acc)
    }
}

/// The volume names held in a raw volume table.
pub open spec fn spec_parse_volume_list(raw: Seq<char>) -> Seq<Seq<char>> {
    split_volume_names(raw, Seq::empty(), Seq::empty())
}

/// Parse the volume table the OS reports: a buffer of NUL-separated volume
/// names, as its decoded characters. Returns the names in table order with
/// empty entries dropped, so a machine with no volume yields an empty list.
pub fn parse_volume_list(raw: &Vec<char>) -> (r: Vec<String>)
    ensures
        r.deep_view() == spec_parse_volume_list(raw@),
{
    let mut out: Vec<String> = Vec::new();
    let mut cur = String::new();
    proof {
        assert(raw@.skip(0) =~= raw@);
        assert(out.deep_view() =~= Seq::<Seq<char>>::empty());
    }
    for i in 0..raw.len()
        invariant
            spec_parse_volume_list(raw@) == split_volume_names(
                raw@.skip(i as int),
                cur@,
                out.deep_view(),
            ),
    {
        let ghost pre_cur = cur@;
        let ghost pre_out = out.deep_view();
        let ch = raw[i];
        proof {
            assert(raw@.skip(i as int)[0] == raw@[i as int]);
            assert(raw@.skip(i as int).skip(1) =~= raw@.skip(i as int + 1));
        }
        if ch == '\0' {
            if !cur.as_str().is_empty() {
                out.push(cur);
                assert(out.deep_view() =~= pre_out.push(pre_cur));
            }
            cur = String::new();
        } else {
            push_char(&mut cur, ch);
        }
    }
    proof {
        assert(raw@.skip(raw@.len() as int).len() == 0);
    }
    if !cur.as_str().is_empty() {
        let ghost pre_out = out.deep_view();
        let ghost pre_cur = cur@;
        out.push(cur);
        assert(out.deep_view() =~= pre_out.push(pre_cur));
    }
    out
}

/// The explicit process-wide cache of the full-disk snapshot.
///
/// Replaces an implicit memoized singleton with an object whose lifetime the
/// caller chooses: the first run stores the snapshot, later runs may reuse it
/// (accepting staleness for throughput) or rebuild it.
pub struct VolumeCache {
    snapshot: Option<Vec<VolumeDirs>>,
}

impl VolumeCache {
    /// What the cache currently holds.
    pub closed spec fn spec_snapshot(self) -> Option<Vec<VolumeDirs>> {
        self.snapshot
    }

    /// A cache holding nothing.
    pub fn new() -> (c: VolumeCache)
        ensures
            c.spec_snapshot() is None,
    {
        VolumeCache { snapshot: None }
    }

    /// The cached snapshot, if one was stored.
    pub fn get(&self) -> (r: Option<&Vec<VolumeDirs>>)
        ensures
            match r {
                Some(v) => self.spec_snapshot() == Some(*v),
                None => self.spec_snapshot() is None,
            },
    {
        match &self.snapshot {
            Some(v) => Some(v),
            None => None,
        }
    }

    /// Store a freshly built snapshot, replacing whatever was held.
    pub fn store(&mut self, volumes: Vec<VolumeDirs>)
        ensures
            final(self).spec_snapshot() == Some(volumes),
    {
        self.snapshot = Some(volumes);
    }
}

} // verus!
