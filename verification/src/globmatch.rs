//! The pattern matcher: does at least one entry of a directory listing match
//! a glob pattern, and do all of a target's patterns match under one root.
//!
//! Glob compilation and single-string matching are the work of the `glob`
//! crate, taken on trust behind the named results `glob_pattern_valid` and
//! `glob_matches`; everything around them — the search over a listing, the
//! conjunction over a target's patterns, the error policy for malformed
//! patterns — is verified.

use vstd::prelude::*;

use crate::catalog::LocateError;

verus! {

#[verifier::external_type_specification]
#[verifier::external_body]
pub struct ExPattern(glob::Pattern);

/// The pattern text a compiled `glob::Pattern` was built from.
pub uninterp spec fn pattern_source(p: glob::Pattern) -> Seq<char>;

/// Whether `glob::Pattern::new` accepts a pattern text. Validity is a
/// property of the text alone.
pub uninterp spec fn glob_pattern_valid(p: Seq<char>) -> bool;

/// Whether a compiled glob pattern matches a path string, under the host's
/// separator conventions (which are part of the matcher's semantics).
pub uninterp spec fn glob_matches(p: Seq<char>, path: Seq<char>) -> bool;

/// Relies on glob::Pattern::new: compilation succeeds or fails on the pattern
/// text alone, and the compiled pattern keeps that text.
#[verifier::external_body]
fn compile_pattern(pattern: &String) -> (r: Option<glob::Pattern>)
    ensures
        r is Some <==> glob_pattern_valid(pattern@),
        r is Some ==> pattern_source(r->0) == pattern@,
{
    glob::Pattern::new(pattern).ok()
}

/// Relies on glob::Pattern::matches: the answer depends on the pattern text
/// and the candidate string alone.
#[verifier::external_body]
fn pattern_matches(p: &glob::Pattern, path: &String) -> (r: bool)
    ensures
        r == glob_matches(pattern_source(*p), path@),
{
    p.matches(path)
}

/// One pattern finds at least one entry in a listing.
pub open spec fn pattern_hits(p: Seq<char>, entries: Seq<Seq<char>>) -> bool {
    exists|i: int| 0 <= i < entries.len() && glob_matches(p, entries[i])
}

/// Every pattern of a target finds an entry in the same listing: the
/// conjunction the existence resolver asks for.
pub open spec fn all_patterns_hit(patterns: Seq<Seq<char>>, entries: Seq<Seq<char>>) -> bool {
    forall|i: int| 0 <= i < patterns.len() ==> pattern_hits(patterns[i], entries)
}

/// Every pattern of a sequence compiles.
pub open spec fn patterns_valid(patterns: Seq<Seq<char>>) -> bool {
    forall|i: int| 0 <= i < patterns.len() ==> glob_pattern_valid(patterns[i])
}

/// Search a listing for one entry matching the compiled pattern,
/// short-circuiting on the first hit.
fn listing_has_match(p: &glob::Pattern, entries: &Vec<String>) -> (r: bool)
    ensures
        r == pattern_hits(pattern_source(*p), entries.deep_view()),
{
    let ghost pat = pattern_source(*p);
    for i in 0..entries.len()
        invariant
            pat == pattern_source(*p),
            forall|j: int| 0 <= j < i ==> !glob_matches(pat, entries.deep_view()[j]),
    {
        if pattern_matches(p, &entries[i]) {
            assert(entries.deep_view()[i as int] == entries@[i as int]@);
            assert(glob_matches(pat, entries.deep_view()[i as int]));
            return true;
        }
    }
    false
}

/// Does a directory listing satisfy every glob of a target?
///
/// `entries` are the paths of the filesystem entries under one resolved
/// root, relative to it. Returns `Ok(true)` iff each glob matches at least one entry
/// (conjunction over globs, disjunction over entries; an empty glob list is
/// vacuously satisfied — catalog validation rejects it upstream). A glob
/// that does not compile is a configuration error, `Err(InvalidPattern)`,
/// never a silent false.
pub fn given_glob_check_if_file_exists(globs: &Vec<String>, entries: &Vec<String>) -> (r: Result<
    bool,
    LocateError,
>)
    ensures
        r is Ok <==> patterns_valid(globs.deep_view()),
        r matches Ok(found) ==> found == all_patterns_hit(globs.deep_view(), entries.deep_view()),
        r matches Err(e) ==> e == LocateError::InvalidPattern,
{
    let ghost pats = globs.deep_view();
    let mut compiled: Vec<glob::Pattern> = Vec::new();
    for i in 0..globs.len()
        invariant
            pats == globs.deep_view(),
            pats.len() == globs.len(),
            compiled.len() == i,
            forall|j: int| 0 <= j < i ==> glob_pattern_valid(pats[j]),
            forall|j: int| 0 <= j < i ==> pattern_source(#[trigger] compiled[j]) == pats[j],
    {
        match compile_pattern(&globs[i]) {
            Some(p) => {
                compiled.push(p);
            },
            None => {
                assert(!glob_pattern_valid(pats[i as int]));
                return Err(LocateError::InvalidPattern);
            },
        }
    }
    for i in 0..compiled.len()
        invariant
            pats == globs.deep_view(),
            compiled.len() == pats.len(),
            patterns_valid(pats),
            forall|j: int| 0 <= j < compiled.len() ==> pattern_source(#[trigger] compiled[j]) == pats[j],
            forall|j: int| 0 <= j < i ==> pattern_hits(pats[j], entries.deep_view()),
    {
        if !listing_has_match(&compiled[i], entries) {
            assert(!pattern_hits(pats[i as int], entries.deep_view()));
            return Ok(false);
        }
    }
    Ok(true)
}

/// Does every glob of a sequence compile?
pub fn patterns_compile(globs: &Vec<String>) -> (r: bool)
    ensures
        r == patterns_valid(globs.deep_view()),
{
    let ghost pats = globs.deep_view();
    for i in 0..globs.len()
        invariant
            pats == globs.deep_view(),
            pats.len() == globs.len(),
            forall|j: int| 0 <= j < i ==> glob_pattern_valid(pats[j]),
    {
        if compile_pattern(&globs[i]).is_none() {
            assert(!glob_pattern_valid(pats[i as int]));
            return false;
        }
    }
    true
}

/// Do all of a target's globs compile, and is there at least one?
///
/// The catalog treats an empty glob list, like a malformed glob, as a
/// configuration defect.
pub fn validate_patterns(globs: &Vec<String>) -> (r: bool)
    ensures
        r == (globs.len() > 0 && patterns_valid(globs.deep_view())),
{
    if globs.len() == 0 {
        return false;
    }
    patterns_compile(globs)
}

} // verus!
