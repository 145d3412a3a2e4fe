//! The known-folder resolver: anchor tokens, their parsing, and the mapping
//! from alias to platform directory.
//!
//! Parsing and the fixed-path aliases are verified exactly. The four aliases
//! backed by the OS user profile go through `dirs_next`, whose answers depend
//! on the machine's environment; the resolver promises only that their
//! failure surfaces as `UnresolvedFolder`.

use vstd::prelude::*;
use vstd::string::StringExecFns;

use crate::catalog::LocateError;

verus! {

/// The resolution strategy of one target: a known-folder alias, or the
/// full-disk sentinel.
#[derive(Clone, Copy, Debug, PartialEq, Eq, Structural)]
pub enum Anchor {
    FullDisk,
    PublicDocument,
    Document,
    Local,
    Roaming,
    ProgramData,
    ProgramFilesX86,
}

/// The anchor denoted by a catalog token, or `None` for a token outside the
/// recognized set.
pub open spec fn spec_parse_anchor(s: Seq<char>) -> Option<Anchor> {
    if s == "FULL_DISK"@ {
        Some(Anchor::FullDisk)
    } else if s == "Public_Document"@ {
        Some(Anchor::PublicDocument)
    } else if s == "Document"@ {
        Some(Anchor::Document)
    } else if s == "Local"@ {
        Some(Anchor::Local)
    } else if s == "Roaming"@ {
        Some(Anchor::Roaming)
    } else if s == "ProgramData"@ {
        Some(Anchor::ProgramData)
    } else if s == "Program Files (x86)"@ {
        Some(Anchor::ProgramFilesX86)
    } else {
        None
    }
}

/// Is a string equal to a given literal?
pub(crate) fn str_is(s: &String, lit: &str) -> (r: bool)
    ensures
        r == (s@ == lit@),
{
    let owned: String = lit.to_owned();
    *s == owned
}

/// Parse an anchor token. `None` means the token is not in the recognized
/// set — a configuration error for the caller to surface.
pub fn parse_anchor(s: &String) -> (r: Option<Anchor>)
    ensures
        r == spec_parse_anchor(s@),
{
    if str_is(s, "FULL_DISK") {
        Some(Anchor::FullDisk)
    } else if str_is(s, "Public_Document") {
        Some(Anchor::PublicDocument)
    } else if str_is(s, "Document") {
        Some(Anchor::Document)
    } else if str_is(s, "Local") {
        Some(Anchor::Local)
    } else if str_is(s, "Roaming") {
        Some(Anchor::Roaming)
    } else if str_is(s, "ProgramData") {
        Some(Anchor::ProgramData)
    } else if str_is(s, "Program Files (x86)") {
        Some(Anchor::ProgramFilesX86)
    } else {
        None
    }
}

/// Relies on dirs_next::public_dir: the shared public directory, if the OS
/// reports one. The answer depends on the machine's environment.
#[verifier::external_body]
fn os_public_dir() -> (r: Option<String>) {
    dirs_next::public_dir().map(|p| p.to_string_lossy().into_owned())
}

/// Relies on dirs_next::document_dir: the user documents directory, if the
/// OS reports one. The answer depends on the machine's environment.
#[verifier::external_body]
fn os_document_dir() -> (r: Option<String>) {
    dirs_next::document_dir().map(|p| p.to_string_lossy().into_owned())
}

/// Relies on dirs_next::data_local_dir: the user's local application-data
/// directory, if the OS reports one. The answer depends on the machine's
/// environment.
#[verifier::external_body]
fn os_local_data_dir() -> (r: Option<String>) {
    dirs_next::data_local_dir().map(|p| p.to_string_lossy().into_owned())
}

/// Relies on dirs_next::data_dir: the user's roaming application-data
/// directory, if the OS reports one. The answer depends on the machine's
/// environment.
#[verifier::external_body]
fn os_roaming_data_dir() -> (r: Option<String>) {
    dirs_next::data_dir().map(|p| p.to_string_lossy().into_owned())
}

/// Resolve a known-folder alias to an absolute directory path.
///
/// The two program-files aliases map to fixed paths, stated exactly. The
/// profile-backed aliases ask the OS; a missing profile folder surfaces as
/// `UnresolvedFolder` — the caller treats that target as absent, it is not a
/// crash. The public-documents alias appends a `Documents` component to the
/// OS answer, with the separator of the fixed paths above. The full-disk
/// sentinel names no single folder and is excluded.
pub fn resolve(anchor: Anchor) -> (r: Result<String, LocateError>)
    requires
        anchor != Anchor::FullDisk,
    ensures
        anchor == Anchor::ProgramData ==> (r matches Ok(p) && p@ == "C:\\ProgramData"@),
        anchor == Anchor::ProgramFilesX86 ==> (r matches Ok(p) && p@
            == "C:\\Program Files (x86)"@),
        anchor == Anchor::PublicDocument ==> (r matches Ok(p) ==> exists|base: Seq<char>|
            p@ == base + "\\Documents"@),
        r matches Err(e) ==> e == LocateError::UnresolvedFolder,
{
    match anchor {
        Anchor::FullDisk => {
            assert(false);
            Err(LocateError::UnresolvedFolder)
        },
        Anchor::PublicDocument => match os_public_dir() {
            Some(p) => {
                let ghost base = p@;
                let joined = p.concat("\\Documents");
                assert(joined@ == base + "\\Documents"@);
                Ok(joined)
            },
            None => Err(LocateError::UnresolvedFolder),
        },
        Anchor::Document => match os_document_dir() {
            Some(p) => Ok(p),
            None => Err(LocateError::UnresolvedFolder),
        },
        Anchor::Local => match os_local_data_dir() {
            Some(p) => Ok(p),
            None => Err(LocateError::UnresolvedFolder),
        },
        Anchor::Roaming => match os_roaming_data_dir() {
            Some(p) => Ok(p),
            None => Err(LocateError::UnresolvedFolder),
        },
        Anchor::ProgramData => Ok("C:\\ProgramData".to_owned()),
        Anchor::ProgramFilesX86 => Ok("C:\\Program Files (x86)".to_owned()),
    }
}

} // verus!
