use save_locator::anchors::{parse_anchor, resolve, Anchor};
use save_locator::catalog::LocateError;

#[test]
fn every_recognized_token_parses() {
    assert_eq!(parse_anchor(&"FULL_DISK".to_string()), Some(Anchor::FullDisk));
    assert_eq!(parse_anchor(&"Public_Document".to_string()), Some(Anchor::PublicDocument));
    assert_eq!(parse_anchor(&"Document".to_string()), Some(Anchor::Document));
    assert_eq!(parse_anchor(&"Local".to_string()), Some(Anchor::Local));
    assert_eq!(parse_anchor(&"Roaming".to_string()), Some(Anchor::Roaming));
    assert_eq!(parse_anchor(&"ProgramData".to_string()), Some(Anchor::ProgramData));
    assert_eq!(parse_anchor(&"Program Files (x86)".to_string()), Some(Anchor::ProgramFilesX86));
}

#[test]
fn unrecognized_tokens_do_not_parse() {
    assert_eq!(parse_anchor(&"Documents".to_string()), None);
    assert_eq!(parse_anchor(&"full_disk".to_string()), None);
    assert_eq!(parse_anchor(&"".to_string()), None);
}

#[test]
fn fixed_aliases_resolve_to_fixed_paths() {
    assert_eq!(resolve(Anchor::ProgramData), Ok("C:\\ProgramData".to_string()));
    assert_eq!(resolve(Anchor::ProgramFilesX86), Ok("C:\\Program Files (x86)".to_string()));
}

#[test]
fn public_documents_root_gets_its_subfolder() {
    match resolve(Anchor::PublicDocument) {
        Ok(path) => assert!(path.ends_with("\\Documents")),
        Err(e) => assert_eq!(e, LocateError::UnresolvedFolder),
    }
}

#[test]
fn profile_aliases_fail_only_as_unresolved() {
    // Whether these resolve depends on the machine; the only admissible
    // failure is UnresolvedFolder.
    for anchor in [Anchor::PublicDocument, Anchor::Document, Anchor::Local, Anchor::Roaming] {
        match resolve(anchor) {
            Ok(path) => assert!(!path.is_empty()),
            Err(e) => assert_eq!(e, LocateError::UnresolvedFolder),
        }
    }
}
