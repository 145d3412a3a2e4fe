use save_locator::catalog::{LocateError, LocationData};
use save_locator::engine::{find_games, FindOutcome, Snapshot};
use save_locator::volumes::VolumeDirs;

fn s(x: &str) -> String {
    x.to_string()
}

fn strings(xs: &[&str]) -> Vec<String> {
    xs.iter().map(|x| s(x)).collect()
}

fn target(name: &str, parent: &str, globs: &[&str]) -> LocationData {
    LocationData { name: s(name), parent: s(parent), globs: strings(globs), image: s("img.png") }
}

fn empty_snapshot() -> Snapshot {
    Snapshot {
        public_document: None,
        document: None,
        local: None,
        roaming: None,
        program_data: None,
        program_files_x86: None,
        volumes: Vec::new(),
    }
}

fn found_names(outcome: &FindOutcome) -> Vec<String> {
    outcome.found.iter().map(|t| t.name.clone()).collect()
}

#[test]
fn example_catalog_two_targets() {
    // Catalog: A anchored at Documents with save.dat present, B full-disk
    // with *.cfg absent everywhere: result is [A], progress total 2 with
    // currents {1, 2}.
    let catalog = vec![
        target("A", "Document", &["save.dat"]),
        target("B", "FULL_DISK", &["*.cfg"]),
    ];
    let mut snapshot = empty_snapshot();
    snapshot.document = Some(strings(&["save.dat", "notes.txt"]));
    snapshot.volumes = vec![VolumeDirs {
        dirs: vec![strings(&["readme.txt"]), strings(&["data.bin"])],
    }];
    let outcome = find_games(catalog, &snapshot).unwrap();
    assert_eq!(found_names(&outcome), vec![s("A")]);
    assert_eq!(outcome.events.len(), 2);
    let mut currents: Vec<u64> = outcome.events.iter().map(|e| e.current).collect();
    currents.sort();
    assert_eq!(currents, vec![1, 2]);
    assert!(outcome.events.iter().all(|e| e.total == 2));
}

#[test]
fn document_target_found_when_file_present() {
    let catalog = vec![target("A", "Document", &["save.dat"])];
    let mut snapshot = empty_snapshot();
    snapshot.document = Some(strings(&["other.txt", "save.dat"]));
    let outcome = find_games(catalog, &snapshot).unwrap();
    assert_eq!(found_names(&outcome), vec![s("A")]);
}

#[test]
fn document_target_excluded_when_file_removed() {
    let catalog = vec![target("A", "Document", &["save.dat"])];
    let mut snapshot = empty_snapshot();
    snapshot.document = Some(strings(&["other.txt"]));
    let outcome = find_games(catalog, &snapshot).unwrap();
    assert!(outcome.found.is_empty());
    assert_eq!(outcome.events.len(), 1);
}

#[test]
fn full_disk_target_found_levels_deep() {
    // The matching directory sits on the second volume, deep in the walk's
    // candidate list.
    let catalog = vec![target("G", "FULL_DISK", &["*.sav"])];
    let mut snapshot = empty_snapshot();
    snapshot.volumes = vec![
        VolumeDirs { dirs: vec![strings(&["a.txt"])] },
        VolumeDirs { dirs: vec![strings(&["b.txt"]), strings(&["c.doc", "game.sav"])] },
    ];
    let outcome = find_games(catalog, &snapshot).unwrap();
    assert_eq!(found_names(&outcome), vec![s("G")]);
}

#[test]
fn full_disk_target_excluded_without_match() {
    let catalog = vec![target("G", "FULL_DISK", &["*.sav"])];
    let mut snapshot = empty_snapshot();
    snapshot.volumes = vec![
        VolumeDirs { dirs: vec![strings(&["a.txt"])] },
        VolumeDirs { dirs: vec![strings(&["b.cfg"])] },
    ];
    let outcome = find_games(catalog, &snapshot).unwrap();
    assert!(outcome.found.is_empty());
}

#[test]
fn conjunction_needs_every_pattern() {
    // Only some patterns match: the target is excluded.
    let catalog = vec![target("A", "Document", &["*.sav", "config.ini"])];
    let mut snapshot = empty_snapshot();
    snapshot.document = Some(strings(&["game.sav"]));
    let outcome = find_games(catalog, &snapshot).unwrap();
    assert!(outcome.found.is_empty());
}

#[test]
fn conjunction_all_patterns_match() {
    let catalog = vec![target("A", "Document", &["*.sav", "config.ini"])];
    let mut snapshot = empty_snapshot();
    snapshot.document = Some(strings(&["game.sav", "config.ini"]));
    let outcome = find_games(catalog, &snapshot).unwrap();
    assert_eq!(found_names(&outcome), vec![s("A")]);
}

#[test]
fn conjunction_must_hold_in_one_directory() {
    // Each pattern matches somewhere on disk, but never both under the same
    // candidate directory: the target is excluded.
    let catalog = vec![target("G", "FULL_DISK", &["*.sav", "config.ini"])];
    let mut snapshot = empty_snapshot();
    snapshot.volumes = vec![VolumeDirs {
        dirs: vec![strings(&["game.sav"]), strings(&["config.ini"])],
    }];
    let outcome = find_games(catalog, &snapshot).unwrap();
    assert!(outcome.found.is_empty());
}

#[test]
fn unknown_alias_fails_the_run() {
    let catalog = vec![
        target("A", "Document", &["save.dat"]),
        target("B", "Basement", &["*.sav"]),
    ];
    let mut snapshot = empty_snapshot();
    snapshot.document = Some(strings(&["save.dat"]));
    assert_eq!(find_games(catalog, &snapshot), Err(LocateError::UnknownAlias));
}

#[test]
fn empty_catalog_fails_the_run() {
    let snapshot = empty_snapshot();
    assert_eq!(find_games(Vec::new(), &snapshot), Err(LocateError::EmptyCatalog));
}

#[test]
fn malformed_glob_fails_the_run() {
    let catalog = vec![target("A", "Document", &["[oops"])];
    let mut snapshot = empty_snapshot();
    snapshot.document = Some(strings(&["save.dat"]));
    assert_eq!(find_games(catalog, &snapshot), Err(LocateError::InvalidPattern));
}

#[test]
fn empty_pattern_list_fails_the_run() {
    let catalog = vec![target("A", "Document", &[])];
    let mut snapshot = empty_snapshot();
    snapshot.document = Some(strings(&["save.dat"]));
    assert_eq!(find_games(catalog, &snapshot), Err(LocateError::InvalidPattern));
}

#[test]
fn no_volumes_is_fatal_for_full_disk_targets() {
    let catalog = vec![target("G", "FULL_DISK", &["*.sav"])];
    let snapshot = empty_snapshot();
    assert_eq!(find_games(catalog, &snapshot), Err(LocateError::NoVolumesDetected));
}

#[test]
fn no_volumes_is_harmless_without_full_disk_targets() {
    let catalog = vec![target("A", "Document", &["save.dat"])];
    let mut snapshot = empty_snapshot();
    snapshot.document = Some(strings(&["save.dat"]));
    let outcome = find_games(catalog, &snapshot).unwrap();
    assert_eq!(found_names(&outcome), vec![s("A")]);
}

#[test]
fn unresolved_folder_means_absent_not_error() {
    // Documents unresolved on this machine: the target is simply not found.
    let catalog = vec![target("A", "Document", &["save.dat"])];
    let snapshot = empty_snapshot();
    let outcome = find_games(catalog, &snapshot).unwrap();
    assert!(outcome.found.is_empty());
    assert_eq!(outcome.events.len(), 1);
}

#[test]
fn progress_counts_every_target_once() {
    let catalog = vec![
        target("A", "Document", &["save.dat"]),
        target("B", "Roaming", &["*.cfg"]),
        target("C", "ProgramData", &["x.bin"]),
    ];
    let mut snapshot = empty_snapshot();
    snapshot.document = Some(strings(&["save.dat"]));
    let outcome = find_games(catalog, &snapshot).unwrap();
    assert_eq!(outcome.events.len(), 3);
    for (i, ev) in outcome.events.iter().enumerate() {
        assert_eq!(ev.total, 3);
        assert_eq!(ev.current, (i + 1) as u64);
    }
    assert_eq!(outcome.events[0].name, s("A"));
    assert_eq!(outcome.events[1].name, s("B"));
    assert_eq!(outcome.events[2].name, s("C"));
}

#[test]
fn locator_is_idempotent_on_unchanged_snapshot() {
    let make_catalog = || {
        vec![
            target("A", "Document", &["save.dat"]),
            target("B", "FULL_DISK", &["*.cfg"]),
            target("C", "Local", &["missing.bin"]),
        ]
    };
    let mut snapshot = empty_snapshot();
    snapshot.document = Some(strings(&["save.dat"]));
    snapshot.volumes = vec![VolumeDirs { dirs: vec![strings(&["app.cfg"])] }];
    let first = find_games(make_catalog(), &snapshot).unwrap();
    let second = find_games(make_catalog(), &snapshot).unwrap();
    assert_eq!(first.found, second.found);
    assert_eq!(first.events, second.events);
}

#[test]
fn metadata_passes_through_unchanged() {
    let mut t = target("A", "Document", &["save.dat"]);
    t.image = s("covers/a.jpg");
    let catalog = vec![t];
    let mut snapshot = empty_snapshot();
    snapshot.document = Some(strings(&["save.dat"]));
    let outcome = find_games(catalog, &snapshot).unwrap();
    assert_eq!(outcome.found[0].image, s("covers/a.jpg"));
    assert_eq!(outcome.found[0].globs, strings(&["save.dat"]));
}
