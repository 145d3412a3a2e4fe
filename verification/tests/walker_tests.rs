use save_locator::walker::{is_denied, DirNode, DirWalker};

fn node(path: &str, name: &str) -> DirNode {
    DirNode { path: path.to_string(), name: name.to_string() }
}

#[test]
fn deny_list_membership() {
    assert!(is_denied(&"Windows".to_string()));
    assert!(is_denied(&"AppData".to_string()));
    assert!(is_denied(&"System32".to_string()));
    assert!(is_denied(&"WinNT".to_string()));
    assert!(is_denied(&"Program Files".to_string()));
    assert!(is_denied(&"Program Files (x86)".to_string()));
    assert!(is_denied(&"ProgramData".to_string()));
    assert!(is_denied(&"$Recycle.Bin".to_string()));
    assert!(!is_denied(&"Games".to_string()));
    assert!(!is_denied(&"windows".to_string()));
}

#[test]
fn walk_yields_root_then_offered_children() {
    let mut w = DirWalker::new(node("C:/", ""));
    let root = w.next_dir().unwrap();
    assert_eq!(root.path, "C:/".to_string());
    w.offer(vec![node("C:/Games", "Games"), node("C:/Windows", "Windows")]);
    let next = w.next_dir().unwrap();
    assert_eq!(next.path, "C:/Games".to_string());
    assert!(w.next_dir().is_none());
}

#[test]
fn walk_skips_denied_directories() {
    let mut w = DirWalker::new(node("C:/", ""));
    w.next_dir().unwrap();
    w.offer(vec![
        node("C:/Windows", "Windows"),
        node("C:/AppData", "AppData"),
        node("C:/$Recycle.Bin", "$Recycle.Bin"),
    ]);
    assert!(w.next_dir().is_none());
}

#[test]
fn walk_never_revisits_a_directory() {
    let mut w = DirWalker::new(node("C:/", ""));
    let mut yielded: Vec<String> = Vec::new();
    while let Some(d) = w.next_dir() {
        yielded.push(d.path.clone());
        // Offer the same two children every time, as a looped filesystem
        // would.
        w.offer(vec![node("C:/a", "a"), node("C:/b", "b")]);
    }
    let mut unique = yielded.clone();
    unique.sort();
    unique.dedup();
    assert_eq!(unique.len(), yielded.len());
    assert_eq!(yielded.len(), 3);
}

#[test]
fn walk_terminates_on_self_referential_link() {
    // A directory that lists itself as its own child: the walk must end.
    let mut w = DirWalker::new(node("C:/loop", "loop"));
    let mut steps: usize = 0;
    while let Some(d) = w.next_dir() {
        assert_eq!(d.path, "C:/loop".to_string());
        w.offer(vec![node("C:/loop", "loop")]);
        steps += 1;
        assert!(steps <= 1);
    }
    assert_eq!(steps, 1);
}

#[test]
fn walk_yields_every_acceptable_directory() {
    // Acceptable children are never dropped: of one mixed offer, the two
    // acceptable ones both come back, the denied one and the duplicate do
    // not.
    let mut w = DirWalker::new(node("C:/", ""));
    w.next_dir().unwrap();
    w.offer(vec![
        node("C:/Games", "Games"),
        node("C:/Windows", "Windows"),
        node("C:/Saves", "Saves"),
        node("C:/Games", "Games"),
    ]);
    let mut yielded = Vec::new();
    while let Some(d) = w.next_dir() {
        yielded.push(d.path.clone());
        w.offer(Vec::new());
    }
    yielded.sort();
    assert_eq!(yielded, vec!["C:/Games".to_string(), "C:/Saves".to_string()]);
}

#[test]
fn walk_descends_through_a_subtree() {
    let mut w = DirWalker::new(node("/", ""));
    let mut seen: Vec<String> = Vec::new();
    loop {
        let d = match w.next_dir() {
            Some(d) => d,
            None => break,
        };
        seen.push(d.path.clone());
        let children = match d.path.as_str() {
            "/" => vec![node("/home", "home"), node("/srv", "srv")],
            "/home" => vec![node("/home/games", "games")],
            _ => Vec::new(),
        };
        w.offer(children);
    }
    seen.sort();
    let mut expected =
        vec!["/".to_string(), "/home".to_string(), "/home/games".to_string(), "/srv".to_string()];
    expected.sort();
    assert_eq!(seen, expected);
}
