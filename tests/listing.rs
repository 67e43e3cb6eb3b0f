use inkfinite_desktop::{
    check_directory, finish_listing, list_entries, sort_entries, FileEntry, FsError, IoStage,
    PathProbe, PathRole, RawEntry,
};

fn raw(name: &str, is_file: bool, is_dir: bool) -> RawEntry {
    RawEntry {
        path: format!("/ws/{}", name),
        name: name.to_string(),
        is_file,
        is_dir,
    }
}

fn file(name: &str) -> RawEntry {
    raw(name, true, false)
}

fn dir(name: &str) -> RawEntry {
    raw(name, false, true)
}

fn names(entries: &[FileEntry]) -> Vec<String> {
    entries.iter().map(|e| e.name.clone()).collect()
}

#[test]
fn default_pattern_keeps_subdirectory_first_and_is_case_sensitive() {
    let entries = vec![
        file("a.txt"),
        file("b.INKFINITE.JSON"),
        dir("sub"),
        file("c.inkfinite.json"),
    ];
    let listed = list_entries(entries, None);
    assert_eq!(names(&listed), vec!["sub", "c.inkfinite.json"]);
    assert!(listed[0].is_dir);
    assert_eq!(listed[0].path, "/ws/sub");
    assert!(!listed[1].is_dir);
    assert_eq!(listed[1].path, "/ws/c.inkfinite.json");
}

#[test]
fn explicit_pattern_replaces_default() {
    let entries = vec![file("a.txt"), file("b.inkfinite.json"), dir("sub")];
    let listed = list_entries(entries, Some("*.txt".to_string()));
    assert_eq!(names(&listed), vec!["sub", "a.txt"]);
}

#[test]
fn missing_directory_is_not_found() {
    let dir = "/no/such/dir".to_string();
    let r = check_directory(&dir, PathProbe { exists: false, is_dir: false });
    match r {
        Err(FsError::NotFound { role, path }) => {
            assert_eq!(role, PathRole::Directory);
            assert_eq!(path, dir);
        }
        _ => panic!("expected NotFound"),
    }
}

#[test]
fn file_path_is_not_a_directory() {
    let dir = "/ws/a.txt".to_string();
    let r = check_directory(&dir, PathProbe { exists: true, is_dir: false });
    match r {
        Err(e @ FsError::NotADirectory { .. }) => {
            assert_eq!(e.message(), "Path is not a directory: /ws/a.txt");
        }
        _ => panic!("expected NotADirectory"),
    }
}

#[test]
fn existing_directory_passes_check() {
    let dir = "/ws".to_string();
    assert!(check_directory(&dir, PathProbe { exists: true, is_dir: true }).is_ok());
}

#[test]
fn directories_first_then_case_insensitive_names() {
    let entries = vec![
        file("b.inkfinite.json"),
        dir("Zed"),
        file("A.inkfinite.json"),
        dir("alpha"),
        file("C.inkfinite.json"),
    ];
    let listed = list_entries(entries, None);
    assert_eq!(
        names(&listed),
        vec![
            "alpha",
            "Zed",
            "A.inkfinite.json",
            "b.inkfinite.json",
            "C.inkfinite.json"
        ]
    );
    let first_file = listed.iter().position(|e| !e.is_dir).unwrap();
    assert!(listed[first_file..].iter().all(|e| !e.is_dir));
    assert!(listed[..first_file].iter().all(|e| e.is_dir));
}

#[test]
fn sort_compares_lowercased_names() {
    // By code point "B" comes before "a"; lower-cased, "a" comes first.
    let entries = vec![
        FileEntry { path: "/ws/B".to_string(), name: "B".to_string(), is_dir: false },
        FileEntry { path: "/ws/a".to_string(), name: "a".to_string(), is_dir: false },
    ];
    let sorted = sort_entries(entries);
    assert_eq!(names(&sorted), vec!["a", "B"]);
}

#[test]
fn sort_of_empty_is_empty() {
    assert!(sort_entries(Vec::new()).is_empty());
    assert!(list_entries(Vec::new(), None).is_empty());
}

#[test]
fn other_kinds_of_entry_are_kept_as_non_directories() {
    let entries = vec![raw("link", false, false), file("x.txt"), dir("d")];
    let listed = list_entries(entries, Some("nothing".to_string()));
    assert_eq!(names(&listed), vec!["d", "link"]);
    assert!(!listed[1].is_dir);
}

#[test]
fn failed_read_fails_whole_listing() {
    let reads = vec![
        Ok(file("a.inkfinite.json")),
        Err(FsError::Io { stage: IoStage::ReadMetadata, cause: "denied".to_string() }),
        Err(FsError::Io { stage: IoStage::ReadEntry, cause: "gone".to_string() }),
    ];
    match finish_listing(reads, None) {
        Err(e @ FsError::Io { stage: IoStage::ReadMetadata, .. }) => {
            assert_eq!(e.message(), "Failed to read metadata: denied");
        }
        _ => panic!("expected the first failure"),
    }
}

#[test]
fn successful_reads_give_listing() {
    let reads = vec![Ok(file("b.inkfinite.json")), Ok(dir("sub")), Ok(file("a.txt"))];
    let listed = finish_listing(reads, None).ok().unwrap();
    assert_eq!(names(&listed), vec!["sub", "b.inkfinite.json"]);
}

#[test]
fn equal_lowercased_names_keep_their_order() {
    let entries = vec![
        file("b.inkfinite.json"),
        file("A.inkfinite.json"),
        file("B.inkfinite.json"),
        file("a.inkfinite.json"),
    ];
    let listed = list_entries(entries, None);
    assert_eq!(
        names(&listed),
        vec![
            "A.inkfinite.json",
            "a.inkfinite.json",
            "b.inkfinite.json",
            "B.inkfinite.json"
        ]
    );
}
