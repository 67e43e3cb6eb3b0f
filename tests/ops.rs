use inkfinite_desktop::{plan_delete, plan_rename, FsError, IoStage, PathProbe, PathRole};

#[test]
fn rename_of_missing_source_is_not_found() {
    let old = "/ws/missing.inkfinite.json".to_string();
    match plan_rename(&old, PathProbe { exists: false, is_dir: false }) {
        Err(e @ FsError::NotFound { role: PathRole::Source, .. }) => {
            assert_eq!(e.message(), "Source file does not exist: /ws/missing.inkfinite.json");
        }
        _ => panic!("expected NotFound"),
    }
}

#[test]
fn rename_of_existing_source_goes_ahead() {
    let old = "/ws/a.inkfinite.json".to_string();
    assert!(plan_rename(&old, PathProbe { exists: true, is_dir: false }).is_ok());
    assert!(plan_rename(&old, PathProbe { exists: true, is_dir: true }).is_ok());
}

#[test]
fn delete_of_directory_is_rejected() {
    let p = "/ws/sub".to_string();
    match plan_delete(&p, PathProbe { exists: true, is_dir: true }) {
        Err(e @ FsError::IsADirectory { .. }) => {
            assert_eq!(e.message(), "Path is a directory, not a file: /ws/sub");
        }
        _ => panic!("expected IsADirectory"),
    }
}

#[test]
fn delete_of_missing_file_is_not_found() {
    let p = "/ws/gone.txt".to_string();
    match plan_delete(&p, PathProbe { exists: false, is_dir: false }) {
        Err(e @ FsError::NotFound { role: PathRole::File, .. }) => {
            assert_eq!(e.message(), "File does not exist: /ws/gone.txt");
        }
        _ => panic!("expected NotFound"),
    }
}

#[test]
fn delete_of_regular_file_goes_ahead() {
    let p = "/ws/a.txt".to_string();
    assert!(plan_delete(&p, PathProbe { exists: true, is_dir: false }).is_ok());
}

#[test]
fn messages_of_every_error() {
    let dir = FsError::NotFound { role: PathRole::Directory, path: "/d".to_string() };
    assert_eq!(dir.message(), "Directory does not exist: /d");
    let cases = [
        (IoStage::ReadDirectory, "Failed to read directory: boom"),
        (IoStage::ReadEntry, "Failed to read entry: boom"),
        (IoStage::ReadMetadata, "Failed to read metadata: boom"),
        (IoStage::Rename, "Failed to rename file: boom"),
        (IoStage::Delete, "Failed to delete file: boom"),
    ];
    for (stage, expected) in cases {
        assert_eq!(FsError::io(stage, "boom".to_string()).message(), expected);
    }
}
