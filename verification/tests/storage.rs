use bookscript::storage::Disk;
use bookscript::storage::FilePath;
use bookscript::storage::StorageError;

fn path_of(parts: &[&str]) -> FilePath {
    let components: Vec<String> = parts.iter().map(|p| p.to_string()).collect();
    FilePath::new(components)
}

#[test]
fn save_then_load_round_trips() {
    let mut disk = Disk::new();
    let path = path_of(&["notes", "draft.bks"]);
    let content = "Chapter one.\nIt was a dark and stormy night.";
    assert!(disk.save(&path, content).is_ok());
    let loaded = disk.load(&path).unwrap();
    assert_eq!(loaded, content);
}

#[test]
fn save_overwrites_existing_file() {
    let mut disk = Disk::new();
    let path = path_of(&["draft.bks"]);
    assert!(disk.save(&path, "first").is_ok());
    assert!(disk.save(&path, "second").is_ok());
    assert_eq!(disk.load(&path).unwrap(), "second");
}

#[test]
fn save_leaves_other_files_untouched() {
    let mut disk = Disk::new();
    let one = path_of(&["a.bks"]);
    let two = path_of(&["b.bks"]);
    assert!(disk.save(&one, "alpha").is_ok());
    assert!(disk.save(&two, "beta").is_ok());
    assert_eq!(disk.load(&one).unwrap(), "alpha");
    assert_eq!(disk.load(&two).unwrap(), "beta");
}

#[test]
fn save_creates_missing_parent_directories() {
    let mut disk = Disk::new();
    let nested = path_of(&["deep", "chain", "of", "dirs", "file.bks"]);
    assert!(disk.save(&nested, "text").is_ok());
    assert_eq!(disk.load(&nested).unwrap(), "text");
    // The created directories now block a file from taking their place.
    let mut taken = Disk::new();
    assert!(taken.save(&nested, "text").is_ok());
    let dir_as_file = path_of(&["deep", "chain"]);
    let outcome = taken.save(&dir_as_file, "oops");
    match outcome {
        Err(StorageError::Io(cause)) => {
            assert_eq!(cause, "Failed to write file: deep/chain");
        }
        _ => panic!("saving over a directory must fail"),
    }
}

#[test]
fn save_under_file_parent_fails() {
    let mut disk = Disk::new();
    let file = path_of(&["notes"]);
    assert!(disk.save(&file, "plain file").is_ok());
    let below = path_of(&["notes", "draft.bks"]);
    let outcome = disk.save(&below, "text");
    match outcome {
        Err(StorageError::Io(cause)) => {
            assert_eq!(cause, "Failed to create directory: notes");
        }
        _ => panic!("saving below a file must fail"),
    }
    // The failed save changed nothing.
    assert_eq!(disk.load(&file).unwrap(), "plain file");
    assert!(disk.load(&below).is_err());
}

#[test]
fn save_empty_path_fails() {
    let mut disk = Disk::new();
    let empty = path_of(&[]);
    let outcome = disk.save(&empty, "text");
    match outcome {
        Err(StorageError::Io(cause)) => {
            assert_eq!(cause, "Failed to write file: ");
        }
        _ => panic!("saving to an empty path must fail"),
    }
}

#[test]
fn load_missing_file_names_the_path() {
    let disk = Disk::new();
    let path = path_of(&["no", "such", "file.bks"]);
    match disk.load(&path) {
        Err(StorageError::Io(cause)) => {
            assert_eq!(cause, "Failed to read file: no/such/file.bks");
        }
        _ => panic!("loading a missing file must fail"),
    }
}

#[test]
fn display_joins_components() {
    let path = path_of(&["a", "b", "c.bks"]);
    assert_eq!(path.display_string(), "a/b/c.bks");
    let single = path_of(&["c.bks"]);
    assert_eq!(single.display_string(), "c.bks");
    let empty = path_of(&[]);
    assert_eq!(empty.display_string(), "");
}

#[test]
fn error_message_is_the_carried_cause() {
    let io = StorageError::Io("went wrong".to_string());
    assert_eq!(io.message(), "went wrong");
    let config = StorageError::Config("no home".to_string());
    assert_eq!(config.message(), "no home");
}
