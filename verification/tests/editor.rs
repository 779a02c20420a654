use bookscript::App;
use bookscript::default_open_path;
use bookscript::default_save_path;
use bookscript::storage::Disk;
use bookscript::storage::FilePath;

fn path_of(parts: &[&str]) -> FilePath {
    let components: Vec<String> = parts.iter().map(|p| p.to_string()).collect();
    FilePath::new(components)
}

#[test]
fn new_session_is_ready_and_empty() {
    let app = App::new();
    assert_eq!(app.snapshot(), "");
    assert!(app.current_file().is_none());
    assert_eq!(app.status_line(), "Ready");
}

#[test]
fn edit_replaces_text_only() {
    let mut app = App::new();
    app.edit("typed text".to_string());
    assert_eq!(app.snapshot(), "typed text");
    assert!(app.current_file().is_none());
    assert_eq!(app.status_line(), "Ready");
}

#[test]
fn successful_load_replaces_buffer_and_records_path() {
    let mut disk = Disk::new();
    let path = path_of(&["test.bks"]);
    assert!(disk.save(&path, "stored words").is_ok());

    let mut app = App::new();
    app.edit("unsaved words".to_string());
    let loaded = disk.load(&path);
    app.load_file(path, loaded);

    assert_eq!(app.snapshot(), "stored words");
    let current = app.current_file().as_ref().map(|p| p.display_string());
    assert_eq!(current, Some("test.bks".to_string()));
    assert_eq!(app.status_line(), "Loaded: test.bks");
}

#[test]
fn failed_load_leaves_state_untouched() {
    let disk = Disk::new();
    let mut app = App::new();
    app.edit("work in progress".to_string());

    let missing = path_of(&["missing", "file.bks"]);
    let loaded = disk.load(&missing);
    app.load_file(missing, loaded);

    assert_eq!(app.snapshot(), "work in progress");
    assert!(app.current_file().is_none());
    let status = app.status_line();
    assert_eq!(
        status,
        "Error loading file: Failed to read file: missing/file.bks"
    );
    assert!(status.contains("missing/file.bks"));
}

#[test]
fn save_as_records_path_and_round_trips() {
    let mut disk = Disk::new();
    let mut app = App::new();
    app.edit("Hello".to_string());

    let path = path_of(&["out.txt"]);
    let snapshot = app.snapshot();
    let saved = disk.save(&path, &snapshot);
    app.save_file(path, saved);

    assert_eq!(app.status_line(), "Saved: out.txt");
    assert!(app.status_line().contains("out.txt"));
    let current = app.current_file().as_ref().map(|p| p.display_string());
    assert_eq!(current, Some("out.txt".to_string()));
    // The buffer was not mutated by the save.
    assert_eq!(app.snapshot(), "Hello");

    // Reloading the saved file yields exactly the saved text.
    let reload = path_of(&["out.txt"]);
    let loaded = disk.load(&reload);
    app.load_file(reload, loaded);
    assert_eq!(app.snapshot(), "Hello");
    assert_eq!(app.status_line(), "Loaded: out.txt");
}

#[test]
fn default_action_paths_are_fixed() {
    assert_eq!(default_open_path().display_string(), "test.bks");
    assert_eq!(default_save_path().display_string(), "output.bks");
}

#[test]
fn about_changes_only_the_status_line() {
    let mut app = App::new();
    app.edit("kept".to_string());
    app.show_about();
    assert_eq!(
        app.status_line(),
        "BookScript Writer v0.1.0 - A simple writing app"
    );
    assert_eq!(app.snapshot(), "kept");
    assert!(app.current_file().is_none());
}

#[test]
fn failed_save_keeps_current_file_and_buffer() {
    let mut disk = Disk::new();
    let blocker = path_of(&["notes"]);
    assert!(disk.save(&blocker, "a file, not a directory").is_ok());

    let mut app = App::new();
    app.edit("Hello".to_string());
    let blocked = path_of(&["notes", "out.txt"]);
    let snapshot = app.snapshot();
    let saved = disk.save(&blocked, &snapshot);
    app.save_file(blocked, saved);

    assert_eq!(app.snapshot(), "Hello");
    assert!(app.current_file().is_none());
    assert_eq!(
        app.status_line(),
        "Error saving file: Failed to create directory: notes"
    );
}
