use bookscript::App;
use bookscript::autosave_file_path;
use bookscript::report_cycle;
use bookscript::report_dir_failure;
use bookscript::resolve_autosave_dir;
use bookscript::storage::Disk;
use bookscript::storage::FilePath;
use bookscript::storage::StorageError;

#[test]
fn autosave_path_joins_directory_and_filename() {
    assert_eq!(
        autosave_file_path("data/projects"),
        "data/projects/autosave.bks"
    );
}

#[test]
fn resolve_autosave_dir_ends_with_projects() {
    // The data directory depends on the platform and the environment; the
    // resolved target always lies in its `projects` subdirectory.
    match resolve_autosave_dir() {
        Ok(dir) => assert!(dir.ends_with("/projects")),
        Err(error) => {
            assert_eq!(error.message(), "Could not determine user data directory");
        }
    }
}

#[test]
fn successful_cycle_logs_the_path() {
    let report = report_cycle("data/projects/autosave.bks", &Ok(()));
    assert!(report.success);
    assert_eq!(report.message, "Autosaved to: data/projects/autosave.bks");
    assert!(report.message.contains("data/projects/autosave.bks"));
}

#[test]
fn failed_write_logs_the_cause_and_is_nonfatal() {
    let error = StorageError::Io("Failed to write file: data/projects/autosave.bks".to_string());
    let report = report_cycle("data/projects/autosave.bks", &Err(error));
    assert!(!report.success);
    assert_eq!(
        report.message,
        "Autosave failed: Failed to write file: data/projects/autosave.bks"
    );
}

#[test]
fn unresolved_directory_logs_the_cause() {
    let error = StorageError::Config("Could not determine user data directory".to_string());
    let report = report_dir_failure(&error);
    assert!(!report.success);
    assert_eq!(
        report.message,
        "Autosave error: Could not determine user data directory"
    );
}

#[test]
fn autosave_cycle_writes_snapshot_and_logs_success() {
    // One full cycle against the file-tree model: snapshot the buffer,
    // write it to the fixed file inside the autosave directory, report.
    let mut app = App::new();
    app.edit("Hello".to_string());

    let mut disk = Disk::new();
    let dir = "data/projects";
    let path_text = autosave_file_path(dir);
    let target = FilePath::new(vec![
        "data".to_string(),
        "projects".to_string(),
        "autosave.bks".to_string(),
    ]);
    assert_eq!(target.display_string(), path_text);

    let snapshot = app.snapshot();
    let outcome = disk.save(&target, &snapshot);
    let report = report_cycle(&path_text, &outcome);

    assert!(report.success);
    assert_eq!(report.message, "Autosaved to: data/projects/autosave.bks");
    assert!(report.message.contains(&path_text));
    assert_eq!(disk.load(&target).unwrap(), "Hello");
    // The cycle read but never changed the editor's state.
    assert_eq!(app.snapshot(), "Hello");
    assert_eq!(app.status_line(), "Ready");
    assert!(app.current_file().is_none());
}
