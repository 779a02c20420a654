//! The decision logic of the autosave loop. The loop itself — sleeping for
//! the interval, creating the directory, writing the file — runs outside the
//! library; each cycle resolves the target directory here, takes a snapshot
//! of the buffer, and reports the outcome with the functions of this module.
//!
//! Every failure of a cycle is non-fatal: it is turned into a report to log,
//! and the loop proceeds to its next sleep unchanged. No autosave failure
//! ever reaches the user-facing status line.

use vstd::prelude::*;
use vstd::string::StringExecFns;

use crate::storage::StorageError;
use crate::text::contains_seq;
use crate::text::lemma_concat_contains_right;

verus! {

/// The log line for a completed autosave.
pub open spec fn autosave_success_message(shown: Seq<char>) -> Seq<char> {
    "Autosaved to: "@ + shown
}

/// The log line for a failed write.
pub open spec fn autosave_failure_message(cause: Seq<char>) -> Seq<char> {
    "Autosave failed: "@ + cause
}

/// The log line when the target directory cannot be resolved.
pub open spec fn autosave_dir_error_message(cause: Seq<char>) -> Seq<char> {
    "Autosave error: "@ + cause
}

/// What one autosave cycle asks its caller to log: whether the cycle
/// succeeded, and the line to report.
pub struct AutosaveReport {
    pub success: bool,
    pub message: String,
}

/// Relies on `directories::ProjectDirs::from("com", "BookScript",
/// "BookScript")` and `ProjectDirs::data_dir` to resolve the per-user
/// application data directory for this application's namespace. The result
/// depends on the platform and on the environment (the home directory), so
/// nothing is promised of the returned path; `None` is returned exactly when
/// the crate can determine no directory.
#[verifier::external_body]
fn resolve_data_dir() -> (found: Option<String>) {
    directories::ProjectDirs::from("com", "BookScript", "BookScript").map(
        |dirs| dirs.data_dir().to_string_lossy().into_owned(),
    )
}

/// Resolves the directory autosaves are written to: the `projects`
/// subdirectory of the per-user application data directory. Fails exactly
/// when no data directory can be determined for this platform.
pub fn resolve_autosave_dir() -> (found: Result<String, StorageError>)
    ensures
        found matches Ok(dir) ==> exists|base: Seq<char>| dir@ == base + "/projects"@,
        found matches Err(error) ==> error is Config && error.message_spec()
            == "Could not determine user data directory"@,
{
    match resolve_data_dir() {
        Some(data_dir) => {
            let ghost base = data_dir@;
            let mut dir = data_dir;
            dir.append("/projects");
            proof {
                assert(dir@ == base + "/projects"@);
            }
            Ok(dir)
        },
        None => Err(
            StorageError::Config(String::from_str("Could not determine user data directory")),
        ),
    }
}

/// The file one cycle writes: `autosave.bks` inside the resolved directory.
pub fn autosave_file_path(dir: &str) -> (path: String)
    ensures
        path@ == dir@ + "/autosave.bks"@,
{
    let mut path = String::from_str(dir);
    path.append("/autosave.bks");
    path
}

/// Turns the outcome of one cycle's write into the line to log. A success
/// names the path written; a failure names the cause and leaves the loop to
/// carry on with its next cycle.
pub fn report_cycle(path: &str, saved: &Result<(), StorageError>) -> (report: AutosaveReport)
    ensures
        report.success == saved is Ok,
        saved is Ok ==> report.message@ == autosave_success_message(path@),
        saved matches Err(error) ==> report.message@ == autosave_failure_message(
            error.message_spec(),
        ),
{
    match saved {
        Ok(()) => {
            let mut message = String::from_str("Autosaved to: ");
            message.append(path);
            AutosaveReport { success: true, message }
        },
        Err(error) => {
            let cause = error.message();
            let mut message = String::from_str("Autosave failed: ");
            message.append(cause.as_str());
            AutosaveReport { success: false, message }
        },
    }
}

/// Turns a failure to resolve the autosave directory into the line to log;
/// the cycle performs no write.
pub fn report_dir_failure(error: &StorageError) -> (report: AutosaveReport)
    ensures
        report.success == false,
        report.message@ == autosave_dir_error_message(error.message_spec()),
{
    let cause = error.message();
    let mut message = String::from_str("Autosave error: ");
    message.append(cause.as_str());
    AutosaveReport { success: false, message }
}

/// A successful autosave's log line contains the path it wrote.
pub proof fn lemma_autosave_success_names_path(shown: Seq<char>)
    ensures
        contains_seq(autosave_success_message(shown), shown),
{
    lemma_concat_contains_right("Autosaved to: "@, shown);
}

} // verus!
