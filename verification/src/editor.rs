//! The editor session: the user-facing control surface. It owns the text
//! buffer, the reference to the current file, and the status line, and it
//! applies the outcome of each discrete load or save action to that state.
//!
//! The session never performs I/O itself: the caller runs the persistence
//! operation (against the real file system, or against the `Disk` model in
//! tests) and hands the outcome to `load_file` or `save_file`.

use vstd::prelude::*;
use vstd::string::StringExecFns;

use crate::buffer::TextBuffer;
use crate::storage::FilePath;
use crate::storage::StorageError;
use crate::storage::read_error_message;
use crate::storage::spec_display;
use crate::text::contains_seq;
use crate::text::lemma_concat_contains_right;
use crate::text::lemma_contains_after_prepend;

verus! {

/// The status line after a successful load.
pub open spec fn loaded_status(shown: Seq<char>) -> Seq<char> {
    "Loaded: "@ + shown
}

/// The status line after a failed load.
pub open spec fn load_error_status(cause: Seq<char>) -> Seq<char> {
    "Error loading file: "@ + cause
}

/// The status line after a successful save.
pub open spec fn saved_status(shown: Seq<char>) -> Seq<char> {
    "Saved: "@ + shown
}

/// The status line after a failed save.
pub open spec fn save_error_status(cause: Seq<char>) -> Seq<char> {
    "Error saving file: "@ + cause
}

/// The application state: the text being edited, the path of the current
/// file (absent until the first successful load or save), and the status
/// line describing the outcome of the last user action.
pub struct App {
    text_content: TextBuffer,
    current_file_path: Option<FilePath>,
    status_message: String,
}

impl App {
    /// The document text.
    pub closed spec fn text(&self) -> Seq<char> {
        self.text_content@
    }

    /// The path of the current file, if one has been recorded.
    pub closed spec fn current_path(&self) -> Option<Seq<Seq<char>>> {
        match self.current_file_path {
            Some(path) => Some(path@),
            None => None,
        }
    }

    /// The status line.
    pub closed spec fn status(&self) -> Seq<char> {
        self.status_message@
    }

    /// Creates a session with an empty buffer, no current file, and a ready
    /// status line.
    pub fn new() -> (app: App)
        ensures
            app.text() == Seq::<char>::empty(),
            app.current_path() is None,
            app.status() == "Ready"@,
    {
        App {
            text_content: TextBuffer::new(),
            current_file_path: None,
            status_message: String::from_str("Ready"),
        }
    }

    /// Applies the outcome of loading `path`. On success the buffer is
    /// replaced wholesale with the loaded text and `path` becomes the current
    /// file; on failure the buffer and the current file are left untouched.
    /// Either way the status line records the outcome.
    pub fn load_file(&mut self, path: FilePath, loaded: Result<String, StorageError>)
        ensures
            match loaded {
                Ok(content) => {
                    &&& final(self).text() == content@
                    &&& final(self).current_path() == Some(path@)
                    &&& final(self).status() == loaded_status(spec_display(path@))
                },
                Err(error) => {
                    &&& final(self).text() == old(self).text()
                    &&& final(self).current_path() == old(self).current_path()
                    &&& final(self).status() == load_error_status(error.message_spec())
                },
            },
    {
        match loaded {
            Ok(content) => {
                self.text_content.replace(content);
                let shown = path.display_string();
                self.current_file_path = Some(path);
                let mut status = String::from_str("Loaded: ");
                status.append(shown.as_str());
                self.status_message = status;
            },
            Err(error) => {
                let cause = error.message();
                let mut status = String::from_str("Error loading file: ");
                status.append(cause.as_str());
                self.status_message = status;
            },
        }
    }

    /// Applies the outcome of saving the buffer to `path`. A save never
    /// mutates the buffer. On success `path` becomes the current file; on
    /// failure the current file is left untouched. Either way the status
    /// line records the outcome.
    pub fn save_file(&mut self, path: FilePath, saved: Result<(), StorageError>)
        ensures
            final(self).text() == old(self).text(),
            match saved {
                Ok(()) => {
                    &&& final(self).current_path() == Some(path@)
                    &&& final(self).status() == saved_status(spec_display(path@))
                },
                Err(error) => {
                    &&& final(self).current_path() == old(self).current_path()
                    &&& final(self).status() == save_error_status(error.message_spec())
                },
            },
    {
        match saved {
            Ok(()) => {
                let shown = path.display_string();
                self.current_file_path = Some(path);
                let mut status = String::from_str("Saved: ");
                status.append(shown.as_str());
                self.status_message = status;
            },
            Err(error) => {
                let cause = error.message();
                let mut status = String::from_str("Error saving file: ");
                status.append(cause.as_str());
                self.status_message = status;
            },
        }
    }

    /// Returns an independent copy of the document text, taken at a single
    /// point, for use outside the session (display, or a save).
    pub fn snapshot(&self) -> (content: String)
        ensures
            content@ == self.text(),
    {
        self.text_content.read_snapshot()
    }

    /// Replaces the document text, as the live editing control does on a
    /// keystroke. The current file and the status line are untouched.
    pub fn edit(&mut self, new_text: String)
        ensures
            final(self).text() == new_text@,
            final(self).current_path() == old(self).current_path(),
            final(self).status() == old(self).status(),
    {
        self.text_content.replace(new_text);
    }

    /// Records the About notice in the status line; nothing else changes.
    pub fn show_about(&mut self)
        ensures
            final(self).text() == old(self).text(),
            final(self).current_path() == old(self).current_path(),
            final(self).status() == "BookScript Writer v0.1.0 - A simple writing app"@,
    {
        self.status_message = String::from_str("BookScript Writer v0.1.0 - A simple writing app");
    }

    /// The status line, as an owned string.
    pub fn status_line(&self) -> (shown: String)
        ensures
            shown@ == self.status(),
    {
        self.status_message.clone()
    }

    /// The current file, if one has been recorded.
    pub fn current_file(&self) -> (path: &Option<FilePath>)
        ensures
            match path {
                Some(p) => self.current_path() == Some(p@),
                None => self.current_path() is None,
            },
    {
        &self.current_file_path
    }
}

/// The file the Open action reads while no file picker exists.
pub fn default_open_path() -> (path: FilePath)
    ensures
        path@ == seq!["test.bks"@],
{
    let mut components: Vec<String> = Vec::new();
    components.push(String::from_str("test.bks"));
    proof {
        assert(components.deep_view() =~= seq!["test.bks"@]);
    }
    FilePath::new(components)
}

/// The file the Save As action writes while no file picker exists.
pub fn default_save_path() -> (path: FilePath)
    ensures
        path@ == seq!["output.bks"@],
{
    let mut components: Vec<String> = Vec::new();
    components.push(String::from_str("output.bks"));
    proof {
        assert(components.deep_view() =~= seq!["output.bks"@]);
    }
    FilePath::new(components)
}

/// A failed load still tells the user which path was attempted: the status
/// line built from a read failure of `path` contains the displayed path,
/// while by `load_file`'s contract the buffer and the current file are
/// unchanged.
pub proof fn lemma_load_failure_status_names_path(path: Seq<Seq<char>>)
    ensures
        contains_seq(
            load_error_status(read_error_message(spec_display(path))),
            spec_display(path),
        ),
{
    lemma_concat_contains_right("Failed to read file: "@, spec_display(path));
    lemma_contains_after_prepend(
        "Error loading file: "@,
        read_error_message(spec_display(path)),
        spec_display(path),
    );
}

/// A successful save names the saved path: the status line contains the
/// displayed path.
pub proof fn lemma_save_status_names_path(path: Seq<Seq<char>>)
    ensures
        contains_seq(saved_status(spec_display(path)), spec_display(path)),
{
    lemma_concat_contains_right("Saved: "@, spec_display(path));
}

} // verus!
