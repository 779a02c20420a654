//! The shared text buffer: the single source of truth for document content.
//!
//! The buffer itself is a plain value; the surrounding application is expected
//! to guard the one instance with a mutual-exclusion lock and to keep every
//! critical section free of I/O, so a snapshot is always taken in full and
//! disk writes never block the interactive path.

use vstd::prelude::*;

verus! {

/// A mutable sequence of Unicode text with whole-value snapshot and replace
/// operations. Every operation either reads or writes the complete value, so
/// no caller can observe a partially updated string.
pub struct TextBuffer {
    content: String,
}

impl View for TextBuffer {
    type V = Seq<char>;

    closed spec fn view(&self) -> Seq<char> {
        self.content@
    }
}

impl TextBuffer {
    /// Creates an empty buffer.
    pub fn new() -> (buf: TextBuffer)
        ensures
            buf@ == Seq::<char>::empty(),
    {
        TextBuffer { content: String::new() }
    }

    /// Returns an independent copy of the current content, safe to use
    /// outside any critical section.
    pub fn read_snapshot(&self) -> (snapshot: String)
        ensures
            snapshot@ == self@,
    {
        self.content.clone()
    }

    /// Replaces the content wholesale with `new_text`.
    pub fn replace(&mut self, new_text: String)
        ensures
            final(self)@ == new_text@,
    {
        self.content = new_text;
    }
}

} // verus!
