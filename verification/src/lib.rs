//! A minimal text-editor core: a shared text buffer, an editor session that
//! tracks the current file and a status line, a persistence model with exact
//! load/save semantics, and the decision logic of a periodic autosave loop.

pub mod autosave;
pub mod buffer;
pub mod editor;
pub mod parser;
pub mod storage;
pub mod text;

pub use autosave::AutosaveReport;
pub use autosave::autosave_file_path;
pub use autosave::report_cycle;
pub use autosave::report_dir_failure;
pub use autosave::resolve_autosave_dir;
pub use buffer::TextBuffer;
pub use editor::App;
pub use editor::default_open_path;
pub use editor::default_save_path;
pub use parser::Chapter;
pub use parser::DocumentStructure;
pub use parser::ParsedLine;
pub use parser::Scene;
pub use parser::TagType;
pub use parser::extract_structure;
pub use parser::parse_document;
pub use parser::parse_line;
pub use parser::spec_lines;
pub use parser::split_lines;
pub use storage::Disk;
pub use storage::FilePath;
pub use storage::StorageError;
pub use storage::spec_display;
pub use text::contains_seq;
pub use text::lemma_concat_contains_right;
pub use text::lemma_contains_after_prepend;
