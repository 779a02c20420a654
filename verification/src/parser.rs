//! The tag parser for screenplay-style documents. Tag detection itself is a
//! placeholder — no line is recognised as a tag yet — but the line-by-line
//! shape of a parsed document is fully specified: a document is split into
//! lines exactly as the editor shows them, each line keeping its text and
//! its one-based line number.

use vstd::prelude::*;
use vstd::string::StrSliceExecFns;
use vstd::string::StringExecFns;

verus! {

/// The kinds of tag a line of a document can carry.
#[derive(Debug, Clone, PartialEq)]
pub enum TagType {
    /// A chapter marker; the string holds the chapter name or number.
    Chapter(String),
    /// A scene marker; the string holds the scene description.
    Scene(String),
    /// An act marker.
    Act(String),
    /// A character name introducing dialogue.
    Character(String),
    /// Stage direction or action.
    Action(String),
    /// An unrecognised or malformed tag.
    Unknown(String),
}

/// One line of a parsed document.
#[derive(Debug, Clone)]
pub struct ParsedLine {
    /// The one-based line number, for error reporting.
    pub line_number: usize,
    /// The original text of the line.
    pub text: String,
    /// The tag the line carries, if it was recognised as one.
    pub tag: Option<TagType>,
}

/// The index of the first newline in `text`, or `text.len()` when there is
/// none.
pub open spec fn first_newline(text: Seq<char>) -> int
    decreases text.len(),
{
    if text.len() == 0 {
        0
    } else if text[0] == '\n' {
        0
    } else {
        1 + first_newline(text.drop_first())
    }
}

pub proof fn lemma_first_newline_bounds(text: Seq<char>)
    ensures
        0 <= first_newline(text) <= text.len(),
        forall|j: int| 0 <= j < first_newline(text) ==> text[j] != '\n',
        first_newline(text) < text.len() ==> text[first_newline(text)] == '\n',
    decreases text.len(),
{
    if text.len() == 0 {
    } else if text[0] == '\n' {
    } else {
        lemma_first_newline_bounds(text.drop_first());
        let cut = first_newline(text);
        assert forall|j: int| 0 <= j < cut implies text[j] != '\n' by {
            if j > 0 {
                assert(text.drop_first()[j - 1] == text[j]);
            }
        }
        if cut < text.len() {
            assert(text.drop_first()[cut - 1] == text[cut]);
        }
    }
}

pub proof fn lemma_first_newline_is(text: Seq<char>, cut: int)
    requires
        0 <= cut <= text.len(),
        forall|j: int| 0 <= j < cut ==> text[j] != '\n',
        cut < text.len() ==> text[cut] == '\n',
    ensures
        first_newline(text) == cut,
    decreases text.len(),
{
    if text.len() == 0 {
    } else if text[0] == '\n' {
        assert(cut == 0);
    } else {
        assert(cut > 0) by {
            if cut == 0 {
                assert(text[0] == '\n');
            }
        }
        assert forall|j: int| 0 <= j < cut - 1 implies text.drop_first()[j] != '\n' by {
            assert(text.drop_first()[j] == text[j + 1]);
        }
        if cut - 1 < text.drop_first().len() {
            assert(text.drop_first()[cut - 1] == text[cut]);
        }
        lemma_first_newline_is(text.drop_first(), cut - 1);
    }
}

/// A line that ended in a carriage return before its newline is shown
/// without it.
pub open spec fn strip_carriage_return(line: Seq<char>) -> Seq<char> {
    if line.len() > 0 && line.last() == '\r' {
        line.drop_last()
    } else {
        line
    }
}

/// The lines of `text`: split at every newline, a carriage return directly
/// before a newline dropped, and no empty final line when the text ends with
/// a newline.
pub open spec fn spec_lines(text: Seq<char>) -> Seq<Seq<char>>
    decreases text.len(),
    via spec_lines_decreases
{
    if text.len() == 0 {
        Seq::empty()
    } else {
        let cut = first_newline(text);
        if cut >= text.len() {
            seq![text]
        } else {
            seq![strip_carriage_return(text.take(cut))] + spec_lines(text.skip(cut + 1))
        }
    }
}

#[via_fn]
proof fn spec_lines_decreases(text: Seq<char>) {
    lemma_first_newline_bounds(text);
}

/// A text has at least as many characters as lines.
pub proof fn lemma_spec_lines_count(text: Seq<char>)
    ensures
        spec_lines(text).len() <= text.len(),
    decreases text.len(),
{
    if text.len() > 0 {
        lemma_first_newline_bounds(text);
        let cut = first_newline(text);
        if cut < text.len() {
            lemma_spec_lines_count(text.skip(cut + 1));
        }
    }
}

/// Splits `text` into its lines, exactly as `spec_lines` describes them.
pub fn split_lines(text: &str) -> (lines: Vec<String>)
    ensures
        lines.deep_view() == spec_lines(text@),
{
    let text_len = text.unicode_len();
    let mut lines: Vec<String> = Vec::new();
    let mut pos: usize = 0;
    proof {
        assert(lines.deep_view() =~= Seq::<Seq<char>>::empty());
        assert(text@.skip(0) =~= text@);
        assert(lines.deep_view() + spec_lines(text@) =~= spec_lines(text@));
    }
    while pos < text_len
        invariant
            pos <= text_len,
            text_len == text@.len(),
            spec_lines(text@) == lines.deep_view() + spec_lines(text@.skip(pos as int)),
        decreases text_len - pos,
    {
        // Scan to the next newline or to the end of the text.
        let mut end: usize = pos;
        while end < text_len && text.get_char(end) != '\n'
            invariant
                pos <= end <= text_len,
                text_len == text@.len(),
                forall|j: int| pos <= j < end ==> text@[j] != '\n',
            decreases text_len - end,
        {
            end += 1;
        }
        proof {
            let rem = text@.skip(pos as int);
            assert forall|j: int| 0 <= j < end - pos implies rem[j] != '\n' by {
                assert(rem[j] == text@[pos + j]);
            }
            if (end as int) < text@.len() {
                assert(rem[end - pos] == text@[end as int]);
            }
            lemma_first_newline_is(rem, end - pos);
        }
        // Drop a carriage return directly before a newline.
        let mut line_end = end;
        if end < text_len && line_end > pos && text.get_char(line_end - 1) == '\r' {
            line_end -= 1;
        }
        let segment = text.substring_char(pos, line_end);
        let ghost seen = lines.deep_view();
        let line = String::from_str(segment);
        lines.push(line);
        proof {
            let rem = text@.skip(pos as int);
            let cut = end - pos;
            assert(lines.deep_view() =~= seen.push(segment@));
            if end == text_len {
                assert(segment@ =~= rem);
                assert(spec_lines(rem) == seq![rem]);
                assert(seen + spec_lines(rem) =~= seen.push(segment@) + spec_lines(
                    text@.skip(text_len as int),
                ));
            } else {
                assert(rem.take(cut) =~= text@.subrange(pos as int, end as int));
                if line_end < end {
                    assert(rem.take(cut).len() > 0);
                    assert(rem.take(cut).last() == text@[end - 1]);
                    assert(strip_carriage_return(rem.take(cut)) =~= segment@);
                } else {
                    if rem.take(cut).len() > 0 {
                        assert(rem.take(cut).last() == text@[end - 1]);
                    }
                    assert(strip_carriage_return(rem.take(cut)) =~= segment@);
                }
                assert(rem.skip(cut + 1) =~= text@.skip(end + 1));
                assert(spec_lines(rem) == seq![segment@] + spec_lines(text@.skip(end + 1)));
                assert(seen + spec_lines(rem) =~= seen.push(segment@) + spec_lines(
                    text@.skip(end + 1),
                ));
            }
        }
        if end < text_len {
            pos = end + 1;
        } else {
            pos = text_len;
        }
    }
    proof {
        assert(text@.skip(pos as int) =~= Seq::<char>::empty());
        assert(spec_lines(text@) =~= lines.deep_view());
    }
    lines
}

/// Parses a single line. Tag detection is not implemented yet, so the line
/// is returned with its text and number and with no tag.
pub fn parse_line(line: &str, line_number: usize) -> (parsed: ParsedLine)
    ensures
        parsed.line_number == line_number,
        parsed.text@ == line@,
        parsed.tag is None,
{
    ParsedLine { line_number, text: String::from_str(line), tag: None }
}

/// Parses an entire document: every line of the text, in order, with
/// one-based line numbers and (for now) no recognised tags.
pub fn parse_document(text: &str) -> (parsed: Vec<ParsedLine>)
    ensures
        parsed@.len() == spec_lines(text@).len(),
        forall|k: int|
            0 <= k < parsed@.len() ==> {
                &&& (#[trigger] parsed@[k]).line_number == k + 1
                &&& parsed@[k].text@ == spec_lines(text@)[k]
                &&& parsed@[k].tag is None
            },
{
    let lines = split_lines(text);
    proof {
        lemma_spec_lines_count(text@);
    }
    let mut parsed: Vec<ParsedLine> = Vec::new();
    let mut i: usize = 0;
    while i < lines.len()
        invariant
            i <= lines@.len(),
            lines.deep_view() == spec_lines(text@),
            spec_lines(text@).len() <= text@.len(),
            parsed@.len() == i,
            forall|k: int|
                0 <= k < i ==> {
                    &&& (#[trigger] parsed@[k]).line_number == k + 1
                    &&& parsed@[k].text@ == spec_lines(text@)[k]
                    &&& parsed@[k].tag is None
                },
        decreases lines@.len() - i,
    {
        let entry = parse_line(lines[i].as_str(), i + 1);
        parsed.push(entry);
        i += 1;
    }
    parsed
}

/// The hierarchical structure of a document.
#[derive(Debug, Clone)]
pub struct DocumentStructure {
    pub chapters: Vec<Chapter>,
    pub scenes: Vec<Scene>,
}

/// A chapter and the line range it covers.
#[derive(Debug, Clone)]
pub struct Chapter {
    pub title: String,
    pub line_start: usize,
    pub line_end: usize,
}

/// A scene, the line range it covers, and the chapter it belongs to.
#[derive(Debug, Clone)]
pub struct Scene {
    pub description: String,
    pub line_start: usize,
    pub line_end: usize,
    pub parent_chapter: Option<String>,
}

/// Extracts the chapter/scene structure of a parsed document. Structure
/// recognition is not implemented yet, so the structure is empty.
pub fn extract_structure(_parsed_lines: &[ParsedLine]) -> (structure: DocumentStructure)
    ensures
        structure.chapters@.len() == 0,
        structure.scenes@.len() == 0,
{
    DocumentStructure { chapters: Vec::new(), scenes: Vec::new() }
}

} // verus!
