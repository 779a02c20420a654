use bookscript::parse_document;
use bookscript::parse_line;
use bookscript::extract_structure;
use bookscript::split_lines;

#[test]
fn parse_line_keeps_text_and_number() {
    let parsed = parse_line("[CHAPTER: The Beginning]", 7);
    assert_eq!(parsed.line_number, 7);
    assert_eq!(parsed.text, "[CHAPTER: The Beginning]");
    // Tag detection is a placeholder: no line carries a tag yet.
    assert!(parsed.tag.is_none());
}

#[test]
fn parse_document_numbers_lines_from_one() {
    let parsed = parse_document("first\nsecond\nthird");
    assert_eq!(parsed.len(), 3);
    assert_eq!(parsed[0].line_number, 1);
    assert_eq!(parsed[0].text, "first");
    assert_eq!(parsed[1].line_number, 2);
    assert_eq!(parsed[1].text, "second");
    assert_eq!(parsed[2].line_number, 3);
    assert_eq!(parsed[2].text, "third");
    assert!(parsed.iter().all(|line| line.tag.is_none()));
}

#[test]
fn parse_document_of_empty_text_has_no_lines() {
    assert_eq!(parse_document("").len(), 0);
}

#[test]
fn split_lines_drops_final_newline() {
    assert_eq!(split_lines("a\nb\n"), vec!["a", "b"]);
    assert_eq!(split_lines("a\nb"), vec!["a", "b"]);
    assert_eq!(split_lines("\n"), vec![""]);
    assert_eq!(split_lines("\n\n"), vec!["", ""]);
}

#[test]
fn split_lines_strips_carriage_return_before_newline() {
    assert_eq!(split_lines("a\r\nb\r\n"), vec!["a", "b"]);
    // A carriage return not followed by a newline stays.
    assert_eq!(split_lines("a\r"), vec!["a\r"]);
    assert_eq!(split_lines("a\rb\nc"), vec!["a\rb", "c"]);
}

#[test]
fn extract_structure_is_a_placeholder() {
    let parsed = parse_document("[CHAPTER: One]\n[SCENE: Beach]\ntext");
    let structure = extract_structure(&parsed);
    assert!(structure.chapters.is_empty());
    assert!(structure.scenes.is_empty());
}
