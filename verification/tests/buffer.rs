use bookscript::TextBuffer;

#[test]
fn new_buffer_is_empty() {
    let buffer = TextBuffer::new();
    assert_eq!(buffer.read_snapshot(), "");
}

#[test]
fn snapshot_is_an_independent_copy() {
    let mut buffer = TextBuffer::new();
    buffer.replace("before".to_string());
    let snapshot = buffer.read_snapshot();
    buffer.replace("after".to_string());
    // The copy taken earlier is unaffected by the later write.
    assert_eq!(snapshot, "before");
    assert_eq!(buffer.read_snapshot(), "after");
}

#[test]
fn replace_swaps_the_whole_value() {
    let mut buffer = TextBuffer::new();
    buffer.replace("first draft".to_string());
    buffer.replace("second draft".to_string());
    assert_eq!(buffer.read_snapshot(), "second draft");
}
