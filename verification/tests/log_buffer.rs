//! The ring of log lines.

use kid_agentic_coding::log_buffer::{LogBuffer, CAPACITY};

#[test]
fn write_appends_a_line() {
    let mut buffer = LogBuffer::default();
    assert_eq!(buffer.write(b"hello\n"), 6);

    assert_eq!(buffer.lines(), vec!["hello".to_owned()]);
}

#[test]
fn write_splits_multiple_lines_in_one_call() {
    let mut buffer = LogBuffer::default();
    buffer.write(b"first\nsecond\n");

    assert_eq!(
        buffer.lines(),
        vec!["first".to_owned(), "second".to_owned()]
    );
}

#[test]
fn oldest_line_is_dropped_once_capacity_is_exceeded() {
    let mut buffer = LogBuffer::default();
    for i in 0..CAPACITY + 1 {
        buffer.write(format!("line {i}\n").as_bytes());
    }

    let lines = buffer.lines();
    assert_eq!(lines.len(), CAPACITY);
    assert_eq!(lines.first(), Some(&"line 1".to_owned()));
    assert_eq!(lines.last(), Some(&format!("line {}", CAPACITY)));
}

#[test]
fn one_write_of_too_many_lines_keeps_the_newest() {
    let text: String = (0..CAPACITY + 3).map(|i| format!("{i}\n")).collect();
    let mut buffer = LogBuffer::default();
    buffer.write(text.as_bytes());

    assert_eq!(buffer.lines().len(), CAPACITY);
    assert_eq!(buffer.lines()[0], "3");
}

#[test]
fn bytes_that_are_no_text_are_replaced() {
    let mut buffer = LogBuffer::default();
    buffer.write(&[b'a', 0xff, b'b']);

    assert_eq!(buffer.lines(), vec!["a\u{fffd}b".to_owned()]);
}

#[test]
fn many_writes_keep_the_last_lines() {
    let mut buffer = LogBuffer::default();
    for i in 0..400 {
        buffer.write(format!("first {i}\nsecond {i}\n").as_bytes());
    }

    let lines = buffer.lines();
    assert_eq!(lines.len(), CAPACITY);
    assert_eq!(lines[0], "first 150");
    assert_eq!(lines[CAPACITY - 1], "second 399");
}
