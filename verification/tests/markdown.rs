//! Markdown with its line breaks kept.

use kid_agentic_coding::markdown::{preserve_line_breaks, render};

#[test]
fn preserves_single_line_breaks() {
    assert_eq!(preserve_line_breaks("first\nsecond"), "first  \nsecond");
}

#[test]
fn preserves_code_block_line_breaks() {
    assert_eq!(
        preserve_line_breaks("```text\nfirst\nsecond\n```"),
        "```text\nfirst\nsecond\n```"
    );
}

#[test]
fn line_ends_are_unified_and_blank_lines_kept() {
    assert_eq!(preserve_line_breaks("a\r\n\r\nb\n"), "a  \n\nb  \n");
    assert_eq!(preserve_line_breaks("a\r\r\nb"), "a  \nb");
    assert_eq!(preserve_line_breaks(""), "");
}

#[test]
fn prose_behind_a_code_block_breaks_again() {
    assert_eq!(
        preserve_line_breaks("~~~\nx\n~~~\ny\nz"),
        "~~~\nx\n~~~\ny  \nz"
    );
}

#[test]
fn rendered_lines_follow_the_breaks() {
    let lines = render("first\nsecond");
    let texts: Vec<String> = lines
        .iter()
        .map(|line| line.iter().map(|span| span.content.as_str()).collect())
        .collect();

    assert_eq!(texts, vec!["first".to_owned(), "second".to_owned()]);
}

#[test]
fn emphasis_is_rendered_as_style() {
    let lines = render("plain **strong**");
    assert_eq!(lines.len(), 1);
    assert!(lines[0].len() >= 2);
    let strong = lines[0].iter().find(|span| span.content == "strong").unwrap();
    assert_ne!(strong.style, lines[0][0].style);
}
