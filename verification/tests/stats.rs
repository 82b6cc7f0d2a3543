use wrotepad::document::Document;
use wrotepad::stats::{char_count, line_count, word_count};

#[test]
fn empty_buffer_counts() {
    let doc = Document::new();
    assert_eq!(line_count(doc.content()), 1);
    assert_eq!(word_count(doc.content()), 0);
    assert_eq!(char_count(doc.content()), 0);
}

#[test]
fn line_count_follows_line_feeds() {
    assert_eq!(line_count("a"), 1);
    assert_eq!(line_count("a\n"), 1);
    assert_eq!(line_count("a\nb"), 2);
    assert_eq!(line_count("a\nb\n"), 2);
    assert_eq!(line_count("\n"), 1);
    assert_eq!(line_count("\n\n"), 2);
    assert_eq!(line_count("a\n\nb"), 3);
    assert_eq!(line_count("a\r\nb\r\n"), 2);
    assert_eq!(line_count("a\rb"), 1);
}

#[test]
fn line_count_agrees_with_std_lines() {
    for text in ["", "x", "x\n", "\n", "\n\nx", "a\r\nb", "one\ntwo\nthree\n", "\r", "\u{2028}"] {
        assert_eq!(line_count(text), text.lines().count().max(1));
    }
}

#[test]
fn word_count_counts_runs_between_white_space() {
    assert_eq!(word_count(""), 0);
    assert_eq!(word_count("   \n\t "), 0);
    assert_eq!(word_count("hello"), 1);
    assert_eq!(word_count("hello world"), 2);
    assert_eq!(word_count("  hello   world  "), 2);
    assert_eq!(word_count("one\ntwo\tthree four"), 4);
    assert_eq!(word_count("a-b,c"), 1);
}

#[test]
fn word_count_knows_unicode_white_space() {
    assert_eq!(word_count("a\u{a0}b"), 2);
    assert_eq!(word_count("a\u{3000}b\u{2003}c"), 3);
    assert_eq!(word_count("a\u{200b}b"), 1);
}

#[test]
fn word_count_agrees_with_std_split() {
    for text in ["", " ", "x", " x", "x ", "a b  c\n\nd", "\u{e9}t\u{e9} \u{65e5}\u{672c}"] {
        assert_eq!(word_count(text), text.split_whitespace().count());
    }
}

#[test]
fn char_count_counts_characters_not_bytes() {
    assert_eq!(char_count("hello"), 5);
    assert_eq!(char_count("h\u{e9}llo"), 5);
    assert_eq!(char_count("\u{1f600}"), 1);
    assert_eq!(char_count("a\nb"), 3);
}
