//! Counts of lines, words and characters for a status readout.

use crate::text::lemma_chars_within_bytes;
use vstd::prelude::*;
use vstd::string::StrSliceExecFns;

verus! {

/// Whether `c` is white space, as the standard library's
/// `char::is_whitespace` tells it (the Unicode property `White_Space`).
pub uninterp spec fn is_white_space(c: char) -> bool;

/// Gives `char::is_whitespace` its name in contracts, `is_white_space`.
/// Nothing is claimed of which characters are white space.
pub assume_specification[ char::is_whitespace ](c: char) -> (white: bool)
    ensures
        white == is_white_space(c),
;

/// The number of line feeds in `text`.
pub open spec fn newline_count(text: Seq<char>) -> nat
    decreases text.len(),
{
    if text.len() == 0 {
        0
    } else {
        newline_count(text.drop_last()) + if text.last() == '\n' {
            1nat
        } else {
            0nat
        }
    }
}

/// The number of lines of `text` as a status line shows it: each line feed
/// ends a line, text behind the last line feed is a line too, and the empty
/// text counts as one line.
pub open spec fn line_count_of(text: Seq<char>) -> nat {
    if text.len() == 0 {
        1
    } else if text.last() == '\n' {
        newline_count(text)
    } else {
        newline_count(text) + 1
    }
}

/// A word starts at index `at`: a character that is not white space, at the
/// start of the text or behind white space.
pub open spec fn starts_word(text: Seq<char>, at: int) -> bool {
    &&& 0 <= at < text.len()
    &&& !is_white_space(text[at])
    &&& at == 0 || is_white_space(text[at - 1])
}

/// The number of words in `text`: the maximal runs of characters that are
/// not white space, counted by where they start.
pub open spec fn word_count_of(text: Seq<char>) -> nat
    decreases text.len(),
{
    if text.len() == 0 {
        0
    } else {
        word_count_of(text.drop_last()) + if starts_word(text, text.len() - 1) {
            1nat
        } else {
            0nat
        }
    }
}

/// The number of characters in `text`.
pub fn char_count(text: &str) -> (count: usize)
    ensures
        count == text@.len(),
{
    text.unicode_len()
}

/// The number of lines in `text`, 1 for the empty text.
pub fn line_count(text: &str) -> (count: usize)
    ensures
        count == line_count_of(text@),
{
    let byte_len: usize = text.as_bytes().len();
    proof {
        lemma_chars_within_bytes(text@);
    }
    let mut newlines: usize = 0;
    let mut ends_open: bool = false;
    for c in it: text.chars()
        invariant
            it.seq() == text@,
            text@.len() <= byte_len,
            newlines == newline_count(text@.take(it.index() as int)),
            newlines + if ends_open { 1int } else { 0int } <= it.index(),
            ends_open == (it.index() > 0 && text@[it.index() - 1] != '\n'),
    {
        let ghost seen = it.index() as int;
        assert(text@.take(seen + 1).drop_last() =~= text@.take(seen));
        if c == '\n' {
            newlines += 1;
            ends_open = false;
        } else {
            ends_open = true;
        }
    }
    assert(text@.take(text@.len() as int) =~= text@);
    if ends_open {
        newlines + 1
    } else if newlines == 0 {
        1
    } else {
        newlines
    }
}

/// The number of words in `text`, where white space separates words.
pub fn word_count(text: &str) -> (count: usize)
    ensures
        count == word_count_of(text@),
{
    let byte_len: usize = text.as_bytes().len();
    proof {
        lemma_chars_within_bytes(text@);
    }
    let mut words: usize = 0;
    let mut in_word: bool = false;
    for c in it: text.chars()
        invariant
            it.seq() == text@,
            text@.len() <= byte_len,
            words == word_count_of(text@.take(it.index() as int)),
            words <= it.index(),
            in_word == (it.index() > 0 && !is_white_space(text@[it.index() - 1])),
    {
        let ghost seen = it.index() as int;
        assert(text@.take(seen + 1).drop_last() =~= text@.take(seen));
        let white = c.is_whitespace();
        if !white && !in_word {
            words += 1;
        }
        in_word = !white;
    }
    assert(text@.take(text@.len() as int) =~= text@);
    words
}

/// Every text has at least one line and no more lines than it has
/// characters, unless it is empty; and no more words than characters.
pub proof fn lemma_count_bounds(text: Seq<char>)
    ensures
        1 <= line_count_of(text),
        text.len() > 0 ==> line_count_of(text) <= text.len(),
        newline_count(text) <= text.len(),
        word_count_of(text) <= text.len(),
    decreases text.len(),
{
    if text.len() > 0 {
        lemma_count_bounds(text.drop_last());
    }
}

} // verus!
