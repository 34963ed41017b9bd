//! Word, character, sentence and paragraph counts of a text.
use vstd::prelude::*;
use crate::text::{chars_of, is_white_space, white_space};

verus! {

/// Reading speed, in words per minute.
pub const WORDS_PER_MINUTE: usize = 200;

pub struct LanguageStats {
    pub words: usize,
    pub characters: usize,
    pub characters_no_spaces: usize,
    pub sentences: usize,
    pub paragraphs: usize,
    pub reading_time_minutes: usize,
}

/// Maximal runs of non-whitespace characters from `i`; `in_word` holds when
/// the character before `i` belongs to a run.
pub open spec fn words_from(c: Seq<char>, i: int, in_word: bool) -> int
    decreases c.len() - i,
{
    if i < 0 || i >= c.len() {
        0
    } else if is_white_space(c[i]) {
        words_from(c, i + 1, false)
    } else {
        (if in_word { 0int } else { 1int }) + words_from(c, i + 1, true)
    }
}

pub open spec fn non_space_from(c: Seq<char>, i: int) -> int
    decreases c.len() - i,
{
    if i < 0 || i >= c.len() {
        0
    } else {
        (if is_white_space(c[i]) { 0int } else { 1int }) + non_space_from(c, i + 1)
    }
}

pub open spec fn is_sentence_end(ch: char) -> bool {
    ch == '.' || ch == '!' || ch == '?'
}

/// Segments between sentence terminators that hold a non-whitespace
/// character, from `i`; `has` holds when the current segment already does.
pub open spec fn sentences_from(c: Seq<char>, i: int, has: bool) -> int
    decreases c.len() - i,
{
    if i < 0 || i >= c.len() {
        if has { 1 } else { 0 }
    } else if is_sentence_end(c[i]) {
        (if has { 1int } else { 0int }) + sentences_from(c, i + 1, false)
    } else {
        sentences_from(c, i + 1, has || !is_white_space(c[i]))
    }
}

/// Segments between blank-line separators (two line feeds, matched from the
/// left) that hold a non-whitespace character.
pub open spec fn paragraphs_from(c: Seq<char>, i: int, has: bool) -> int
    decreases c.len() - i,
{
    if i < 0 || i >= c.len() {
        if has { 1 } else { 0 }
    } else if c[i] == '\n' && i + 1 < c.len() && c[i + 1] == '\n' {
        (if has { 1int } else { 0int }) + paragraphs_from(c, i + 2, false)
    } else {
        paragraphs_from(c, i + 1, has || !is_white_space(c[i]))
    }
}

pub open spec fn word_count(c: Seq<char>) -> int {
    words_from(c, 0, false)
}

/// Whole minutes of reading, rounded up.
pub open spec fn reading_minutes(words: int) -> int {
    (words + WORDS_PER_MINUTE - 1) / (WORDS_PER_MINUTE as int)
}

fn count_words(c: &Vec<char>) -> (r: usize)
    ensures
        r == word_count(c@),
{
    let mut acc: usize = 0;
    let mut in_word = false;
    let mut i: usize = 0;
    while i < c.len()
        invariant
            i <= c@.len(),
            acc <= i,
            acc + words_from(c@, i as int, in_word) == word_count(c@),
        decreases c@.len() - i,
    {
        if white_space(c[i]) {
            in_word = false;
        } else {
            if !in_word {
                acc = acc + 1;
            }
            in_word = true;
        }
        i = i + 1;
    }
    acc
}

fn count_non_space(c: &Vec<char>) -> (r: usize)
    ensures
        r == non_space_from(c@, 0),
{
    let mut acc: usize = 0;
    let mut i: usize = 0;
    while i < c.len()
        invariant
            i <= c@.len(),
            acc <= i,
            acc + non_space_from(c@, i as int) == non_space_from(c@, 0),
        decreases c@.len() - i,
    {
        if !white_space(c[i]) {
            acc = acc + 1;
        }
        i = i + 1;
    }
    acc
}

fn count_sentences(c: &Vec<char>) -> (r: usize)
    ensures
        r == sentences_from(c@, 0, false),
{
    let mut acc: usize = 0;
    let mut has = false;
    let mut i: usize = 0;
    while i < c.len()
        invariant
            i <= c@.len(),
            acc <= i,
            has ==> acc < i,
            acc + sentences_from(c@, i as int, has) == sentences_from(c@, 0, false),
        decreases c@.len() - i,
    {
        let ch = c[i];
        if ch == '.' || ch == '!' || ch == '?' {
            if has {
                acc = acc + 1;
            }
            has = false;
        } else if !white_space(ch) {
            has = true;
        }
        i = i + 1;
    }
    if has {
        acc = acc + 1;
    }
    acc
}

fn count_paragraphs(c: &Vec<char>) -> (r: usize)
    ensures
        r == paragraphs_from(c@, 0, false),
{
    let mut acc: usize = 0;
    let mut has = false;
    let mut i: usize = 0;
    while i < c.len()
        invariant
            i <= c@.len(),
            acc <= i,
            has ==> acc < i,
            acc + paragraphs_from(c@, i as int, has) == paragraphs_from(c@, 0, false),
        decreases c@.len() - i,
    {
        if c[i] == '\n' && i + 1 < c.len() && c[i + 1] == '\n' {
            if has {
                acc = acc + 1;
            }
            has = false;
            i = i + 2;
        } else {
            if !white_space(c[i]) {
                has = true;
            }
            i = i + 1;
        }
    }
    if has {
        acc = acc + 1;
    }
    acc
}

/// Counts of `text`: whitespace-separated words, characters (code points),
/// characters other than whitespace, non-blank sentences (split on `.`, `!`
/// and `?`), non-blank paragraphs (split on a blank line), and reading time in
/// whole minutes at a fixed pace, rounded up.
pub fn language_stats(text: &str) -> (r: LanguageStats)
    ensures
        r.words == word_count(text@),
        r.characters == text@.len(),
        r.characters_no_spaces == non_space_from(text@, 0),
        r.sentences == sentences_from(text@, 0, false),
        r.paragraphs == paragraphs_from(text@, 0, false),
        r.reading_time_minutes == reading_minutes(r.words as int),
{
    let c = chars_of(text);
    let words = count_words(&c);
    let minutes = words / WORDS_PER_MINUTE + if words % WORDS_PER_MINUTE > 0 {
        1
    } else {
        0
    };
    LanguageStats {
        words,
        characters: c.len(),
        characters_no_spaces: count_non_space(&c),
        sentences: count_sentences(&c),
        paragraphs: count_paragraphs(&c),
        reading_time_minutes: minutes,
    }
}

} // verus!
