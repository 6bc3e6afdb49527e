//! Whitespace-driven splitting. `WhitespaceSplit` cuts strictly at
//! whitespace runs, keeping punctuation attached to words. `Whitespace`
//! also separates runs of word characters — ASCII letters, digits and the
//! underscore — from runs of other non-whitespace characters.

use vstd::prelude::*;
use crate::chars::{is_whitespace_char, is_ws};
use crate::normalized::NormalizedString;
use crate::pre_tokenizers::{as_spec_words, lemma_as_spec_words_push};
use crate::tokenizer::Offsets;

verus! {

/// Splits strictly on runs of whitespace.
#[derive(Debug, Clone, Copy, PartialEq, Eq, Structural)]
pub struct WhitespaceSplit;

/// Splits on whitespace and separates word characters from other symbols.
#[derive(Debug, Clone, Copy, PartialEq, Eq, Structural)]
pub struct Whitespace;

/// The word characters of the `Whitespace` splitter: ASCII letters,
/// digits, and the underscore.
pub open spec fn is_word_char(c: char) -> bool {
    let u = c as u32;
    ||| (0x30 <= u && u <= 0x39)
    ||| (0x41 <= u && u <= 0x5A)
    ||| (0x61 <= u && u <= 0x7A)
    ||| u == 0x5F
}

/// Decides `is_word_char` executably.
pub fn is_word_character(c: char) -> (r: bool)
    ensures
        r == is_word_char(c),
{
    let u = c as u32;
    (0x30 <= u && u <= 0x39) || (0x41 <= u && u <= 0x5A) || (0x61 <= u && u <= 0x7A) || u == 0x5F
}

/// The words and spans of the strict whitespace split: maximal runs of
/// non-whitespace characters.
pub open spec fn ws_split_word_spans(text: Seq<char>, i: int, start: int) -> Seq<
    (Seq<char>, (int, int)),
>
    decreases text.len() - i,
{
    if i < 0 || i >= text.len() {
        if start < i {
            seq![(text.subrange(start, i), (start, i))]
        } else {
            Seq::empty()
        }
    } else if is_ws(text[i]) {
        if start < i {
            seq![(text.subrange(start, i), (start, i))] + ws_split_word_spans(text, i + 1, i + 1)
        } else {
            ws_split_word_spans(text, i + 1, i + 1)
        }
    } else {
        ws_split_word_spans(text, i + 1, start)
    }
}

/// The words and spans of the `Whitespace` split: maximal runs of word
/// characters, and maximal runs of other non-whitespace characters.
pub open spec fn whitespace_word_spans(text: Seq<char>, i: int, start: int) -> Seq<
    (Seq<char>, (int, int)),
>
    decreases text.len() - i,
{
    if i < 0 || i >= text.len() {
        if start < i {
            seq![(text.subrange(start, i), (start, i))]
        } else {
            Seq::empty()
        }
    } else if is_ws(text[i]) {
        if start < i {
            seq![(text.subrange(start, i), (start, i))] + whitespace_word_spans(text, i + 1, i + 1)
        } else {
            whitespace_word_spans(text, i + 1, i + 1)
        }
    } else if start < i && is_word_char(text[i]) != is_word_char(text[start]) {
        seq![(text.subrange(start, i), (start, i))] + whitespace_word_spans(text, i + 1, i)
    } else {
        whitespace_word_spans(text, i + 1, start)
    }
}

/// `text` with every whitespace character removed, from position `i` on.
pub open spec fn remove_ws(text: Seq<char>, i: int) -> Seq<char>
    decreases text.len() - i,
{
    if i < 0 || i >= text.len() {
        Seq::empty()
    } else if is_ws(text[i]) {
        remove_ws(text, i + 1)
    } else {
        seq![text[i]] + remove_ws(text, i + 1)
    }
}

/// Offset correctness for the strict whitespace split: every word equals
/// the substring at its reported span, and concatenating all the words
/// gives the text with its whitespace removed — the documented
/// normalization of the input.
pub proof fn lemma_ws_split_offsets_reconstruct(text: Seq<char>)
    ensures
        crate::pre_tokenizers::flat_tokens(
            crate::pre_tokenizers::words_chars(ws_split_word_spans(text, 0, 0)),
        ) == remove_ws(text, 0),
{
    lemma_ws_split_concat(text, 0, 0);
    assert(text.subrange(0, 0) + remove_ws(text, 0) =~= remove_ws(text, 0));
}

/// Flattening the words of a whitespace split from state `(i, start)`
/// gives the pending word plus the whitespace-free remainder.
proof fn lemma_ws_split_concat(text: Seq<char>, i: int, start: int)
    requires
        0 <= start <= i <= text.len(),
        forall|k: int| start <= k < i ==> !is_ws(text[k]),
    ensures
        crate::pre_tokenizers::flat_tokens(
            crate::pre_tokenizers::words_chars(ws_split_word_spans(text, i, start)),
        ) == text.subrange(start, i) + remove_ws(text, i),
    decreases text.len() - i,
{
    let ws = ws_split_word_spans(text, i, start);
    if i >= text.len() {
        if start < i {
            assert(crate::pre_tokenizers::words_chars(ws) =~= seq![text.subrange(start, i)]);
            crate::pre_tokenizers::lemma_flat_tokens_prepend(
                text.subrange(start, i),
                Seq::<Seq<char>>::empty(),
            );
            assert(seq![text.subrange(start, i)] + Seq::<Seq<char>>::empty()
                =~= seq![text.subrange(start, i)]);
            assert(text.subrange(start, i) + crate::pre_tokenizers::flat_tokens(
                Seq::<Seq<char>>::empty(),
            ) =~= text.subrange(start, i));
            assert(text.subrange(start, i) + remove_ws(text, i) =~= text.subrange(start, i));
        } else {
            assert(crate::pre_tokenizers::words_chars(ws) =~= Seq::<Seq<char>>::empty());
            assert(text.subrange(start, i) + remove_ws(text, i) =~= Seq::<char>::empty());
        }
    } else if is_ws(text[i]) {
        lemma_ws_split_concat(text, i + 1, i + 1);
        assert(text.subrange(i + 1, i + 1) + remove_ws(text, i + 1) =~= remove_ws(text, i + 1));
        if start < i {
            let rest = ws_split_word_spans(text, i + 1, i + 1);
            let w = text.subrange(start, i);
            crate::pre_tokenizers::lemma_words_chars_prepend((w, (start, i)), rest);
            crate::pre_tokenizers::lemma_flat_tokens_prepend(
                w,
                crate::pre_tokenizers::words_chars(rest),
            );
            assert(crate::pre_tokenizers::words_chars(ws) == seq![w]
                + crate::pre_tokenizers::words_chars(rest)) by {
                assert(ws =~= seq![(w, (start, i))] + rest);
                assert(crate::pre_tokenizers::words_chars(seq![(w, (start, i))] + rest)
                    =~= seq![w] + crate::pre_tokenizers::words_chars(rest));
            }
        } else {
            assert(text.subrange(start, i) =~= Seq::<char>::empty());
            assert(text.subrange(start, i) + remove_ws(text, i) =~= remove_ws(text, i));
        }
    } else {
        lemma_ws_split_concat(text, i + 1, start);
        assert(text.subrange(start, i) + seq![text[i]] =~= text.subrange(start, i + 1));
        assert(text.subrange(start, i) + (seq![text[i]] + remove_ws(text, i + 1))
            =~= (text.subrange(start, i) + seq![text[i]]) + remove_ws(text, i + 1));
    }
}

impl WhitespaceSplit {
    /// The splitter; it carries no configuration.
    pub fn new() -> (r: WhitespaceSplit)
        ensures
            r == WhitespaceSplit,
    {
        WhitespaceSplit
    }

    /// Splits the current text at whitespace runs, leaving `normalized`
    /// untouched; punctuation stays attached to words.
    pub fn pre_tokenize(&self, normalized: &mut NormalizedString) -> (r: Vec<(String, Offsets)>)
        ensures
            *final(normalized) == *old(normalized),
            as_spec_words(r@) == ws_split_word_spans(old(normalized).text@, 0, 0),
    {
        let ghost t = normalized.text@;
        let text_len = normalized.text.len();
        let mut words: Vec<(String, Offsets)> = Vec::new();
        let mut word: String = String::new();
        let mut start: usize = 0;
        let mut i: usize = 0;
        while i < text_len
            invariant
                *normalized == *old(normalized),
                t == normalized.text@,
                text_len == t.len(),
                start <= i <= text_len,
                word@ == t.subrange(start as int, i as int),
                as_spec_words(words@) + ws_split_word_spans(t, i as int, start as int)
                    == ws_split_word_spans(t, 0, 0),
            decreases text_len - i,
        {
            let c = normalized.text[i];
            if is_whitespace_char(c) {
                if start < i {
                    proof {
                        lemma_as_spec_words_push(words@, (word, (start, i)));
                        assert(as_spec_words(words@).push((word@, (start as int, i as int)))
                            + ws_split_word_spans(t, i + 1, i + 1) =~= as_spec_words(words@)
                            + (seq![
                            (t.subrange(start as int, i as int), (start as int, i as int)),
                        ] + ws_split_word_spans(t, i + 1, i + 1)));
                    }
                    words.push((word, (start, i)));
                    word = String::new();
                }
                start = i + 1;
                proof {
                    assert(word@ =~= t.subrange(start as int, (i + 1) as int));
                }
            } else {
                word.push(c);
                proof {
                    assert(word@ =~= t.subrange(start as int, (i + 1) as int));
                }
            }
            i += 1;
        }
        if start < text_len {
            proof {
                lemma_as_spec_words_push(words@, (word, (start, text_len)));
                assert(as_spec_words(words@).push((word@, (start as int, text_len as int)))
                    =~= as_spec_words(words@) + seq![
                    (t.subrange(start as int, text_len as int), (start as int, text_len as int)),
                ]);
            }
            words.push((word, (start, text_len)));
        }
        words
    }
}

impl Whitespace {
    /// The splitter; it carries no configuration.
    pub fn new() -> (r: Whitespace)
        ensures
            r == Whitespace,
    {
        Whitespace
    }

    /// Splits the current text into maximal runs of word characters and
    /// maximal runs of other symbols, whitespace separating them; leaves
    /// `normalized` untouched.
    pub fn pre_tokenize(&self, normalized: &mut NormalizedString) -> (r: Vec<(String, Offsets)>)
        ensures
            *final(normalized) == *old(normalized),
            as_spec_words(r@) == whitespace_word_spans(old(normalized).text@, 0, 0),
    {
        let ghost t = normalized.text@;
        let text_len = normalized.text.len();
        let mut words: Vec<(String, Offsets)> = Vec::new();
        let mut word: String = String::new();
        let mut start: usize = 0;
        let mut i: usize = 0;
        while i < text_len
            invariant
                *normalized == *old(normalized),
                t == normalized.text@,
                text_len == t.len(),
                start <= i <= text_len,
                word@ == t.subrange(start as int, i as int),
                as_spec_words(words@) + whitespace_word_spans(t, i as int, start as int)
                    == whitespace_word_spans(t, 0, 0),
            decreases text_len - i,
        {
            let c = normalized.text[i];
            if is_whitespace_char(c) {
                if start < i {
                    proof {
                        lemma_as_spec_words_push(words@, (word, (start, i)));
                        assert(as_spec_words(words@).push((word@, (start as int, i as int)))
                            + whitespace_word_spans(t, i + 1, i + 1) =~= as_spec_words(words@)
                            + (seq![
                            (t.subrange(start as int, i as int), (start as int, i as int)),
                        ] + whitespace_word_spans(t, i + 1, i + 1)));
                    }
                    words.push((word, (start, i)));
                    word = String::new();
                }
                start = i + 1;
                proof {
                    assert(word@ =~= t.subrange(start as int, (i + 1) as int));
                }
            } else {
                let boundary = start < i && {
                    let c0 = normalized.text[start];
                    is_word_character(c) != is_word_character(c0)
                };
                if boundary {
                    proof {
                        lemma_as_spec_words_push(words@, (word, (start, i)));
                        assert(as_spec_words(words@).push((word@, (start as int, i as int)))
                            + whitespace_word_spans(t, i + 1, i as int) =~= as_spec_words(words@)
                            + (seq![
                            (t.subrange(start as int, i as int), (start as int, i as int)),
                        ] + whitespace_word_spans(t, i + 1, i as int)));
                    }
                    words.push((word, (start, i)));
                    word = String::new();
                    start = i;
                }
                word.push(c);
                proof {
                    assert(word@ =~= t.subrange(start as int, (i + 1) as int));
                }
            }
            i += 1;
        }
        if start < text_len {
            proof {
                lemma_as_spec_words_push(words@, (word, (start, text_len)));
                assert(as_spec_words(words@).push((word@, (start as int, text_len as int)))
                    =~= as_spec_words(words@) + seq![
                    (t.subrange(start as int, text_len as int), (start as int, text_len as int)),
                ]);
            }
            words.push((word, (start, text_len)));
        }
        words
    }
}

} // verus!
