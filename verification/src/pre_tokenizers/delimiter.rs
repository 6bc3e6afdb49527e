//! Splitting on a single configured delimiter character: maximal runs of
//! non-delimiter characters become words, so runs of the delimiter produce
//! no empty words.

use vstd::prelude::*;
use vstd::string::StrSliceExecFns;
use crate::normalized::NormalizedString;
use crate::pre_tokenizers::{
    as_spec_words, flat_tokens, lemma_as_spec_words_push, lemma_flat_tokens_prepend,
    lemma_words_chars_prepend, words_chars,
};
use crate::tokenizer::{BuildError, Offsets};

verus! {

/// Splits on one delimiter character.
#[derive(Debug, Clone, Copy, PartialEq, Eq, Structural)]
pub struct CharDelimiterSplit {
    pub delimiter: char,
}

/// The words and spans that splitting `text` on `d` yields, reading from
/// position `i` with the current word having started at `start`: maximal
/// non-`d` runs, each with its `(start, end)` character span.
pub open spec fn delim_word_spans(text: Seq<char>, d: char, i: int, start: int) -> Seq<
    (Seq<char>, (int, int)),
>
    decreases text.len() - i,
{
    if i < 0 || i >= text.len() {
        if start < i {
            seq![(text.subrange(start, i), (start, i))]
        } else {
            Seq::empty()
        }
    } else if text[i] == d {
        if start < i {
            seq![(text.subrange(start, i), (start, i))] + delim_word_spans(text, d, i + 1, i + 1)
        } else {
            delim_word_spans(text, d, i + 1, i + 1)
        }
    } else {
        delim_word_spans(text, d, i + 1, start)
    }
}

/// `text` with every occurrence of `d` removed, from position `i` on.
pub open spec fn remove_char(text: Seq<char>, d: char, i: int) -> Seq<char>
    decreases text.len() - i,
{
    if i < 0 || i >= text.len() {
        Seq::empty()
    } else if text[i] == d {
        remove_char(text, d, i + 1)
    } else {
        seq![text[i]] + remove_char(text, d, i + 1)
    }
}

/// Offset correctness for the delimiter split: every word equals the
/// substring at its reported span, and concatenating all the words gives
/// the text with the delimiter characters removed — the documented
/// normalization of the input.
pub proof fn lemma_delimiter_offsets_reconstruct(text: Seq<char>, d: char)
    ensures
        flat_tokens(words_chars(delim_word_spans(text, d, 0, 0))) == remove_char(text, d, 0),
{
    lemma_delim_words_concat(text, d, 0, 0);
    assert(text.subrange(0, 0) + remove_char(text, d, 0) =~= remove_char(text, d, 0));
}

/// Flattening the words of a delimiter split from state `(i, start)` gives
/// the pending word plus the delimiter-free remainder of the text.
proof fn lemma_delim_words_concat(text: Seq<char>, d: char, i: int, start: int)
    requires
        0 <= start <= i <= text.len(),
        forall|k: int| start <= k < i ==> text[k] != d,
    ensures
        flat_tokens(words_chars(delim_word_spans(text, d, i, start))) == text.subrange(start, i)
            + remove_char(text, d, i),
    decreases text.len() - i,
{
    let ws = delim_word_spans(text, d, i, start);
    let n = text.len() as int;
    if i >= text.len() {
        if start < i {
            assert(words_chars(ws) =~= seq![text.subrange(start, i)]);
            lemma_flat_tokens_prepend(text.subrange(start, i), Seq::<Seq<char>>::empty());
            assert(seq![text.subrange(start, i)] + Seq::<Seq<char>>::empty()
                =~= seq![text.subrange(start, i)]);
            assert(text.subrange(start, i) + flat_tokens(Seq::<Seq<char>>::empty())
                =~= text.subrange(start, i));
            assert(text.subrange(start, i) + remove_char(text, d, i) =~= text.subrange(start, i));
        } else {
            assert(words_chars(ws) =~= Seq::<Seq<char>>::empty());
            assert(text.subrange(start, i) + remove_char(text, d, i) =~= Seq::<char>::empty());
        }
    } else if text[i] == d {
        lemma_delim_words_concat(text, d, i + 1, i + 1);
        assert(text.subrange(i + 1, i + 1) + remove_char(text, d, i + 1) =~= remove_char(
            text,
            d,
            i + 1,
        ));
        if start < i {
            let rest = delim_word_spans(text, d, i + 1, i + 1);
            let w = text.subrange(start, i);
            lemma_words_chars_prepend((w, (start, i)), rest);
            lemma_flat_tokens_prepend(w, words_chars(rest));
            assert(words_chars(ws) == seq![w] + words_chars(rest)) by {
                assert(ws =~= seq![(w, (start, i))] + rest);
                assert(words_chars(seq![(w, (start, i))] + rest) =~= seq![w] + words_chars(rest));
            }
        } else {
            assert(text.subrange(start, i) =~= Seq::<char>::empty());
            assert(text.subrange(start, i) + remove_char(text, d, i) =~= remove_char(text, d, i));
        }
    } else {
        lemma_delim_words_concat(text, d, i + 1, start);
        assert(text.subrange(start, i) + seq![text[i]] =~= text.subrange(start, i + 1));
        assert(text.subrange(start, i) + (seq![text[i]] + remove_char(text, d, i + 1))
            =~= (text.subrange(start, i) + seq![text[i]]) + remove_char(text, d, i + 1));
    }
}

impl CharDelimiterSplit {
    /// A splitter on the given character.
    pub fn new(delimiter: char) -> (r: CharDelimiterSplit)
        ensures
            r.delimiter == delimiter,
    {
        CharDelimiterSplit { delimiter }
    }

    /// A splitter on the single character of `s`; fails unless `s` is
    /// exactly one character long.
    pub fn new_from_str(s: &str) -> (r: Result<CharDelimiterSplit, BuildError>)
        ensures
            s@.len() == 1 ==> (r matches Ok(c) && c.delimiter == s@[0]),
            s@.len() != 1 ==> r == Err::<CharDelimiterSplit, BuildError>(BuildError::NotSingleChar),
    {
        let n = s.unicode_len();
        if n == 1 {
            Ok(CharDelimiterSplit { delimiter: s.get_char(0) })
        } else {
            Err(BuildError::NotSingleChar)
        }
    }

    /// Splits the current text of `normalized` on the delimiter, leaving
    /// `normalized` untouched. Words are the maximal delimiter-free runs,
    /// each with its character span.
    pub fn pre_tokenize(&self, normalized: &mut NormalizedString) -> (r: Vec<(String, Offsets)>)
        ensures
            *final(normalized) == *old(normalized),
            as_spec_words(r@) == delim_word_spans(
                old(normalized).text@,
                self.delimiter,
                0,
                0,
            ),
    {
        let ghost t = normalized.text@;
        let ghost d = self.delimiter;
        let text_len = normalized.text.len();
        let mut words: Vec<(String, Offsets)> = Vec::new();
        let mut word: String = String::new();
        let mut start: usize = 0;
        let mut i: usize = 0;
        while i < text_len
            invariant
                *normalized == *old(normalized),
                t == normalized.text@,
                d == self.delimiter,
                text_len == t.len(),
                start <= i <= text_len,
                word@ == t.subrange(start as int, i as int),
                as_spec_words(words@) + delim_word_spans(t, d, i as int, start as int)
                    == delim_word_spans(t, d, 0, 0),
            decreases text_len - i,
        {
            let c = normalized.text[i];
            if c == self.delimiter {
                if start < i {
                    proof {
                        lemma_as_spec_words_push(words@, (word, (start, i)));
                        assert(as_spec_words(words@).push((word@, (start as int, i as int)))
                            + delim_word_spans(t, d, i + 1, i + 1) =~= as_spec_words(words@) + (seq![
                            (t.subrange(start as int, i as int), (start as int, i as int)),
                        ] + delim_word_spans(t, d, i + 1, i + 1)));
                    }
                    words.push((word, (start, i)));
                    word = String::new();
                }
                start = i + 1;
                proof {
                    assert(word@ =~= t.subrange(start as int, (i + 1) as int));
                }
            } else {
                word.push(c);
                proof {
                    assert(word@ =~= t.subrange(start as int, (i + 1) as int));
                }
            }
            i += 1;
        }
        if start < text_len {
            proof {
                lemma_as_spec_words_push(words@, (word, (start, text_len)));
                assert(as_spec_words(words@).push((word@, (start as int, text_len as int)))
                    =~= as_spec_words(words@) + seq![
                    (t.subrange(start as int, text_len as int), (start as int, text_len as int)),
                ]);
            }
            words.push((word, (start, text_len)));
        }
        words
    }
}

} // verus!
