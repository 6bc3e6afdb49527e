//! The BERT pre-tokenizer: splits at whitespace and makes every ASCII
//! punctuation character a word of its own, so words carry no leading or
//! trailing punctuation.

use vstd::prelude::*;
use crate::chars::{is_whitespace_char, is_ws};
use crate::normalized::NormalizedString;
use crate::pre_tokenizers::{as_spec_words, lemma_as_spec_words_push};
use crate::tokenizer::Offsets;

verus! {

/// Splits at whitespace and at every punctuation character.
#[derive(Debug, Clone, Copy, PartialEq, Eq, Structural)]
pub struct BertPreTokenizer;

/// The punctuation the splitter separates: the ASCII punctuation set.
pub open spec fn is_punct(c: char) -> bool {
    let u = c as u32;
    ||| (0x21 <= u && u <= 0x2F)
    ||| (0x3A <= u && u <= 0x40)
    ||| (0x5B <= u && u <= 0x60)
    ||| (0x7B <= u && u <= 0x7E)
}

/// Decides `is_punct` executably.
pub fn is_punct_char(c: char) -> (r: bool)
    ensures
        r == is_punct(c),
{
    let u = c as u32;
    (0x21 <= u && u <= 0x2F) || (0x3A <= u && u <= 0x40) || (0x5B <= u && u <= 0x60) || (0x7B <= u
        && u <= 0x7E)
}

/// The words and spans of the BERT split: maximal runs free of whitespace
/// and punctuation, and every punctuation character on its own.
pub open spec fn bert_word_spans(text: Seq<char>, i: int, start: int) -> Seq<
    (Seq<char>, (int, int)),
>
    decreases text.len() - i,
{
    if i < 0 || i >= text.len() {
        if start < i {
            seq![(text.subrange(start, i), (start, i))]
        } else {
            Seq::empty()
        }
    } else if is_ws(text[i]) {
        if start < i {
            seq![(text.subrange(start, i), (start, i))] + bert_word_spans(text, i + 1, i + 1)
        } else {
            bert_word_spans(text, i + 1, i + 1)
        }
    } else if is_punct(text[i]) {
        if start < i {
            seq![(text.subrange(start, i), (start, i))] + (seq![
                (text.subrange(i, i + 1), (i, i + 1)),
            ] + bert_word_spans(text, i + 1, i + 1))
        } else {
            seq![(text.subrange(i, i + 1), (i, i + 1))] + bert_word_spans(text, i + 1, i + 1)
        }
    } else {
        bert_word_spans(text, i + 1, start)
    }
}

impl BertPreTokenizer {
    /// The splitter; it carries no configuration.
    pub fn new() -> (r: BertPreTokenizer)
        ensures
            r == BertPreTokenizer,
    {
        BertPreTokenizer
    }

    /// Splits the current text at whitespace, every punctuation character
    /// becoming a word of its own; leaves `normalized` untouched.
    pub fn pre_tokenize(&self, normalized: &mut NormalizedString) -> (r: Vec<(String, Offsets)>)
        ensures
            *final(normalized) == *old(normalized),
            as_spec_words(r@) == bert_word_spans(old(normalized).text@, 0, 0),
    {
        let ghost t = normalized.text@;
        let text_len = normalized.text.len();
        let mut words: Vec<(String, Offsets)> = Vec::new();
        let mut word: String = String::new();
        let mut start: usize = 0;
        let mut i: usize = 0;
        while i < text_len
            invariant
                *normalized == *old(normalized),
                t == normalized.text@,
                text_len == t.len(),
                start <= i <= text_len,
                word@ == t.subrange(start as int, i as int),
                as_spec_words(words@) + bert_word_spans(t, i as int, start as int)
                    == bert_word_spans(t, 0, 0),
            decreases text_len - i,
        {
            let c = normalized.text[i];
            if is_whitespace_char(c) {
                if start < i {
                    proof {
                        lemma_as_spec_words_push(words@, (word, (start, i)));
                        assert(as_spec_words(words@).push((word@, (start as int, i as int)))
                            + bert_word_spans(t, i + 1, i + 1) =~= as_spec_words(words@) + (seq![
                            (t.subrange(start as int, i as int), (start as int, i as int)),
                        ] + bert_word_spans(t, i + 1, i + 1)));
                    }
                    words.push((word, (start, i)));
                    word = String::new();
                }
                start = i + 1;
                proof {
                    assert(word@ =~= t.subrange(start as int, (i + 1) as int));
                }
            } else if is_punct_char(c) {
                if start < i {
                    proof {
                        lemma_as_spec_words_push(words@, (word, (start, i)));
                        assert(as_spec_words(words@).push((word@, (start as int, i as int))) + (
                        seq![(t.subrange(i as int, i + 1), (i as int, i + 1))] + bert_word_spans(
                            t,
                            i + 1,
                            i + 1,
                        )) =~= as_spec_words(words@) + (seq![
                            (t.subrange(start as int, i as int), (start as int, i as int)),
                        ] + (seq![(t.subrange(i as int, i + 1), (i as int, i + 1))]
                            + bert_word_spans(t, i + 1, i + 1))));
                    }
                    words.push((word, (start, i)));
                    word = String::new();
                }
                let mut punct: String = String::new();
                punct.push(c);
                proof {
                    lemma_as_spec_words_push(words@, (punct, (i, (i + 1) as usize)));
                    assert(punct@ =~= t.subrange(i as int, i + 1));
                    assert(as_spec_words(words@).push((punct@, (i as int, (i + 1) as int)))
                        + bert_word_spans(t, i + 1, i + 1) =~= as_spec_words(words@) + (seq![
                        (t.subrange(i as int, i + 1), (i as int, i + 1)),
                    ] + bert_word_spans(t, i + 1, i + 1)));
                }
                words.push((punct, (i, i + 1)));
                start = i + 1;
                proof {
                    assert(word@ =~= t.subrange(start as int, (i + 1) as int));
                }
            } else {
                word.push(c);
                proof {
                    assert(word@ =~= t.subrange(start as int, (i + 1) as int));
                }
            }
            i += 1;
        }
        if start < text_len {
            proof {
                lemma_as_spec_words_push(words@, (word, (start, text_len)));
                assert(as_spec_words(words@).push((word@, (start as int, text_len as int)))
                    =~= as_spec_words(words@) + seq![
                    (t.subrange(start as int, text_len as int), (start as int, text_len as int)),
                ]);
            }
            words.push((word, (start, text_len)));
        }
        words
    }
}

} // verus!
