//! Pre-tokenizers: each splits a normalized string into a sequence of
//! `(word, offsets)` pairs, the offsets counting characters of the text the
//! words were read from.

pub mod bert;
pub mod byte_level;
pub mod delimiter;
pub mod metaspace;
pub mod whitespace;

use vstd::prelude::*;
use crate::normalized::NormalizedString;
use crate::pre_tokenizers::bert::{bert_word_spans, BertPreTokenizer};
use crate::pre_tokenizers::delimiter::{delim_word_spans, CharDelimiterSplit};
use crate::pre_tokenizers::metaspace::{metaspace_word_spans, prefixed_text, Metaspace};
use crate::pre_tokenizers::whitespace::{
    whitespace_word_spans, ws_split_word_spans, Whitespace, WhitespaceSplit,
};
use crate::tokenizer::Offsets;

verus! {

/// The closed set of pre-tokenizers, selectable at runtime.
#[derive(Debug)]
pub enum PreTokenizer {
    BertPreTokenizer(BertPreTokenizer),
    CharDelimiterSplit(CharDelimiterSplit),
    Metaspace(Metaspace),
    Whitespace(Whitespace),
    WhitespaceSplit(WhitespaceSplit),
}

/// The words and spans the selected pre-tokenizer yields for a text.
pub open spec fn pre_tokenized_words(pt: PreTokenizer, text: Seq<char>) -> Seq<
    (Seq<char>, (int, int)),
> {
    match pt {
        PreTokenizer::BertPreTokenizer(_) => bert_word_spans(text, 0, 0),
        PreTokenizer::CharDelimiterSplit(d) => delim_word_spans(text, d.delimiter, 0, 0),
        PreTokenizer::Metaspace(m) => metaspace_word_spans(
            prefixed_text(text, m.add_prefix_space),
            m.replacement,
            0,
            0,
        ),
        PreTokenizer::Whitespace(_) => whitespace_word_spans(text, 0, 0),
        PreTokenizer::WhitespaceSplit(_) => ws_split_word_spans(text, 0, 0),
    }
}

impl PreTokenizer {
    /// Applies the selected pre-tokenizer.
    pub fn pre_tokenize(&self, normalized: &mut NormalizedString) -> (r: Vec<(String, Offsets)>)
        requires
            old(normalized).wf(),
        ensures
            final(normalized).wf(),
            final(normalized).original@ == old(normalized).original@,
            as_spec_words(r@) == pre_tokenized_words(*self, old(normalized).text@),
    {
        match self {
            PreTokenizer::BertPreTokenizer(b) => b.pre_tokenize(normalized),
            PreTokenizer::CharDelimiterSplit(d) => d.pre_tokenize(normalized),
            PreTokenizer::Metaspace(m) => m.pre_tokenize(normalized),
            PreTokenizer::Whitespace(w) => w.pre_tokenize(normalized),
            PreTokenizer::WhitespaceSplit(w) => w.pre_tokenize(normalized),
        }
    }
}

/// The mathematical reading of an executable word list: each word as its
/// character sequence with its span as integers.
pub open spec fn as_spec_words(r: Seq<(String, Offsets)>) -> Seq<(Seq<char>, (int, int))> {
    Seq::new(r.len(), |k: int| (r[k].0@, (r[k].1.0 as int, r[k].1.1 as int)))
}

/// Appending an executable word appends its mathematical reading.
pub proof fn lemma_as_spec_words_push(r: Seq<(String, Offsets)>, p: (String, Offsets))
    ensures
        as_spec_words(r.push(p)) == as_spec_words(r).push((p.0@, (p.1.0 as int, p.1.1 as int))),
{
    assert(as_spec_words(r.push(p)) =~= as_spec_words(r).push(
        (p.0@, (p.1.0 as int, p.1.1 as int)),
    ));
}

/// All characters of the tokens, in order, flattened into one sequence.
pub open spec fn flat_tokens(ts: Seq<Seq<char>>) -> Seq<char>
    decreases ts.len(),
{
    if ts.len() == 0 {
        Seq::empty()
    } else {
        flat_tokens(ts.drop_last()) + ts.last()
    }
}

/// The words of a split, without their spans.
pub open spec fn words_chars(ws: Seq<(Seq<char>, (int, int))>) -> Seq<Seq<char>> {
    Seq::new(ws.len(), |k: int| ws[k].0)
}

/// Flattening distributes over prepending one token.
pub proof fn lemma_flat_tokens_prepend(s: Seq<char>, ts: Seq<Seq<char>>)
    ensures
        flat_tokens(seq![s] + ts) == s + flat_tokens(ts),
    decreases ts.len(),
{
    if ts.len() == 0 {
        assert((seq![s] + ts) =~= seq![s]);
        assert(seq![s].drop_last() =~= Seq::<Seq<char>>::empty());
        assert(flat_tokens(Seq::<Seq<char>>::empty()) == Seq::<char>::empty());
        assert(flat_tokens(seq![s]) == flat_tokens(seq![s].drop_last()) + seq![s].last());
        assert(flat_tokens(seq![s]) =~= s + flat_tokens(ts));
    } else {
        lemma_flat_tokens_prepend(s, ts.drop_last());
        assert((seq![s] + ts).drop_last() =~= seq![s] + ts.drop_last());
        assert((seq![s] + ts).last() == ts.last());
        assert((s + flat_tokens(ts.drop_last())) + ts.last() =~= s + (flat_tokens(ts.drop_last())
            + ts.last()));
    }
}

/// The flattened words of a split with one word in front.
pub proof fn lemma_words_chars_prepend(w: (Seq<char>, (int, int)), ws: Seq<(Seq<char>, (int, int))>)
    ensures
        words_chars(seq![w] + ws) == seq![w.0] + words_chars(ws),
{
    assert(words_chars(seq![w] + ws) =~= seq![w.0] + words_chars(ws));
}

} // verus!
