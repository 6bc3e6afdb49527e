//! Shared pipeline types — offsets, padding direction, the error taxonomy —
//! and the orchestrator that composes pre-tokenization, the model and the
//! post-processor into `encode`, and the vocabulary and decoder into
//! `decode`.

use vstd::prelude::*;
use crate::chars::chars_to_string;
use crate::decoders::bpe::bpe_decode_spec;
use crate::decoders::wordpiece::wordpiece_decode_spec;
use crate::decoders::{join_spaces, join_with_spaces, Decoder};
use crate::encoding::Encoding;
use crate::models::{
    id_lookup, model_same_config, model_vocab, model_wf, spec_tokenize_word, tokens_model, Model,
};
use crate::normalized::NormalizedString;
use crate::pre_tokenizers::metaspace::decode_chars;
use crate::pre_tokenizers::{as_spec_words, flat_tokens, pre_tokenized_words, PreTokenizer};
use crate::processors::bert::{bert_merged_pair, bert_processed_pair, bert_processed_single};
use crate::processors::roberta::{roberta_processed_pair, roberta_processed_single};
use crate::processors::PostProcessor;
use crate::models::Token;
use crate::chars::str_eq;
use crate::chars::str_to_chars;

verus! {

/// A `(start, end)` span of character positions.
pub type Offsets = (usize, usize);

/// Which side of a sequence padding entries are added on.
#[derive(Debug, Clone, Copy, PartialEq, Eq, Structural)]
pub enum PaddingDirection {
    Left,
    Right,
}

/// A fatal error at construction time: no usable instance results.
#[derive(Debug, Clone, Copy, PartialEq, Eq, Structural)]
pub enum BuildError {
    /// A configuration argument had to be exactly one character and was not.
    NotSingleChar,
    /// A merge pair references a token that the vocabulary does not hold.
    MergeReferencesUnknownToken,
    /// The configured unknown token is itself absent from the vocabulary.
    UnkTokenNotInVocabulary,
}

impl BuildError {
    /// A human-readable description of the error.
    pub fn message(&self) -> (r: &'static str)
        ensures
            self is NotSingleChar ==> r@ == "argument must be a single character"@,
            self is MergeReferencesUnknownToken ==> r@
                == "merge pair references a token absent from the vocabulary"@,
            self is UnkTokenNotInVocabulary ==> r@
                == "the unknown token is absent from the vocabulary"@,
    {
        match self {
            BuildError::NotSingleChar => "argument must be a single character",
            BuildError::MergeReferencesUnknownToken => {
                "merge pair references a token absent from the vocabulary"
            },
            BuildError::UnkTokenNotInVocabulary => {
                "the unknown token is absent from the vocabulary"
            },
        }
    }
}

/// A per-item error: a symbol was not representable and no unknown-token
/// fallback was configured.
#[derive(Debug, Clone, Copy, PartialEq, Eq, Structural)]
pub enum VocabularyError {
    SymbolNotFound,
}

impl VocabularyError {
    /// A human-readable description of the error.
    pub fn message(&self) -> (r: &'static str)
        ensures
            r@ == "symbol not found in the vocabulary and no unknown token is configured"@,
    {
        "symbol not found in the vocabulary and no unknown token is configured"
    }
}

/// The words a text is split into: those of the configured pre-tokenizer,
/// or the whole text as one word when none is configured.
pub open spec fn words_of(pt: Option<PreTokenizer>, text: Seq<char>) -> Seq<
    (Seq<char>, (int, int)),
> {
    match pt {
        Some(p) => pre_tokenized_words(p, text),
        None => if text.len() > 0 {
            seq![(text, (0int, text.len() as int))]
        } else {
            Seq::empty()
        },
    }
}

/// A word-internal offset moved into text coordinates: added to the word's
/// start and capped at the word's end.
pub open spec fn span_shift(s: int, e: int, o: int) -> int {
    if s <= e && s + o <= e {
        s + o
    } else {
        e
    }
}

/// The word's tokens with their offsets moved into text coordinates.
pub open spec fn shift_spans(ts: Seq<(u32, Seq<char>, (int, int))>, s: int, e: int) -> Seq<
    (u32, Seq<char>, (int, int)),
> {
    Seq::new(
        ts.len(),
        |j: int| (ts[j].0, ts[j].1, (span_shift(s, e, ts[j].2.0), span_shift(s, e, ts[j].2.1))),
    )
}

/// The token stream of a whole text: each word tokenized by the model,
/// offsets moved into text coordinates, concatenated in order; `None`
/// when any word raises the vocabulary error.
pub open spec fn encode_words(
    m: Model,
    words: Seq<(Seq<char>, (int, int))>,
    k: int,
) -> Option<Seq<(u32, Seq<char>, (int, int))>>
    decreases words.len() - k,
{
    if k < 0 || k >= words.len() {
        Some(Seq::empty())
    } else {
        match spec_tokenize_word(m, words[k].0) {
            None => None,
            Some(ts) => match encode_words(m, words, k + 1) {
                None => None,
                Some(rest) => Some(shift_spans(ts, words[k].1.0, words[k].1.1) + rest),
            },
        }
    }
}

/// The ids, token strings and spans of a token stream.
pub open spec fn ids_of(ts: Seq<(u32, Seq<char>, (int, int))>) -> Seq<u32> {
    Seq::new(ts.len(), |j: int| ts[j].0)
}

/// The token strings of a token stream.
pub open spec fn toks_of(ts: Seq<(u32, Seq<char>, (int, int))>) -> Seq<Seq<char>> {
    Seq::new(ts.len(), |j: int| ts[j].1)
}

/// The spans of a token stream.
pub open spec fn offs_of(ts: Seq<(u32, Seq<char>, (int, int))>) -> Seq<(int, int)> {
    Seq::new(ts.len(), |j: int| ts[j].2)
}

/// The mathematical reading of an offsets vector.
pub open spec fn offs_model(v: Seq<Offsets>) -> Seq<(int, int)> {
    Seq::new(v.len(), |j: int| (v[j].0 as int, v[j].1 as int))
}

/// The encoding assembled from a token stream, before post-processing:
/// type-ids 0, nothing special, full attention, no overflow.
pub open spec fn built_encoding(e: Encoding, ts: Seq<(u32, Seq<char>, (int, int))>) -> bool {
    &&& e.ids@ == ids_of(ts)
    &&& e.type_ids@ == Seq::new(ts.len(), |j: int| 0u32)
    &&& e.toks() == toks_of(ts)
    &&& offs_model(e.offsets@) == offs_of(ts)
    &&& e.special_tokens_mask@ == Seq::new(ts.len(), |j: int| 0u32)
    &&& e.attention_mask@ == Seq::new(ts.len(), |j: int| 1u32)
    &&& e.overflowing@.len() == 0
}

/// How the final encoding of one sequence relates to its assembled
/// encoding, per post-processor.
pub open spec fn post_single_rel(
    out: Encoding,
    proc: Option<PostProcessor>,
    e1: Encoding,
    add: bool,
) -> bool {
    match proc {
        None => out == e1,
        Some(PostProcessor::Bert(b)) => {
            if add {
                bert_processed_single(out, e1, (b.cls.0@, b.cls.1), (b.sep.0@, b.sep.1))
            } else {
                out == e1
            }
        },
        Some(PostProcessor::Roberta(rb)) => {
            if add {
                roberta_processed_single(out, e1, (rb.cls.0@, rb.cls.1), (rb.sep.0@, rb.sep.1))
            } else {
                out == e1
            }
        },
    }
}

/// How the final encoding of a pair relates to the two assembled
/// encodings, per post-processor.
pub open spec fn post_pair_rel(
    out: Encoding,
    proc: Option<PostProcessor>,
    e1: Encoding,
    e2: Encoding,
    add: bool,
) -> bool {
    match proc {
        None => bert_merged_pair(out, e1, e2),
        Some(PostProcessor::Bert(b)) => {
            if add {
                bert_processed_pair(out, e1, e2, (b.cls.0@, b.cls.1), (b.sep.0@, b.sep.1))
            } else {
                bert_merged_pair(out, e1, e2)
            }
        },
        Some(PostProcessor::Roberta(rb)) => {
            if add {
                roberta_processed_pair(out, e1, e2, (rb.cls.0@, rb.cls.1), (rb.sep.0@, rb.sep.1))
            } else {
                bert_merged_pair(out, e1, e2)
            }
        },
    }
}

/// Models with the same configuration tokenize every word alike.
pub proof fn lemma_same_config_tokenize_word(a: Model, b: Model, w: Seq<char>)
    requires
        model_same_config(a, b),
    ensures
        spec_tokenize_word(a, w) == spec_tokenize_word(b, w),
{
}

/// Models with the same configuration tokenize every word alike, so a
/// whole word list encodes alike.
pub proof fn lemma_same_config_encode_words(
    a: Model,
    b: Model,
    words: Seq<(Seq<char>, (int, int))>,
    k: int,
)
    requires
        model_same_config(a, b),
    ensures
        encode_words(a, words, k) == encode_words(b, words, k),
    decreases words.len() - k,
{
    if 0 <= k < words.len() {
        lemma_same_config_encode_words(a, b, words, k + 1);
    }
}

/// The length of a token stream, counting an absent one as 0.
pub open spec fn stream_len(o: Option<Seq<(u32, Seq<char>, (int, int))>>) -> nat {
    match o {
        Some(ts) => ts.len(),
        None => 0,
    }
}

/// The orchestrator: one instance of each pipeline stage, composed into
/// `encode` and `decode`. Only the model (its cache) changes across calls.
#[derive(Debug)]
pub struct Tokenizer {
    pub pre_tokenizer: Option<PreTokenizer>,
    pub model: Model,
    pub post_processor: Option<PostProcessor>,
    pub decoder: Option<Decoder>,
}

impl Tokenizer {
    /// A pipeline around the given model, with no other stages.
    pub fn new(model: Model) -> (r: Tokenizer)
        ensures
            r.model == model,
            r.pre_tokenizer is None,
            r.post_processor is None,
            r.decoder is None,
    {
        Tokenizer { pre_tokenizer: None, model, post_processor: None, decoder: None }
    }

    /// Pre-tokenizes one text and runs every word through the model,
    /// assembling the token stream into an encoding with type-ids 0 and
    /// full attention.
    pub fn encode_sequence(&mut self, text: &str) -> (r: Result<Encoding, VocabularyError>)
        requires
            model_wf(old(self).model),
        ensures
            model_wf(final(self).model),
            model_same_config(final(self).model, old(self).model),
            final(self).pre_tokenizer == old(self).pre_tokenizer,
            final(self).post_processor == old(self).post_processor,
            final(self).decoder == old(self).decoder,
            (match encode_words(
                old(self).model,
                words_of(old(self).pre_tokenizer, text@),
                0,
            ) {
                Some(ts) => r matches Ok(e) && built_encoding(e, ts),
                None => r == Err::<Encoding, VocabularyError>(VocabularyError::SymbolNotFound),
            }),
    {
        let ghost m0 = old(self).model;
        let mut normalized = NormalizedString::from(text);
        let words: Vec<(String, Offsets)> = match &self.pre_tokenizer {
            Some(pt) => pt.pre_tokenize(&mut normalized),
            None => {
                let mut ws: Vec<(String, Offsets)> = Vec::new();
                let n = normalized.len();
                if n > 0 {
                    ws.push((chars_to_string(normalized.get()), (0, n)));
                }
                proof {
                    assert(as_spec_words(ws@) =~= words_of(old(self).pre_tokenizer, text@));
                }
                ws
            },
        };
        let ghost wspec = as_spec_words(words@);
        proof {
            assert(wspec == words_of(old(self).pre_tokenizer, text@));
        }
        let mut ids: Vec<u32> = Vec::new();
        let mut type_ids: Vec<u32> = Vec::new();
        let mut tokens: Vec<String> = Vec::new();
        let mut offsets: Vec<Offsets> = Vec::new();
        let mut special: Vec<u32> = Vec::new();
        let mut attention: Vec<u32> = Vec::new();
        let ghost mut acc: Seq<(u32, Seq<char>, (int, int))> = Seq::empty();
        let mut k: usize = 0;
        while k < words.len()
            invariant
                model_wf(self.model),
                model_same_config(self.model, m0),
                self.pre_tokenizer == old(self).pre_tokenizer,
                self.post_processor == old(self).post_processor,
                self.decoder == old(self).decoder,
                k <= words@.len(),
                m0 == old(self).model,
                wspec == as_spec_words(words@),
                wspec == words_of(old(self).pre_tokenizer, text@),
                ids@ == ids_of(acc),
                type_ids@ == Seq::new(acc.len(), |j: int| 0u32),
                tokens.deep_view() == toks_of(acc),
                offs_model(offsets@) == offs_of(acc),
                special@ == Seq::new(acc.len(), |j: int| 0u32),
                attention@ == Seq::new(acc.len(), |j: int| 1u32),
                encode_words(m0, wspec, 0) == (match encode_words(m0, wspec, k as int) {
                    None => None::<Seq<(u32, Seq<char>, (int, int))>>,
                    Some(rest) => Some(acc + rest),
                }),
            decreases words@.len() - k,
        {
            let ws_s = words[k].1.0;
            let ws_e = words[k].1.1;
            let ghost m_before = self.model;
            let tk_res = self.model.tokenize(words[k].0.as_str());
            proof {
                lemma_same_config_tokenize_word(m_before, m0, words@[k as int].0@);
                assert(wspec[k as int].0 == words@[k as int].0@);
            }
            match tk_res {
                Err(err) => {
                    proof {
                        assert(encode_words(m0, wspec, k as int) is None);
                    }
                    return Err(err);
                },
                Ok(toks) => {
                    let ghost tm = tokens_model(toks@);
                    let ghost shifted = shift_spans(tm, ws_s as int, ws_e as int);
                    append_shifted(
                        &mut ids,
                        &mut type_ids,
                        &mut tokens,
                        &mut offsets,
                        &mut special,
                        &mut attention,
                        &toks,
                        ws_s,
                        ws_e,
                    );
                    k += 1;
                    proof {
                        acc = acc + shifted;
                        assert(ids@ =~= ids_of(acc));
                        assert(type_ids@ =~= Seq::new(acc.len(), |j: int| 0u32));
                        assert(tokens.deep_view() =~= toks_of(acc));
                        assert(offs_model(offsets@) =~= offs_of(acc));
                        assert(special@ =~= Seq::new(acc.len(), |j: int| 0u32));
                        assert(attention@ =~= Seq::new(acc.len(), |j: int| 1u32));
                        match encode_words(m0, wspec, k as int) {
                            None => {},
                            Some(rest) => {
                                assert(acc + rest =~= (acc.subrange(0, acc.len() - shifted.len())
                                    + (shifted + rest)));
                            },
                        }
                    }
                },
            }
        }
        proof {
            assert(encode_words(m0, wspec, words@.len() as int) == Some(
                Seq::<(u32, Seq<char>, (int, int))>::empty(),
            ));
            assert(acc + Seq::<(u32, Seq<char>, (int, int))>::empty() =~= acc);
        }
        Ok(
            Encoding {
                ids,
                type_ids,
                tokens,
                offsets,
                special_tokens_mask: special,
                attention_mask: attention,
                overflowing: Vec::new(),
            },
        )
    }
}

/// The spec view of an optional pair text.
pub open spec fn pair_view(o: Option<String>) -> Option<Seq<char>> {
    match o {
        Some(s) => Some(s@),
        None => None,
    }
}

/// Whether every word of the input (and of its pair) tokenizes without a
/// vocabulary error.
pub open spec fn input_ok(t: Tokenizer, text: Seq<char>, pair: Option<Seq<char>>) -> bool {
    &&& encode_words(t.model, words_of(t.pre_tokenizer, text), 0) is Some
    &&& (match pair {
        Some(p) => encode_words(t.model, words_of(t.pre_tokenizer, p), 0) is Some,
        None => true,
    })
}

/// How a successful `encode` result relates to the pipeline configuration:
/// the assembled encodings of the token streams, put through the
/// post-processor.
pub open spec fn encode_ok_rel(
    t: Tokenizer,
    text: Seq<char>,
    pair: Option<Seq<char>>,
    add: bool,
    out: Encoding,
) -> bool {
    match pair {
        None => match encode_words(t.model, words_of(t.pre_tokenizer, text), 0) {
            Some(ts1) => exists|e1: Encoding|
                #[trigger] built_encoding(e1, ts1) && post_single_rel(
                    out,
                    t.post_processor,
                    e1,
                    add,
                ),
            None => false,
        },
        Some(p) => match (
            encode_words(t.model, words_of(t.pre_tokenizer, text), 0),
            encode_words(t.model, words_of(t.pre_tokenizer, p), 0),
        ) {
            (Some(ts1), Some(ts2)) => exists|e1: Encoding, e2: Encoding|
                #[trigger] built_encoding(e1, ts1) && #[trigger] built_encoding(e2, ts2)
                    && post_pair_rel(out, t.post_processor, e1, e2, add),
            _ => false,
        },
    }
}

/// The total number of tokens both streams hold, for the machine-limit
/// bound of post-processing.
pub open spec fn encode_budget(t: Tokenizer, text: Seq<char>, pair: Option<Seq<char>>) -> nat {
    stream_len(encode_words(t.model, words_of(t.pre_tokenizer, text), 0)) + (match pair {
        Some(p) => stream_len(encode_words(t.model, words_of(t.pre_tokenizer, p), 0)),
        None => 0,
    })
}

/// Pipelines that agree on everything but the model's cache encode alike.
pub proof fn lemma_config_encode_rel(
    t1: Tokenizer,
    t0: Tokenizer,
    text: Seq<char>,
    pair: Option<Seq<char>>,
    add: bool,
    out: Encoding,
)
    requires
        model_same_config(t1.model, t0.model),
        t1.pre_tokenizer == t0.pre_tokenizer,
        t1.post_processor == t0.post_processor,
    ensures
        input_ok(t1, text, pair) == input_ok(t0, text, pair),
        encode_ok_rel(t1, text, pair, add, out) == encode_ok_rel(t0, text, pair, add, out),
        encode_budget(t1, text, pair) == encode_budget(t0, text, pair),
{
    lemma_same_config_encode_words(
        t1.model,
        t0.model,
        words_of(t0.pre_tokenizer, text),
        0,
    );
    match pair {
        Some(p) => {
            lemma_same_config_encode_words(
                t1.model,
                t0.model,
                words_of(t0.pre_tokenizer, p),
                0,
            );
        },
        None => {},
    }
}

/// A built encoding is well-formed.
pub proof fn lemma_built_encoding_wf(e: Encoding, ts: Seq<(u32, Seq<char>, (int, int))>)
    requires
        built_encoding(e, ts),
    ensures
        e.wf(),
        e.spec_len() == ts.len(),
{
    assert(e.ids@.len() == ids_of(ts).len());
    assert(e.tokens@.len() == e.toks().len());
    assert(e.toks().len() == toks_of(ts).len());
    assert(e.offsets@.len() == offs_model(e.offsets@).len());
    assert(e.type_ids@.len() == ts.len());
    assert(e.special_tokens_mask@.len() == ts.len());
    assert(e.attention_mask@.len() == ts.len());
}

impl Tokenizer {
    /// Encodes one text, or a pair of texts, through the whole pipeline:
    /// pre-tokenize, tokenize every word, assemble, post-process.
    pub fn encode(&mut self, text: &str, pair: Option<&str>, add_special_tokens: bool) -> (r:
        Result<Encoding, VocabularyError>)
        requires
            model_wf(old(self).model),
            encode_budget(
                *old(self),
                text@,
                match pair {
                    Some(p) => Some(p@),
                    None => None,
                },
            ) + 4 <= usize::MAX,
        ensures
            model_wf(final(self).model),
            model_same_config(final(self).model, old(self).model),
            final(self).pre_tokenizer == old(self).pre_tokenizer,
            final(self).post_processor == old(self).post_processor,
            final(self).decoder == old(self).decoder,
            ({
                let pv = match pair {
                    Some(p) => Some(p@),
                    None => None,
                };
                &&& (!input_ok(*old(self), text@, pv) ==> r == Err::<Encoding, VocabularyError>(
                    VocabularyError::SymbolNotFound,
                ))
                &&& (input_ok(*old(self), text@, pv) ==> (r matches Ok(out) && encode_ok_rel(
                    *old(self),
                    text@,
                    pv,
                    add_special_tokens,
                    out,
                )))
            }),
    {
        let ghost t0 = *old(self);
        let e1 = match self.encode_sequence(text) {
            Ok(e) => e,
            Err(er) => {
                return Err(er);
            },
        };
        let ghost ts1 = encode_words(t0.model, words_of(t0.pre_tokenizer, text@), 0)->0;
        let ghost e1g = e1;
        proof {
            lemma_built_encoding_wf(e1g, ts1);
        }
        match pair {
            None => {
                match &self.post_processor {
                    None => {
                        proof {
                            assert(built_encoding(e1g, ts1) && post_single_rel(
                                e1g,
                                t0.post_processor,
                                e1g,
                                add_special_tokens,
                            ));
                        }
                        Ok(e1)
                    },
                    Some(pp) => {
                        let out = pp.process(e1, None, add_special_tokens);
                        proof {
                            assert(built_encoding(e1g, ts1) && post_single_rel(
                                out,
                                t0.post_processor,
                                e1g,
                                add_special_tokens,
                            ));
                        }
                        Ok(out)
                    },
                }
            },
            Some(p) => {
                let ghost m1 = self.model;
                let e2 = match self.encode_sequence(p) {
                    Ok(e) => e,
                    Err(er) => {
                        proof {
                            lemma_same_config_encode_words(
                                m1,
                                t0.model,
                                words_of(t0.pre_tokenizer, p@),
                                0,
                            );
                        }
                        return Err(er);
                    },
                };
                let ghost ts2 = encode_words(t0.model, words_of(t0.pre_tokenizer, p@), 0)->0;
                let ghost e2g = e2;
                proof {
                    lemma_same_config_encode_words(
                        m1,
                        t0.model,
                        words_of(t0.pre_tokenizer, p@),
                        0,
                    );
                    lemma_built_encoding_wf(e2g, ts2);
                }
                match &self.post_processor {
                    None => {
                        let out = crate::processors::bert::merge_pair(e1, e2);
                        proof {
                            assert(built_encoding(e1g, ts1) && built_encoding(e2g, ts2)
                                && post_pair_rel(
                                out,
                                t0.post_processor,
                                e1g,
                                e2g,
                                add_special_tokens,
                            ));
                        }
                        Ok(out)
                    },
                    Some(pp) => {
                        let out = pp.process(e1, Some(e2), add_special_tokens);
                        proof {
                            assert(built_encoding(e1g, ts1) && built_encoding(e2g, ts2)
                                && post_pair_rel(
                                out,
                                t0.post_processor,
                                e1g,
                                e2g,
                                add_special_tokens,
                            ));
                        }
                        Ok(out)
                    },
                }
            },
        }
    }

    /// Encodes every input of a batch, in order; the first vocabulary
    /// error fails the batch.
    pub fn encode_batch(
        &mut self,
        inputs: Vec<(String, Option<String>)>,
        add_special_tokens: bool,
    ) -> (r: Result<Vec<Encoding>, VocabularyError>)
        requires
            model_wf(old(self).model),
            forall|i: int|
                0 <= i < inputs@.len() ==> encode_budget(
                    *old(self),
                    (#[trigger] inputs@[i]).0@,
                    pair_view(inputs@[i].1),
                ) + 4 <= usize::MAX,
        ensures
            model_wf(final(self).model),
            model_same_config(final(self).model, old(self).model),
            final(self).pre_tokenizer == old(self).pre_tokenizer,
            final(self).post_processor == old(self).post_processor,
            final(self).decoder == old(self).decoder,
            (match r {
                Ok(out) => {
                    &&& out@.len() == inputs@.len()
                    &&& forall|i: int|
                        0 <= i < inputs@.len() ==> input_ok(
                            *old(self),
                            (#[trigger] inputs@[i]).0@,
                            pair_view(inputs@[i].1),
                        ) && encode_ok_rel(
                            *old(self),
                            inputs@[i].0@,
                            pair_view(inputs@[i].1),
                            add_special_tokens,
                            out@[i],
                        )
                },
                Err(er) => er == VocabularyError::SymbolNotFound && exists|i: int|
                    0 <= i < inputs@.len() && !input_ok(
                        *old(self),
                        (#[trigger] inputs@[i]).0@,
                        pair_view(inputs@[i].1),
                    ),
            }),
    {
        let ghost t0 = *old(self);
        let mut out: Vec<Encoding> = Vec::new();
        let mut i: usize = 0;
        while i < inputs.len()
            invariant
                t0 == *old(self),
                model_wf(self.model),
                model_same_config(self.model, t0.model),
                self.pre_tokenizer == t0.pre_tokenizer,
                self.post_processor == t0.post_processor,
                self.decoder == t0.decoder,
                i <= inputs@.len(),
                out@.len() == i,
                forall|i2: int|
                    0 <= i2 < inputs@.len() ==> encode_budget(
                        t0,
                        (#[trigger] inputs@[i2]).0@,
                        pair_view(inputs@[i2].1),
                    ) + 4 <= usize::MAX,
                forall|i2: int|
                    0 <= i2 < i ==> input_ok(
                        t0,
                        (#[trigger] inputs@[i2]).0@,
                        pair_view(inputs@[i2].1),
                    ) && encode_ok_rel(
                        t0,
                        inputs@[i2].0@,
                        pair_view(inputs@[i2].1),
                        add_special_tokens,
                        out@[i2],
                    ),
            decreases inputs@.len() - i,
        {
            let ghost tc = *self;
            proof {
                lemma_config_encode_rel(
                    tc,
                    t0,
                    inputs@[i as int].0@,
                    pair_view(inputs@[i as int].1),
                    add_special_tokens,
                    out@[0],
                );
            }
            let pair_arg: Option<&str> = match &inputs[i].1 {
                Some(s) => Some(s.as_str()),
                None => None,
            };
            let enc = match self.encode(inputs[i].0.as_str(), pair_arg, add_special_tokens) {
                Ok(e) => e,
                Err(er) => {
                    proof {
                        assert(!input_ok(
                            t0,
                            inputs@[i as int].0@,
                            pair_view(inputs@[i as int].1),
                        ));
                    }
                    return Err(er);
                },
            };
            proof {
                lemma_config_encode_rel(
                    tc,
                    t0,
                    inputs@[i as int].0@,
                    pair_view(inputs@[i as int].1),
                    add_special_tokens,
                    enc,
                );
            }
            out.push(enc);
            i += 1;
        }
        Ok(out)
    }
}

/// The special-token strings the configured post-processor inserts.
pub open spec fn special_toks(proc: Option<PostProcessor>) -> Seq<Seq<char>> {
    match proc {
        None => Seq::empty(),
        Some(PostProcessor::Bert(b)) => seq![b.cls.0@, b.sep.0@],
        Some(PostProcessor::Roberta(rb)) => seq![rb.cls.0@, rb.sep.0@],
    }
}

/// The token strings selected for decoding: each id resolved in the
/// vocabulary, unresolvable ids dropped, and, when `skip` is set, special
/// tokens dropped too.
pub open spec fn selected_tokens(
    v: Seq<(String, u32)>,
    specials: Seq<Seq<char>>,
    ids: Seq<u32>,
    skip: bool,
    k: int,
) -> Seq<Seq<char>>
    decreases ids.len() - k,
{
    if k < 0 || k >= ids.len() {
        Seq::empty()
    } else {
        let rest = selected_tokens(v, specials, ids, skip, k + 1);
        match id_lookup(v, ids[k]) {
            None => rest,
            Some(t) => if skip && specials.contains(t) {
                rest
            } else {
                seq![t] + rest
            },
        }
    }
}

impl Tokenizer {
    /// Whether `t` is one of the post-processor's special tokens.
    fn is_special_token(&self, t: &str) -> (r: bool)
        ensures
            r == special_toks(self.post_processor).contains(t@),
    {
        match &self.post_processor {
            None => {
                proof {
                    assert(!Seq::<Seq<char>>::empty().contains(t@));
                }
                false
            },
            Some(PostProcessor::Bert(b)) => {
                let hit = str_eq(t, b.cls.0.as_str()) || str_eq(t, b.sep.0.as_str());
                proof {
                    let sp = seq![b.cls.0@, b.sep.0@];
                    assert(sp[0] == b.cls.0@ && sp[1] == b.sep.0@);
                    if hit {
                        assert(sp.contains(t@));
                    } else {
                        assert(forall|i: int| 0 <= i < sp.len() ==> sp[i] != t@);
                    }
                }
                hit
            },
            Some(PostProcessor::Roberta(rb)) => {
                let hit = str_eq(t, rb.cls.0.as_str()) || str_eq(t, rb.sep.0.as_str());
                proof {
                    let sp = seq![rb.cls.0@, rb.sep.0@];
                    assert(sp[0] == rb.cls.0@ && sp[1] == rb.sep.0@);
                    if hit {
                        assert(sp.contains(t@));
                    } else {
                        assert(forall|i: int| 0 <= i < sp.len() ==> sp[i] != t@);
                    }
                }
                hit
            },
        }
    }

    /// Turns ids back into a display string: each id is resolved in the
    /// vocabulary (unresolvable ids are dropped, special tokens too when
    /// asked), and the configured decoder — or a plain space join —
    /// reconstructs the text.
    pub fn decode(&self, ids: Vec<u32>, skip_special_tokens: bool) -> (r: String)
        ensures
            ({
                let sel = selected_tokens(
                    model_vocab(self.model),
                    special_toks(self.post_processor),
                    ids@,
                    skip_special_tokens,
                    0,
                );
                match self.decoder {
                    None => r@ == join_spaces(sel),
                    Some(Decoder::WordPiece(d)) => r@ == wordpiece_decode_spec(
                        sel,
                        d.prefix@,
                        d.cleanup,
                    ),
                    Some(Decoder::Metaspace(d)) => r@ == decode_chars(
                        flat_tokens(sel),
                        d.replacement,
                        d.add_prefix_space,
                        0,
                    ),
                    Some(Decoder::BPEDecoder(d)) => r@ == bpe_decode_spec(sel, d.suffix@),
                }
            }),
    {
        let ghost v = model_vocab(self.model);
        let ghost sp = special_toks(self.post_processor);
        let ghost sel = selected_tokens(v, sp, ids@, skip_special_tokens, 0);
        let mut tokens: Vec<String> = Vec::new();
        let mut k: usize = 0;
        while k < ids.len()
            invariant
                k <= ids@.len(),
                v == model_vocab(self.model),
                sp == special_toks(self.post_processor),
                sel == selected_tokens(v, sp, ids@, skip_special_tokens, 0),
                sel == tokens.deep_view() + selected_tokens(
                    v,
                    sp,
                    ids@,
                    skip_special_tokens,
                    k as int,
                ),
            decreases ids@.len() - k,
        {
            let ghost before = tokens.deep_view();
            match self.model.id_to_token(ids[k]) {
                None => {},
                Some(tok) => {
                    let skip_it = skip_special_tokens && self.is_special_token(tok.as_str());
                    if !skip_it {
                        tokens.push(tok);
                        proof {
                            assert(tokens.deep_view() =~= before.push(tokens@.last()@));
                        }
                    }
                },
            }
            k += 1;
            proof {
                match id_lookup(v, ids@[k - 1]) {
                    None => {},
                    Some(t) => {
                        if !(skip_special_tokens && sp.contains(t)) {
                            assert(tokens.deep_view() + selected_tokens(
                                v,
                                sp,
                                ids@,
                                skip_special_tokens,
                                k as int,
                            ) =~= before + (seq![t] + selected_tokens(
                                v,
                                sp,
                                ids@,
                                skip_special_tokens,
                                k as int,
                            )));
                        }
                    },
                }
            }
        }
        proof {
            assert(sel =~= tokens.deep_view());
        }
        match &self.decoder {
            None => {
                let mut chars: Vec<Vec<char>> = Vec::new();
                let mut j: usize = 0;
                while j < tokens.len()
                    invariant
                        j <= tokens@.len(),
                        chars@.len() == j,
                        forall|i: int| 0 <= i < j ==> #[trigger] chars@[i]@ == tokens@[i]@,
                    decreases tokens@.len() - j,
                {
                    chars.push(str_to_chars(tokens[j].as_str()));
                    j += 1;
                }
                proof {
                    assert(chars.deep_view() =~~= tokens.deep_view());
                }
                let joined = join_with_spaces(&chars);
                chars_to_string(&joined)
            },
            Some(d) => d.decode(tokens),
        }
    }
}

/// Appends one word's tokens to the six encoding vectors, offsets moved
/// into text coordinates.
#[verifier::rlimit(30)]
fn append_shifted(
    ids: &mut Vec<u32>,
    type_ids: &mut Vec<u32>,
    tokens: &mut Vec<String>,
    offsets: &mut Vec<Offsets>,
    special: &mut Vec<u32>,
    attention: &mut Vec<u32>,
    toks: &Vec<Token>,
    ws_s: usize,
    ws_e: usize,
)
    ensures
        ({
            let shifted = shift_spans(tokens_model(toks@), ws_s as int, ws_e as int);
            &&& final(ids)@ == old(ids)@ + ids_of(shifted)
            &&& final(type_ids)@ == old(type_ids)@ + Seq::new(shifted.len(), |j: int| 0u32)
            &&& final(tokens).deep_view() == old(tokens).deep_view() + toks_of(shifted)
            &&& offs_model(final(offsets)@) == offs_model(old(offsets)@) + offs_of(shifted)
            &&& final(special)@ == old(special)@ + Seq::new(shifted.len(), |j: int| 0u32)
            &&& final(attention)@ == old(attention)@ + Seq::new(shifted.len(), |j: int| 1u32)
        }),
{
    let ghost shifted = shift_spans(tokens_model(toks@), ws_s as int, ws_e as int);
    let mut j: usize = 0;
    while j < toks.len()
        invariant
            j <= toks@.len(),
            shifted == shift_spans(tokens_model(toks@), ws_s as int, ws_e as int),
            ids@ == old(ids)@ + ids_of(shifted.take(j as int)),
            type_ids@ == old(type_ids)@ + Seq::new(j as nat, |i: int| 0u32),
            tokens@.len() == old(tokens)@.len() + j,
            forall|i: int| 0 <= i < old(tokens)@.len() ==> #[trigger] tokens@[i] == old(tokens)@[i],
            forall|i: int|
                old(tokens)@.len() <= i < tokens@.len() ==> #[trigger] tokens@[i]@ == shifted[i
                    - old(tokens)@.len()].1,
            offsets@.len() == old(offsets)@.len() + j,
            forall|i: int|
                0 <= i < old(offsets)@.len() ==> #[trigger] offsets@[i] == old(offsets)@[i],
            forall|i: int|
                old(offsets)@.len() <= i < offsets@.len() ==> (#[trigger] offsets@[i]).0
                    == shifted[i - old(offsets)@.len()].2.0 && offsets@[i].1 == shifted[i - old(
                    offsets,
                )@.len()].2.1,
            special@ == old(special)@ + Seq::new(j as nat, |i: int| 0u32),
            attention@ == old(attention)@ + Seq::new(j as nat, |i: int| 1u32),
        decreases toks@.len() - j,
    {
        let t = &toks[j];
        let o0 = t.offsets.0;
        let o1 = t.offsets.1;
        let s0 = if ws_s <= ws_e && o0 <= ws_e - ws_s {
            ws_s + o0
        } else {
            ws_e
        };
        let s1 = if ws_s <= ws_e && o1 <= ws_e - ws_s {
            ws_s + o1
        } else {
            ws_e
        };
        ids.push(t.id);
        type_ids.push(0);
        tokens.push(t.value.clone());
        offsets.push((s0, s1));
        special.push(0);
        attention.push(1);
        j += 1;
        proof {
            assert(ids@ =~= old(ids)@ + ids_of(shifted.take(j as int)));
            assert(type_ids@ =~= old(type_ids)@ + Seq::new(j as nat, |i: int| 0u32));
            assert(special@ =~= old(special)@ + Seq::new(j as nat, |i: int| 0u32));
            assert(attention@ =~= old(attention)@ + Seq::new(j as nat, |i: int| 1u32));
        }
    }
    proof {
        assert(shifted.take(shifted.len() as int) =~= shifted);
        assert(ids@ =~= old(ids)@ + ids_of(shifted));
        assert(type_ids@ =~= old(type_ids)@ + Seq::new(shifted.len(), |j: int| 0u32));
        assert(tokens.deep_view() =~= old(tokens).deep_view() + toks_of(shifted));
        assert(offs_model(offsets@) =~= offs_model(old(offsets)@) + offs_of(shifted));
        assert(special@ =~= old(special)@ + Seq::new(shifted.len(), |j: int| 0u32));
        assert(attention@ =~= old(attention)@ + Seq::new(shifted.len(), |j: int| 1u32));
    }
}

} // verus!
