//! Models: sub-word segmentation. Each maps a pre-tokenized word to a
//! sequence of `(id, token, offsets-within-word)` entries, substituting the
//! configured unknown token where a symbol has no vocabulary entry.

pub mod bpe;
pub mod wordpiece;

use vstd::prelude::*;
use crate::chars::str_eq;
use crate::models::bpe::BPE;
use crate::models::wordpiece::{wordpiece_result, WordPiece};
use crate::tokenizer::{Offsets, VocabularyError};

verus! {

/// The closed set of models, selectable at runtime.
#[derive(Debug)]
pub enum Model {
    BPE(BPE),
    WordPiece(WordPiece),
}

/// The selected model's vocabulary.
pub open spec fn model_vocab(m: Model) -> Seq<(String, u32)> {
    match m {
        Model::BPE(b) => b.vocab@,
        Model::WordPiece(w) => w.vocab@,
    }
}

/// The selected model's well-formedness.
pub open spec fn model_wf(m: Model) -> bool {
    match m {
        Model::BPE(b) => b.wf(),
        Model::WordPiece(w) => w.wf(),
    }
}

/// Two models agree on everything but a cache.
pub open spec fn model_same_config(a: Model, b: Model) -> bool {
    match (a, b) {
        (Model::BPE(x), Model::BPE(y)) => x.same_config(&y),
        (Model::WordPiece(x), Model::WordPiece(y)) => x == y,
        _ => false,
    }
}

/// What the selected model tokenizes a word to; `None` stands for the
/// vocabulary error.
pub open spec fn spec_tokenize_word(m: Model, w: Seq<char>) -> Option<
    Seq<(u32, Seq<char>, (int, int))>,
> {
    match m {
        Model::BPE(b) => b.spec_tokenize(w),
        Model::WordPiece(wp) => Some(
            wordpiece_result(
                wp.vocab@,
                w,
                wp.continuing_subword_prefix@,
                wp.unk_token@,
                wp.max_input_chars_per_word as nat,
            ),
        ),
    }
}

/// The first vocabulary token carrying `id`, if any.
pub open spec fn id_lookup(v: Seq<(String, u32)>, id: u32) -> Option<Seq<char>>
    decreases v.len(),
{
    if v.len() == 0 {
        None
    } else if v[0].1 == id {
        Some(v[0].0@)
    } else {
        id_lookup(v.drop_first(), id)
    }
}

/// Finds the first vocabulary token carrying `id`.
pub fn find_token_of_id(v: &Vec<(String, u32)>, id: u32) -> (r: Option<String>)
    ensures
        (match r {
            Some(s) => id_lookup(v@, id) == Some(s@),
            None => id_lookup(v@, id) is None,
        }),
{
    let mut i: usize = 0;
    proof {
        assert(v@.skip(0) =~= v@);
    }
    while i < v.len()
        invariant
            i <= v@.len(),
            id_lookup(v@, id) == id_lookup(v@.skip(i as int), id),
        decreases v@.len() - i,
    {
        proof {
            assert(v@.skip(i as int).drop_first() =~= v@.skip(i + 1));
            assert(v@.skip(i as int)[0] == v@[i as int]);
        }
        if v[i].1 == id {
            return Some(v[i].0.clone());
        }
        i += 1;
    }
    None
}

impl Model {
    /// Tokenizes one word with the selected model. The result is a
    /// function of the model configuration and the word alone.
    pub fn tokenize(&mut self, word: &str) -> (r: Result<Vec<Token>, VocabularyError>)
        requires
            model_wf(*old(self)),
        ensures
            model_wf(*final(self)),
            model_same_config(*final(self), *old(self)),
            (match spec_tokenize_word(*old(self), word@) {
                Some(ts) => r matches Ok(out) && tokens_model(out@) == ts,
                None => r == Err::<Vec<Token>, VocabularyError>(VocabularyError::SymbolNotFound),
            }),
    {
        match self {
            Model::BPE(b) => b.tokenize(word),
            Model::WordPiece(w) => w.tokenize(word),
        }
    }

    /// The token carrying `id`, looked up in the vocabulary.
    pub fn id_to_token(&self, id: u32) -> (r: Option<String>)
        ensures
            (match r {
                Some(s) => id_lookup(model_vocab(*self), id) == Some(s@),
                None => id_lookup(model_vocab(*self), id) is None,
            }),
    {
        match self {
            Model::BPE(b) => find_token_of_id(&b.vocab, id),
            Model::WordPiece(w) => find_token_of_id(&w.vocab, id),
        }
    }
}

/// One sub-word token: its vocabulary id, its string, and its character
/// span within the word it came from.
#[derive(Debug)]
pub struct Token {
    pub id: u32,
    pub value: String,
    pub offsets: Offsets,
}

/// The mathematical reading of a token list: id, characters, span.
pub open spec fn tokens_model(r: Seq<Token>) -> Seq<(u32, Seq<char>, (int, int))> {
    Seq::new(
        r.len(),
        |k: int| (r[k].id, r[k].value@, (r[k].offsets.0 as int, r[k].offsets.1 as int)),
    )
}

/// The id of `k` in the vocabulary; the first entry with that token wins.
pub open spec fn vocab_lookup(v: Seq<(String, u32)>, k: Seq<char>) -> Option<u32>
    decreases v.len(),
{
    if v.len() == 0 {
        None
    } else if v[0].0@ == k {
        Some(v[0].1)
    } else {
        vocab_lookup(v.drop_first(), k)
    }
}

/// Looks `k` up in the vocabulary.
pub fn find_in_vocab(v: &Vec<(String, u32)>, k: &str) -> (r: Option<u32>)
    ensures
        r == vocab_lookup(v@, k@),
{
    let mut i: usize = 0;
    proof {
        assert(v@.skip(0) =~= v@);
    }
    while i < v.len()
        invariant
            i <= v@.len(),
            vocab_lookup(v@, k@) == vocab_lookup(v@.skip(i as int), k@),
        decreases v@.len() - i,
    {
        proof {
            assert(v@.skip(i as int).drop_first() =~= v@.skip(i + 1));
            assert(v@.skip(i as int)[0] == v@[i as int]);
        }
        let hit = str_eq(v[i].0.as_str(), k);
        if hit {
            return Some(v[i].1);
        }
        i += 1;
    }
    None
}

/// Appending a token appends its mathematical reading.
pub proof fn lemma_tokens_model_push(r: Seq<Token>, t: Token)
    ensures
        tokens_model(r.push(t)) == tokens_model(r).push(
            (t.id, t.value@, (t.offsets.0 as int, t.offsets.1 as int)),
        ),
{
    assert(tokens_model(r.push(t)) =~= tokens_model(r).push(
        (t.id, t.value@, (t.offsets.0 as int, t.offsets.1 as int)),
    ));
}

/// Clones of the tokens, model-identical to the originals.
pub fn clone_tokens(v: &Vec<Token>) -> (r: Vec<Token>)
    ensures
        tokens_model(r@) == tokens_model(v@),
{
    let mut r: Vec<Token> = Vec::new();
    let mut i: usize = 0;
    while i < v.len()
        invariant
            i <= v@.len(),
            r@.len() == i,
            forall|k: int|
                0 <= k < i ==> (#[trigger] r@[k]).id == v@[k].id && r@[k].value@ == v@[k].value@
                    && r@[k].offsets == v@[k].offsets,
        decreases v@.len() - i,
    {
        let t = &v[i];
        r.push(Token { id: t.id, value: t.value.clone(), offsets: t.offsets });
        i += 1;
    }
    proof {
        assert(tokens_model(r@) =~= tokens_model(v@));
    }
    r
}

} // verus!
