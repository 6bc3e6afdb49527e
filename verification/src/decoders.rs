//! Decoders: each reconstructs a display string from a token sequence, a
//! best-effort inverse of the pre-tokenizer and model that produced it.
//! The set of decoders is a closed tagged enum.

pub mod bpe;
pub mod wordpiece;

use vstd::prelude::*;
use crate::decoders::bpe::{bpe_decode_spec, BPEDecoder};
use crate::decoders::wordpiece::{wordpiece_decode_spec, WordPiece};
use crate::pre_tokenizers::metaspace::{decode_chars, Metaspace};
use crate::pre_tokenizers::flat_tokens;

verus! {

/// All characters of the tokens joined with single spaces.
pub open spec fn join_spaces(ts: Seq<Seq<char>>) -> Seq<char>
    decreases ts.len(),
{
    if ts.len() == 0 {
        Seq::empty()
    } else if ts.len() == 1 {
        ts[0]
    } else {
        join_spaces(ts.drop_last()) + seq![' '] + ts.last()
    }
}

/// Joins the tokens' characters with single spaces.
pub fn join_with_spaces(tokens: &Vec<Vec<char>>) -> (r: Vec<char>)
    ensures
        r@ == join_spaces(tokens.deep_view()),
{
    let ghost ts = tokens.deep_view();
    let mut out: Vec<char> = Vec::new();
    let mut k: usize = 0;
    while k < tokens.len()
        invariant
            k <= tokens@.len(),
            ts == tokens.deep_view(),
            out@ == join_spaces(ts.take(k as int)),
        decreases tokens@.len() - k,
    {
        if k > 0 {
            out.push(' ');
        }
        let mut cs = crate::chars::copy_range(&tokens[k], 0, tokens[k].len());
        out.append(&mut cs);
        k += 1;
        proof {
            assert(ts.take(k as int).drop_last() =~= ts.take(k - 1));
            assert(ts.take(k as int).last() == ts[k - 1]);
            if k == 1 {
                assert(out@ =~= join_spaces(ts.take(1)));
            } else {
                assert(out@ =~= join_spaces(ts.take(k as int)));
            }
        }
    }
    proof {
        assert(ts.take(tokens@.len() as int) =~= ts);
    }
    out
}

/// The closed set of decoders, selectable at runtime.
#[derive(Debug)]
pub enum Decoder {
    WordPiece(WordPiece),
    Metaspace(Metaspace),
    BPEDecoder(BPEDecoder),
}

impl Decoder {
    /// Applies the selected decoder.
    pub fn decode(&self, tokens: Vec<String>) -> (r: String)
        ensures
            (match self {
                Decoder::WordPiece(d) => r@ == wordpiece_decode_spec(
                    tokens.deep_view(),
                    d.prefix@,
                    d.cleanup,
                ),
                Decoder::Metaspace(d) => r@ == decode_chars(
                    flat_tokens(tokens.deep_view()),
                    d.replacement,
                    d.add_prefix_space,
                    0,
                ),
                Decoder::BPEDecoder(d) => r@ == bpe_decode_spec(tokens.deep_view(), d.suffix@),
            }),
    {
        match self {
            Decoder::WordPiece(d) => d.decode(tokens),
            Decoder::Metaspace(d) => d.decode(tokens),
            Decoder::BPEDecoder(d) => d.decode(tokens),
        }
    }
}

} // verus!
