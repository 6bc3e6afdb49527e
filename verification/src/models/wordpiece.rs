//! WordPiece: greedy longest-prefix-first segmentation against a
//! vocabulary. Word-internal pieces carry a continuation prefix; over-long
//! words and words with no valid decomposition map to the unknown token.

use vstd::prelude::*;
use vstd::string::{StrSliceExecFns, StringExecFns};
use crate::chars::{chars_to_string, copy_range, str_to_chars};
use crate::models::{find_in_vocab, lemma_tokens_model_push, tokens_model, vocab_lookup, Token};
use crate::tokenizer::{BuildError, VocabularyError};

verus! {

/// A WordPiece model: a vocabulary, an unknown token known to resolve in
/// it, a continuation prefix for word-internal pieces, and a cap on the
/// word length that is segmented at all.
#[derive(Debug)]
pub struct WordPiece {
    pub vocab: Vec<(String, u32)>,
    pub unk_token: String,
    pub continuing_subword_prefix: String,
    pub max_input_chars_per_word: usize,
}

/// The candidate piece covering `[start, e)`: the word's characters there,
/// with the continuation prefix in front when the piece is word-internal.
pub open spec fn piece_of(w: Seq<char>, prefix: Seq<char>, start: int, e: int) -> Seq<char> {
    if start > 0 {
        prefix + w.subrange(start, e)
    } else {
        w.subrange(start, e)
    }
}

/// The largest end at most `e` whose piece from `start` resolves in the
/// vocabulary, if any.
pub open spec fn wp_longest(
    v: Seq<(String, u32)>,
    w: Seq<char>,
    prefix: Seq<char>,
    start: int,
    e: int,
) -> Option<int>
    decreases e,
{
    if e <= 0 || e <= start {
        None
    } else if vocab_lookup(v, piece_of(w, prefix, start, e)) is Some {
        Some(e)
    } else {
        wp_longest(v, w, prefix, start, e - 1)
    }
}

/// The greedy decomposition of `w` from `start` on, or `None` when some
/// position admits no vocabulary piece.
pub open spec fn wp_tokens(
    v: Seq<(String, u32)>,
    w: Seq<char>,
    prefix: Seq<char>,
    start: int,
) -> Option<Seq<(u32, Seq<char>, (int, int))>>
    decreases w.len() - start,
{
    if start < 0 || start >= w.len() {
        Some(Seq::empty())
    } else {
        match wp_longest(v, w, prefix, start, w.len() as int) {
            None => None,
            Some(e) => {
                if start < e <= w.len() {
                    match wp_tokens(v, w, prefix, e) {
                        None => None,
                        Some(rest) => match vocab_lookup(v, piece_of(w, prefix, start, e)) {
                            Some(id) => Some(
                                seq![(id, piece_of(w, prefix, start, e), (start, e))] + rest,
                            ),
                            None => None,
                        },
                    }
                } else {
                    None
                }
            },
        }
    }
}

/// The single unknown-token result covering the whole word.
pub open spec fn unk_result(v: Seq<(String, u32)>, unk: Seq<char>, n: int) -> Seq<
    (u32, Seq<char>, (int, int)),
> {
    seq![(vocab_lookup(v, unk)->0, unk, (0, n))]
}

/// What tokenizing `w` yields: the unknown token alone when the word is
/// over-long or admits no decomposition, else the greedy decomposition.
pub open spec fn wordpiece_result(
    v: Seq<(String, u32)>,
    w: Seq<char>,
    prefix: Seq<char>,
    unk: Seq<char>,
    max: nat,
) -> Seq<(u32, Seq<char>, (int, int))> {
    if w.len() > max {
        unk_result(v, unk, w.len() as int)
    } else {
        match wp_tokens(v, w, prefix, 0) {
            Some(ts) => ts,
            None => unk_result(v, unk, w.len() as int),
        }
    }
}

impl WordPiece {
    /// The unknown token resolves in the vocabulary.
    pub open spec fn wf(&self) -> bool {
        vocab_lookup(self.vocab@, self.unk_token@) is Some
    }

    /// A WordPiece model; fails when the unknown token is absent from the
    /// vocabulary.
    pub fn new(
        vocab: Vec<(String, u32)>,
        unk_token: String,
        max_input_chars_per_word: usize,
        continuing_subword_prefix: String,
    ) -> (r: Result<WordPiece, BuildError>)
        ensures
            vocab_lookup(vocab@, unk_token@) is Some ==> (r matches Ok(m) && m.vocab == vocab
                && m.unk_token == unk_token && m.max_input_chars_per_word
                == max_input_chars_per_word && m.continuing_subword_prefix
                == continuing_subword_prefix && m.wf()),
            vocab_lookup(vocab@, unk_token@) is None ==> r == Err::<WordPiece, BuildError>(
                BuildError::UnkTokenNotInVocabulary,
            ),
    {
        match find_in_vocab(&vocab, unk_token.as_str()) {
            Some(_) => Ok(
                WordPiece { vocab, unk_token, continuing_subword_prefix, max_input_chars_per_word },
            ),
            None => Err(BuildError::UnkTokenNotInVocabulary),
        }
    }

    /// The unknown token as the sole output, spanning the whole word.
    fn unk_tokens(&self, n: usize) -> (r: Vec<Token>)
        requires
            self.wf(),
        ensures
            tokens_model(r@) == unk_result(self.vocab@, self.unk_token@, n as int),
    {
        let id = match find_in_vocab(&self.vocab, self.unk_token.as_str()) {
            Some(id) => id,
            None => {
                proof {
                    assert(false);
                }
                0
            },
        };
        let mut r: Vec<Token> = Vec::new();
        r.push(Token { id, value: self.unk_token.clone(), offsets: (0, n) });
        proof {
            assert(tokens_model(r@) =~= unk_result(self.vocab@, self.unk_token@, n as int));
        }
        r
    }

    /// The piece string covering `[start, e)` of the word.
    fn build_piece(&self, w: &Vec<char>, start: usize, e: usize) -> (r: String)
        requires
            start <= e <= w@.len(),
        ensures
            r@ == piece_of(w@, self.continuing_subword_prefix@, start as int, e as int),
    {
        let body = chars_to_string(&copy_range(w, start, e));
        if start > 0 {
            let p = self.continuing_subword_prefix.clone();
            p.concat(body.as_str())
        } else {
            body
        }
    }

    /// The longest vocabulary piece starting at `start`, with its id.
    fn longest_match(&self, w: &Vec<char>, start: usize) -> (r: Option<(u32, usize)>)
        requires
            start < w@.len(),
        ensures
            ({
                let best = wp_longest(
                    self.vocab@,
                    w@,
                    self.continuing_subword_prefix@,
                    start as int,
                    w@.len() as int,
                );
                match r {
                    None => best is None,
                    Some(p) => best == Some(p.1 as int) && start < p.1 <= w@.len() && vocab_lookup(
                        self.vocab@,
                        piece_of(
                            w@,
                            self.continuing_subword_prefix@,
                            start as int,
                            p.1 as int,
                        ),
                    ) == Some(p.0),
                }
            }),
    {
        let ghost v = self.vocab@;
        let ghost pfx = self.continuing_subword_prefix@;
        let n = w.len();
        let mut e: usize = n;
        while e > start
            invariant
                start < n,
                e <= n,
                n == w@.len(),
                v == self.vocab@,
                pfx == self.continuing_subword_prefix@,
                wp_longest(v, w@, pfx, start as int, n as int) == wp_longest(
                    v,
                    w@,
                    pfx,
                    start as int,
                    e as int,
                ),
            decreases e,
        {
            let piece = self.build_piece(w, start, e);
            match find_in_vocab(&self.vocab, piece.as_str()) {
                Some(id) => {
                    return Some((id, e));
                },
                None => {
                    e -= 1;
                },
            }
        }
        None
    }

    /// Greedy longest-prefix segmentation of one word: each piece is the
    /// longest vocabulary entry at its position (word-internal pieces
    /// carrying the continuation prefix); over-long words and words with
    /// no decomposition yield the unknown token spanning the whole word.
    pub fn tokenize(&self, word: &str) -> (r: Result<Vec<Token>, VocabularyError>)
        requires
            self.wf(),
        ensures
            r matches Ok(out) && tokens_model(out@) == wordpiece_result(
                self.vocab@,
                word@,
                self.continuing_subword_prefix@,
                self.unk_token@,
                self.max_input_chars_per_word as nat,
            ),
    {
        let ghost v = self.vocab@;
        let ghost pfx = self.continuing_subword_prefix@;
        let n = word.unicode_len();
        if n > self.max_input_chars_per_word {
            return Ok(self.unk_tokens(n));
        }
        let w = str_to_chars(word);
        let mut out: Vec<Token> = Vec::new();
        let mut start: usize = 0;
        while start < n
            invariant
                self.wf(),
                v == self.vocab@,
                pfx == self.continuing_subword_prefix@,
                w@ == word@,
                n == w@.len(),
                start <= n,
                wp_tokens(v, w@, pfx, 0) == (match wp_tokens(v, w@, pfx, start as int) {
                    None => None::<Seq<(u32, Seq<char>, (int, int))>>,
                    Some(rest) => Some(tokens_model(out@) + rest),
                }),
            decreases n - start,
        {
            match self.longest_match(&w, start) {
                None => {
                    return Ok(self.unk_tokens(n));
                },
                Some((id, e)) => {
                    let piece = self.build_piece(&w, start, e);
                    proof {
                        lemma_tokens_model_push(
                            out@,
                            Token { id, value: piece, offsets: (start, e) },
                        );
                        assert(match wp_tokens(v, w@, pfx, e as int) {
                            None => wp_tokens(v, w@, pfx, start as int)
                                == None::<Seq<(u32, Seq<char>, (int, int))>>,
                            Some(rest) => wp_tokens(v, w@, pfx, start as int) == Some(
                                seq![
                                    (
                                        id,
                                        piece_of(w@, pfx, start as int, e as int),
                                        (start as int, e as int),
                                    ),
                                ] + rest,
                            ),
                        });
                    }
                    out.push(Token { id, value: piece, offsets: (start, e) });
                    start = e;
                    proof {
                        match wp_tokens(v, w@, pfx, start as int) {
                            None => {},
                            Some(rest) => {
                                assert(tokens_model(out@) + rest =~= tokens_model(
                                    out@.drop_last(),
                                ) + (seq![
                                    (
                                        out@.last().id,
                                        out@.last().value@,
                                        (
                                            out@.last().offsets.0 as int,
                                            out@.last().offsets.1 as int,
                                        ),
                                    ),
                                ] + rest));
                            },
                        }
                    }
                },
            }
        }
        proof {
            assert(wp_tokens(v, w@, pfx, n as int) == Some(
                Seq::<(u32, Seq<char>, (int, int))>::empty(),
            ));
            assert(tokens_model(out@) + Seq::<(u32, Seq<char>, (int, int))>::empty()
                =~= tokens_model(out@));
        }
        Ok(out)
    }
}

impl Default for WordPiece {
    /// A minimal usable model: a vocabulary holding only the conventional
    /// unknown token, the double-hash continuation prefix, and the
    /// conventional word-length cap.
    fn default() -> (r: WordPiece)
        ensures
            r.wf(),
            r.vocab@.len() == 1,
            r.unk_token@ == "[UNK]"@,
            r.continuing_subword_prefix@ == "##"@,
            r.max_input_chars_per_word == 100,
    {
        let mut vocab: Vec<(String, u32)> = Vec::new();
        vocab.push((<String as vstd::string::StringExecFns>::from_str("[UNK]"), 0));
        proof {
            assert(vocab@.drop_first() =~= Seq::<(String, u32)>::empty());
        }
        WordPiece {
            vocab,
            unk_token: <String as vstd::string::StringExecFns>::from_str("[UNK]"),
            continuing_subword_prefix: <String as vstd::string::StringExecFns>::from_str("##"),
            max_input_chars_per_word: 100,
        }
    }
}

} // verus!
