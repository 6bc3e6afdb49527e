//! Replaces every whitespace character by a configured meta character and
//! splits at whitespace: each whitespace character starts a new word that
//! begins with the replacement, and the decoder maps the replacement back
//! to spaces.

use vstd::prelude::*;
use vstd::string::StrSliceExecFns;
use crate::chars::{is_whitespace_char, is_ws, str_to_chars};
use crate::normalized::NormalizedString;
use crate::pre_tokenizers::{
    as_spec_words, flat_tokens, lemma_as_spec_words_push, lemma_flat_tokens_prepend,
    lemma_words_chars_prepend, words_chars,
};
use crate::normalized::{concat_slices, lemma_tiled_spans_reconstruct, spans_tile};
use crate::tokenizer::{BuildError, Offsets};

verus! {

/// Replaces whitespace by `replacement` and splits on it; with
/// `add_prefix_space`, a space is first prepended unless the text already
/// starts with one.
#[derive(Debug, Clone, Copy, PartialEq, Eq, Structural)]
pub struct Metaspace {
    pub replacement: char,
    pub add_prefix_space: bool,
}

/// The word covering `[start, end)`: the characters of `text`, with each
/// whitespace character replaced by `repl`.
pub open spec fn masked_word(text: Seq<char>, repl: char, start: int, end: int) -> Seq<char> {
    Seq::new(
        (end - start) as nat,
        |j: int|
            if is_ws(text[start + j]) {
                repl
            } else {
                text[start + j]
            },
    )
}

/// The words and spans that the metaspace split of `text` yields, reading
/// from position `i` with the current word having started at `start`: a
/// word ends before each whitespace character, which starts the next word.
pub open spec fn metaspace_word_spans(text: Seq<char>, repl: char, i: int, start: int) -> Seq<
    (Seq<char>, (int, int)),
>
    decreases text.len() - i,
{
    if i < 0 || i >= text.len() {
        if start < i {
            seq![(masked_word(text, repl, start, i), (start, i))]
        } else {
            Seq::empty()
        }
    } else if is_ws(text[i]) {
        if start < i {
            seq![(masked_word(text, repl, start, i), (start, i))] + metaspace_word_spans(
                text,
                repl,
                i + 1,
                i,
            )
        } else {
            metaspace_word_spans(text, repl, i + 1, start)
        }
    } else {
        metaspace_word_spans(text, repl, i + 1, start)
    }
}

/// The text that pre-tokenization actually reads: the input, with a space
/// prepended when `add_prefix_space` is set and none is there yet.
pub open spec fn prefixed_text(t0: Seq<char>, add_prefix_space: bool) -> Seq<char> {
    if add_prefix_space && !(t0.len() > 0 && t0[0] == ' ') {
        seq![' '] + t0
    } else {
        t0
    }
}

/// The decoded reading of the flattened token characters from position `j`
/// on: `repl` becomes a space, except at the very first position when
/// `add_prefix_space` is set, where it is dropped; other characters stand.
pub open spec fn decode_chars(flat: Seq<char>, repl: char, add_prefix_space: bool, j: int) -> Seq<
    char,
>
    decreases flat.len() - j,
{
    if j < 0 || j >= flat.len() {
        Seq::empty()
    } else {
        let head = if flat[j] == repl {
            if j == 0 && add_prefix_space {
                Seq::<char>::empty()
            } else {
                seq![' ']
            }
        } else {
            seq![flat[j]]
        };
        head + decode_chars(flat, repl, add_prefix_space, j + 1)
    }
}

impl Metaspace {
    /// A metaspace splitter with the given replacement character.
    pub fn new(replacement: char, add_prefix_space: bool) -> (r: Metaspace)
        ensures
            r.replacement == replacement,
            r.add_prefix_space == add_prefix_space,
    {
        Metaspace { replacement, add_prefix_space }
    }

    /// A metaspace splitter whose replacement is the single character of
    /// `s`; fails unless `s` is exactly one character long.
    pub fn new_from_str(s: &str, add_prefix_space: bool) -> (r: Result<Metaspace, BuildError>)
        ensures
            s@.len() == 1 ==> (r matches Ok(m) && m.replacement == s@[0] && m.add_prefix_space
                == add_prefix_space),
            s@.len() != 1 ==> r == Err::<Metaspace, BuildError>(BuildError::NotSingleChar),
    {
        let n = s.unicode_len();
        if n == 1 {
            Ok(Metaspace { replacement: s.get_char(0), add_prefix_space })
        } else {
            Err(BuildError::NotSingleChar)
        }
    }

    /// Prepends a space when configured and the text has none, then splits:
    /// every whitespace character starts a new word beginning with the
    /// replacement character; offsets count characters of the (possibly
    /// space-prefixed) text.
    pub fn pre_tokenize(&self, normalized: &mut NormalizedString) -> (r: Vec<(String, Offsets)>)
        requires
            old(normalized).wf(),
        ensures
            final(normalized).wf(),
            final(normalized).original@ == old(normalized).original@,
            final(normalized).text@ == prefixed_text(
                old(normalized).text@,
                self.add_prefix_space,
            ),
            as_spec_words(r@) == metaspace_word_spans(
                final(normalized).text@,
                self.replacement,
                0,
                0,
            ),
    {
        let needs_prefix = self.add_prefix_space && !(normalized.text.len() > 0 && {
            let c0 = normalized.text[0];
            c0 == ' '
        });
        if needs_prefix {
            proof {
                reveal_strlit(" ");
            }
            normalized.prepend(" ");
            proof {
                assert(normalized.text@ =~= prefixed_text(
                    old(normalized).text@,
                    self.add_prefix_space,
                ));
            }
        }
        let ghost t = normalized.text@;
        let ghost repl = self.replacement;
        let text_len = normalized.text.len();
        let mut words: Vec<(String, Offsets)> = Vec::new();
        let mut word: String = String::new();
        let mut start: usize = 0;
        let mut i: usize = 0;
        while i < text_len
            invariant
                normalized.wf(),
                t == normalized.text@,
                repl == self.replacement,
                text_len == t.len(),
                start <= i <= text_len,
                word@ == masked_word(t, repl, start as int, i as int),
                as_spec_words(words@) + metaspace_word_spans(t, repl, i as int, start as int)
                    == metaspace_word_spans(t, repl, 0, 0),
                normalized.original@ == old(normalized).original@,
                normalized.text@ == prefixed_text(old(normalized).text@, self.add_prefix_space),
            decreases text_len - i,
        {
            let c = normalized.text[i];
            if is_whitespace_char(c) {
                if start < i {
                    proof {
                        lemma_as_spec_words_push(words@, (word, (start, i)));
                        assert(as_spec_words(words@).push((word@, (start as int, i as int)))
                            + metaspace_word_spans(t, repl, i + 1, i as int) =~= as_spec_words(
                            words@,
                        ) + (seq![
                            (masked_word(t, repl, start as int, i as int), (start as int, i as int)),
                        ] + metaspace_word_spans(t, repl, i + 1, i as int)));
                    }
                    words.push((word, (start, i)));
                    word = String::new();
                    start = i;
                }
                word.push(self.replacement);
                proof {
                    assert(word@ =~= masked_word(t, repl, start as int, (i + 1) as int));
                }
            } else {
                word.push(c);
                proof {
                    assert(word@ =~= masked_word(t, repl, start as int, (i + 1) as int));
                }
            }
            i += 1;
        }
        if start < text_len {
            proof {
                lemma_as_spec_words_push(words@, (word, (start, text_len)));
                assert(as_spec_words(words@).push((word@, (start as int, text_len as int)))
                    =~= as_spec_words(words@) + seq![
                    (
                        masked_word(t, repl, start as int, text_len as int),
                        (start as int, text_len as int),
                    ),
                ]);
            }
            words.push((word, (start, text_len)));
        }
        words
    }

    /// Joins the tokens' characters, turning every occurrence of the
    /// replacement character into a space, except the very first character
    /// of the very first token when `add_prefix_space` is set, which is
    /// dropped.
    pub fn decode(&self, tokens: Vec<String>) -> (r: String)
        ensures
            r@ == decode_chars(
                flat_tokens(tokens.deep_view()),
                self.replacement,
                self.add_prefix_space,
                0,
            ),
    {
        let ghost ts = tokens.deep_view();
        let mut flat: Vec<char> = Vec::new();
        let mut k: usize = 0;
        while k < tokens.len()
            invariant
                k <= tokens@.len(),
                ts == tokens.deep_view(),
                flat@ == flat_tokens(ts.take(k as int)),
            decreases tokens@.len() - k,
        {
            let mut cs = str_to_chars(tokens[k].as_str());
            flat.append(&mut cs);
            k += 1;
            proof {
                assert(ts.take(k as int).drop_last() =~= ts.take(k - 1));
                assert(flat@ =~= flat_tokens(ts.take(k as int)));
            }
        }
        proof {
            assert(ts.take(tokens@.len() as int) =~= ts);
        }
        let ghost f = flat@;
        let flat_len = flat.len();
        let mut out: String = String::new();
        let mut j: usize = 0;
        while j < flat_len
            invariant
                j <= flat_len,
                f == flat@,
                flat_len == f.len(),
                decode_chars(f, self.replacement, self.add_prefix_space, 0) == out@ + decode_chars(
                    f,
                    self.replacement,
                    self.add_prefix_space,
                    j as int,
                ),
            decreases flat_len - j,
        {
            let c = flat[j];
            if c == self.replacement {
                if !(j == 0 && self.add_prefix_space) {
                    out.push(' ');
                }
            } else {
                out.push(c);
            }
            j += 1;
            proof {
                assert(decode_chars(f, self.replacement, self.add_prefix_space, 0) =~= out@
                    + decode_chars(f, self.replacement, self.add_prefix_space, j as int));
            }
        }
        out
    }
}

/// The spans of a metaspace split tile `[start, text.len())`: they are
/// non-empty, abut, start at `start` and end at the text's end.
pub proof fn lemma_metaspace_spans_tile_from(text: Seq<char>, repl: char, i: int, start: int)
    requires
        0 <= start <= i <= text.len(),
        start < i || start == 0,
    ensures
        spans_tile(metaspace_word_spans(text, repl, i, start), start, text.len() as int),
    decreases text.len() - i,
{
    let ws = metaspace_word_spans(text, repl, i, start);
    if i >= text.len() {
    } else if is_ws(text[i]) && start < i {
        lemma_metaspace_spans_tile_from(text, repl, i + 1, i);
        let rest = metaspace_word_spans(text, repl, i + 1, i);
        assert(rest.len() > 0);
        assert(ws.len() == 1 + rest.len());
        assert(ws[0].1.0 == start && ws[0].1.1 == i);
        assert(forall|k: int| 0 <= k < rest.len() ==> ws[k + 1] == rest[k]);
        assert(ws[ws.len() - 1].1.1 == text.len());
    } else {
        lemma_metaspace_spans_tile_from(text, repl, i + 1, start);
    }
}

/// Flattening the words of a metaspace split from state `(i, start)` gives
/// the masked text from `start` to the end.
pub proof fn lemma_metaspace_flatten(text: Seq<char>, repl: char, i: int, start: int)
    requires
        0 <= start <= i <= text.len(),
        start < i || start == 0,
    ensures
        flat_tokens(words_chars(metaspace_word_spans(text, repl, i, start))) == masked_word(
            text,
            repl,
            start,
            text.len() as int,
        ),
    decreases text.len() - i,
{
    let ws = metaspace_word_spans(text, repl, i, start);
    let n = text.len() as int;
    if i >= text.len() {
        if start < i {
            assert(words_chars(ws) =~= seq![masked_word(text, repl, start, n)]);
            lemma_flat_tokens_prepend(
                masked_word(text, repl, start, n),
                Seq::<Seq<char>>::empty(),
            );
            assert(seq![masked_word(text, repl, start, n)] + Seq::<Seq<char>>::empty()
                =~= seq![masked_word(text, repl, start, n)]);
            assert(masked_word(text, repl, start, n) + flat_tokens(Seq::<Seq<char>>::empty())
                =~= masked_word(text, repl, start, n));
        } else {
            assert(words_chars(ws) =~= Seq::<Seq<char>>::empty());
            assert(masked_word(text, repl, start, n) =~= Seq::<char>::empty());
        }
    } else if is_ws(text[i]) && start < i {
        lemma_metaspace_flatten(text, repl, i + 1, i);
        let rest = metaspace_word_spans(text, repl, i + 1, i);
        let w = masked_word(text, repl, start, i);
        lemma_words_chars_prepend((w, (start, i)), rest);
        lemma_flat_tokens_prepend(w, words_chars(rest));
        assert(words_chars(ws) == seq![w] + words_chars(rest)) by {
            assert(ws =~= seq![(w, (start, i))] + rest);
            assert(words_chars(seq![(w, (start, i))] + rest) =~= seq![w] + words_chars(rest));
        }
        assert(w + masked_word(text, repl, i, n) =~= masked_word(text, repl, start, n));
    } else {
        lemma_metaspace_flatten(text, repl, i + 1, start);
    }
}

/// Offset correctness for the metaspace split: the spans reported over the
/// (possibly space-prefixed) text, resolved through the offset map,
/// reconstruct exactly the original input.
pub proof fn lemma_metaspace_offsets_reconstruct(ns: NormalizedString, repl: char)
    requires
        ns.wf(),
    ensures
        concat_slices(
            ns.original@,
            ns.alignments@,
            metaspace_word_spans(ns.text@, repl, 0, 0),
            0,
        ) == ns.original@,
{
    lemma_metaspace_spans_tile_from(ns.text@, repl, 0, 0);
    lemma_tiled_spans_reconstruct(ns, metaspace_word_spans(ns.text@, repl, 0, 0));
}

/// Decoding the masked text from position `j >= 1` on recovers the text
/// from `j` on, provided no later character is the replacement and all
/// later whitespace is a plain space.
proof fn lemma_decode_masked(t: Seq<char>, repl: char, j: int)
    requires
        1 <= j <= t.len(),
        forall|i: int| 1 <= i < t.len() ==> t[i] != repl && (is_ws(t[i]) ==> t[i] == ' '),
    ensures
        decode_chars(masked_word(t, repl, 0, t.len() as int), repl, true, j) == t.subrange(
            j,
            t.len() as int,
        ),
    decreases t.len() - j,
{
    let n = t.len() as int;
    let m = masked_word(t, repl, 0, n);
    if j >= n {
        assert(decode_chars(m, repl, true, j) =~= t.subrange(j, n));
    } else {
        lemma_decode_masked(t, repl, j + 1);
        if is_ws(t[j]) {
            assert(m[j] == repl);
            assert(seq![' '] + t.subrange(j + 1, n) =~= t.subrange(j, n));
        } else {
            assert(m[j] == t[j]);
            assert(seq![t[j]] + t.subrange(j + 1, n) =~= t.subrange(j, n));
        }
    }
}

/// The metaspace round trip: decoding the tokens of the split of `x`, with
/// a prefix space, recovers `x` exactly — for inputs that hold no
/// replacement character, whose whitespace is only plain spaces, and that
/// do not start with a space.
pub proof fn lemma_metaspace_round_trip(x: Seq<char>, repl: char)
    requires
        forall|i: int| 0 <= i < x.len() ==> x[i] != repl,
        forall|i: int| 0 <= i < x.len() && is_ws(x[i]) ==> x[i] == ' ',
        x.len() > 0 ==> x[0] != ' ',
    ensures
        decode_chars(
            flat_tokens(words_chars(metaspace_word_spans(prefixed_text(x, true), repl, 0, 0))),
            repl,
            true,
            0,
        ) == x,
{
    let t = prefixed_text(x, true);
    assert(t =~= seq![' '] + x);
    lemma_metaspace_flatten(t, repl, 0, 0);
    let n = t.len() as int;
    let m = masked_word(t, repl, 0, n);
    assert(is_ws(t[0]));
    assert(m[0] == repl);
    if n == 1 {
        assert(decode_chars(m, repl, true, 1) == Seq::<char>::empty());
        assert(decode_chars(m, repl, true, 0) =~= x);
    } else {
        assert(forall|i: int| 1 <= i < t.len() ==> t[i] == x[i - 1]);
        lemma_decode_masked(t, repl, 1);
        assert(t.subrange(1, n) =~= x);
        assert(decode_chars(m, repl, true, 0) =~= x);
    }
}

impl Default for Metaspace {
    /// The conventional metaspace configuration: the lower-one-eighth block
    /// character as replacement, with a prefix space.
    fn default() -> (r: Metaspace)
        ensures
            r.replacement == '\u{2581}',
            r.add_prefix_space == true,
    {
        Metaspace { replacement: '\u{2581}', add_prefix_space: true }
    }
}

} // verus!
