//! Byte-pair encoding: a word is split into per-character symbols, then
//! the adjacent pair with the lowest merge rank is merged, repeatedly,
//! until no mergeable pair remains; final symbols resolve in the
//! vocabulary, falling back to the unknown token when one is configured.
//! Results are cached per word, and a cache hit reproduces exactly what a
//! fresh computation yields.

use vstd::prelude::*;
use vstd::string::StringExecFns;
use crate::chars::str_to_chars;
use crate::models::{clone_tokens, find_in_vocab, tokens_model, vocab_lookup, Token};
use crate::tokenizer::{BuildError, Offsets, VocabularyError};

verus! {

/// A byte-pair-encoding model: a vocabulary, an ordered merge table whose
/// index is the rank, optional unknown token and sub-word markers, and a
/// bounded cache of per-word results.
#[derive(Debug)]
pub struct BPE {
    pub vocab: Vec<(String, u32)>,
    pub merges: Vec<(String, String)>,
    pub unk_token: Option<String>,
    pub continuing_subword_prefix: Option<String>,
    pub end_of_word_suffix: Option<String>,
    pub cache: Vec<(String, Vec<Token>)>,
    pub cache_capacity: usize,
}

/// The characters of an optional marker string; empty when absent.
pub open spec fn opt_chars(o: Option<String>) -> Seq<char> {
    match o {
        Some(s) => s@,
        None => Seq::empty(),
    }
}

/// The mathematical reading of an executable symbol list.
pub open spec fn syms_model(s: Seq<(String, Offsets)>) -> Seq<(Seq<char>, (int, int))> {
    Seq::new(s.len(), |k: int| (s[k].0@, (s[k].1.0 as int, s[k].1.1 as int)))
}

/// The initial symbols of a word: one per character, the word-internal
/// ones prefixed by the continuation marker, the last one suffixed by the
/// end-of-word marker; each spans its own character.
pub open spec fn bpe_init_symbols(w: Seq<char>, pfx: Seq<char>, sfx: Seq<char>) -> Seq<
    (Seq<char>, (int, int)),
> {
    Seq::new(
        w.len(),
        |k: int|
            (
                (if k > 0 {
                    pfx
                } else {
                    Seq::empty()
                }) + seq![w[k]] + (if k == w.len() - 1 {
                    sfx
                } else {
                    Seq::empty()
                }),
                (k, k + 1),
            ),
    )
}

/// The rank of the pair `(a, b)` in the merge table, scanning from `i`:
/// the index of its first occurrence.
pub open spec fn pair_rank(m: Seq<(String, String)>, a: Seq<char>, b: Seq<char>, i: int) -> Option<
    int,
>
    decreases m.len() - i,
{
    if i < 0 || i >= m.len() {
        None
    } else if m[i].0@ == a && m[i].1@ == b {
        Some(i)
    } else {
        pair_rank(m, a, b, i + 1)
    }
}

/// The better of the current best pair and the pair at position `j` with
/// rank `r`: a strictly lower rank wins, so the leftmost occurrence of the
/// minimal rank is kept.
pub open spec fn better_pair(cur: Option<(int, int)>, j: int, r: Option<int>) -> Option<
    (int, int),
> {
    match r {
        None => cur,
        Some(rank) => match cur {
            None => Some((j, rank)),
            Some(c) => if rank < c.1 {
                Some((j, rank))
            } else {
                cur
            },
        },
    }
}

/// The best mergeable adjacent pair from position `i` on, folded onto the
/// accumulator: the leftmost pair of minimal rank.
pub open spec fn best_pair_from(
    syms: Seq<(Seq<char>, (int, int))>,
    m: Seq<(String, String)>,
    i: int,
    acc: Option<(int, int)>,
) -> Option<(int, int)>
    decreases syms.len() - i,
{
    if i < 0 || i + 1 >= syms.len() {
        acc
    } else {
        best_pair_from(syms, m, i + 1, better_pair(acc, i, pair_rank(m, syms[i].0, syms[i + 1].0, 0)))
    }
}

/// The symbols with the pair at `i` merged into one symbol spanning both.
pub open spec fn merge_at(syms: Seq<(Seq<char>, (int, int))>, i: int) -> Seq<
    (Seq<char>, (int, int)),
> {
    syms.take(i) + seq![(syms[i].0 + syms[i + 1].0, (syms[i].1.0, syms[i + 1].1.1))] + syms.skip(
        i + 2,
    )
}

/// The fixpoint of merging: repeatedly merge the leftmost minimal-rank
/// pair until none remains.
pub open spec fn bpe_merged(
    syms: Seq<(Seq<char>, (int, int))>,
    m: Seq<(String, String)>,
) -> Seq<(Seq<char>, (int, int))>
    decreases syms.len(),
{
    match best_pair_from(syms, m, 0, None) {
        None => syms,
        Some(p) => {
            if 0 <= p.0 && p.0 + 1 < syms.len() {
                bpe_merged(merge_at(syms, p.0), m)
            } else {
                syms
            }
        },
    }
}

/// Every final symbol resolves, either directly or through a configured
/// unknown token.
pub open spec fn all_resolvable(
    v: Seq<(String, u32)>,
    unk: Option<String>,
    syms: Seq<(Seq<char>, (int, int))>,
) -> bool {
    unk is Some || forall|k: int|
        0 <= k < syms.len() ==> vocab_lookup(v, (#[trigger] syms[k]).0) is Some
}

/// The tokens of the final symbols: each symbol's id, or the unknown token
/// in its place, with the symbol's span.
pub open spec fn resolve_symbols(
    v: Seq<(String, u32)>,
    unk: Option<String>,
    syms: Seq<(Seq<char>, (int, int))>,
) -> Seq<(u32, Seq<char>, (int, int))> {
    Seq::new(
        syms.len(),
        |k: int|
            match vocab_lookup(v, syms[k].0) {
                Some(id) => (id, syms[k].0, syms[k].1),
                None => (vocab_lookup(v, opt_chars(unk))->0, opt_chars(unk), syms[k].1),
            },
    )
}

/// A configured unknown token resolves in the vocabulary.
pub open spec fn unk_ok_spec(v: Seq<(String, u32)>, unk: Option<String>) -> bool {
    match unk {
        Some(u) => vocab_lookup(v, u@) is Some,
        None => true,
    }
}

/// Every merge pair and its merged form resolve in the vocabulary.
pub open spec fn merges_ok(v: Seq<(String, u32)>, m: Seq<(String, String)>) -> bool {
    forall|k: int|
        0 <= k < m.len() ==> vocab_lookup(v, (#[trigger] m[k]).0@) is Some && vocab_lookup(
            v,
            m[k].1@,
        ) is Some && vocab_lookup(v, m[k].0@ + m[k].1@) is Some
}

impl BPE {
    /// What tokenizing `w` yields: `None` stands for the vocabulary error
    /// raised when a symbol cannot resolve and no unknown token is set.
    pub open spec fn spec_tokenize(&self, w: Seq<char>) -> Option<
        Seq<(u32, Seq<char>, (int, int))>,
    > {
        let syms = bpe_merged(
            bpe_init_symbols(
                w,
                opt_chars(self.continuing_subword_prefix),
                opt_chars(self.end_of_word_suffix),
            ),
            self.merges@,
        );
        if all_resolvable(self.vocab@, self.unk_token, syms) {
            Some(resolve_symbols(self.vocab@, self.unk_token, syms))
        } else {
            None
        }
    }

    /// Two models with the same configuration, caches aside.
    pub open spec fn same_config(&self, other: &BPE) -> bool {
        &&& self.vocab == other.vocab
        &&& self.merges == other.merges
        &&& self.unk_token == other.unk_token
        &&& self.continuing_subword_prefix == other.continuing_subword_prefix
        &&& self.end_of_word_suffix == other.end_of_word_suffix
    }

    /// The unknown token resolves, the cache is within capacity, and every
    /// cache entry holds exactly what a fresh computation of its word
    /// yields.
    pub open spec fn wf(&self) -> bool {
        &&& (self.unk_token matches Some(u) ==> vocab_lookup(self.vocab@, u@) is Some)
        &&& self.cache@.len() <= self.cache_capacity
        &&& forall|k: int|
            0 <= k < self.cache@.len() ==> self.spec_tokenize((#[trigger] self.cache@[k]).0@)
                == Some(tokens_model(self.cache@[k].1@))
    }

    /// A model; fails when the unknown token or a merge pair does not
    /// resolve in the vocabulary.
    pub fn new(
        vocab: Vec<(String, u32)>,
        merges: Vec<(String, String)>,
        cache_capacity: usize,
        unk_token: Option<String>,
        continuing_subword_prefix: Option<String>,
        end_of_word_suffix: Option<String>,
    ) -> (r: Result<BPE, BuildError>)
        ensures
            !unk_ok_spec(vocab@, unk_token) ==> r == Err::<BPE, BuildError>(
                BuildError::UnkTokenNotInVocabulary,
            ),
            unk_ok_spec(vocab@, unk_token) && !merges_ok(vocab@, merges@) ==> r == Err::<
                BPE,
                BuildError,
            >(BuildError::MergeReferencesUnknownToken),
            unk_ok_spec(vocab@, unk_token) && merges_ok(vocab@, merges@) ==> (r matches Ok(m)
                && m.wf() && m.vocab == vocab
                && m.merges == merges && m.unk_token == unk_token && m.continuing_subword_prefix
                == continuing_subword_prefix && m.end_of_word_suffix == end_of_word_suffix
                && m.cache_capacity == cache_capacity && m.cache@.len() == 0),
    {
        let unk_ok = match &unk_token {
            Some(u) => find_in_vocab(&vocab, u.as_str()).is_some(),
            None => true,
        };
        proof {
            assert(unk_ok == unk_ok_spec(vocab@, unk_token));
        }
        if !unk_ok {
            return Err(BuildError::UnkTokenNotInVocabulary);
        }
        let mut k: usize = 0;
        while k < merges.len()
            invariant
                unk_ok_spec(vocab@, unk_token),
                k <= merges@.len(),
                forall|j: int|
                    0 <= j < k ==> vocab_lookup(vocab@, (#[trigger] merges@[j]).0@) is Some
                        && vocab_lookup(vocab@, merges@[j].1@) is Some && vocab_lookup(
                        vocab@,
                        merges@[j].0@ + merges@[j].1@,
                    ) is Some,
            decreases merges@.len() - k,
        {
            let a_ok = find_in_vocab(&vocab, merges[k].0.as_str()).is_some();
            let b_ok = find_in_vocab(&vocab, merges[k].1.as_str()).is_some();
            let joined = merges[k].0.clone().concat(merges[k].1.as_str());
            let j_ok = find_in_vocab(&vocab, joined.as_str()).is_some();
            if !(a_ok && b_ok && j_ok) {
                return Err(BuildError::MergeReferencesUnknownToken);
            }
            k += 1;
        }
        Ok(
            BPE {
                vocab,
                merges,
                unk_token,
                continuing_subword_prefix,
                end_of_word_suffix,
                cache: Vec::new(),
                cache_capacity,
            },
        )
    }

    /// The rank of the adjacent pair `(a, b)`, if the merge table holds it.
    fn find_pair_rank(&self, a: &str, b: &str) -> (r: Option<usize>)
        ensures
            ({
                let spec_r = pair_rank(self.merges@, a@, b@, 0);
                match r {
                    None => spec_r is None,
                    Some(rk) => spec_r == Some(rk as int),
                }
            }),
    {
        let mut i: usize = 0;
        while i < self.merges.len()
            invariant
                i <= self.merges@.len(),
                pair_rank(self.merges@, a@, b@, 0) == pair_rank(self.merges@, a@, b@, i as int),
            decreases self.merges@.len() - i,
        {
            let ha = crate::chars::str_eq(self.merges[i].0.as_str(), a);
            let hb = crate::chars::str_eq(self.merges[i].1.as_str(), b);
            if ha && hb {
                return Some(i);
            }
            i += 1;
        }
        None
    }

    /// The leftmost adjacent pair of minimal rank, as position and rank.
    fn find_best_pair(&self, symbols: &Vec<(String, Offsets)>) -> (r: Option<(usize, usize)>)
        ensures
            ({
                let spec_r = best_pair_from(syms_model(symbols@), self.merges@, 0, None);
                match r {
                    None => spec_r is None,
                    Some(p) => spec_r == Some((p.0 as int, p.1 as int)) && p.0 + 1
                        < symbols@.len(),
                }
            }),
    {
        let ghost sm = syms_model(symbols@);
        let mut best: Option<(usize, usize)> = None;
        let mut i: usize = 0;
        let n = symbols.len();
        if n < 2 {
            return None;
        }
        while i < n - 1
            invariant
                sm == syms_model(symbols@),
                n == symbols@.len(),
                2 <= n,
                i + 1 <= symbols@.len(),
                best_pair_from(sm, self.merges@, 0, None) == best_pair_from(
                    sm,
                    self.merges@,
                    i as int,
                    match best {
                        None => None::<(int, int)>,
                        Some(p) => Some((p.0 as int, p.1 as int)),
                    },
                ),
                (match best {
                    None => true,
                    Some(p) => p.0 + 1 < symbols@.len(),
                }),
            decreases symbols@.len() - i,
        {
            let rank = self.find_pair_rank(symbols[i].0.as_str(), symbols[i + 1].0.as_str());
            proof {
                assert(sm[i as int].0 == symbols@[i as int].0@);
                assert(sm[i + 1].0 == symbols@[i + 1].0@);
            }
            match rank {
                None => {},
                Some(rk) => {
                    match best {
                        None => {
                            best = Some((i, rk));
                        },
                        Some(p) => {
                            if rk < p.1 {
                                best = Some((i, rk));
                            }
                        },
                    }
                },
            }
            i += 1;
        }
        best
    }

    /// One symbol per character of the word, with the configured markers.
    fn init_symbols(&self, word: &str) -> (r: Vec<(String, Offsets)>)
        ensures
            syms_model(r@) == bpe_init_symbols(
                word@,
                opt_chars(self.continuing_subword_prefix),
                opt_chars(self.end_of_word_suffix),
            ),
    {
        let ghost pfx = opt_chars(self.continuing_subword_prefix);
        let ghost sfx = opt_chars(self.end_of_word_suffix);
        let w = str_to_chars(word);
        let n = w.len();
        let mut out: Vec<(String, Offsets)> = Vec::new();
        let mut k: usize = 0;
        while k < n
            invariant
                n == w@.len(),
                w@ == word@,
                pfx == opt_chars(self.continuing_subword_prefix),
                sfx == opt_chars(self.end_of_word_suffix),
                k <= n,
                out@.len() == k,
                forall|j: int|
                    0 <= j < k ==> (#[trigger] out@[j]).0@ == bpe_init_symbols(word@, pfx, sfx)[j].0
                        && out@[j].1.0 == j && out@[j].1.1 == j + 1,
            decreases n - k,
        {
            let mut sym = String::new();
            if k > 0 {
                match &self.continuing_subword_prefix {
                    Some(p) => sym.append(p.as_str()),
                    None => {},
                }
            }
            sym.push(w[k]);
            if k == n - 1 {
                match &self.end_of_word_suffix {
                    Some(s) => sym.append(s.as_str()),
                    None => {},
                }
            }
            proof {
                assert(sym@ =~= (if k > 0 {
                    pfx
                } else {
                    Seq::<char>::empty()
                }) + seq![word@[k as int]] + (if k == n - 1 {
                    sfx
                } else {
                    Seq::<char>::empty()
                }));
            }
            out.push((sym, (k, k + 1)));
            k += 1;
        }
        proof {
            assert(syms_model(out@) =~= bpe_init_symbols(word@, pfx, sfx));
        }
        out
    }
}

/// Clones of the symbols in `[lo, hi)`, model-identical.
fn clone_syms_range(v: &Vec<(String, Offsets)>, lo: usize, hi: usize) -> (r: Vec<
    (String, Offsets),
>)
    requires
        lo <= hi <= v@.len(),
    ensures
        syms_model(r@) == syms_model(v@).subrange(lo as int, hi as int),
{
    let mut r: Vec<(String, Offsets)> = Vec::new();
    let mut i: usize = lo;
    while i < hi
        invariant
            lo <= i <= hi <= v@.len(),
            r@.len() == i - lo,
            forall|k: int|
                0 <= k < i - lo ==> (#[trigger] r@[k]).0@ == v@[lo + k].0@ && r@[k].1 == v@[lo
                    + k].1,
        decreases hi - i,
    {
        let p = &v[i];
        r.push((p.0.clone(), p.1));
        i += 1;
    }
    proof {
        assert(syms_model(r@) =~= syms_model(v@).subrange(lo as int, hi as int));
    }
    r
}

/// The symbol list with the pair at `i` merged into one symbol.
fn merge_symbols(symbols: &Vec<(String, Offsets)>, i: usize) -> (r: Vec<(String, Offsets)>)
    requires
        i + 1 < symbols@.len(),
    ensures
        syms_model(r@) == merge_at(syms_model(symbols@), i as int),
        r@.len() == symbols@.len() - 1,
{
    let n = symbols.len();
    let mut out = clone_syms_range(symbols, 0, i);
    let merged = symbols[i].0.clone().concat(symbols[i + 1].0.as_str());
    out.push((merged, (symbols[i].1.0, symbols[i + 1].1.1)));
    let mut tail = clone_syms_range(symbols, i + 2, n);
    out.append(&mut tail);
    proof {
        assert(syms_model(out@) =~= merge_at(syms_model(symbols@), i as int));
    }
    out
}

impl BPE {
    /// Tokenizes one word: per-character symbols are repeatedly merged at
    /// the lowest-ranked adjacent pair, and the final symbols resolve in
    /// the vocabulary, the unknown token standing in where one is
    /// configured. The result is what a fresh computation of the word
    /// yields, whatever the cache holds; computed results are cached, the
    /// oldest entry leaving a full cache.
    pub fn tokenize(&mut self, word: &str) -> (r: Result<Vec<Token>, VocabularyError>)
        requires
            old(self).wf(),
        ensures
            final(self).wf(),
            final(self).same_config(old(self)),
            (match old(self).spec_tokenize(word@) {
                Some(ts) => r matches Ok(out) && tokens_model(out@) == ts,
                None => r == Err::<Vec<Token>, VocabularyError>(VocabularyError::SymbolNotFound),
            }),
    {
        let mut ci: usize = 0;
        while ci < self.cache.len()
            invariant
                *self == *old(self),
                old(self).wf(),
                ci <= self.cache@.len(),
            decreases self.cache@.len() - ci,
        {
            let hit = crate::chars::str_eq(self.cache[ci].0.as_str(), word);
            if hit {
                let out = clone_tokens(&self.cache[ci].1);
                return Ok(out);
            }
            ci += 1;
        }
        let mut symbols = self.init_symbols(word);
        let ghost init_m = syms_model(symbols@);
        let mut done = false;
        while !done
            invariant
                *self == *old(self),
                old(self).wf(),
                bpe_merged(syms_model(symbols@), self.merges@) == bpe_merged(
                    init_m,
                    self.merges@,
                ),
                done ==> best_pair_from(syms_model(symbols@), self.merges@, 0, None) is None,
            decreases symbols@.len(), (if done {
                0int
            } else {
                1int
            }),
        {
            match self.find_best_pair(&symbols) {
                None => {
                    done = true;
                },
                Some((p, _rk)) => {
                    let ghost s = syms_model(symbols@);
                    proof {
                        assert(bpe_merged(s, self.merges@) == bpe_merged(
                            merge_at(s, p as int),
                            self.merges@,
                        ));
                    }
                    symbols = merge_symbols(&symbols, p);
                },
            }
        }
        proof {
            assert(syms_model(symbols@) == bpe_merged(init_m, self.merges@));
        }
        let ghost fin = syms_model(symbols@);
        let mut out: Vec<Token> = Vec::new();
        let mut k: usize = 0;
        while k < symbols.len()
            invariant
                *self == *old(self),
                old(self).wf(),
                k <= symbols@.len(),
                fin == syms_model(symbols@),
                fin == bpe_merged(
                    bpe_init_symbols(
                        word@,
                        opt_chars(self.continuing_subword_prefix),
                        opt_chars(self.end_of_word_suffix),
                    ),
                    self.merges@,
                ),
                out@.len() == k,
                forall|j: int|
                    0 <= j < k ==> vocab_lookup(self.vocab@, (#[trigger] fin[j]).0) is Some
                        || self.unk_token is Some,
                forall|j: int|
                    0 <= j < k ==> #[trigger] tokens_model(out@)[j] == resolve_symbols(
                        self.vocab@,
                        self.unk_token,
                        fin,
                    )[j],
            decreases symbols@.len() - k,
        {
            let ghost out_before = out@;
            match find_in_vocab(&self.vocab, symbols[k].0.as_str()) {
                Some(id) => {
                    let val = symbols[k].0.clone();
                    out.push(Token { id, value: val, offsets: symbols[k].1 });
                },
                None => {
                    match &self.unk_token {
                        Some(u) => {
                            let uid = match find_in_vocab(&self.vocab, u.as_str()) {
                                Some(x) => x,
                                None => {
                                    proof {
                                        assert(false);
                                    }
                                    0
                                },
                            };
                            out.push(Token { id: uid, value: u.clone(), offsets: symbols[k].1 });
                        },
                        None => {
                            proof {
                                assert(fin[k as int].0 == symbols@[k as int].0@);
                                assert(vocab_lookup(self.vocab@, fin[k as int].0) is None);
                                assert(!all_resolvable(self.vocab@, self.unk_token, fin));
                            }
                            return Err(VocabularyError::SymbolNotFound);
                        },
                    }
                },
            }
            k += 1;
            proof {
                assert(forall|j: int|
                    0 <= j < k - 1 ==> #[trigger] tokens_model(out@)[j] == tokens_model(
                        out_before,
                    )[j]);
            }
        }
        proof {
            assert(all_resolvable(self.vocab@, self.unk_token, fin));
            assert(tokens_model(out@) =~= resolve_symbols(self.vocab@, self.unk_token, fin));
        }
        if self.cache_capacity > 0 {
            let ghost cache_before = self.cache@;
            if self.cache.len() >= self.cache_capacity {
                self.cache.remove(0);
                proof {
                    assert(forall|j: int|
                        0 <= j < self.cache@.len() ==> #[trigger] self.cache@[j] == cache_before[j
                            + 1]);
                }
            }
            let copy = clone_tokens(&out);
            self.cache.push((word.to_owned(), copy));
        }
        Ok(out)
    }
}

impl Default for BPE {
    /// An empty model: no vocabulary, no merges, no unknown token, and
    /// the conventional cache bound.
    fn default() -> (r: BPE)
        ensures
            r.wf(),
            r.vocab@.len() == 0,
            r.merges@.len() == 0,
            r.unk_token is None,
            r.continuing_subword_prefix is None,
            r.end_of_word_suffix is None,
            r.cache@.len() == 0,
            r.cache_capacity == 10000,
    {
        BPE {
            vocab: Vec::new(),
            merges: Vec::new(),
            unk_token: None,
            continuing_subword_prefix: None,
            end_of_word_suffix: None,
            cache: Vec::new(),
            cache_capacity: 10000,
        }
    }
}

/// Byte-pair tokenization is deterministic: what a word tokenizes to is a
/// function of the model configuration and the word alone — the cache
/// plays no part, so a warm cache yields exactly what a cold one does.
pub proof fn lemma_bpe_deterministic(a: BPE, b: BPE, w: Seq<char>)
    requires
        a.same_config(&b),
    ensures
        a.spec_tokenize(w) == b.spec_tokenize(w),
{
}

} // verus!
