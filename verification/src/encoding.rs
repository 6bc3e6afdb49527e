//! The result record of tokenization: parallel sequences of ids, token
//! strings, offsets and masks, together with the truncate and pad
//! operations and the overflow bookkeeping that truncation produces.

use vstd::prelude::*;
use crate::chars::copy_range;
use crate::tokenizer::{Offsets, PaddingDirection};
use vstd::string::StringExecFns;

verus! {

/// One tokenized sequence. The six per-token vectors always have the same
/// length; `overflowing` holds what truncation discarded, with some overlap
/// for context.
#[derive(Debug)]
pub struct Encoding {
    pub ids: Vec<u32>,
    pub type_ids: Vec<u32>,
    pub tokens: Vec<String>,
    pub offsets: Vec<Offsets>,
    pub special_tokens_mask: Vec<u32>,
    pub attention_mask: Vec<u32>,
    pub overflowing: Vec<Encoding>,
}

/// `s` extended by `n` copies of `v`, on the left or on the right.
pub open spec fn padded_seq<T>(s: Seq<T>, v: T, n: nat, left: bool) -> Seq<T> {
    if left {
        Seq::new(n, |i: int| v) + s
    } else {
        s + Seq::new(n, |i: int| v)
    }
}

impl Encoding {
    /// The number of tokens.
    pub open spec fn spec_len(&self) -> nat {
        self.ids@.len()
    }

    /// The token strings as sequences of characters.
    pub open spec fn toks(&self) -> Seq<Seq<char>> {
        self.tokens.deep_view()
    }

    /// All six per-token vectors have the same length.
    pub open spec fn lens_ok(&self) -> bool {
        &&& self.type_ids@.len() == self.ids@.len()
        &&& self.tokens@.len() == self.ids@.len()
        &&& self.offsets@.len() == self.ids@.len()
        &&& self.special_tokens_mask@.len() == self.ids@.len()
        &&& self.attention_mask@.len() == self.ids@.len()
    }

    /// The record and every overflow entry are length-consistent; overflow
    /// entries carry no overflow of their own.
    pub open spec fn wf(&self) -> bool {
        &&& self.lens_ok()
        &&& forall|i: int|
            0 <= i < self.overflowing@.len() ==> (#[trigger] self.overflowing@[i]).lens_ok()
                && self.overflowing@[i].overflowing@.len() == 0
    }

    /// Creates an encoding from its six per-token vectors, with no overflow.
    pub fn new(
        ids: Vec<u32>,
        type_ids: Vec<u32>,
        tokens: Vec<String>,
        offsets: Vec<Offsets>,
        special_tokens_mask: Vec<u32>,
        attention_mask: Vec<u32>,
    ) -> (r: Encoding)
        requires
            type_ids@.len() == ids@.len(),
            tokens@.len() == ids@.len(),
            offsets@.len() == ids@.len(),
            special_tokens_mask@.len() == ids@.len(),
            attention_mask@.len() == ids@.len(),
        ensures
            r.wf(),
            r.ids == ids,
            r.type_ids == type_ids,
            r.tokens == tokens,
            r.offsets == offsets,
            r.special_tokens_mask == special_tokens_mask,
            r.attention_mask == attention_mask,
            r.overflowing@.len() == 0,
    {
        Encoding {
            ids,
            type_ids,
            tokens,
            offsets,
            special_tokens_mask,
            attention_mask,
            overflowing: Vec::new(),
        }
    }

    /// The number of tokens.
    pub fn len(&self) -> (r: usize)
        ensures
            r == self.spec_len(),
    {
        self.ids.len()
    }

    /// Whether the encoding holds no tokens.
    pub fn is_empty(&self) -> (r: bool)
        ensures
            r == (self.spec_len() == 0),
    {
        self.ids.len() == 0
    }

    /// Keeps the first `max_len` tokens and moves the rest, preceded by up
    /// to `stride` kept tokens of overlap, into a single overflow encoding.
    /// Does nothing when the encoding already fits.
    pub fn truncate(&mut self, max_len: usize, stride: usize)
        requires
            old(self).wf(),
        ensures
            trunc_rel(*final(self), *old(self), max_len as nat, stride as nat),
            final(self).wf(),
    {
        let len = self.ids.len();
        if max_len >= len {
            return ;
        }
        let overlap = if stride <= max_len {
            stride
        } else {
            max_len
        };
        let lo = max_len - overlap;
        let chunk = Encoding {
            ids: copy_range(&self.ids, lo, len),
            type_ids: copy_range(&self.type_ids, lo, len),
            tokens: clone_string_range(&self.tokens, lo, len),
            offsets: copy_range(&self.offsets, lo, len),
            special_tokens_mask: copy_range(&self.special_tokens_mask, lo, len),
            attention_mask: copy_range(&self.attention_mask, lo, len),
            overflowing: Vec::new(),
        };
        self.ids.truncate(max_len);
        self.type_ids.truncate(max_len);
        self.tokens.truncate(max_len);
        self.offsets.truncate(max_len);
        self.special_tokens_mask.truncate(max_len);
        self.attention_mask.truncate(max_len);
        let mut ov: Vec<Encoding> = Vec::new();
        ov.push(chunk);
        self.overflowing = ov;
        proof {
            assert(self.tokens.deep_view() =~= old(self).tokens.deep_view().take(max_len as int));
            assert(self.overflowing@[0].tokens.deep_view() =~= old(self).tokens.deep_view().subrange(
                lo as int,
                len as int,
            ));
        }
    }

    /// Pads the encoding to `target_length` tokens by adding `pad_id` /
    /// `pad_type_id` / `pad_token` entries with attention 0 on the chosen
    /// side. Does nothing when the encoding is already long enough.
    pub fn pad(
        &mut self,
        target_length: usize,
        pad_id: u32,
        pad_type_id: u32,
        pad_token: &str,
        direction: PaddingDirection,
    )
        requires
            old(self).lens_ok(),
        ensures
            pad_rel(
                *final(self),
                *old(self),
                target_length as nat,
                pad_id,
                pad_type_id,
                pad_token@,
                direction,
            ),
    {
        let len = self.ids.len();
        if len >= target_length {
            return ;
        }
        let n = target_length - len;
        match direction {
            PaddingDirection::Right => {
                push_n(&mut self.ids, pad_id, n);
                push_n(&mut self.type_ids, pad_type_id, n);
                push_n_string(&mut self.tokens, pad_token, n);
                push_n(&mut self.offsets, (0, 0), n);
                push_n(&mut self.special_tokens_mask, 1, n);
                push_n(&mut self.attention_mask, 0, n);
            },
            PaddingDirection::Left => {
                prepend_n(&mut self.ids, pad_id, n);
                prepend_n(&mut self.type_ids, pad_type_id, n);
                prepend_n_string(&mut self.tokens, pad_token, n);
                prepend_n(&mut self.offsets, (0, 0), n);
                prepend_n(&mut self.special_tokens_mask, 1, n);
                prepend_n(&mut self.attention_mask, 0, n);
            },
        }
    }
}

/// How a padded encoding relates to the encoding it came from.
pub open spec fn pad_rel(
    new_e: Encoding,
    old_e: Encoding,
    target: nat,
    pad_id: u32,
    pad_type_id: u32,
    pad_tok: Seq<char>,
    dir: PaddingDirection,
) -> bool {
    if old_e.spec_len() >= target {
        new_e == old_e
    } else {
        let n = (target - old_e.spec_len()) as nat;
        let left = dir is Left;
        &&& new_e.ids@ == padded_seq(old_e.ids@, pad_id, n, left)
        &&& new_e.type_ids@ == padded_seq(old_e.type_ids@, pad_type_id, n, left)
        &&& new_e.toks() == padded_seq(old_e.toks(), pad_tok, n, left)
        &&& new_e.offsets@ == padded_seq(old_e.offsets@, (0usize, 0usize), n, left)
        &&& new_e.special_tokens_mask@ == padded_seq(old_e.special_tokens_mask@, 1u32, n, left)
        &&& new_e.attention_mask@ == padded_seq(old_e.attention_mask@, 0u32, n, left)
        &&& new_e.overflowing@ == old_e.overflowing@
    }
}

/// How a truncated encoding relates to the encoding it came from.
pub open spec fn trunc_rel(new_e: Encoding, old_e: Encoding, max_len: nat, stride: nat) -> bool {
    if old_e.spec_len() <= max_len {
        new_e == old_e
    } else {
        let lo = max_len - overlap_of(stride, max_len);
        let hi = old_e.spec_len() as int;
        &&& new_e.ids@ == old_e.ids@.take(max_len as int)
        &&& new_e.type_ids@ == old_e.type_ids@.take(max_len as int)
        &&& new_e.toks() == old_e.toks().take(max_len as int)
        &&& new_e.offsets@ == old_e.offsets@.take(max_len as int)
        &&& new_e.special_tokens_mask@ == old_e.special_tokens_mask@.take(max_len as int)
        &&& new_e.attention_mask@ == old_e.attention_mask@.take(max_len as int)
        &&& new_e.overflowing@.len() == 1
        &&& overflow_chunk_rel(new_e.overflowing@[0], old_e, lo as int, hi)
    }
}

/// The overlap kept in front of an overflow chunk: `stride`, capped at the
/// truncation length.
pub open spec fn overlap_of(stride: nat, max_len: nat) -> nat {
    if stride <= max_len {
        stride
    } else {
        max_len
    }
}

/// The overflow chunk holds exactly the entries of `[lo, hi)`.
pub open spec fn overflow_chunk_rel(chunk: Encoding, old_e: Encoding, lo: int, hi: int) -> bool {
    &&& chunk.ids@ == old_e.ids@.subrange(lo, hi)
    &&& chunk.type_ids@ == old_e.type_ids@.subrange(lo, hi)
    &&& chunk.toks() == old_e.toks().subrange(lo, hi)
    &&& chunk.offsets@ == old_e.offsets@.subrange(lo, hi)
    &&& chunk.special_tokens_mask@ == old_e.special_tokens_mask@.subrange(lo, hi)
    &&& chunk.attention_mask@ == old_e.attention_mask@.subrange(lo, hi)
    &&& chunk.overflowing@.len() == 0
}

/// Appends a copy of every element of `src`.
pub fn extend_copy<T: Copy>(dst: &mut Vec<T>, src: &Vec<T>)
    requires
        old(dst)@.len() + src@.len() <= usize::MAX,
    ensures
        final(dst)@ == old(dst)@ + src@,
{
    let mut i: usize = 0;
    while i < src.len()
        invariant
            i <= src@.len(),
            dst@ == old(dst)@ + src@.subrange(0, i as int),
        decreases src@.len() - i,
    {
        dst.push(src[i]);
        i += 1;
        proof {
            assert(dst@ =~= old(dst)@ + src@.subrange(0, i as int));
        }
    }
    proof {
        assert(dst@ =~= old(dst)@ + src@);
    }
}

/// Appends a character-identical clone of one string.
pub fn push_string_clone(dst: &mut Vec<String>, s: &String)
    ensures
        final(dst).deep_view() == old(dst).deep_view().push(s@),
        final(dst)@.len() == old(dst)@.len() + 1,
{
    dst.push(s.clone());
    proof {
        assert(dst.deep_view() =~= old(dst).deep_view().push(s@));
    }
}

/// Appends a character-identical clone of every string of `src`.
pub fn extend_string_clones(dst: &mut Vec<String>, src: &Vec<String>)
    requires
        old(dst)@.len() + src@.len() <= usize::MAX,
    ensures
        final(dst).deep_view() == old(dst).deep_view() + src.deep_view(),
{
    let ghost orig = *old(dst);
    let mut i: usize = 0;
    while i < src.len()
        invariant
            i <= src@.len(),
            dst@.len() == orig@.len() + i,
            forall|k: int| 0 <= k < orig@.len() ==> #[trigger] dst@[k] == orig@[k],
            forall|k: int|
                orig@.len() <= k < dst@.len() ==> #[trigger] dst@[k]@ == src@[k - orig@.len()]@,
        decreases src@.len() - i,
    {
        dst.push(src[i].clone());
        i += 1;
    }
    proof {
        assert(dst.deep_view() =~= orig.deep_view() + src.deep_view());
    }
}

/// Clones of `v[lo..hi]`, character-identical to the originals.
fn clone_string_range(v: &Vec<String>, lo: usize, hi: usize) -> (r: Vec<String>)
    requires
        lo <= hi <= v@.len(),
    ensures
        r.deep_view() == v.deep_view().subrange(lo as int, hi as int),
{
    let mut r: Vec<String> = Vec::new();
    let mut i: usize = lo;
    while i < hi
        invariant
            lo <= i <= hi <= v@.len(),
            r@.len() == i - lo,
            forall|k: int| 0 <= k < i - lo ==> #[trigger] r@[k]@ == v@[lo + k]@,
        decreases hi - i,
    {
        r.push(v[i].clone());
        i += 1;
    }
    proof {
        assert(r.deep_view() =~= v.deep_view().subrange(lo as int, hi as int));
    }
    r
}

/// Appends `n` copies of `x`.
pub(crate) fn push_n<T: Copy>(v: &mut Vec<T>, x: T, n: usize)
    requires
        old(v)@.len() + n <= usize::MAX,
    ensures
        final(v)@ == old(v)@ + Seq::new(n as nat, |i: int| x),
    decreases n,
{
    let mut i: usize = 0;
    while i < n
        invariant
            i <= n,
            v@ == old(v)@ + Seq::new(i as nat, |k: int| x),
        decreases n - i,
    {
        v.push(x);
        i += 1;
        proof {
            assert(v@ =~= old(v)@ + Seq::new(i as nat, |k: int| x));
        }
    }
}

/// Prepends `n` copies of `x`.
fn prepend_n<T: Copy>(v: &mut Vec<T>, x: T, n: usize)
    requires
        old(v)@.len() + n <= usize::MAX,
    ensures
        final(v)@ == Seq::new(n as nat, |i: int| x) + old(v)@,
{
    let mut prefix: Vec<T> = Vec::new();
    push_n(&mut prefix, x, n);
    prefix.append(v);
    *v = prefix;
    proof {
        assert(v@ =~= Seq::new(n as nat, |i: int| x) + old(v)@);
    }
}

/// Appends `n` fresh copies of the token string.
fn push_n_string(v: &mut Vec<String>, tok: &str, n: usize)
    requires
        old(v)@.len() + n <= usize::MAX,
    ensures
        final(v).deep_view() == old(v).deep_view() + Seq::new(n as nat, |i: int| tok@),
{
    let ghost orig = *old(v);
    let mut i: usize = 0;
    while i < n
        invariant
            i <= n,
            v@.len() == orig@.len() + i,
            forall|k: int| 0 <= k < orig@.len() ==> #[trigger] v@[k] == orig@[k],
            forall|k: int| orig@.len() <= k < v@.len() ==> #[trigger] v@[k]@ == tok@,
        decreases n - i,
    {
        v.push(String::from_str(tok));
        i += 1;
    }
    proof {
        assert(v.deep_view() =~= orig.deep_view() + Seq::new(n as nat, |i: int| tok@));
    }
}

/// Prepends `n` fresh copies of the token string.
fn prepend_n_string(v: &mut Vec<String>, tok: &str, n: usize)
    requires
        old(v)@.len() + n <= usize::MAX,
    ensures
        final(v).deep_view() == Seq::new(n as nat, |i: int| tok@) + old(v).deep_view(),
{
    let ghost orig = *old(v);
    let mut prefix: Vec<String> = Vec::new();
    push_n_string(&mut prefix, tok, n);
    prefix.append(v);
    *v = prefix;
    proof {
        assert(v.deep_view() =~= Seq::new(n as nat, |i: int| tok@) + orig.deep_view());
    }
}

} // verus!
