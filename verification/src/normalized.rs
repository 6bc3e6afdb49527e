//! A text buffer together with an offset map from every character of the
//! current text back to a span of the original input, kept consistent
//! across mutations so that downstream offsets always resolve to positions
//! in the original text.

use vstd::prelude::*;
use crate::chars::{copy_range, str_to_chars};
use crate::tokenizer::Offsets;

verus! {

/// The current text, the original text it was derived from, and one
/// original-text span per current character.
pub struct NormalizedString {
    /// The original input, unchanged for the life of the value.
    pub original: Vec<char>,
    /// The current, possibly transformed, text.
    pub text: Vec<char>,
    /// For each character of `text`, the span of `original` it stands for.
    pub alignments: Vec<(usize, usize)>,
}

impl NormalizedString {
    /// The offset map is total, ordered, and covers the original text
    /// contiguously: consecutive spans abut, the first starts at 0, and the
    /// last ends at the original length.
    pub open spec fn wf(&self) -> bool {
        &&& self.alignments@.len() == self.text@.len()
        &&& forall|i: int|
            0 <= i < self.alignments@.len() ==> (#[trigger] self.alignments@[i]).0
                <= self.alignments@[i].1 <= self.original@.len()
        &&& forall|i: int|
            0 <= i && i + 1 < self.alignments@.len() ==> (#[trigger] self.alignments@[i]).1
                == self.alignments@[i + 1].0
        &&& self.text@.len() > 0 ==> self.alignments@[0].0 == 0 && self.alignments@[self.text@.len()
            - 1].1 == self.original@.len()
        &&& self.text@.len() == 0 ==> self.original@.len() == 0
    }

    /// The original-text span that the current-text span `[start, end)`
    /// resolves to.
    pub open spec fn spec_convert(&self, start: int, end: int) -> (int, int) {
        (self.alignments@[start].0 as int, self.alignments@[end - 1].1 as int)
    }

    /// Creates a normalized string whose offset map is the identity.
    pub fn from(s: &str) -> (r: NormalizedString)
        ensures
            r.wf(),
            r.text@ == s@,
            r.original@ == s@,
            forall|i: int|
                0 <= i < s@.len() ==> (#[trigger] r.alignments@[i]).0 == i && r.alignments@[i].1
                    == i + 1,
    {
        let text = str_to_chars(s);
        let original = str_to_chars(s);
        let n = text.len();
        let mut alignments: Vec<(usize, usize)> = Vec::new();
        let mut i: usize = 0;
        while i < n
            invariant
                i <= n,
                alignments@.len() == i,
                forall|k: int|
                    0 <= k < i ==> (#[trigger] alignments@[k]).0 == k && alignments@[k].1 == k + 1,
            decreases n - i,
        {
            alignments.push((i, i + 1));
            i += 1;
        }
        NormalizedString { original, text, alignments }
    }

    /// The current text.
    pub fn get(&self) -> (r: &Vec<char>)
        ensures
            r@ == self.text@,
    {
        &self.text
    }

    /// The number of characters of the current text.
    pub fn len(&self) -> (r: usize)
        ensures
            r == self.text@.len(),
    {
        self.text.len()
    }

    /// Prepends `s` to the current text; the prepended characters map to the
    /// empty span at the start of the original text, so every previously
    /// reported span still resolves to the same original positions.
    pub fn prepend(&mut self, s: &str)
        requires
            old(self).wf(),
        ensures
            final(self).wf(),
            final(self).original@ == old(self).original@,
            final(self).text@ == s@ + old(self).text@,
            forall|i: int|
                0 <= i < s@.len() ==> (#[trigger] final(self).alignments@[i]).0 == 0
                    && (#[trigger] final(self).alignments@[i]).1 == 0,
            forall|i: int|
                s@.len() <= i < final(self).alignments@.len()
                    ==> #[trigger] final(self).alignments@[i]
                    == old(self).alignments@[i - s@.len()],
    {
        let mut new_text = str_to_chars(s);
        let prefix_len = new_text.len();
        let mut new_alignments: Vec<(usize, usize)> = Vec::new();
        let mut i: usize = 0;
        while i < prefix_len
            invariant
                i <= prefix_len,
                new_alignments@.len() == i,
                forall|k: int|
                    0 <= k < i ==> (#[trigger] new_alignments@[k]).0 == 0 && new_alignments@[k].1
                        == 0,
            decreases prefix_len - i,
        {
            new_alignments.push((0, 0));
            i += 1;
        }
        new_text.append(&mut self.text);
        self.text = new_text;
        new_alignments.append(&mut self.alignments);
        self.alignments = new_alignments;
    }

    /// Replaces the current-text range `[start, end)` by `s`. The first
    /// replacement character takes over the whole original span of the
    /// replaced range; the rest map to the empty span at its end, so every
    /// span reported over the new text still resolves into the original
    /// input and the map stays monotonic.
    pub fn replace(&mut self, start: usize, end: usize, s: &str)
        requires
            old(self).wf(),
            start < end,
            end <= old(self).text@.len(),
            s@.len() > 0,
        ensures
            final(self).wf(),
            final(self).original@ == old(self).original@,
            final(self).text@ == old(self).text@.subrange(0, start as int) + s@ + old(
                self,
            ).text@.subrange(end as int, old(self).text@.len() as int),
            final(self).alignments@.len() == final(self).text@.len(),
            forall|i: int|
                0 <= i < start ==> #[trigger] final(self).alignments@[i] == old(
                    self,
                ).alignments@[i],
            final(self).alignments@[start as int].0 == old(self).alignments@[start as int].0,
            final(self).alignments@[start as int].1 == old(self).alignments@[end - 1].1,
            forall|i: int|
                start < i < start + s@.len() ==> (#[trigger] final(self).alignments@[i]).0 == old(
                    self,
                ).alignments@[end - 1].1 && final(self).alignments@[i].1 == old(
                    self,
                ).alignments@[end - 1].1,
            forall|i: int|
                start + s@.len() <= i < final(self).alignments@.len()
                    ==> #[trigger] final(self).alignments@[i] == old(self).alignments@[i - s@.len()
                    + (end - start)],
    {
        let text_len = self.text.len();
        let mid = str_to_chars(s);
        let mid_len = mid.len();
        let mut new_text = copy_range(&self.text, 0, start);
        let mut mid_mut = mid;
        new_text.append(&mut mid_mut);
        let mut tail = copy_range(&self.text, end, text_len);
        new_text.append(&mut tail);
        let a0 = self.alignments[start].0;
        let b0 = self.alignments[end - 1].1;
        proof {
            lemma_alignments_ordered(self, start as int, end - 1);
        }
        let mut new_al = copy_range(&self.alignments, 0, start);
        new_al.push((a0, b0));
        let mut j: usize = 1;
        while j < mid_len
            invariant
                1 <= j <= mid_len,
                new_al@.len() == start + j,
                new_al@ =~= old(self).alignments@.subrange(0, start as int).push((a0, b0))
                    + Seq::new((j - 1) as nat, |i: int| (b0, b0)),
            decreases mid_len - j,
        {
            new_al.push((b0, b0));
            j += 1;
            proof {
                assert(new_al@ =~= old(self).alignments@.subrange(0, start as int).push((a0, b0))
                    + Seq::new((j - 1) as nat, |i: int| (b0, b0)));
            }
        }
        let mut al_tail = copy_range(&self.alignments, end, text_len);
        new_al.append(&mut al_tail);
        self.text = new_text;
        self.alignments = new_al;
        proof {
            assert(self.text@ =~= old(self).text@.subrange(0, start as int) + s@ + old(
                self,
            ).text@.subrange(end as int, old(self).text@.len() as int));
        }
    }

    /// Resolves a non-empty current-text span to original-text coordinates.
    pub fn convert_offsets(&self, start: usize, end: usize) -> (r: Offsets)
        requires
            self.wf(),
            start < end,
            end <= self.text@.len(),
        ensures
            r.0 as int == self.spec_convert(start as int, end as int).0,
            r.1 as int == self.spec_convert(start as int, end as int).1,
            r.0 <= r.1 <= self.original@.len(),
    {
        let a = self.alignments[start];
        let b = self.alignments[end - 1];
        proof {
            if start < end - 1 {
                lemma_alignments_ordered(self, start as int, end - 1);
            }
        }
        (a.0, b.1)
    }
}

/// A sequence of word spans tiles `[lo, hi)`: each span is non-empty,
/// consecutive spans abut, the first starts at `lo` and the last ends at
/// `hi`.
pub open spec fn spans_tile(ws: Seq<(Seq<char>, (int, int))>, lo: int, hi: int) -> bool {
    &&& (ws.len() == 0 ==> lo == hi)
    &&& (ws.len() > 0 ==> ws[0].1.0 == lo && ws[ws.len() - 1].1.1 == hi)
    &&& forall|k: int| 0 <= k < ws.len() ==> (#[trigger] ws[k]).1.0 < ws[k].1.1
    &&& forall|k: int| 0 <= k < ws.len() ==> lo <= (#[trigger] ws[k]).1.0 && ws[k].1.1 <= hi
    &&& forall|k: int| 0 <= k && k + 1 < ws.len() ==> (#[trigger] ws[k]).1.1 == ws[k + 1].1.0
}

/// The original-text slice that the current-text span `[s, e)` of word `k`
/// resolves to, and the concatenation of those slices from word `k` on.
pub open spec fn span_slice(orig: Seq<char>, al: Seq<(usize, usize)>, s: int, e: int) -> Seq<
    char,
> {
    orig.subrange(al[s].0 as int, al[e - 1].1 as int)
}

/// The concatenation, from word `k` on, of the original-text slices that
/// the words' spans resolve to.
pub open spec fn concat_slices(
    orig: Seq<char>,
    al: Seq<(usize, usize)>,
    ws: Seq<(Seq<char>, (int, int))>,
    k: int,
) -> Seq<char>
    decreases ws.len() - k,
{
    if k < 0 || k >= ws.len() {
        Seq::empty()
    } else {
        span_slice(orig, al, ws[k].1.0, ws[k].1.1) + concat_slices(orig, al, ws, k + 1)
    }
}

/// Offset correctness: when word spans tile the whole current text, the
/// original-text substrings they resolve to through the offset map
/// concatenate back to exactly the original input.
pub proof fn lemma_tiled_spans_reconstruct(ns: NormalizedString, ws: Seq<(Seq<char>, (int, int))>)
    requires
        ns.wf(),
        spans_tile(ws, 0, ns.text@.len() as int),
    ensures
        concat_slices(ns.original@, ns.alignments@, ws, 0) == ns.original@,
{
    if ws.len() == 0 {
        assert(concat_slices(ns.original@, ns.alignments@, ws, 0) =~= ns.original@);
    } else {
        lemma_concat_slices_suffix(ns, ws, 0);
        assert(ns.alignments@[ws[0].1.0].0 == 0);
        assert(concat_slices(ns.original@, ns.alignments@, ws, 0) =~= ns.original@);
    }
}

/// Adjacent subranges of one sequence concatenate to the enclosing one.
proof fn lemma_subrange_concat(s: Seq<char>, a: int, b: int, c: int)
    requires
        0 <= a <= b <= c <= s.len(),
    ensures
        s.subrange(a, b) + s.subrange(b, c) == s.subrange(a, c),
{
    assert(s.subrange(a, b) + s.subrange(b, c) =~= s.subrange(a, c));
}

/// From word `k` on, the concatenated slices cover the original text from
/// the start of word `k`'s resolved span to its end.
proof fn lemma_concat_slices_suffix(
    ns: NormalizedString,
    ws: Seq<(Seq<char>, (int, int))>,
    k: int,
)
    requires
        ns.wf(),
        spans_tile(ws, 0, ns.text@.len() as int),
        0 <= k < ws.len(),
    ensures
        concat_slices(ns.original@, ns.alignments@, ws, k) == ns.original@.subrange(
            ns.alignments@[ws[k].1.0].0 as int,
            ns.original@.len() as int,
        ),
    decreases ws.len() - k,
{
    let orig = ns.original@;
    let al = ns.alignments@;
    let s = ws[k].1.0;
    let e = ws[k].1.1;
    assert(0 <= s < e <= ns.text@.len());
    lemma_alignments_ordered(&ns, s, e - 1);
    if k == ws.len() - 1 {
        assert(e == ns.text@.len());
        assert(al[e - 1].1 == orig.len());
        assert(concat_slices(orig, al, ws, k + 1) == Seq::<char>::empty());
        assert(span_slice(orig, al, s, e) + Seq::<char>::empty() =~= span_slice(orig, al, s, e));
    } else {
        lemma_concat_slices_suffix(ns, ws, k + 1);
        assert(ws[k + 1].1.0 == e);
        assert(al[e - 1].1 == al[e].0);
        assert(al[s].0 <= al[s].1 <= al[e - 1].1);
        lemma_subrange_concat(orig, al[s].0 as int, al[e - 1].1 as int, orig.len() as int);
    }
}

/// In a well-formed offset map, span starts never decrease and each span's
/// start is bounded by any later span's start.
pub proof fn lemma_alignments_ordered(ns: &NormalizedString, i: int, j: int)
    requires
        ns.wf(),
        0 <= i <= j < ns.alignments@.len(),
    ensures
        ns.alignments@[i].0 <= ns.alignments@[j].0,
        ns.alignments@[i].1 <= ns.alignments@[j].1,
    decreases j - i,
{
    if i < j {
        lemma_alignments_ordered(ns, i, j - 1);
        assert(ns.alignments@[j - 1].1 == ns.alignments@[j].0);
    }
}

} // verus!
