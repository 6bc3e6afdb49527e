//! The BERT post-processor: `[CLS] A [SEP]` for one sequence and
//! `[CLS] A [SEP] B [SEP]` for a pair, with type-id 0 on the first segment
//! and 1 on the second, inserted tokens marked in the special-tokens mask
//! and carrying the empty `(0, 0)` span.

use vstd::prelude::*;
use crate::encoding::{extend_copy, extend_string_clones, push_n, push_string_clone, Encoding};

verus! {

/// Inserts `cls` / `sep` special tokens around sequences.
#[derive(Debug)]
pub struct BertProcessing {
    pub sep: (String, u32),
    pub cls: (String, u32),
}

/// `[CLS] A [SEP]`: the single-sequence result.
pub open spec fn bert_processed_single(
    r: Encoding,
    e: Encoding,
    cls: (Seq<char>, u32),
    sep: (Seq<char>, u32),
) -> bool {
    &&& r.ids@ == seq![cls.1] + e.ids@ + seq![sep.1]
    &&& r.type_ids@ == seq![0u32] + e.type_ids@ + seq![0u32]
    &&& r.toks() == seq![cls.0] + e.toks() + seq![sep.0]
    &&& r.offsets@ == seq![(0usize, 0usize)] + e.offsets@ + seq![(0usize, 0usize)]
    &&& r.special_tokens_mask@ == seq![1u32] + e.special_tokens_mask@ + seq![1u32]
    &&& r.attention_mask@ == seq![1u32] + e.attention_mask@ + seq![1u32]
    &&& r.overflowing@.len() == 0
}

/// `[CLS] A [SEP] B [SEP]`: the pair result, the second segment and its
/// separator carrying type-id 1.
pub open spec fn bert_processed_pair(
    r: Encoding,
    e: Encoding,
    p: Encoding,
    cls: (Seq<char>, u32),
    sep: (Seq<char>, u32),
) -> bool {
    &&& r.ids@ == seq![cls.1] + e.ids@ + seq![sep.1] + p.ids@ + seq![sep.1]
    &&& r.type_ids@ == seq![0u32] + e.type_ids@ + seq![0u32] + Seq::new(
        p.spec_len(),
        |i: int| 1u32,
    ) + seq![1u32]
    &&& r.toks() == seq![cls.0] + e.toks() + seq![sep.0] + p.toks() + seq![sep.0]
    &&& r.offsets@ == seq![(0usize, 0usize)] + e.offsets@ + seq![(0usize, 0usize)] + p.offsets@
        + seq![(0usize, 0usize)]
    &&& r.special_tokens_mask@ == seq![1u32] + e.special_tokens_mask@ + seq![1u32]
        + p.special_tokens_mask@ + seq![1u32]
    &&& r.attention_mask@ == seq![1u32] + e.attention_mask@ + seq![1u32] + p.attention_mask@
        + seq![1u32]
    &&& r.overflowing@.len() == 0
}

/// A pair merged without special tokens: plain concatenation, the second
/// segment carrying type-id 1.
pub open spec fn bert_merged_pair(r: Encoding, e: Encoding, p: Encoding) -> bool {
    &&& r.ids@ == e.ids@ + p.ids@
    &&& r.type_ids@ == e.type_ids@ + Seq::new(p.spec_len(), |i: int| 1u32)
    &&& r.toks() == e.toks() + p.toks()
    &&& r.offsets@ == e.offsets@ + p.offsets@
    &&& r.special_tokens_mask@ == e.special_tokens_mask@ + p.special_tokens_mask@
    &&& r.attention_mask@ == e.attention_mask@ + p.attention_mask@
    &&& r.overflowing@.len() == 0
}

/// Concatenates a pair without special tokens, the second segment's
/// type-ids forced to 1.
pub(crate) fn merge_pair(e: Encoding, p: Encoding) -> (r: Encoding)
    requires
        e.wf(),
        p.wf(),
        e.spec_len() + p.spec_len() + 4 <= usize::MAX,
    ensures
        r.wf(),
        bert_merged_pair(r, e, p),
{
    let mut ids: Vec<u32> = Vec::new();
    extend_copy(&mut ids, &e.ids);
    extend_copy(&mut ids, &p.ids);
    let mut type_ids: Vec<u32> = Vec::new();
    extend_copy(&mut type_ids, &e.type_ids);
    push_n(&mut type_ids, 1, p.ids.len());
    let mut tokens: Vec<String> = Vec::new();
    proof {
        assert(e.tokens@.len() == e.spec_len());
        assert(p.tokens@.len() == p.spec_len());
    }
    extend_string_clones(&mut tokens, &e.tokens);
    extend_string_clones(&mut tokens, &p.tokens);
    let mut offsets: Vec<(usize, usize)> = Vec::new();
    extend_copy(&mut offsets, &e.offsets);
    extend_copy(&mut offsets, &p.offsets);
    let mut special: Vec<u32> = Vec::new();
    extend_copy(&mut special, &e.special_tokens_mask);
    extend_copy(&mut special, &p.special_tokens_mask);
    let mut attention: Vec<u32> = Vec::new();
    extend_copy(&mut attention, &e.attention_mask);
    extend_copy(&mut attention, &p.attention_mask);
    proof {
        assert(ids@ =~= e.ids@ + p.ids@);
        assert(type_ids@ =~= e.type_ids@ + Seq::new(p.spec_len(), |i: int| 1u32));
        assert(tokens.deep_view() =~= e.toks() + p.toks());
        assert(offsets@ =~= e.offsets@ + p.offsets@);
        assert(special@ =~= e.special_tokens_mask@ + p.special_tokens_mask@);
        assert(attention@ =~= e.attention_mask@ + p.attention_mask@);
    }
    Encoding {
        ids,
        type_ids,
        tokens,
        offsets,
        special_tokens_mask: special,
        attention_mask: attention,
        overflowing: Vec::new(),
    }
}

impl BertProcessing {
    /// A processor with the given separator and classifier tokens.
    pub fn new(sep: (String, u32), cls: (String, u32)) -> (r: BertProcessing)
        ensures
            r.sep == sep,
            r.cls == cls,
    {
        BertProcessing { sep, cls }
    }

    /// How many special tokens the processor inserts.
    pub fn added_tokens(&self, is_pair: bool) -> (r: usize)
        ensures
            r == if is_pair {
                3int
            } else {
                2int
            },
    {
        if is_pair {
            3
        } else {
            2
        }
    }

    /// `[CLS] A [SEP]`, or `[CLS] A [SEP] B [SEP]` for a pair; without
    /// special tokens the sequences are merged unchanged.
    pub fn process(
        &self,
        encoding: Encoding,
        pair_encoding: Option<Encoding>,
        add_special_tokens: bool,
    ) -> (r: Encoding)
        requires
            encoding.wf(),
            pair_encoding matches Some(p) ==> p.wf(),
            encoding.spec_len() + (match pair_encoding {
                Some(p) => p.spec_len(),
                None => 0,
            }) + 4 <= usize::MAX,
        ensures
            r.wf(),
            (match pair_encoding {
                Some(p) => {
                    if add_special_tokens {
                        bert_processed_pair(
                            r,
                            encoding,
                            p,
                            (self.cls.0@, self.cls.1),
                            (self.sep.0@, self.sep.1),
                        )
                    } else {
                        bert_merged_pair(r, encoding, p)
                    }
                },
                None => {
                    if add_special_tokens {
                        bert_processed_single(
                            r,
                            encoding,
                            (self.cls.0@, self.cls.1),
                            (self.sep.0@, self.sep.1),
                        )
                    } else {
                        r == encoding
                    }
                },
            }),
    {
        if !add_special_tokens {
            return match pair_encoding {
                None => encoding,
                Some(p) => merge_pair(encoding, p),
            };
        }
        let e = &encoding;
        let mut ids: Vec<u32> = Vec::new();
        ids.push(self.cls.1);
        extend_copy(&mut ids, &e.ids);
        ids.push(self.sep.1);
        let mut type_ids: Vec<u32> = Vec::new();
        type_ids.push(0);
        extend_copy(&mut type_ids, &e.type_ids);
        type_ids.push(0);
        let mut tokens: Vec<String> = Vec::new();
        push_string_clone(&mut tokens, &self.cls.0);
        extend_string_clones(&mut tokens, &e.tokens);
        push_string_clone(&mut tokens, &self.sep.0);
        let mut offsets: Vec<(usize, usize)> = Vec::new();
        offsets.push((0, 0));
        extend_copy(&mut offsets, &e.offsets);
        offsets.push((0, 0));
        let mut special: Vec<u32> = Vec::new();
        special.push(1);
        extend_copy(&mut special, &e.special_tokens_mask);
        special.push(1);
        let mut attention: Vec<u32> = Vec::new();
        attention.push(1);
        extend_copy(&mut attention, &e.attention_mask);
        attention.push(1);
        match pair_encoding {
            None => {
                proof {
                    assert(ids@ =~= seq![self.cls.1] + e.ids@ + seq![self.sep.1]);
                    assert(type_ids@ =~= seq![0u32] + e.type_ids@ + seq![0u32]);
                    assert(tokens.deep_view() =~= seq![self.cls.0@] + e.toks() + seq![
                        self.sep.0@,
                    ]);
                    assert(offsets@ =~= seq![(0usize, 0usize)] + e.offsets@ + seq![
                        (0usize, 0usize),
                    ]);
                    assert(special@ =~= seq![1u32] + e.special_tokens_mask@ + seq![1u32]);
                    assert(attention@ =~= seq![1u32] + e.attention_mask@ + seq![1u32]);
                }
                Encoding {
                    ids,
                    type_ids,
                    tokens,
                    offsets,
                    special_tokens_mask: special,
                    attention_mask: attention,
                    overflowing: Vec::new(),
                }
            },
            Some(p) => {
                extend_copy(&mut ids, &p.ids);
                ids.push(self.sep.1);
                push_n(&mut type_ids, 1, p.ids.len());
                type_ids.push(1);
                proof {
                    assert(encoding.tokens@.len() == encoding.spec_len());
                    assert(p.tokens@.len() == p.spec_len());
                    assert(tokens.deep_view().len() == encoding.spec_len() + 2);
                    assert(tokens@.len() == encoding.spec_len() + 2);
                }
                extend_string_clones(&mut tokens, &p.tokens);
                push_string_clone(&mut tokens, &self.sep.0);
                extend_copy(&mut offsets, &p.offsets);
                offsets.push((0, 0));
                extend_copy(&mut special, &p.special_tokens_mask);
                special.push(1);
                extend_copy(&mut attention, &p.attention_mask);
                attention.push(1);
                proof {
                    assert(ids@ =~= seq![self.cls.1] + e.ids@ + seq![self.sep.1] + p.ids@ + seq![
                        self.sep.1,
                    ]);
                    assert(type_ids@ =~= seq![0u32] + e.type_ids@ + seq![0u32] + Seq::new(
                        p.spec_len(),
                        |i: int| 1u32,
                    ) + seq![1u32]);
                    assert(tokens.deep_view() =~= seq![self.cls.0@] + e.toks() + seq![self.sep.0@]
                        + p.toks() + seq![self.sep.0@]);
                    assert(offsets@ =~= seq![(0usize, 0usize)] + e.offsets@ + seq![
                        (0usize, 0usize),
                    ] + p.offsets@ + seq![(0usize, 0usize)]);
                    assert(special@ =~= seq![1u32] + e.special_tokens_mask@ + seq![1u32]
                        + p.special_tokens_mask@ + seq![1u32]);
                    assert(attention@ =~= seq![1u32] + e.attention_mask@ + seq![1u32]
                        + p.attention_mask@ + seq![1u32]);
                }
                Encoding {
                    ids,
                    type_ids,
                    tokens,
                    offsets,
                    special_tokens_mask: special,
                    attention_mask: attention,
                    overflowing: Vec::new(),
                }
            },
        }
    }
}

} // verus!
