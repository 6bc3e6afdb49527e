//! The RoBERTa post-processor: `<s> A </s>` for one sequence and
//! `<s> A </s></s> B </s>` for a pair — two separators between the
//! sequences — with every type-id 0; the offset-trimming and prefix-space
//! flags of the byte-level stage are carried as configuration.

use vstd::prelude::*;
use crate::encoding::{extend_copy, extend_string_clones, push_n, push_string_clone, Encoding};
use crate::processors::bert::{bert_merged_pair, bert_processed_single, merge_pair};

verus! {

/// Inserts `cls` / `sep` special tokens around sequences, with RoBERTa's
/// doubled separator between a pair.
#[derive(Debug)]
pub struct RobertaProcessing {
    pub sep: (String, u32),
    pub cls: (String, u32),
    pub trim_offsets: bool,
    pub add_prefix_space: bool,
}

/// `<s> A </s>`: the single-sequence result, identical in shape to the
/// BERT single-sequence result.
pub open spec fn roberta_processed_single(
    r: Encoding,
    e: Encoding,
    cls: (Seq<char>, u32),
    sep: (Seq<char>, u32),
) -> bool {
    bert_processed_single(r, e, cls, sep)
}

/// `<s> A </s></s> B </s>`: the pair result; RoBERTa uses no segment
/// distinction, so every type-id is 0.
pub open spec fn roberta_processed_pair(
    r: Encoding,
    e: Encoding,
    p: Encoding,
    cls: (Seq<char>, u32),
    sep: (Seq<char>, u32),
) -> bool {
    &&& r.ids@ == seq![cls.1] + e.ids@ + seq![sep.1] + seq![sep.1] + p.ids@ + seq![sep.1]
    &&& r.type_ids@ == seq![0u32] + e.type_ids@ + seq![0u32] + seq![0u32] + Seq::new(
        p.spec_len(),
        |i: int| 0u32,
    ) + seq![0u32]
    &&& r.toks() == seq![cls.0] + e.toks() + seq![sep.0] + seq![sep.0] + p.toks() + seq![sep.0]
    &&& r.offsets@ == seq![(0usize, 0usize)] + e.offsets@ + seq![(0usize, 0usize)] + seq![
        (0usize, 0usize),
    ] + p.offsets@ + seq![(0usize, 0usize)]
    &&& r.special_tokens_mask@ == seq![1u32] + e.special_tokens_mask@ + seq![1u32] + seq![1u32]
        + p.special_tokens_mask@ + seq![1u32]
    &&& r.attention_mask@ == seq![1u32] + e.attention_mask@ + seq![1u32] + seq![1u32]
        + p.attention_mask@ + seq![1u32]
    &&& r.overflowing@.len() == 0
}

impl RobertaProcessing {
    /// A processor with the given separator and classifier tokens, with
    /// offset trimming and the prefix space switched on.
    pub fn new(sep: (String, u32), cls: (String, u32)) -> (r: RobertaProcessing)
        ensures
            r.sep == sep,
            r.cls == cls,
            r.trim_offsets == true,
            r.add_prefix_space == true,
    {
        RobertaProcessing { sep, cls, trim_offsets: true, add_prefix_space: true }
    }

    /// The processor with the offset-trimming flag replaced.
    pub fn trim_offsets(self, v: bool) -> (r: RobertaProcessing)
        ensures
            r.sep == self.sep,
            r.cls == self.cls,
            r.trim_offsets == v,
            r.add_prefix_space == self.add_prefix_space,
    {
        RobertaProcessing { trim_offsets: v, ..self }
    }

    /// The processor with the prefix-space flag replaced.
    pub fn add_prefix_space(self, v: bool) -> (r: RobertaProcessing)
        ensures
            r.sep == self.sep,
            r.cls == self.cls,
            r.trim_offsets == self.trim_offsets,
            r.add_prefix_space == v,
    {
        RobertaProcessing { add_prefix_space: v, ..self }
    }

    /// How many special tokens the processor inserts.
    pub fn added_tokens(&self, is_pair: bool) -> (r: usize)
        ensures
            r == if is_pair {
                4int
            } else {
                2int
            },
    {
        if is_pair {
            4
        } else {
            2
        }
    }

    /// `<s> A </s>`, or `<s> A </s></s> B </s>` for a pair; without
    /// special tokens the sequences are merged unchanged.
    pub fn process(
        &self,
        encoding: Encoding,
        pair_encoding: Option<Encoding>,
        add_special_tokens: bool,
    ) -> (r: Encoding)
        requires
            encoding.wf(),
            pair_encoding matches Some(p) ==> p.wf(),
            encoding.spec_len() + (match pair_encoding {
                Some(p) => p.spec_len(),
                None => 0,
            }) + 4 <= usize::MAX,
        ensures
            r.wf(),
            (match pair_encoding {
                Some(p) => {
                    if add_special_tokens {
                        roberta_processed_pair(
                            r,
                            encoding,
                            p,
                            (self.cls.0@, self.cls.1),
                            (self.sep.0@, self.sep.1),
                        )
                    } else {
                        bert_merged_pair(r, encoding, p)
                    }
                },
                None => {
                    if add_special_tokens {
                        roberta_processed_single(
                            r,
                            encoding,
                            (self.cls.0@, self.cls.1),
                            (self.sep.0@, self.sep.1),
                        )
                    } else {
                        r == encoding
                    }
                },
            }),
    {
        if !add_special_tokens {
            return match pair_encoding {
                None => encoding,
                Some(p) => merge_pair(encoding, p),
            };
        }
        let e = &encoding;
        let mut ids: Vec<u32> = Vec::new();
        ids.push(self.cls.1);
        extend_copy(&mut ids, &e.ids);
        ids.push(self.sep.1);
        let mut type_ids: Vec<u32> = Vec::new();
        type_ids.push(0);
        extend_copy(&mut type_ids, &e.type_ids);
        type_ids.push(0);
        let mut tokens: Vec<String> = Vec::new();
        push_string_clone(&mut tokens, &self.cls.0);
        extend_string_clones(&mut tokens, &e.tokens);
        push_string_clone(&mut tokens, &self.sep.0);
        let mut offsets: Vec<(usize, usize)> = Vec::new();
        offsets.push((0, 0));
        extend_copy(&mut offsets, &e.offsets);
        offsets.push((0, 0));
        let mut special: Vec<u32> = Vec::new();
        special.push(1);
        extend_copy(&mut special, &e.special_tokens_mask);
        special.push(1);
        let mut attention: Vec<u32> = Vec::new();
        attention.push(1);
        extend_copy(&mut attention, &e.attention_mask);
        attention.push(1);
        match pair_encoding {
            None => {
                proof {
                    assert(ids@ =~= seq![self.cls.1] + e.ids@ + seq![self.sep.1]);
                    assert(type_ids@ =~= seq![0u32] + e.type_ids@ + seq![0u32]);
                    assert(tokens.deep_view() =~= seq![self.cls.0@] + e.toks() + seq![
                        self.sep.0@,
                    ]);
                    assert(offsets@ =~= seq![(0usize, 0usize)] + e.offsets@ + seq![
                        (0usize, 0usize),
                    ]);
                    assert(special@ =~= seq![1u32] + e.special_tokens_mask@ + seq![1u32]);
                    assert(attention@ =~= seq![1u32] + e.attention_mask@ + seq![1u32]);
                }
                Encoding {
                    ids,
                    type_ids,
                    tokens,
                    offsets,
                    special_tokens_mask: special,
                    attention_mask: attention,
                    overflowing: Vec::new(),
                }
            },
            Some(p) => {
                ids.push(self.sep.1);
                extend_copy(&mut ids, &p.ids);
                ids.push(self.sep.1);
                type_ids.push(0);
                push_n(&mut type_ids, 0, p.ids.len());
                type_ids.push(0);
                push_string_clone(&mut tokens, &self.sep.0);
                proof {
                    assert(encoding.tokens@.len() == encoding.spec_len());
                    assert(p.tokens@.len() == p.spec_len());
                    assert(tokens.deep_view().len() == encoding.spec_len() + 3);
                    assert(tokens@.len() == encoding.spec_len() + 3);
                }
                extend_string_clones(&mut tokens, &p.tokens);
                push_string_clone(&mut tokens, &self.sep.0);
                offsets.push((0, 0));
                extend_copy(&mut offsets, &p.offsets);
                offsets.push((0, 0));
                special.push(1);
                extend_copy(&mut special, &p.special_tokens_mask);
                special.push(1);
                attention.push(1);
                extend_copy(&mut attention, &p.attention_mask);
                attention.push(1);
                proof {
                    assert(ids@ =~= seq![self.cls.1] + e.ids@ + seq![self.sep.1] + seq![
                        self.sep.1,
                    ] + p.ids@ + seq![self.sep.1]);
                    assert(type_ids@ =~= seq![0u32] + e.type_ids@ + seq![0u32] + seq![0u32]
                        + Seq::new(p.spec_len(), |i: int| 0u32) + seq![0u32]);
                    assert(tokens.deep_view() =~= seq![self.cls.0@] + e.toks() + seq![self.sep.0@]
                        + seq![self.sep.0@] + p.toks() + seq![self.sep.0@]);
                    assert(offsets@ =~= seq![(0usize, 0usize)] + e.offsets@ + seq![
                        (0usize, 0usize),
                    ] + seq![(0usize, 0usize)] + p.offsets@ + seq![(0usize, 0usize)]);
                    assert(special@ =~= seq![1u32] + e.special_tokens_mask@ + seq![1u32] + seq![
                        1u32,
                    ] + p.special_tokens_mask@ + seq![1u32]);
                    assert(attention@ =~= seq![1u32] + e.attention_mask@ + seq![1u32] + seq![1u32]
                        + p.attention_mask@ + seq![1u32]);
                }
                Encoding {
                    ids,
                    type_ids,
                    tokens,
                    offsets,
                    special_tokens_mask: special,
                    attention_mask: attention,
                    overflowing: Vec::new(),
                }
            },
        }
    }
}

} // verus!
