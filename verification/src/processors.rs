//! Post-processors: they inject special tokens around one sequence or a
//! pair of them, set segment type-ids, and mark the inserted tokens in the
//! special-tokens mask. The set of processors is a closed tagged enum.

pub mod bert;
pub mod roberta;

use vstd::prelude::*;
use crate::encoding::Encoding;
use crate::processors::bert::{
    bert_merged_pair, bert_processed_pair, bert_processed_single, BertProcessing,
};
use crate::processors::roberta::{
    roberta_processed_pair, roberta_processed_single, RobertaProcessing,
};

verus! {

/// The closed set of post-processors, selectable at runtime.
#[derive(Debug)]
pub enum PostProcessor {
    Bert(BertProcessing),
    Roberta(RobertaProcessing),
}

/// How many special tokens the processor inserts for one sequence or a
/// pair.
pub open spec fn spec_added_tokens(p: PostProcessor, is_pair: bool) -> nat {
    match p {
        PostProcessor::Bert(_) => if is_pair {
            3
        } else {
            2
        },
        PostProcessor::Roberta(_) => if is_pair {
            4
        } else {
            2
        },
    }
}

impl PostProcessor {
    /// How many special tokens this processor inserts.
    pub fn added_tokens(&self, is_pair: bool) -> (r: usize)
        ensures
            r == spec_added_tokens(*self, is_pair),
    {
        match self {
            PostProcessor::Bert(_) => {
                if is_pair {
                    3
                } else {
                    2
                }
            },
            PostProcessor::Roberta(_) => {
                if is_pair {
                    4
                } else {
                    2
                }
            },
        }
    }

    /// How many special tokens this processor inserts; callers use it to
    /// compute truncation budgets before encoding.
    pub fn num_special_tokens_to_add(&self, is_pair: bool) -> (r: usize)
        ensures
            r == spec_added_tokens(*self, is_pair),
    {
        self.added_tokens(is_pair)
    }

    /// Applies the selected processor.
    pub fn process(
        &self,
        encoding: Encoding,
        pair_encoding: Option<Encoding>,
        add_special_tokens: bool,
    ) -> (r: Encoding)
        requires
            encoding.wf(),
            pair_encoding matches Some(p) ==> p.wf(),
            encoding.spec_len() + (match pair_encoding {
                Some(p) => p.spec_len(),
                None => 0,
            }) + 4 <= usize::MAX,
        ensures
            r.wf(),
            (match self {
                PostProcessor::Bert(b) => match pair_encoding {
                    Some(p) => {
                        if add_special_tokens {
                            bert_processed_pair(
                                r,
                                encoding,
                                p,
                                (b.cls.0@, b.cls.1),
                                (b.sep.0@, b.sep.1),
                            )
                        } else {
                            bert_merged_pair(r, encoding, p)
                        }
                    },
                    None => {
                        if add_special_tokens {
                            bert_processed_single(
                                r,
                                encoding,
                                (b.cls.0@, b.cls.1),
                                (b.sep.0@, b.sep.1),
                            )
                        } else {
                            r == encoding
                        }
                    },
                },
                PostProcessor::Roberta(rb) => match pair_encoding {
                    Some(p) => {
                        if add_special_tokens {
                            roberta_processed_pair(
                                r,
                                encoding,
                                p,
                                (rb.cls.0@, rb.cls.1),
                                (rb.sep.0@, rb.sep.1),
                            )
                        } else {
                            bert_merged_pair(r, encoding, p)
                        }
                    },
                    None => {
                        if add_special_tokens {
                            roberta_processed_single(
                                r,
                                encoding,
                                (rb.cls.0@, rb.cls.1),
                                (rb.sep.0@, rb.sep.1),
                            )
                        } else {
                            r == encoding
                        }
                    },
                },
            }),
    {
        match self {
            PostProcessor::Bert(b) => b.process(encoding, pair_encoding, add_special_tokens),
            PostProcessor::Roberta(rb) => rb.process(encoding, pair_encoding, add_special_tokens),
        }
    }
}

} // verus!
