//! Batch-level truncation and padding: the parameter records, the error
//! taxonomy of truncation, and the two utilities applied across one or a
//! pair of encodings. Padding across a batch is data-parallel.

use vstd::prelude::*;
use crate::encoding::{Encoding, pad_rel, trunc_rel};
use crate::tokenizer::PaddingDirection;
use rayon::iter::IntoParallelRefIterator;
use rayon::iter::IntoParallelRefMutIterator;
use rayon::iter::ParallelIterator;

verus! {

/// How truncation is performed: disabled when `max_length` is 0; `stride`
/// tokens of kept context precede each overflow chunk.
#[derive(Debug, Clone)]
pub struct TruncationParams {
    pub max_length: usize,
    pub strategy: TruncationStrategy,
    pub stride: usize,
}

/// How padding is performed across a batch.
#[derive(Debug, Clone)]
pub struct PaddingParams {
    pub strategy: PaddingStrategy,
    pub direction: PaddingDirection,
    pub pad_id: u32,
    pub pad_type_id: u32,
    pub pad_token: String,
}

/// Pad to the longest length in the batch, or to a fixed length.
#[derive(Debug, Clone, Copy, PartialEq, Eq, Structural)]
pub enum PaddingStrategy {
    BatchLongest,
    Fixed(usize),
}

/// Truncation failures: caller-input misuse, surfaced synchronously.
#[derive(Debug, Clone, Copy, PartialEq, Eq, Structural)]
pub enum Error {
    SecondSequenceNotProvided,
    SequenceTooShort,
}

impl Error {
    /// A human-readable description of the error.
    pub fn message(&self) -> (r: &'static str)
        ensures
            self is SecondSequenceNotProvided ==> r@
                == "Truncation error: Second sequence not provided"@,
            self is SequenceTooShort ==> r@
                == "Truncation error: Sequence to truncate too short to respect the provided max_length"@,
    {
        match self {
            Error::SecondSequenceNotProvided => "Truncation error: Second sequence not provided",
            Error::SequenceTooShort => {
                "Truncation error: Sequence to truncate too short to respect the provided max_length"
            },
        }
    }
}

/// Which sequence(s) tokens are removed from when truncating.
#[derive(Debug, Clone, Copy, PartialEq, Eq, Structural)]
pub enum TruncationStrategy {
    LongestFirst,
    OnlyFirst,
    OnlySecond,
}

impl TruncationStrategy {
    /// The stable name of the strategy.
    pub fn as_ref(&self) -> (r: &'static str)
        ensures
            self is LongestFirst ==> r@ == "longest_first"@,
            self is OnlyFirst ==> r@ == "only_first"@,
            self is OnlySecond ==> r@ == "only_second"@,
    {
        match self {
            TruncationStrategy::LongestFirst => "longest_first",
            TruncationStrategy::OnlyFirst => "only_first",
            TruncationStrategy::OnlySecond => "only_second",
        }
    }
}

/// The length of the optional pair sequence.
pub open spec fn pair_len_spec(p: Option<Encoding>) -> nat {
    match p {
        Some(e) => e.spec_len(),
        None => 0,
    }
}

/// The target lengths that `LongestFirst` reaches: `k` times, the longer of
/// the two lengths is decremented, ties going to the second.
pub open spec fn longest_first_targets(n1: nat, n2: nat, k: nat) -> (nat, nat)
    decreases k,
{
    if k == 0 {
        (n1, n2)
    } else if n1 > n2 {
        longest_first_targets((n1 - 1) as nat, n2, (k - 1) as nat)
    } else if n2 > 0 {
        longest_first_targets(n1, (n2 - 1) as nat, (k - 1) as nat)
    } else {
        (0, 0)
    }
}

/// The longest length in the batch (0 for an empty batch).
pub open spec fn batch_max(s: Seq<Encoding>) -> nat
    decreases s.len(),
{
    if s.len() == 0 {
        0
    } else {
        let rest = batch_max(s.drop_last());
        if s.last().spec_len() > rest {
            s.last().spec_len()
        } else {
            rest
        }
    }
}

/// `batch_max` bounds every length in the batch and is attained by one.
pub proof fn lemma_batch_max_props(s: Seq<Encoding>)
    ensures
        forall|i: int| 0 <= i < s.len() ==> (#[trigger] s[i]).spec_len() <= batch_max(s),
        s.len() > 0 ==> exists|i: int|
            0 <= i < s.len() && (#[trigger] s[i]).spec_len() == batch_max(s),
    decreases s.len(),
{
    if s.len() > 0 {
        let rest = s.drop_last();
        lemma_batch_max_props(rest);
        assert(forall|i: int| 0 <= i < rest.len() ==> #[trigger] s[i] == rest[i]);
        if s.last().spec_len() >= batch_max(rest) {
            assert(s[s.len() - 1].spec_len() == batch_max(s));
        } else {
            let j = choose|i: int|
                0 <= i < rest.len() && (#[trigger] rest[i]).spec_len() == batch_max(rest);
            assert(s[j].spec_len() == batch_max(s));
        }
    }
}

/// What `truncate_encodings` returns for every input.
pub open spec fn truncate_post(
    enc: Encoding,
    pair: Option<Encoding>,
    params: TruncationParams,
    r: Result<(Encoding, Option<Encoding>), Error>,
) -> bool {
    let len1 = enc.spec_len();
    let len2 = pair_len_spec(pair);
    let total = len1 + len2;
    if params.max_length == 0 || total <= params.max_length {
        r == Ok::<(Encoding, Option<Encoding>), Error>((enc, pair))
    } else {
        let to_remove = (total - params.max_length) as nat;
        match params.strategy {
            TruncationStrategy::LongestFirst => {
                let t = longest_first_targets(len1, len2, to_remove);
                match r {
                    Ok(out) => {
                        &&& trunc_rel(out.0, enc, t.0, params.stride as nat)
                        &&& match (pair, out.1) {
                            (Option::None, Option::None) => true,
                            (Option::Some(p), Option::Some(q)) => trunc_rel(
                                q,
                                p,
                                t.1,
                                params.stride as nat,
                            ),
                            _ => false,
                        }
                    },
                    Err(_) => false,
                }
            },
            TruncationStrategy::OnlyFirst => {
                if len1 > to_remove {
                    match r {
                        Ok(out) => {
                            &&& trunc_rel(
                                out.0,
                                enc,
                                (len1 - to_remove) as nat,
                                params.stride as nat,
                            )
                            &&& out.1 == pair
                        },
                        Err(_) => false,
                    }
                } else {
                    r == Err::<(Encoding, Option<Encoding>), Error>(Error::SequenceTooShort)
                }
            },
            TruncationStrategy::OnlySecond => {
                if pair is None {
                    r == Err::<(Encoding, Option<Encoding>), Error>(
                        Error::SecondSequenceNotProvided,
                    )
                } else if len2 > to_remove {
                    match r {
                        Ok(out) => {
                            &&& out.0 == enc
                            &&& match (pair, out.1) {
                                (Option::Some(p), Option::Some(q)) => trunc_rel(
                                    q,
                                    p,
                                    (len2 - to_remove) as nat,
                                    params.stride as nat,
                                ),
                                _ => false,
                            }
                        },
                        Err(_) => false,
                    }
                } else {
                    r == Err::<(Encoding, Option<Encoding>), Error>(Error::SequenceTooShort)
                }
            },
        }
    }
}

/// Truncates one encoding, or a pair of them, to `params.max_length` total
/// tokens. With `max_length == 0`, or when the total already fits, this is
/// a no-op.
pub fn truncate_encodings(
    encoding: Encoding,
    pair_encoding: Option<Encoding>,
    params: &TruncationParams,
) -> (r: Result<(Encoding, Option<Encoding>), Error>)
    requires
        encoding.wf(),
        pair_encoding matches Some(p) ==> p.wf(),
        encoding.spec_len() + pair_len_spec(pair_encoding) <= usize::MAX,
    ensures
        truncate_post(encoding, pair_encoding, *params, r),
{
    let mut encoding = encoding;
    if params.max_length == 0 {
        return Ok((encoding, pair_encoding));
    }
    let len1 = encoding.len();
    let len2 = match &pair_encoding {
        Some(e) => e.len(),
        None => 0,
    };
    let total = len1 + len2;
    if total <= params.max_length {
        return Ok((encoding, pair_encoding));
    }
    let to_remove = total - params.max_length;
    match params.strategy {
        TruncationStrategy::LongestFirst => {
            let mut n_first = len1;
            let mut n_second = len2;
            let mut j: usize = 0;
            while j < to_remove
                invariant
                    j <= to_remove,
                    n_first <= len1,
                    n_second <= len2,
                    n_first + n_second == total - j,
                    total == len1 + len2,
                    to_remove == total - params.max_length,
                    params.max_length >= 1,
                    longest_first_targets(len1 as nat, len2 as nat, to_remove as nat)
                        == longest_first_targets(
                        n_first as nat,
                        n_second as nat,
                        (to_remove - j) as nat,
                    ),
                decreases to_remove - j,
            {
                if n_first > n_second {
                    n_first -= 1;
                } else {
                    n_second -= 1;
                }
                j += 1;
            }
            encoding.truncate(n_first, params.stride);
            match pair_encoding {
                Some(mut p) => {
                    p.truncate(n_second, params.stride);
                    Ok((encoding, Some(p)))
                },
                None => Ok((encoding, None)),
            }
        },
        TruncationStrategy::OnlyFirst => {
            if len1 > to_remove {
                encoding.truncate(len1 - to_remove, params.stride);
                Ok((encoding, pair_encoding))
            } else {
                Err(Error::SequenceTooShort)
            }
        },
        TruncationStrategy::OnlySecond => {
            match pair_encoding {
                None => Err(Error::SecondSequenceNotProvided),
                Some(mut p) => {
                    if len2 > to_remove {
                        p.truncate(len2 - to_remove, params.stride);
                        Ok((encoding, Some(p)))
                    } else {
                        Err(Error::SequenceTooShort)
                    }
                },
            }
        },
    }
}

/// The padding target that `params` selects for the given batch.
pub open spec fn pad_target(input: Seq<Encoding>, params: PaddingParams) -> nat {
    match params.strategy {
        PaddingStrategy::Fixed(n) => n as nat,
        PaddingStrategy::BatchLongest => batch_max(input),
    }
}

/// What `pad_encodings` returns for every input: each encoding of the batch
/// padded independently to the selected target.
pub open spec fn pad_encodings_post(
    input: Seq<Encoding>,
    output: Seq<Encoding>,
    params: PaddingParams,
) -> bool {
    &&& output.len() == input.len()
    &&& forall|i: int|
        0 <= i < input.len() ==> pad_rel(
            #[trigger] output[i],
            input[i],
            pad_target(input, params),
            params.pad_id,
            params.pad_type_id,
            params.pad_token@,
            params.direction,
        )
}

/// Relies on rayon's `par_iter().map(..).max()`: the largest value that the
/// closure, which only calls the verified `Encoding::len`, returns over the
/// non-empty batch.
#[verifier::external_body]
fn max_len_par(encodings: &Vec<Encoding>) -> (r: usize)
    requires
        encodings@.len() > 0,
    ensures
        r as nat == batch_max(encodings@),
{
    encodings.par_iter().map(|e| e.len()).max().unwrap()
}

/// Relies on rayon's `par_iter_mut().for_each`: applies the closure, which
/// only calls the verified `Encoding::pad`, to every element of the batch
/// exactly once, independently.
#[verifier::external_body]
fn pad_each_par(
    encodings: &mut Vec<Encoding>,
    target: usize,
    pad_id: u32,
    pad_type_id: u32,
    pad_token: &str,
    direction: PaddingDirection,
)
    requires
        forall|i: int| 0 <= i < old(encodings)@.len() ==> (#[trigger] old(encodings)@[i]).lens_ok(),
    ensures
        final(encodings)@.len() == old(encodings)@.len(),
        forall|i: int|
            0 <= i < old(encodings)@.len() ==> pad_rel(
                #[trigger] final(encodings)@[i],
                old(encodings)@[i],
                target as nat,
                pad_id,
                pad_type_id,
                pad_token@,
                direction,
            ),
{
    encodings.par_iter_mut().for_each(|e| e.pad(target, pad_id, pad_type_id, pad_token, direction));
}

/// Pads every encoding of the batch, in parallel, to the target that
/// `params.strategy` selects. An empty batch is returned unchanged.
pub fn pad_encodings(encodings: Vec<Encoding>, params: &PaddingParams) -> (r: Result<
    Vec<Encoding>,
    Error,
>)
    requires
        forall|i: int| 0 <= i < encodings@.len() ==> (#[trigger] encodings@[i]).lens_ok(),
    ensures
        r matches Ok(out) && pad_encodings_post(encodings@, out@, *params),
{
    let ghost input = encodings@;
    let mut encodings = encodings;
    if encodings.is_empty() {
        return Ok(encodings);
    }
    let pad_length = match params.strategy {
        PaddingStrategy::Fixed(size) => size,
        PaddingStrategy::BatchLongest => {
            let m = max_len_par(&encodings);
            proof {
                lemma_batch_max_props(input);
            }
            m
        },
    };
    proof {
        assert(pad_length as nat == pad_target(input, *params));
    }
    pad_each_par(
        &mut encodings,
        pad_length,
        params.pad_id,
        params.pad_type_id,
        params.pad_token.as_str(),
        params.direction,
    );
    Ok(encodings)
}

/// Padding a batch that a padding with the same parameters already produced
/// changes nothing: `pad_encodings` is idempotent.
pub proof fn lemma_pad_encodings_idempotent(
    b0: Seq<Encoding>,
    b1: Seq<Encoding>,
    b2: Seq<Encoding>,
    params: PaddingParams,
)
    requires
        pad_encodings_post(b0, b1, params),
        pad_encodings_post(b1, b2, params),
    ensures
        b2 =~= b1,
{
    let t0 = pad_target(b0, params);
    lemma_batch_max_props(b0);
    assert(forall|i: int| 0 <= i < b1.len() ==> (#[trigger] b1[i]).spec_len() >= t0);
    let t1 = pad_target(b1, params);
    if b1.len() > 0 {
        match params.strategy {
            PaddingStrategy::Fixed(_) => {
                assert(t1 == t0);
            },
            PaddingStrategy::BatchLongest => {
                assert(forall|i: int|
                    0 <= i < b1.len() ==> (#[trigger] b1[i]).spec_len() == t0);
                lemma_batch_max_props(b1);
                assert(t1 == t0);
            },
        }
        assert(forall|i: int| 0 <= i < b2.len() ==> #[trigger] b2[i] == b1[i]);
    }
}

/// Whether position `j` of an encoding padded from `old_len` to `target`
/// entries in the given direction holds padding.
pub open spec fn is_pad_position(
    j: int,
    old_len: nat,
    target: nat,
    dir: PaddingDirection,
) -> bool {
    if dir is Right {
        j >= old_len
    } else {
        j < target - old_len
    }
}

/// With `BatchLongest`, every padded encoding has exactly the longest
/// pre-padding length of the batch, and, when every input attention entry
/// is 1, attention is 0 exactly at the padded positions.
pub proof fn lemma_batch_longest_pads_to_max(
    b0: Seq<Encoding>,
    b1: Seq<Encoding>,
    params: PaddingParams,
)
    requires
        pad_encodings_post(b0, b1, params),
        params.strategy is BatchLongest,
        forall|i: int| 0 <= i < b0.len() ==> (#[trigger] b0[i]).lens_ok(),
        forall|i: int, j: int|
            0 <= i < b0.len() && 0 <= j < b0[i].attention_mask@.len() ==> b0[i].attention_mask@[j]
                == 1,
    ensures
        forall|i: int| 0 <= i < b1.len() ==> (#[trigger] b1[i]).spec_len() == batch_max(b0),
        forall|i: int, j: int|
            0 <= i < b1.len() && 0 <= j < b1[i].attention_mask@.len() ==> ((
            b1[i].attention_mask@[j] == 0) <==> is_pad_position(
                j,
                b0[i].spec_len(),
                batch_max(b0),
                params.direction,
            )),
{
    let t = batch_max(b0);
    lemma_batch_max_props(b0);
    assert forall|i: int| 0 <= i < b1.len() implies (#[trigger] b1[i]).spec_len() == t by {
        assert(b0[i].spec_len() <= t);
    }
    assert forall|i: int, j: int|
        0 <= i < b1.len() && 0 <= j < b1[i].attention_mask@.len() implies ((
    b1[i].attention_mask@[j] == 0) <==> is_pad_position(
        j,
        b0[i].spec_len(),
        t,
        params.direction,
    )) by {
        assert(b0[i].spec_len() <= t);
        if b0[i].spec_len() == t {
            assert(b1[i] == b0[i]);
        }
    }
}

} // verus!
