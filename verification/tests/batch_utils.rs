use tokenizers::encoding::Encoding;
use tokenizers::tokenizer::PaddingDirection;
use tokenizers::utils::{
    pad_encodings, truncate_encodings, Error, PaddingParams, PaddingStrategy, TruncationParams,
    TruncationStrategy,
};

fn enc(ids: Vec<u32>) -> Encoding {
    let n = ids.len();
    let tokens: Vec<String> = ids.iter().map(|i| format!("t{}", i)).collect();
    let offsets: Vec<(usize, usize)> = (0..n).map(|i| (i, i + 1)).collect();
    Encoding::new(ids, vec![0; n], tokens, offsets, vec![0; n], vec![1; n])
}

fn pad_params(strategy: PaddingStrategy, direction: PaddingDirection) -> PaddingParams {
    PaddingParams {
        strategy,
        direction,
        pad_id: 99,
        pad_type_id: 7,
        pad_token: "[PAD]".to_string(),
    }
}

#[test]
fn truncation_disabled_is_a_no_op() {
    let params = TruncationParams { max_length: 0, strategy: TruncationStrategy::LongestFirst, stride: 0 };
    let (a, b) = truncate_encodings(enc(vec![1, 2, 3]), Some(enc(vec![4, 5])), &params).unwrap();
    assert_eq!(a.ids, vec![1, 2, 3]);
    assert_eq!(b.unwrap().ids, vec![4, 5]);
}

#[test]
fn under_limit_is_a_no_op() {
    let params = TruncationParams { max_length: 10, strategy: TruncationStrategy::LongestFirst, stride: 0 };
    let (a, b) = truncate_encodings(enc(vec![1, 2, 3]), None, &params).unwrap();
    assert_eq!(a.ids, vec![1, 2, 3]);
    assert!(b.is_none());
    assert!(a.overflowing.is_empty());
}

#[test]
fn longest_first_removes_from_the_longer_sequence() {
    let params = TruncationParams { max_length: 5, strategy: TruncationStrategy::LongestFirst, stride: 0 };
    let (a, b) = truncate_encodings(enc(vec![1, 2, 3, 4, 5, 6]), Some(enc(vec![7, 8])), &params).unwrap();
    assert_eq!(a.ids, vec![1, 2, 3]);
    assert_eq!(b.unwrap().ids, vec![7, 8]);
    assert_eq!(a.overflowing.len(), 1);
    assert_eq!(a.overflowing[0].ids, vec![4, 5, 6]);
}

#[test]
fn only_second_without_pair_fails() {
    let params = TruncationParams { max_length: 2, strategy: TruncationStrategy::OnlySecond, stride: 0 };
    let r = truncate_encodings(enc(vec![1, 2, 3]), None, &params);
    assert_eq!(r.unwrap_err(), Error::SecondSequenceNotProvided);
}

#[test]
fn designated_sequence_too_short_fails() {
    let params = TruncationParams { max_length: 2, strategy: TruncationStrategy::OnlyFirst, stride: 0 };
    let r = truncate_encodings(enc(vec![1, 2]), Some(enc(vec![3, 4, 5])), &params);
    assert_eq!(r.unwrap_err(), Error::SequenceTooShort);
}

#[test]
fn only_first_truncates_first_only() {
    let params = TruncationParams { max_length: 4, strategy: TruncationStrategy::OnlyFirst, stride: 1 };
    let (a, b) = truncate_encodings(enc(vec![1, 2, 3, 4]), Some(enc(vec![5, 6])), &params).unwrap();
    assert_eq!(a.ids, vec![1, 2]);
    assert_eq!(b.unwrap().ids, vec![5, 6]);
    // one token of stride overlap precedes the discarded tail
    assert_eq!(a.overflowing[0].ids, vec![2, 3, 4]);
}

#[test]
fn truncation_error_messages() {
    assert_eq!(
        Error::SecondSequenceNotProvided.message(),
        "Truncation error: Second sequence not provided"
    );
    assert_eq!(
        Error::SequenceTooShort.message(),
        "Truncation error: Sequence to truncate too short to respect the provided max_length"
    );
}

#[test]
fn strategy_names() {
    assert_eq!(TruncationStrategy::LongestFirst.as_ref(), "longest_first");
    assert_eq!(TruncationStrategy::OnlyFirst.as_ref(), "only_first");
    assert_eq!(TruncationStrategy::OnlySecond.as_ref(), "only_second");
}

#[test]
fn batch_longest_pads_to_longest() {
    let params = pad_params(PaddingStrategy::BatchLongest, PaddingDirection::Right);
    let out = pad_encodings(vec![enc(vec![1]), enc(vec![2, 3, 4]), enc(vec![5, 6])], &params).unwrap();
    assert!(out.iter().all(|e| e.ids.len() == 3));
    assert_eq!(out[0].ids, vec![1, 99, 99]);
    assert_eq!(out[0].attention_mask, vec![1, 0, 0]);
    assert_eq!(out[0].type_ids, vec![0, 7, 7]);
    assert_eq!(out[0].tokens[1], "[PAD]");
    assert_eq!(out[0].special_tokens_mask, vec![0, 1, 1]);
    assert_eq!(out[1].ids, vec![2, 3, 4]);
    assert_eq!(out[1].attention_mask, vec![1, 1, 1]);
}

#[test]
fn padding_left_prepends() {
    let params = pad_params(PaddingStrategy::Fixed(3), PaddingDirection::Left);
    let out = pad_encodings(vec![enc(vec![5])], &params).unwrap();
    assert_eq!(out[0].ids, vec![99, 99, 5]);
    assert_eq!(out[0].attention_mask, vec![0, 0, 1]);
    assert_eq!(out[0].offsets, vec![(0, 0), (0, 0), (0, 1)]);
}

#[test]
fn padding_is_idempotent() {
    let params = pad_params(PaddingStrategy::BatchLongest, PaddingDirection::Right);
    let once = pad_encodings(vec![enc(vec![1]), enc(vec![2, 3])], &params).unwrap();
    let expected: Vec<(Vec<u32>, Vec<u32>)> = once
        .iter()
        .map(|e| (e.ids.clone(), e.attention_mask.clone()))
        .collect();
    let twice = pad_encodings(once, &params).unwrap();
    let got: Vec<(Vec<u32>, Vec<u32>)> = twice
        .iter()
        .map(|e| (e.ids.clone(), e.attention_mask.clone()))
        .collect();
    assert_eq!(got, expected);
}

#[test]
fn empty_batch_is_a_no_op() {
    let params = pad_params(PaddingStrategy::BatchLongest, PaddingDirection::Right);
    let out = pad_encodings(vec![], &params).unwrap();
    assert!(out.is_empty());
}

#[test]
fn fixed_padding_leaves_longer_encodings_alone() {
    let params = pad_params(PaddingStrategy::Fixed(2), PaddingDirection::Right);
    let out = pad_encodings(vec![enc(vec![1, 2, 3])], &params).unwrap();
    assert_eq!(out[0].ids, vec![1, 2, 3]);
}

#[test]
fn truncate_with_stride_cap() {
    // stride larger than the kept length is capped at the kept length
    let mut e = enc(vec![1, 2, 3, 4]);
    e.truncate(2, 10);
    assert_eq!(e.ids, vec![1, 2]);
    assert_eq!(e.overflowing[0].ids, vec![1, 2, 3, 4]);
}
