use tokenizers::models::bpe::BPE;
use tokenizers::models::wordpiece::WordPiece;
use tokenizers::tokenizer::{BuildError, VocabularyError};

fn vocab(entries: &[(&str, u32)]) -> Vec<(String, u32)> {
    entries.iter().map(|(t, i)| (t.to_string(), *i)).collect()
}

fn merges(entries: &[(&str, &str)]) -> Vec<(String, String)> {
    entries.iter().map(|(a, b)| (a.to_string(), b.to_string())).collect()
}

#[test]
fn bpe_merges_by_rank() {
    let v = vocab(&[("a", 0), ("b", 1), ("c", 2), ("ab", 3), ("abc", 4)]);
    let m = merges(&[("a", "b"), ("ab", "c")]);
    let mut bpe = BPE::new(v, m, 10, None, None, None).unwrap();
    let toks = bpe.tokenize("abc").unwrap();
    let got: Vec<(u32, String, (usize, usize))> =
        toks.into_iter().map(|t| (t.id, t.value, t.offsets)).collect();
    assert_eq!(got, vec![(4, "abc".to_string(), (0, 3))]);
}

#[test]
fn bpe_leaves_unmergeable_symbols() {
    let v = vocab(&[("a", 0), ("b", 1), ("ab", 2)]);
    let m = merges(&[("a", "b")]);
    let mut bpe = BPE::new(v, m, 10, None, None, None).unwrap();
    let toks = bpe.tokenize("aab").unwrap();
    let got: Vec<(u32, String)> = toks.into_iter().map(|t| (t.id, t.value)).collect();
    assert_eq!(got, vec![(0, "a".to_string()), (2, "ab".to_string())]);
}

#[test]
fn bpe_deterministic_with_warm_cache() {
    let v = vocab(&[("h", 0), ("i", 1), ("hi", 2)]);
    let m = merges(&[("h", "i")]);
    let mut bpe = BPE::new(v, m, 10, None, None, None).unwrap();
    let first: Vec<(u32, String)> = bpe
        .tokenize("hi")
        .unwrap()
        .into_iter()
        .map(|t| (t.id, t.value))
        .collect();
    // the second call is answered from the cache and must be identical
    let second: Vec<(u32, String)> = bpe
        .tokenize("hi")
        .unwrap()
        .into_iter()
        .map(|t| (t.id, t.value))
        .collect();
    assert_eq!(first, second);
    assert_eq!(first, vec![(2, "hi".to_string())]);
}

#[test]
fn bpe_unknown_symbol_without_unk_fails() {
    let v = vocab(&[("a", 0)]);
    let mut bpe = BPE::new(v, vec![], 10, None, None, None).unwrap();
    assert_eq!(bpe.tokenize("ax").unwrap_err(), VocabularyError::SymbolNotFound);
}

#[test]
fn bpe_unknown_symbol_with_unk_substitutes() {
    let v = vocab(&[("a", 0), ("[UNK]", 9)]);
    let mut bpe = BPE::new(v, vec![], 10, Some("[UNK]".to_string()), None, None).unwrap();
    let toks = bpe.tokenize("ax").unwrap();
    let got: Vec<(u32, String)> = toks.into_iter().map(|t| (t.id, t.value)).collect();
    assert_eq!(got, vec![(0, "a".to_string()), (9, "[UNK]".to_string())]);
}

#[test]
fn bpe_build_rejects_unknown_merge_tokens() {
    let v = vocab(&[("a", 0), ("b", 1)]);
    let m = merges(&[("a", "b")]); // "ab" missing from the vocabulary
    assert_eq!(
        BPE::new(v, m, 10, None, None, None).unwrap_err(),
        BuildError::MergeReferencesUnknownToken
    );
}

#[test]
fn bpe_build_rejects_missing_unk() {
    let v = vocab(&[("a", 0)]);
    assert_eq!(
        BPE::new(v, vec![], 10, Some("[UNK]".to_string()), None, None).unwrap_err(),
        BuildError::UnkTokenNotInVocabulary
    );
}

#[test]
fn bpe_end_of_word_suffix() {
    let v = vocab(&[("a", 0), ("b</w>", 1), ("ab</w>", 2)]);
    let m = merges(&[("a", "b</w>")]);
    let mut bpe = BPE::new(v, m, 10, None, None, Some("</w>".to_string())).unwrap();
    let got: Vec<(u32, String)> = bpe
        .tokenize("ab")
        .unwrap()
        .into_iter()
        .map(|t| (t.id, t.value))
        .collect();
    assert_eq!(got, vec![(2, "ab</w>".to_string())]);
}

#[test]
fn bpe_empty_word() {
    let v = vocab(&[("a", 0)]);
    let mut bpe = BPE::new(v, vec![], 10, None, None, None).unwrap();
    assert!(bpe.tokenize("").unwrap().is_empty());
}

#[test]
fn wordpiece_greedy_longest_prefix() {
    let v = vocab(&[("un", 0), ("##aff", 1), ("##able", 2), ("[UNK]", 3), ("u", 4)]);
    let wp = WordPiece::new(v, "[UNK]".to_string(), 100, "##".to_string()).unwrap();
    let toks = wp.tokenize("unaffable").unwrap();
    let got: Vec<(u32, String, (usize, usize))> =
        toks.into_iter().map(|t| (t.id, t.value, t.offsets)).collect();
    assert_eq!(
        got,
        vec![
            (0, "un".to_string(), (0, 2)),
            (1, "##aff".to_string(), (2, 5)),
            (2, "##able".to_string(), (5, 9)),
        ]
    );
}

#[test]
fn wordpiece_overlong_word_maps_to_unk() {
    let v = vocab(&[("ab", 0), ("[UNK]", 1)]);
    let wp = WordPiece::new(v, "[UNK]".to_string(), 1, "##".to_string()).unwrap();
    let toks = wp.tokenize("ab").unwrap();
    let got: Vec<(u32, String, (usize, usize))> =
        toks.into_iter().map(|t| (t.id, t.value, t.offsets)).collect();
    assert_eq!(got, vec![(1, "[UNK]".to_string(), (0, 2))]);
}

#[test]
fn wordpiece_undecomposable_word_maps_to_unk() {
    let v = vocab(&[("a", 0), ("[UNK]", 1)]);
    let wp = WordPiece::new(v, "[UNK]".to_string(), 100, "##".to_string()).unwrap();
    let got: Vec<u32> = wp.tokenize("ax").unwrap().into_iter().map(|t| t.id).collect();
    assert_eq!(got, vec![1]);
}

#[test]
fn wordpiece_rejects_missing_unk() {
    let v = vocab(&[("a", 0)]);
    assert_eq!(
        WordPiece::new(v, "[UNK]".to_string(), 100, "##".to_string()).unwrap_err(),
        BuildError::UnkTokenNotInVocabulary
    );
}

#[test]
fn wordpiece_empty_word() {
    let v = vocab(&[("[UNK]", 0)]);
    let wp = WordPiece::new(v, "[UNK]".to_string(), 100, "##".to_string()).unwrap();
    assert!(wp.tokenize("").unwrap().is_empty());
}

#[test]
fn empty_models_by_default() {
    let mut bpe = BPE::default();
    assert_eq!(bpe.tokenize("").unwrap().len(), 0);
    assert_eq!(bpe.tokenize("a").unwrap_err(), VocabularyError::SymbolNotFound);
    let wp = WordPiece::default();
    let got: Vec<(u32, String)> = wp
        .tokenize("hi")
        .unwrap()
        .into_iter()
        .map(|t| (t.id, t.value))
        .collect();
    assert_eq!(got, vec![(0, "[UNK]".to_string())]);
}
