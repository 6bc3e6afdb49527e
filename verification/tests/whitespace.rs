use tokenizers::normalized::NormalizedString;
use tokenizers::pre_tokenizers::bert::BertPreTokenizer;
use tokenizers::pre_tokenizers::byte_level::ByteLevel;
use tokenizers::pre_tokenizers::whitespace::{Whitespace, WhitespaceSplit};

#[test]
fn whitespace_split_keeps_punctuation_attached() {
    let pretok = WhitespaceSplit::new();
    let mut input = NormalizedString::from("Hey friend!");
    let res = pretok.pre_tokenize(&mut input);
    assert_eq!(
        res,
        vec![("Hey".to_string(), (0, 3)), ("friend!".to_string(), (4, 11))]
    );
}

#[test]
fn whitespace_separates_word_runs_from_symbol_runs() {
    let pretok = Whitespace::new();
    let mut input = NormalizedString::from("Hey friend!!  How_are you?");
    let res = pretok.pre_tokenize(&mut input);
    assert_eq!(
        res,
        vec![
            ("Hey".to_string(), (0, 3)),
            ("friend".to_string(), (4, 10)),
            ("!!".to_string(), (10, 12)),
            ("How_are".to_string(), (14, 21)),
            ("you".to_string(), (22, 25)),
            ("?".to_string(), (25, 26)),
        ]
    );
}

#[test]
fn bert_pre_tokenizer_splits_each_punctuation_char() {
    let pretok = BertPreTokenizer::new();
    let mut input = NormalizedString::from("Hey friend!");
    let res = pretok.pre_tokenize(&mut input);
    assert_eq!(
        res,
        vec![
            ("Hey".to_string(), (0, 3)),
            ("friend".to_string(), (4, 10)),
            ("!".to_string(), (10, 11)),
        ]
    );
}

#[test]
fn byte_level_alphabet_is_256_distinct_characters() {
    let a = ByteLevel::alphabet();
    assert_eq!(a.len(), 256);
    let mut seen: Vec<char> = a.clone();
    seen.sort();
    seen.dedup();
    assert_eq!(seen.len(), 256);
    // printable bytes map to themselves
    assert_eq!(a[b'A' as usize], 'A');
    assert_eq!(a[b'!' as usize], '!');
    // the space byte maps above the byte range
    assert!((a[b' ' as usize] as u32) >= 256);
}

#[test]
fn byte_level_flags() {
    let bl = ByteLevel::new();
    assert!(bl.add_prefix_space);
    assert!(!bl.add_prefix_space(false).add_prefix_space);
    assert_eq!(ByteLevel::default(), ByteLevel::new());
}
