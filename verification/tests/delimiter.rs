use tokenizers::normalized::NormalizedString;
use tokenizers::pre_tokenizers::delimiter::CharDelimiterSplit;
use tokenizers::tokenizer::BuildError;

#[test]
fn doubled_delimiter_yields_no_empty_words() {
    let pretok = CharDelimiterSplit::new(',');
    let mut input = NormalizedString::from("a,b,,c");
    let res = pretok.pre_tokenize(&mut input);
    assert_eq!(
        res,
        vec![
            ("a".to_string(), (0, 1)),
            ("b".to_string(), (2, 3)),
            ("c".to_string(), (5, 6)),
        ]
    );
}

#[test]
fn leading_and_trailing_delimiters() {
    let pretok = CharDelimiterSplit::new('-');
    let mut input = NormalizedString::from("-ab--cd-");
    let res = pretok.pre_tokenize(&mut input);
    assert_eq!(res, vec![("ab".to_string(), (1, 3)), ("cd".to_string(), (5, 7))]);
}

#[test]
fn only_delimiters_yields_nothing() {
    let pretok = CharDelimiterSplit::new('x');
    let mut input = NormalizedString::from("xxxx");
    assert_eq!(pretok.pre_tokenize(&mut input), vec![]);
}

#[test]
fn delimiter_from_str_must_be_single_char() {
    let ok = CharDelimiterSplit::new_from_str(",").unwrap();
    assert_eq!(ok.delimiter, ',');
    assert_eq!(CharDelimiterSplit::new_from_str(""), Err(BuildError::NotSingleChar));
    assert_eq!(CharDelimiterSplit::new_from_str(",,"), Err(BuildError::NotSingleChar));
}

#[test]
fn words_concatenate_to_text_without_delimiters() {
    let pretok = CharDelimiterSplit::new(' ');
    let mut input = NormalizedString::from("the quick  fox");
    let res = pretok.pre_tokenize(&mut input);
    let joined: String = res.iter().map(|w| w.0.as_str()).collect::<Vec<_>>().join("");
    assert_eq!(joined, "thequickfox");
}
