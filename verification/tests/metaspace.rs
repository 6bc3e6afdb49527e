use tokenizers::normalized::NormalizedString;
use tokenizers::pre_tokenizers::metaspace::Metaspace;
use tokenizers::tokenizer::BuildError;

#[test]
fn basic() {
    let pretok = Metaspace::new('▁', true);
    let mut input = NormalizedString::from("Hey friend!");
    let res = pretok.pre_tokenize(&mut input);
    assert_eq!(
        &res,
        &[("▁Hey".into(), (0, 4)), ("▁friend!".into(), (4, 12)),]
    );
}

#[test]
fn multiple_spaces() {
    let pretok = Metaspace::new('▁', true);
    let mut input = NormalizedString::from("Hey   friend!");
    let res = pretok.pre_tokenize(&mut input);
    assert_eq!(
        &res,
        &[
            ("▁Hey".into(), (0, 4)),
            ("▁".into(), (4, 5)),
            ("▁".into(), (5, 6)),
            ("▁friend!".into(), (6, 14)),
        ]
    );
}

#[test]
fn decode() {
    let decoder = Metaspace::new('▁', true);
    let res = decoder.decode(vec!["▁Hey".into(), "▁friend!".into()]);
    assert_eq!(&res, "Hey friend!")
}

#[test]
fn round_trip_recovers_input() {
    let m = Metaspace::new('▁', true);
    let mut input = NormalizedString::from("Hey friend!");
    let words = m.pre_tokenize(&mut input);
    let tokens: Vec<String> = words.into_iter().map(|w| w.0).collect();
    assert_eq!(m.decode(tokens), "Hey friend!");
}

#[test]
fn no_prefix_space_configured() {
    let m = Metaspace::new('▁', false);
    let mut input = NormalizedString::from("ab c");
    let words = m.pre_tokenize(&mut input);
    assert_eq!(words, vec![("ab".to_string(), (0, 2)), ("▁c".to_string(), (2, 4))]);
}

#[test]
fn empty_input_with_prefix_space() {
    let m = Metaspace::new('▁', true);
    let mut input = NormalizedString::from("");
    let words = m.pre_tokenize(&mut input);
    assert_eq!(words, vec![("▁".to_string(), (0, 1))]);
    assert_eq!(m.decode(vec!["▁".to_string()]), "");
}

#[test]
fn offsets_resolve_to_original_text() {
    let m = Metaspace::new('▁', true);
    let mut input = NormalizedString::from("Hey friend!");
    let words = m.pre_tokenize(&mut input);
    let mut rebuilt = String::new();
    for (_, (s, e)) in &words {
        let (os, oe) = input.convert_offsets(*s, *e);
        let orig: String = input.original[os..oe].iter().collect();
        rebuilt.push_str(&orig);
    }
    assert_eq!(rebuilt, "Hey friend!");
}

#[test]
fn metaspace_from_str_replacement() {
    let ok = Metaspace::new_from_str("▁", true).unwrap();
    assert_eq!(ok.replacement, '▁');
    assert!(ok.add_prefix_space);
    assert_eq!(Metaspace::new_from_str("", true), Err(BuildError::NotSingleChar));
    assert_eq!(Metaspace::new_from_str("ab", false), Err(BuildError::NotSingleChar));
}

#[test]
fn default_configuration() {
    let m = Metaspace::default();
    assert_eq!(m.replacement, '▁');
    assert!(m.add_prefix_space);
}
