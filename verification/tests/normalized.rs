use tokenizers::normalized::NormalizedString;

#[test]
fn from_has_identity_mapping() {
    let n = NormalizedString::from("abc");
    assert_eq!(n.text, vec!['a', 'b', 'c']);
    assert_eq!(n.original, vec!['a', 'b', 'c']);
    assert_eq!(n.alignments, vec![(0, 1), (1, 2), (2, 3)]);
    assert_eq!(n.convert_offsets(0, 2), (0, 2));
}

#[test]
fn prepend_maps_new_text_to_empty_span() {
    let mut n = NormalizedString::from("ab");
    n.prepend(" ");
    assert_eq!(n.text, vec![' ', 'a', 'b']);
    assert_eq!(n.original, vec!['a', 'b']);
    assert_eq!(n.alignments, vec![(0, 0), (0, 1), (1, 2)]);
    // a span over the prefixed text still resolves to original positions
    assert_eq!(n.convert_offsets(0, 2), (0, 1));
    assert_eq!(n.convert_offsets(2, 3), (1, 2));
}

#[test]
fn len_counts_characters() {
    let n = NormalizedString::from("a▁c");
    assert_eq!(n.len(), 3);
    assert_eq!(n.get().len(), 3);
}

#[test]
fn replace_keeps_offsets_resolving_to_original() {
    let mut n = NormalizedString::from("abc");
    n.replace(1, 2, "XY");
    assert_eq!(n.text, vec!['a', 'X', 'Y', 'c']);
    assert_eq!(n.original, vec!['a', 'b', 'c']);
    assert_eq!(n.alignments, vec![(0, 1), (1, 2), (2, 2), (2, 3)]);
    // a span over the rewritten text still resolves into the original
    assert_eq!(n.convert_offsets(1, 3), (1, 2));
}
