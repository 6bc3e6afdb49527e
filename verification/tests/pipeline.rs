use tokenizers::decoders::bpe::BPEDecoder;
use tokenizers::decoders::Decoder;
use tokenizers::encoding::Encoding;
use tokenizers::models::wordpiece::WordPiece;
use tokenizers::models::Model;
use tokenizers::pre_tokenizers::delimiter::CharDelimiterSplit;
use tokenizers::pre_tokenizers::PreTokenizer;
use tokenizers::processors::bert::BertProcessing;
use tokenizers::processors::roberta::RobertaProcessing;
use tokenizers::processors::PostProcessor;
use tokenizers::tokenizer::Tokenizer;

fn wp_model() -> Model {
    let vocab: Vec<(String, u32)> = vec![
        ("hello".to_string(), 0),
        ("world".to_string(), 1),
        ("[UNK]".to_string(), 2),
        ("[CLS]".to_string(), 3),
        ("[SEP]".to_string(), 4),
        ("##s".to_string(), 5),
    ];
    Model::WordPiece(WordPiece::new(vocab, "[UNK]".to_string(), 100, "##".to_string()).unwrap())
}

#[test]
fn bert_processing_single() {
    let proc = BertProcessing::new(("[SEP]".to_string(), 102), ("[CLS]".to_string(), 101));
    let e = Encoding::new(
        vec![7, 8],
        vec![0, 0],
        vec!["a".to_string(), "b".to_string()],
        vec![(0, 1), (1, 2)],
        vec![0, 0],
        vec![1, 1],
    );
    let out = proc.process(e, None, true);
    assert_eq!(out.ids, vec![101, 7, 8, 102]);
    assert_eq!(out.type_ids, vec![0, 0, 0, 0]);
    assert_eq!(out.tokens, vec!["[CLS]", "a", "b", "[SEP]"]);
    assert_eq!(out.offsets, vec![(0, 0), (0, 1), (1, 2), (0, 0)]);
    assert_eq!(out.special_tokens_mask, vec![1, 0, 0, 1]);
    assert_eq!(out.attention_mask, vec![1, 1, 1, 1]);
}

#[test]
fn bert_processing_pair_sets_type_ids() {
    let proc = BertProcessing::new(("[SEP]".to_string(), 102), ("[CLS]".to_string(), 101));
    let a = Encoding::new(vec![7], vec![0], vec!["a".to_string()], vec![(0, 1)], vec![0], vec![1]);
    let b = Encoding::new(vec![8], vec![0], vec!["b".to_string()], vec![(0, 1)], vec![0], vec![1]);
    let out = proc.process(a, Some(b), true);
    assert_eq!(out.ids, vec![101, 7, 102, 8, 102]);
    assert_eq!(out.type_ids, vec![0, 0, 0, 1, 1]);
    assert_eq!(out.special_tokens_mask, vec![1, 0, 1, 0, 1]);
}

#[test]
fn bert_added_tokens_counts() {
    let proc = BertProcessing::new(("[SEP]".to_string(), 1), ("[CLS]".to_string(), 0));
    assert_eq!(proc.added_tokens(false), 2);
    assert_eq!(proc.added_tokens(true), 3);
    let pp = PostProcessor::Bert(proc);
    assert_eq!(pp.num_special_tokens_to_add(true), 3);
}

#[test]
fn roberta_processing_pair_doubles_separator() {
    let proc = RobertaProcessing::new(("</s>".to_string(), 2), ("<s>".to_string(), 0));
    assert_eq!(proc.added_tokens(true), 4);
    let a = Encoding::new(vec![7], vec![0], vec!["a".to_string()], vec![(0, 1)], vec![0], vec![1]);
    let b = Encoding::new(vec![8], vec![0], vec!["b".to_string()], vec![(0, 1)], vec![0], vec![1]);
    let out = proc.process(a, Some(b), true);
    assert_eq!(out.ids, vec![0, 7, 2, 2, 8, 2]);
    assert_eq!(out.type_ids, vec![0, 0, 0, 0, 0, 0]);
    assert_eq!(out.tokens, vec!["<s>", "a", "</s>", "</s>", "b", "</s>"]);
}

#[test]
fn roberta_builder_flags() {
    let proc = RobertaProcessing::new(("</s>".to_string(), 2), ("<s>".to_string(), 0))
        .trim_offsets(false)
        .add_prefix_space(false);
    assert!(!proc.trim_offsets);
    assert!(!proc.add_prefix_space);
}

#[test]
fn wordpiece_decoder_cleanup() {
    let d = tokenizers::decoders::wordpiece::WordPiece::new("##".to_string(), true);
    let out = d.decode(vec![
        "un".to_string(),
        "##aff".to_string(),
        "##able".to_string(),
        ".".to_string(),
    ]);
    assert_eq!(out, "unaffable.");
}

#[test]
fn wordpiece_decoder_without_cleanup() {
    let d = tokenizers::decoders::wordpiece::WordPiece::new("##".to_string(), false);
    let out = d.decode(vec!["un".to_string(), "##even".to_string(), ".".to_string()]);
    assert_eq!(out, "uneven .");
}

#[test]
fn bpe_decoder_strips_suffix() {
    let d = BPEDecoder::new("</w>".to_string());
    let out = d.decode(vec!["hello</w>".to_string(), "world</w>".to_string()]);
    assert_eq!(out, "hello world");
    let dd = BPEDecoder::default();
    assert_eq!(dd.suffix, "</w>");
}

#[test]
fn tokenizer_encode_single() {
    let mut t = Tokenizer::new(wp_model());
    t.pre_tokenizer = Some(PreTokenizer::CharDelimiterSplit(CharDelimiterSplit::new(' ')));
    let e = t.encode("hello world", None, false).unwrap();
    assert_eq!(e.ids, vec![0, 1]);
    assert_eq!(e.tokens, vec!["hello", "world"]);
    assert_eq!(e.offsets, vec![(0, 5), (6, 11)]);
    assert_eq!(e.attention_mask, vec![1, 1]);
}

#[test]
fn tokenizer_encode_with_bert_processing() {
    let mut t = Tokenizer::new(wp_model());
    t.pre_tokenizer = Some(PreTokenizer::CharDelimiterSplit(CharDelimiterSplit::new(' ')));
    t.post_processor = Some(PostProcessor::Bert(BertProcessing::new(
        ("[SEP]".to_string(), 4),
        ("[CLS]".to_string(), 3),
    )));
    let e = t.encode("hello world", Some("worlds"), true).unwrap();
    assert_eq!(e.ids, vec![3, 0, 1, 4, 1, 5, 4]);
    assert_eq!(e.type_ids, vec![0, 0, 0, 0, 1, 1, 1]);
    assert_eq!(
        e.tokens,
        vec!["[CLS]", "hello", "world", "[SEP]", "world", "##s", "[SEP]"]
    );
}

#[test]
fn tokenizer_encode_batch_and_decode() {
    let mut t = Tokenizer::new(wp_model());
    t.pre_tokenizer = Some(PreTokenizer::CharDelimiterSplit(CharDelimiterSplit::new(' ')));
    let out = t
        .encode_batch(
            vec![("hello".to_string(), None), ("world hello".to_string(), None)],
            false,
        )
        .unwrap();
    assert_eq!(out.len(), 2);
    assert_eq!(out[0].ids, vec![0]);
    assert_eq!(out[1].ids, vec![1, 0]);
    let text = t.decode(vec![0, 1], false);
    assert_eq!(text, "hello world");
}

#[test]
fn tokenizer_decode_skips_special_tokens() {
    let mut t = Tokenizer::new(wp_model());
    t.post_processor = Some(PostProcessor::Bert(BertProcessing::new(
        ("[SEP]".to_string(), 4),
        ("[CLS]".to_string(), 3),
    )));
    assert_eq!(t.decode(vec![3, 0, 4], true), "hello");
    assert_eq!(t.decode(vec![3, 0, 4], false), "[CLS] hello [SEP]");
}

#[test]
fn tokenizer_decode_with_decoder() {
    let mut t = Tokenizer::new(wp_model());
    t.decoder = Some(Decoder::WordPiece(tokenizers::decoders::wordpiece::WordPiece::new(
        "##".to_string(),
        true,
    )));
    assert_eq!(t.decode(vec![1, 5], false), "worlds");
}

#[test]
fn tokenizer_whole_text_when_no_pre_tokenizer() {
    let mut t = Tokenizer::new(wp_model());
    let e = t.encode("hello", None, false).unwrap();
    assert_eq!(e.ids, vec![0]);
    assert_eq!(e.offsets, vec![(0, 5)]);
}
