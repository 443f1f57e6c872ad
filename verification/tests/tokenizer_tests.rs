use cross_encode_rs::errors::CrossEncoderError;
use cross_encode_rs::inference::InferenceInputs;
use cross_encode_rs::tokenizer::{
    encode_batch, load_tokenizer, select_padding, select_truncation, PaddingConfig, PaddingLength, Side,
    TruncationConfig, TruncationMode, DEFAULT_MAX_LENGTH,
};

/// A small word-level tokenizer with BERT-style special tokens: `[CLS] query
/// [SEP] document [SEP]`, type ids 0 for the query part and 1 for the document.
pub fn tokenizer_json(extra: &str) -> String {
    format!(
        r#"{{
  "version": "1.0",
  {extra}
  "added_tokens": [
    {{"id": 0, "content": "[PAD]", "single_word": false, "lstrip": false, "rstrip": false, "normalized": false, "special": true}},
    {{"id": 1, "content": "[CLS]", "single_word": false, "lstrip": false, "rstrip": false, "normalized": false, "special": true}},
    {{"id": 2, "content": "[SEP]", "single_word": false, "lstrip": false, "rstrip": false, "normalized": false, "special": true}},
    {{"id": 3, "content": "[UNK]", "single_word": false, "lstrip": false, "rstrip": false, "normalized": false, "special": true}}
  ],
  "normalizer": null,
  "pre_tokenizer": {{"type": "Whitespace"}},
  "post_processor": {{"type": "BertProcessing", "sep": ["[SEP]", 2], "cls": ["[CLS]", 1]}},
  "decoder": null,
  "model": {{"type": "WordLevel", "vocab": {{"[PAD]": 0, "[CLS]": 1, "[SEP]": 2, "[UNK]": 3, "what": 4, "is": 5, "rust": 6, "word": 7, "paris": 8, "a": 9, "language": 10}}, "unk_token": "[UNK]"}}
}}"#
    )
}

#[test]
fn test_load_tokenizer() {
    let _ = load_tokenizer(tokenizer_json("").as_bytes(), None).expect("Should not fail");
}

#[test]
fn encode_batch_truncates_to_default_max_length() {
    let tk = load_tokenizer(tokenizer_json("").as_bytes(), None).expect("tokenizer should load");
    let long_document = "word ".repeat(3000);

    let encodings =
        encode_batch(&tk, "what is rust", &[long_document.as_str()]).expect("should encode");

    assert_eq!(encodings[0].len(), DEFAULT_MAX_LENGTH);
}

#[test]
fn load_tokenizer_uses_fallback_truncation_length() {
    let tk =
        load_tokenizer(tokenizer_json("").as_bytes(), Some(10)).expect("tokenizer should load");
    assert_eq!(tk.truncation().max_length, 10);
    assert!(tk.usable());
    let long_document = "word ".repeat(50);
    let encodings = encode_batch(&tk, "what is rust", &[long_document.as_str()]).unwrap();
    assert_eq!(encodings[0].len(), 10);
}

#[test]
fn load_tokenizer_keeps_configured_settings() {
    let extra = r#""truncation": {"direction": "Right", "max_length": 8, "strategy": "LongestFirst", "stride": 0},
  "padding": {"strategy": {"Fixed": 12}, "direction": "Left", "pad_to_multiple_of": null, "pad_id": 0, "pad_type_id": 0, "pad_token": "[PAD]"},"#;
    let tk =
        load_tokenizer(tokenizer_json(extra).as_bytes(), Some(100)).expect("tokenizer should load");
    assert_eq!(tk.truncation().max_length, 8);
    // Batch-longest padding is forced; the file's other padding settings stay.
    assert_eq!(tk.padding().strategy, PaddingLength::BatchLongest);
    assert_eq!(tk.padding().direction, Side::Left);
    // Padding is not applied while encoding: each pair keeps its own length.
    let encodings = encode_batch(&tk, "what is rust", &["word word word word word word", "paris"]).unwrap();
    assert_eq!(encodings[0].len(), 8);
    assert_eq!(encodings[1].len(), 7);
}

#[test]
fn load_tokenizer_rejects_invalid_json() {
    let result = load_tokenizer(b"{ not json", None);
    assert!(matches!(result, Err(CrossEncoderError::TokenizerError(_))));
}

#[test]
fn encode_batch_returns_one_encoding_per_document() {
    let tk = load_tokenizer(tokenizer_json("").as_bytes(), None).unwrap();
    let documents = ["rust is a language", "paris", "what"];
    let encodings = encode_batch(&tk, "what is rust", &documents).unwrap();
    assert_eq!(encodings.len(), documents.len());
    // [CLS] what is rust [SEP] rust is a language [SEP]
    let first = InferenceInputs::from_batch(&encodings[0..1].to_vec(), true).unwrap();
    assert_eq!((first.rows, first.cols), (1, 10));
    assert_eq!(first.input_ids, vec![1, 4, 5, 6, 2, 6, 5, 9, 10, 2]);
    assert_eq!(first.token_type_ids, Some(vec![0, 0, 0, 0, 0, 1, 1, 1, 1, 1]));
    let second = InferenceInputs::from_batch(&encodings[1..2].to_vec(), false).unwrap();
    assert_eq!(second.attention_mask, vec![1; 7]);
    assert_eq!(encodings[2].len(), 7);
}

#[test]
fn select_padding_defaults_to_batch_longest() {
    let p = select_padding(None);
    assert_eq!(p.strategy, PaddingLength::BatchLongest);
    assert_eq!(p.direction, Side::Right);
    assert_eq!(p.pad_to_multiple_of, None);
    assert_eq!(p.pad_id, 0);
    assert_eq!(p.pad_type_id, 0);
    assert_eq!(p.pad_token, "[PAD]");
}

#[test]
fn select_padding_keeps_configured() {
    let configured = PaddingConfig {
        strategy: PaddingLength::Fixed(32),
        direction: Side::Left,
        pad_to_multiple_of: Some(8),
        pad_id: 7,
        pad_type_id: 1,
        pad_token: "<pad>".to_string(),
    };
    let p = select_padding(Some(configured));
    assert_eq!(p.strategy, PaddingLength::BatchLongest);
    assert_eq!(p.direction, Side::Left);
    assert_eq!(p.pad_to_multiple_of, Some(8));
    assert_eq!(p.pad_id, 7);
    assert_eq!(p.pad_token, "<pad>");
}

#[test]
fn select_truncation_falls_back() {
    let default = select_truncation(None, None);
    assert_eq!(
        default,
        TruncationConfig {
            direction: Side::Right,
            max_length: 512,
            strategy: TruncationMode::LongestFirst,
            stride: 0
        }
    );
    assert_eq!(select_truncation(None, Some(128)).max_length, 128);
    let configured = TruncationConfig {
        direction: Side::Left,
        max_length: 64,
        strategy: TruncationMode::OnlySecond,
        stride: 4,
    };
    assert_eq!(select_truncation(Some(configured), Some(128)), configured);
}

#[test]
fn truncation_shorter_than_special_tokens_cannot_encode() {
    // A pair gets [CLS] and two [SEP]: three special tokens.
    let short = load_tokenizer(tokenizer_json("").as_bytes(), Some(2)).expect("tokenizer should load");
    assert_eq!(short.truncation().max_length, 2);
    assert!(!short.usable());
    assert!(matches!(
        encode_batch(&short, "what", &["rust"]),
        Err(CrossEncoderError::TokenizerError(_))
    ));
    let enough = load_tokenizer(tokenizer_json("").as_bytes(), Some(3)).unwrap();
    assert!(enough.usable());
    let encodings = encode_batch(&enough, "what", &["rust"]).unwrap();
    assert_eq!(encodings[0].len(), 3);
}

#[test]
fn truncation_with_a_stride_cannot_encode() {
    let extra = r#""truncation": {"direction": "Right", "max_length": 512, "strategy": "LongestFirst", "stride": 300},"#;
    let tk = load_tokenizer(tokenizer_json(extra).as_bytes(), None).expect("tokenizer should load");
    assert_eq!(tk.truncation().stride, 300);
    assert!(!tk.usable());
    assert!(encode_batch(&tk, "what", &["rust"]).is_err());
}

#[test]
fn unknown_words_without_unknown_token_fail_to_encode() {
    let json = r#"{
  "version": "1.0",
  "pre_tokenizer": {"type": "Whitespace"},
  "model": {"type": "WordLevel", "vocab": {"what": 0, "rust": 1}, "unk_token": "[UNK]"}
}"#;
    let tk = load_tokenizer(json.as_bytes(), None).unwrap();
    assert!(tk.usable());
    assert!(encode_batch(&tk, "what", &["rust"]).is_ok());
    assert!(matches!(
        encode_batch(&tk, "what", &["rust", "paris"]),
        Err(CrossEncoderError::TokenizerError(_))
    ));
}

#[test]
fn sampling_models_cannot_encode() {
    let json = r#"{
  "version": "1.0",
  "pre_tokenizer": {"type": "Whitespace"},
  "model": {"type": "BPE", "dropout": 0.5, "unk_token": null, "continuing_subword_prefix": null, "end_of_word_suffix": null, "fuse_unk": false, "byte_fallback": false, "vocab": {"a": 0, "b": 1, "ab": 2}, "merges": ["a b"]}
}"#;
    let tk = load_tokenizer(json.as_bytes(), None).expect("tokenizer should load");
    assert!(!tk.usable());
    assert!(encode_batch(&tk, "ab", &["ab"]).is_err());
}

#[test]
fn encoded_pairs_hold_one_type_id_and_mask_value_per_id() {
    let tk = load_tokenizer(tokenizer_json("").as_bytes(), Some(8)).unwrap();
    let documents = ["rust is a language", "paris", "what is a word", ""];
    let encodings = encode_batch(&tk, "what is rust", &documents).unwrap();
    for e in &encodings {
        assert!(e.len() <= 8);
        assert_eq!(e.get_type_ids().len(), e.get_ids().len());
        assert_eq!(e.get_attention_mask().len(), e.get_ids().len());
    }
}
