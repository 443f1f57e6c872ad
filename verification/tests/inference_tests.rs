use cross_encode_rs::errors::CrossEncoderError;
use cross_encode_rs::inference::{score_head, InferenceInputs, ScoreHead};
use cross_encode_rs::tokenizer::{encode_batch, load_tokenizer};

fn inference_tokenizer() -> cross_encode_rs::tokenizer::CrossTokenizer {
    let json = r#"{
  "version": "1.0",
  "pre_tokenizer": {"type": "Whitespace"},
  "post_processor": {"type": "BertProcessing", "sep": ["[SEP]", 2], "cls": ["[CLS]", 1]},
  "model": {"type": "WordLevel", "vocab": {"[PAD]": 0, "[CLS]": 1, "[SEP]": 2, "[UNK]": 3, "q": 4, "d": 5}, "unk_token": "[UNK]"}
}"#;
    load_tokenizer(json.as_bytes(), None).unwrap()
}

#[test]
fn score_head_follows_the_label_count() {
    assert_eq!(score_head(1).unwrap(), ScoreHead::Sigmoid);
    assert_eq!(score_head(2).unwrap(), ScoreHead::Softmax);
    match score_head(3) {
        Err(CrossEncoderError::InferenceError(m)) => assert_eq!(m, "Unsupported num_labels: 3"),
        other => panic!("unexpected {:?}", other),
    }
    match score_head(0) {
        Err(CrossEncoderError::InferenceError(m)) => assert_eq!(m, "Unsupported num_labels: 0"),
        other => panic!("unexpected {:?}", other),
    }
    match score_head(1024) {
        Err(CrossEncoderError::InferenceError(m)) => assert_eq!(m, "Unsupported num_labels: 1024"),
        other => panic!("unexpected {:?}", other),
    }
}

#[test]
fn inputs_of_unpadded_pairs_of_unequal_length_are_refused() {
    let tk = inference_tokenizer();
    let encodings = encode_batch(&tk, "q", &["d", "d d"]).unwrap();
    assert!(matches!(
        InferenceInputs::from_batch(&encodings, true),
        Err(CrossEncoderError::InferenceError(_))
    ));
}

#[test]
fn inputs_are_laid_out_row_major() {
    let tk = inference_tokenizer();
    let encodings = encode_batch(&tk, "q", &["d d", "q d"]).unwrap();
    let inputs = InferenceInputs::from_batch(&encodings, true).unwrap();
    assert_eq!((inputs.rows, inputs.cols), (2, 6));
    assert_eq!(inputs.input_ids, vec![1, 4, 2, 5, 5, 2, 1, 4, 2, 4, 5, 2]);
    assert_eq!(inputs.attention_mask, vec![1; 12]);
    assert_eq!(inputs.token_type_ids, Some(vec![0, 0, 0, 1, 1, 1, 0, 0, 0, 1, 1, 1]));
    let without = InferenceInputs::from_batch(&encodings, false).unwrap();
    assert_eq!(without.token_type_ids, None);
}
