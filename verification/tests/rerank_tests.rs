use cross_encode_rs::inference::InferenceInputs;
use cross_encode_rs::rerank::{batch_size_or_default, RerankJob, DEFAULT_BATCH_SIZE};
use cross_encode_rs::tokenizer::{load_tokenizer, CrossTokenizer};

fn job_tokenizer_with(padding: &str) -> CrossTokenizer {
    let json = r#"{
  "version": "1.0",
  PADDING
  "added_tokens": [
    {"id": 0, "content": "[PAD]", "single_word": false, "lstrip": false, "rstrip": false, "normalized": false, "special": true},
    {"id": 1, "content": "[CLS]", "single_word": false, "lstrip": false, "rstrip": false, "normalized": false, "special": true},
    {"id": 2, "content": "[SEP]", "single_word": false, "lstrip": false, "rstrip": false, "normalized": false, "special": true},
    {"id": 3, "content": "[UNK]", "single_word": false, "lstrip": false, "rstrip": false, "normalized": false, "special": true}
  ],
  "pre_tokenizer": {"type": "Whitespace"},
  "post_processor": {"type": "BertProcessing", "sep": ["[SEP]", 2], "cls": ["[CLS]", 1]},
  "model": {"type": "WordLevel", "vocab": {"[PAD]": 0, "[CLS]": 1, "[SEP]": 2, "[UNK]": 3, "what": 4, "is": 5, "rust": 6, "a": 7, "cat": 8}, "unk_token": "[UNK]"}
}"#.replace("PADDING", padding);
    load_tokenizer(json.as_bytes(), None).unwrap()
}

fn job_tokenizer() -> CrossTokenizer {
    job_tokenizer_with("")
}

/// Stand-in for a model: scores each pair by its number of real tokens.
fn count_real_tokens(inputs: &InferenceInputs) -> Vec<u32> {
    (0..inputs.rows)
        .map(|r| {
            inputs.attention_mask[r * inputs.cols..(r + 1) * inputs.cols]
                .iter()
                .map(|&m| m as u32)
                .sum()
        })
        .collect()
}

fn run_all(job: &mut RerankJob<'_, u32>) -> Vec<InferenceInputs> {
    let mut handed_out = Vec::new();
    while let Some(inputs) = job.next_batch() {
        let inputs = inputs.expect("batch should be valid");
        let scores = count_real_tokens(&inputs);
        job.record_scores(scores);
        handed_out.push(inputs);
    }
    handed_out
}

// Token counts with "[CLS] what is rust [SEP] ... [SEP]": 6 + words of the document.
const DOCUMENTS: [&str; 5] = [
    "rust is a cat a cat", // 12
    "cat",                 // 7
    "rust is rust is",     // 10
    "a",                   // 7
    "what is a cat",       // 10
];

#[test]
fn batched_scores_return_to_input_positions() {
    let tk = job_tokenizer();
    let mut job =
        RerankJob::new(&tk, "what is rust", &DOCUMENTS, true, Some(2), true, 0u32).unwrap();
    let batches = run_all(&mut job);
    // Shortest first, ties in input order: [1, 3], [2, 4], [0].
    assert_eq!(batches.len(), 3);
    assert_eq!((batches[0].rows, batches[0].cols), (2, 7));
    assert_eq!((batches[1].rows, batches[1].cols), (2, 10));
    assert_eq!((batches[2].rows, batches[2].cols), (1, 12));
    let results = job.finish();
    let expected = [12, 7, 10, 7, 10];
    assert_eq!(results.len(), DOCUMENTS.len());
    for (idx, result) in results.iter().enumerate() {
        assert_eq!(result.index, idx);
        assert_eq!(result.score, expected[idx]);
        assert_eq!(result.document, Some(DOCUMENTS[idx]));
    }
}

#[test]
fn batch_size_does_not_change_scores() {
    let tk = job_tokenizer();
    let mut single =
        RerankJob::new(&tk, "what is rust", &DOCUMENTS, false, Some(5), true, 0u32)
            .unwrap();
    assert_eq!(run_all(&mut single).len(), 1);
    let mut batched =
        RerankJob::new(&tk, "what is rust", &DOCUMENTS, false, Some(1), true, 0u32).unwrap();
    assert_eq!(run_all(&mut batched).len(), 5);
    let a: Vec<u32> = single.finish().iter().map(|r| r.score).collect();
    let b: Vec<u32> = batched.finish().iter().map(|r| r.score).collect();
    assert_eq!(a, b);
}

#[test]
fn results_without_documents_omit_the_text() {
    let tk = job_tokenizer();
    let mut job =
        RerankJob::new(&tk, "what is rust", &DOCUMENTS, false, None, true, 0u32).unwrap();
    run_all(&mut job);
    assert!(job.finish().iter().all(|r| r.document.is_none()));
}

#[test]
fn empty_request_has_no_batches() {
    let tk = job_tokenizer();
    let mut job = RerankJob::new(&tk, "what is rust", &[], false, None, true, 0u32).unwrap();
    assert!(job.is_done());
    assert!(job.next_batch().is_none());
    assert!(job.finish().is_empty());
}

#[test]
fn missing_scores_keep_the_initial_value() {
    let tk = job_tokenizer();
    let mut job =
        RerankJob::new(&tk, "what is rust", &["cat", "a"], false, None, true, 99u32).unwrap();
    job.next_batch().unwrap().unwrap();
    job.record_scores(vec![5]);
    assert!(job.is_done());
    let scores: Vec<u32> = job.finish().iter().map(|r| r.score).collect();
    assert_eq!(scores, vec![5, 99]);
}

#[test]
fn batches_are_padded_with_a_zero_mask() {
    let tk = job_tokenizer();
    let mut job =
        RerankJob::new(&tk, "what is rust", &["cat", "a cat"], false, None, false, 0u32).unwrap();
    let inputs = job.next_batch().unwrap().unwrap();
    assert_eq!((inputs.rows, inputs.cols), (2, 8));
    assert_eq!(inputs.input_ids, vec![1, 4, 5, 6, 2, 8, 2, 0, 1, 4, 5, 6, 2, 7, 8, 2]);
    assert_eq!(inputs.attention_mask, vec![1, 1, 1, 1, 1, 1, 1, 0, 1, 1, 1, 1, 1, 1, 1, 1]);
    assert!(inputs.token_type_ids.is_none());
}

#[test]
fn left_padding_and_multiples_follow_the_config() {
    let tk = job_tokenizer_with(
        r#""padding": {"strategy": {"Fixed": 30}, "direction": "Left", "pad_to_multiple_of": 4, "pad_id": 9, "pad_type_id": 1, "pad_token": "[PAD]"},"#,
    );
    let mut job =
        RerankJob::new(&tk, "what is rust", &["cat", "a cat"], false, None, true, 0u32).unwrap();
    // Batch-longest padding (7 and 8 tokens), rounded up to a multiple of 4.
    let inputs = job.next_batch().unwrap().unwrap();
    assert_eq!((inputs.rows, inputs.cols), (2, 8));
    assert_eq!(&inputs.input_ids[0..8], &[9, 1, 4, 5, 6, 2, 8, 2]);
    assert_eq!(&inputs.attention_mask[0..8], &[0, 1, 1, 1, 1, 1, 1, 1]);
    assert_eq!(
        inputs.token_type_ids.unwrap()[0..8].to_vec(),
        vec![1, 0, 0, 0, 0, 0, 1, 1]
    );
}

#[test]
fn unencodable_documents_refuse_the_request() {
    let tk = job_tokenizer_with(r#""truncation": {"direction": "Right", "max_length": 2, "strategy": "LongestFirst", "stride": 0},"#);
    assert!(matches!(
        RerankJob::new(&tk, "what is rust", &["cat"], false, None, true, 0u32),
        Err(cross_encode_rs::CrossEncoderError::TokenizerError(_))
    ));
}

#[test]
fn batch_size_defaults_and_is_at_least_one() {
    assert_eq!(batch_size_or_default(None), DEFAULT_BATCH_SIZE);
    assert_eq!(batch_size_or_default(Some(0)), 1);
    assert_eq!(batch_size_or_default(Some(3)), 3);
}

