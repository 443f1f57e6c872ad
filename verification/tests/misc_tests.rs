use cross_encode_rs::data::{BenchmarkError, DataEntry};
use cross_encode_rs::errors::CrossEncoderError;
use cross_encode_rs::hub::{cache_folder_name, should_download, split_model_id};
use cross_encode_rs::serving::{
    failed_reply, liveness_status, readiness_status, round_robin, worker_count, RerankAPIError,
};
use cross_encode_rs::text::decimal_string;

#[test]
fn rerank_input_lists_positive_documents_first() {
    let entry = DataEntry {
        query: "q".to_string(),
        positive: vec!["p1".to_string(), "p2".to_string()],
        negative: vec!["n1".to_string()],
    };
    let (query, documents) = entry.to_rerank_input();
    assert_eq!(query, "q");
    assert_eq!(documents, vec!["p1", "p2", "n1"]);
}

#[test]
fn error_messages_carry_their_kind() {
    let cases = [
        (
            CrossEncoderError::HuggingFaceLoadError("x".into()),
            "Error while loading the model from HuggingFace (or from cache): x",
        ),
        (CrossEncoderError::IOError("x".into()), "IO error: x"),
        (CrossEncoderError::TokenizerError("x".into()), "Error loading the tokenizer: x"),
        (CrossEncoderError::InferenceError("x".into()), "Error while running inference: x"),
        (CrossEncoderError::OnnxLoadingError("x".into()), "Error while loading ONNX model: x"),
        (CrossEncoderError::GenericFailure("x".into()), "x"),
    ];
    for (error, text) in cases {
        assert_eq!(error.message(), text);
    }
    assert!(matches!(CrossEncoderError::generic("boom"), CrossEncoderError::GenericFailure(s) if s == "boom"));
}

#[test]
fn model_ids_split_at_the_first_slash() {
    assert_eq!(
        split_model_id("cross-encoder/ms-marco-MiniLM-L6-v2").unwrap(),
        ("cross-encoder", "ms-marco-MiniLM-L6-v2")
    );
    assert_eq!(split_model_id("a/b/c").unwrap(), ("a", "b/c"));
    assert_eq!(split_model_id("/x").unwrap(), ("", "x"));
    match split_model_id("no-owner") {
        Err(CrossEncoderError::HuggingFaceLoadError(m)) => {
            assert_eq!(m, "Model ID should be reported as owner/repo_name")
        }
        other => panic!("unexpected {:?}", other),
    }
}

#[test]
fn cache_folder_replaces_slashes() {
    assert_eq!(
        cache_folder_name("cross-encoder/ms-marco-MiniLM-L6-v2"),
        "cross-encoder--ms-marco-MiniLM-L6-v2"
    );
    assert_eq!(cache_folder_name("a/b/ü"), "a--b--ü");
    assert_eq!(cache_folder_name(""), "");
}

#[test]
fn cached_files_are_only_fetched_when_forced() {
    assert!(should_download(false, false));
    assert!(should_download(false, true));
    assert!(should_download(true, true));
    assert!(!should_download(true, false));
}

#[test]
fn service_errors_map_to_status_and_text() {
    let channel = RerankAPIError::ChannelError("closed".into());
    assert_eq!(channel.status_code(), 500);
    assert_eq!(
        channel.message(),
        "Error while trying to get a response from the worker: closed"
    );
    let inference = RerankAPIError::InferenceError("bad".into());
    assert_eq!(inference.status_code(), 500);
    assert_eq!(inference.message(), "Error while running inference: bad");
    let unavailable = RerankAPIError::WorkerUnavailableError;
    assert_eq!(unavailable.status_code(), 503);
    assert_eq!(unavailable.message(), "The inference worker is unavailable");
}

#[test]
fn workers_take_requests_in_turn() {
    let picks: Vec<usize> = (0..7).map(|c| round_robin(c, 3)).collect();
    assert_eq!(picks, vec![0, 1, 2, 0, 1, 2, 0]);
    assert_eq!(worker_count(0), 1);
    assert_eq!(worker_count(4), 4);
}

#[test]
fn decimal_strings() {
    assert_eq!(decimal_string(0), "0");
    assert_eq!(decimal_string(7), "7");
    assert_eq!(decimal_string(10), "10");
    assert_eq!(decimal_string(usize::MAX), usize::MAX.to_string());
}

#[test]
fn failed_replies_carry_the_worker_error() {
    match failed_reply(Some("model missing".to_string())) {
        RerankAPIError::InferenceError(m) => assert_eq!(m, "model missing"),
        other => panic!("unexpected {:?}", other),
    }
    match failed_reply(None) {
        RerankAPIError::InferenceError(m) => assert_eq!(m, "unknown error"),
        other => panic!("unexpected {:?}", other),
    }
}

#[test]
fn consecutive_requests_reach_every_worker_once() {
    let mut picks: Vec<usize> = (5..9).map(|c| round_robin(c, 4)).collect();
    assert_eq!(picks, vec![1, 2, 3, 0]);
    picks.sort();
    assert_eq!(picks, vec![0, 1, 2, 3]);
    let start = usize::MAX - 2;
    let mut last: Vec<usize> = (0..3).map(|k| round_robin(start + k, 3)).collect();
    last.sort();
    assert_eq!(last, vec![0, 1, 2]);
}

#[test]
fn a_wrapped_counter_can_repeat_a_worker() {
    let picks: Vec<usize> = [usize::MAX, 0, 1].iter().map(|&c| round_robin(c, 3)).collect();
    assert_eq!(picks, vec![0, 0, 1]);
}

#[test]
fn benchmark_errors_name_their_kind() {
    assert_eq!(BenchmarkError::Serde("bad line".into()).message(), "SerDe error: bad line");
    assert_eq!(BenchmarkError::IO("missing".into()).message(), "IO error: missing");
    assert_eq!(BenchmarkError::CrossEncoder("x".into()).message(), "CrossEncoder error: x");
    assert_eq!(BenchmarkError::CliArgs("no model".into()).message(), "Incorrect CLI input: no model");
}

#[test]
fn liveness_needs_every_worker_alive() {
    assert_eq!(liveness_status(&[true, true, true]), 200);
    assert_eq!(liveness_status(&[true, false, true]), 503);
    assert_eq!(liveness_status(&[]), 200);
}

#[test]
fn readiness_needs_every_model_loaded_and_no_shutdown() {
    assert_eq!(readiness_status(&[true, true], false), 200);
    assert_eq!(readiness_status(&[true, false], false), 503);
    assert_eq!(readiness_status(&[true, true], true), 503);
}
