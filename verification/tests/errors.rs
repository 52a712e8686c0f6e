use std::path::PathBuf;

use segrep::semantic_grep::{check_embedding_count, similarity_inputs};
use segrep::tokenizer::{check_truncation_room, tokenization_outcome};
use segrep::{initialization_failure, tokenize_with, SegrepError, TokenizerError};

#[test]
fn tokenizer_error_messages() {
    let e = TokenizerError::InitializationError("offline".to_string());
    assert_eq!(e.message(), "Failed to initialize tokenizer: offline");
    let e = TokenizerError::TokenizationError("bad input".to_string());
    assert_eq!(e.message(), "Failed to tokenize text: bad input");
}

#[test]
fn initialization_failure_detail() {
    match initialization_failure("no network") {
        TokenizerError::InitializationError(msg) => assert_eq!(
            msg,
            "Could not load GPT-2 tokenizer. Please check your internet connection and try again. Error: no network"
        ),
        other => panic!("unexpected {:?}", other),
    }
}

#[test]
fn tokenization_outcome_maps_errors() {
    let ok = tokenization_outcome(Ok(vec!["a".to_string(), "b".to_string()]));
    assert_eq!(ok.unwrap(), vec!["a", "b"]);
    match tokenization_outcome(Err("boom".to_string())) {
        Err(TokenizerError::TokenizationError(msg)) => {
            assert_eq!(msg, "Failed to tokenize the input text. Error: boom")
        }
        other => panic!("unexpected {:?}", other),
    }
}

const WORD_LEVEL: &str = r#"{
  "version": "1.0",
  "truncation": null,
  "padding": null,
  "added_tokens": [],
  "normalizer": null,
  "pre_tokenizer": {"type": "Whitespace"},
  "post_processor": null,
  "decoder": null,
  "model": {"type": "WordLevel", "vocab": {"[UNK]": 0, "Hello": 1, ",": 2, "world": 3, "!": 4}, "unk_token": "[UNK]"}
}"#;

const WORD_LEVEL_NO_UNK: &str = r#"{
  "version": "1.0",
  "truncation": null,
  "padding": null,
  "added_tokens": [],
  "normalizer": null,
  "pre_tokenizer": {"type": "Whitespace"},
  "post_processor": null,
  "decoder": null,
  "model": {"type": "WordLevel", "vocab": {"Hello": 1}, "unk_token": "[UNK]"}
}"#;

#[test]
fn tokenize_with_word_level_model() {
    let tokenizer: tokenizers::Tokenizer = WORD_LEVEL.parse().expect("valid tokenizer");
    let tokens = tokenize_with(&tokenizer, "Hello, world!").expect("tokenizes");
    assert_eq!(tokens, vec!["Hello", ",", "world", "!"]);
    let tokens = tokenize_with(&tokenizer, "").expect("empty input is fine");
    assert!(tokens.is_empty());
    let tokens = tokenize_with(&tokenizer, "Goodbye").expect("unknown word");
    assert_eq!(tokens, vec!["[UNK]"]);
}

#[test]
fn tokenize_with_reports_encoder_errors() {
    let tokenizer: tokenizers::Tokenizer = WORD_LEVEL_NO_UNK.parse().expect("valid tokenizer");
    match tokenize_with(&tokenizer, "unknown") {
        Err(TokenizerError::TokenizationError(msg)) => {
            assert!(msg.starts_with("Failed to tokenize the input text. Error: "), "{}", msg);
            assert!(msg.len() > "Failed to tokenize the input text. Error: ".len());
        }
        other => panic!("unexpected {:?}", other),
    }
}

#[test]
fn segrep_error_messages() {
    assert_eq!(
        SegrepError::TokenizerInitError("x".to_string()).message(),
        "Failed to initialize tokenizer: x"
    );
    assert_eq!(SegrepError::DeviceError("gpu".to_string()).message(), "Device error: gpu");
    assert_eq!(SegrepError::CudaError("c".to_string()).message(), "CUDA error: c");
    assert_eq!(SegrepError::MemoryError("m".to_string()).message(), "Memory error: m");
    assert_eq!(SegrepError::ConfigError("k".to_string()).message(), "Invalid configuration: k");
    assert_eq!(
        SegrepError::EmbeddingError("e".to_string()).message(),
        "Embedding computation error: e"
    );
    assert_eq!(SegrepError::InputProcessError("i".to_string()).message(), "Failed to process input: i");
    assert_eq!(SegrepError::TokenizationError("t".to_string()).message(), "Tokenization error: t");
    assert_eq!(SegrepError::InvalidModelFormat("f".to_string()).message(), "Invalid model format: f");
    assert_eq!(
        SegrepError::ModelFileNotFound(PathBuf::from("models/x.bin")).message(),
        "Model file not found: models/x.bin"
    );
    assert_eq!(
        SegrepError::ModelLoadError { path: PathBuf::from("m/c.json"), message: "bad".to_string() }
            .message(),
        "Failed to load model from m/c.json: bad"
    );
}

#[test]
fn io_errors_convert() {
    let io = std::io::Error::new(std::io::ErrorKind::Other, "disk gone");
    let e: SegrepError = io.into();
    assert!(matches!(e, SegrepError::IoError(_)));
    assert_eq!(e.message(), "I/O error: disk gone");
}

#[test]
fn embedding_count_check() {
    assert_eq!(check_embedding_count(2), Ok(()));
    assert_eq!(check_embedding_count(3), Err("Expected 2 embeddings but got 3".to_string()));
    assert_eq!(check_embedding_count(0), Err("Expected 2 embeddings but got 0".to_string()));
    assert_eq!(check_embedding_count(10), Err("Expected 2 embeddings but got 10".to_string()));
}

#[test]
fn similarity_inputs_are_normalised() {
    assert_eq!(
        similarity_inputs("  User SIGNED up ", "Signup\tfrom europe"),
        vec!["user signed up", "signup from europe"]
    );
}

fn bert_word_level(truncation: &str) -> tokenizers::Tokenizer {
    let json = format!(
        r#"{{
  "version": "1.0",
  "truncation": {},
  "padding": null,
  "added_tokens": [],
  "normalizer": null,
  "pre_tokenizer": {{"type": "Whitespace"}},
  "post_processor": {{"type": "BertProcessing", "sep": ["[SEP]", 102], "cls": ["[CLS]", 101]}},
  "decoder": null,
  "model": {{"type": "WordLevel", "vocab": {{"[UNK]": 0, "Hello": 1, ",": 2, "world": 3, "!": 4, "[CLS]": 101, "[SEP]": 102}}, "unk_token": "[UNK]"}}
}}"#,
        truncation
    );
    json.parse().expect("valid tokenizer")
}

#[test]
fn truncation_room_rule() {
    assert!(check_truncation_room(None, None));
    assert!(check_truncation_room(None, Some(5)));
    assert!(check_truncation_room(Some((10, 0)), Some(2)));
    assert!(check_truncation_room(Some((2, 5)), Some(2)));
    assert!(check_truncation_room(Some((3, 0)), None));
    assert!(!check_truncation_room(Some((1, 0)), Some(2)));
    assert!(!check_truncation_room(Some((4, 2)), Some(2)));
    assert!(!check_truncation_room(Some((3, 3)), None));
}

#[test]
fn tokenize_with_special_tokens_and_truncation() {
    let tokenizer = bert_word_level(
        r#"{"direction": "Right", "max_length": 5, "strategy": "LongestFirst", "stride": 0}"#,
    );
    let tokens = tokenize_with(&tokenizer, "Hello, world!").expect("tokenizes");
    assert_eq!(tokens, vec!["[CLS]", "Hello", ",", "world", "[SEP]"]);
}

#[test]
fn tokenize_with_refuses_truncation_without_room() {
    let expected = "Failed to tokenize the input text. Error: the truncation length leaves no room for the special tokens and the stride";
    for truncation in [
        r#"{"direction": "Right", "max_length": 1, "strategy": "LongestFirst", "stride": 0}"#,
        r#"{"direction": "Right", "max_length": 4, "strategy": "LongestFirst", "stride": 2}"#,
    ] {
        let tokenizer = bert_word_level(truncation);
        match tokenize_with(&tokenizer, "Hello, world!") {
            Err(TokenizerError::TokenizationError(msg)) => assert_eq!(msg, expected),
            other => panic!("unexpected {:?}", other),
        }
    }
}

#[test]
fn similarity_inputs_ignore_prior_normalisation() {
    let (t1, t2) = ("Disk  FULL", "  disk\tfull ");
    assert_eq!(
        similarity_inputs(t1, t2),
        similarity_inputs(&segrep::preprocess(t1), &segrep::preprocess(t2))
    );
    assert_eq!(similarity_inputs(t1, t2), vec!["disk full", "disk full"]);
}
