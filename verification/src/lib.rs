//! Text handling for semantic line filtering: input normalisation, word
//! windows over log lines, and the decision rules that turn a classifier's
//! answer into a match.

pub mod cross_encoder_grep;
pub mod error;
pub mod cross_encoder_sliding_window_grep;
pub mod preprocessing;
pub mod semantic_grep;
pub mod text;
pub mod tokenizer;

pub use preprocessing::preprocess;
pub use tokenizer::{initialization_failure, tokenize_with, TokenizerError};
pub use error::{Result, SegrepError};
