//! The library's error type and the text shown for each of its cases.

use vstd::prelude::*;
use vstd::string::StringExecFns;
use std::io::Error as IoFailure;
use std::path::PathBuf;

verus! {

#[verifier::external_type_specification]
#[verifier::external_body]
pub struct ExPathBuf(PathBuf);

#[verifier::external_type_specification]
#[verifier::external_body]
pub struct ExIoFailure(IoFailure);

/// What can go wrong while filtering lines semantically.
#[derive(Debug)]
pub enum SegrepError {
    TokenizerInitError(String),
    ModelLoadError { path: PathBuf, message: String },
    InputProcessError(String),
    DeviceError(String),
    TokenizationError(String),
    EmbeddingError(String),
    ConfigError(String),
    IoError(IoFailure),
    ModelFileNotFound(PathBuf),
    InvalidModelFormat(String),
    CudaError(String),
    MemoryError(String),
}

/// The text shown for `e`, where `shown` is the display text of the I/O error
/// that the case carries (it is not used by the other cases).
pub open spec fn segrep_error_text(e: SegrepError, shown: Seq<char>) -> Seq<char> {
    match e {
        SegrepError::TokenizerInitError(m) => "Failed to initialize tokenizer: "@ + m@,
        SegrepError::ModelLoadError { path, message } => "Failed to load model from "@ + path_text(
            path,
        ) + ": "@ + message@,
        SegrepError::InputProcessError(m) => "Failed to process input: "@ + m@,
        SegrepError::DeviceError(m) => "Device error: "@ + m@,
        SegrepError::TokenizationError(m) => "Tokenization error: "@ + m@,
        SegrepError::EmbeddingError(m) => "Embedding computation error: "@ + m@,
        SegrepError::ConfigError(m) => "Invalid configuration: "@ + m@,
        SegrepError::IoError(_) => "I/O error: "@ + shown,
        SegrepError::ModelFileNotFound(path) => "Model file not found: "@ + path_text(path),
        SegrepError::InvalidModelFormat(m) => "Invalid model format: "@ + m@,
        SegrepError::CudaError(m) => "CUDA error: "@ + m@,
        SegrepError::MemoryError(m) => "Memory error: "@ + m@,
    }
}

/// What `Path::display` shows for a path: its bytes read as UTF-8, with
/// invalid sequences replaced. It depends on the path alone.
pub uninterp spec fn path_text(path: PathBuf) -> Seq<char>;

/// `Path::display` written out as a `String`.
#[verifier::external_body]
fn path_display_text(path: &PathBuf) -> (r: String)
    ensures
        r@ == path_text(*path),
{
    path.display().to_string()
}

/// The display text of an I/O error. Nothing is stated of it: it comes from
/// the operating system.
#[verifier::external_body]
fn io_failure_text(err: &IoFailure) -> String {
    err.to_string()
}

fn prefixed(prefix: &str, rest: &str) -> (r: String)
    ensures
        r@ == prefix@ + rest@,
{
    let mut r = String::from_str(prefix);
    r.append(rest);
    r
}

impl SegrepError {
    /// The text shown for this error.
    pub fn message(&self) -> (r: String)
        ensures
            !(*self is IoError) ==> r@ == segrep_error_text(*self, Seq::empty()),
            exists|shown: Seq<char>| r@ == segrep_error_text(*self, shown),
    {
        let ghost mut shown_text: Seq<char> = Seq::empty();
        let r = match self {
            SegrepError::TokenizerInitError(m) => prefixed("Failed to initialize tokenizer: ", m.as_str()),
            SegrepError::ModelLoadError { path, message } => {
                let shown = path_display_text(path);
                let mut r = prefixed("Failed to load model from ", shown.as_str());
                r.append(": ");
                r.append(message.as_str());
                assert(r@ =~= segrep_error_text(*self, shown_text));
                r
            },
            SegrepError::InputProcessError(m) => prefixed("Failed to process input: ", m.as_str()),
            SegrepError::DeviceError(m) => prefixed("Device error: ", m.as_str()),
            SegrepError::TokenizationError(m) => prefixed("Tokenization error: ", m.as_str()),
            SegrepError::EmbeddingError(m) => prefixed("Embedding computation error: ", m.as_str()),
            SegrepError::ConfigError(m) => prefixed("Invalid configuration: ", m.as_str()),
            SegrepError::IoError(err) => {
                let shown = io_failure_text(err);
                proof {
                    shown_text = shown@;
                }
                prefixed("I/O error: ", shown.as_str())
            },
            SegrepError::ModelFileNotFound(path) => {
                let shown = path_display_text(path);
                prefixed("Model file not found: ", shown.as_str())
            },
            SegrepError::InvalidModelFormat(m) => prefixed("Invalid model format: ", m.as_str()),
            SegrepError::CudaError(m) => prefixed("CUDA error: ", m.as_str()),
            SegrepError::MemoryError(m) => prefixed("Memory error: ", m.as_str()),
        };
        assert(r@ == segrep_error_text(*self, shown_text));
        r
    }
}

impl From<IoFailure> for SegrepError {
    fn from(err: IoFailure) -> (r: Self) {
        SegrepError::IoError(err)
    }
}

impl vstd::std_specs::convert::FromSpecImpl<IoFailure> for SegrepError {
    open spec fn obeys_from_spec() -> bool {
        true
    }

    open spec fn from_spec(v: IoFailure) -> Self {
        SegrepError::IoError(v)
    }
}

/// The library's result type.
pub type Result<T> = std::result::Result<T, SegrepError>;

} // verus!
