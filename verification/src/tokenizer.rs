//! Tokenisation with a pretrained tokenizer, and the errors it reports.

use vstd::prelude::*;
use vstd::string::StringExecFns;
use crate::text::string_views;
use tokenizers::tokenizer::{PostProcessor, Tokenizer};

verus! {

#[verifier::external_type_specification]
#[verifier::external_body]
pub struct ExTokenizer(Tokenizer);

/// Why tokenisation failed.
#[derive(Debug)]
pub enum TokenizerError {
    /// The tokenizer could not be set up.
    InitializationError(String),
    /// The tokenizer rejected the input.
    TokenizationError(String),
}

/// The text shown for an error.
pub open spec fn tokenizer_error_text(e: TokenizerError) -> Seq<char> {
    match e {
        TokenizerError::InitializationError(msg) => "Failed to initialize tokenizer: "@ + msg@,
        TokenizerError::TokenizationError(msg) => "Failed to tokenize text: "@ + msg@,
    }
}

/// The detail recorded when the pretrained tokenizer cannot be loaded.
pub open spec fn initialization_detail(cause: Seq<char>) -> Seq<char> {
    "Could not load GPT-2 tokenizer. Please check your internet connection and try again. Error: "@
        + cause
}

/// The detail recorded when the tokenizer rejects the input.
pub open spec fn tokenization_detail(cause: Seq<char>) -> Seq<char> {
    "Failed to tokenize the input text. Error: "@ + cause
}

impl TokenizerError {
    /// The text shown for this error.
    pub fn message(&self) -> (r: String)
        ensures
            r@ == tokenizer_error_text(*self),
    {
        match self {
            TokenizerError::InitializationError(msg) => {
                let mut r = String::from_str("Failed to initialize tokenizer: ");
                r.append(msg.as_str());
                r
            },
            TokenizerError::TokenizationError(msg) => {
                let mut r = String::from_str("Failed to tokenize text: ");
                r.append(msg.as_str());
                r
            },
        }
    }
}

/// The error for a pretrained tokenizer that could not be loaded, given the
/// text of the loader's error.
pub fn initialization_failure(cause: &str) -> (e: TokenizerError)
    ensures
        e matches TokenizerError::InitializationError(msg) && msg@ == initialization_detail(cause@),
{
    let mut msg = String::from_str(
        "Could not load GPT-2 tokenizer. Please check your internet connection and try again. Error: ",
    );
    msg.append(cause);
    TokenizerError::InitializationError(msg)
}

/// Turns the outcome of encoding into the library's result: the tokens as
/// they are, or a tokenisation error that carries the encoder's message.
pub fn tokenization_outcome(outcome: Result<Vec<String>, String>) -> (r: Result<
    Vec<String>,
    TokenizerError,
>)
    ensures
        match outcome {
            Ok(tokens) => r matches Ok(t) && t@ == tokens@,
            Err(cause) => r matches Err(TokenizerError::TokenizationError(msg)) && msg@
                == tokenization_detail(cause@),
        },
{
    match outcome {
        Ok(tokens) => Ok(tokens),
        Err(cause) => {
            let mut msg = String::from_str("Failed to tokenize the input text. Error: ");
            msg.append(cause.as_str());
            Err(TokenizerError::TokenizationError(msg))
        },
    }
}

/// The truncation a tokenizer applies, as its maximum length and its
/// stride; `None` when it does not truncate.
pub uninterp spec fn truncation_settings(tokenizer: Tokenizer) -> Option<(usize, usize)>;

/// How many special tokens the tokenizer's post-processor adds to a single
/// sequence; `None` when it has no post-processor.
pub uninterp spec fn post_processor_added_tokens(tokenizer: Tokenizer) -> Option<usize>;

/// `TokenizerImpl::get_truncation`, reduced to the fields `max_length` and
/// `stride`.
#[verifier::external_body]
fn read_truncation_settings(tokenizer: &Tokenizer) -> (r: Option<(usize, usize)>)
    ensures
        r == truncation_settings(*tokenizer),
{
    match tokenizer.get_truncation() {
        Some(params) => Some((params.max_length, params.stride)),
        None => None,
    }
}

/// `TokenizerImpl::get_post_processor`, then `PostProcessor::added_tokens`
/// for a single sequence.
#[verifier::external_body]
fn read_post_processor_added_tokens(tokenizer: &Tokenizer) -> (r: Option<usize>)
    ensures
        r == post_processor_added_tokens(*tokenizer),
{
    match tokenizer.get_post_processor() {
        Some(processor) => Some(processor.added_tokens(false)),
        None => None,
    }
}

/// Whether truncation settings `settings` leave room for `added` special
/// tokens: the length left once they are taken off is not negative, and is
/// either zero or longer than the stride.
pub open spec fn truncation_leaves_room(settings: Option<(usize, usize)>, added: Option<usize>) -> bool {
    let n: nat = match added {
        Some(k) => k as nat,
        None => 0,
    };
    match settings {
        None => true,
        Some((max_length, stride)) => n <= max_length && (max_length - n == 0 || stride
            < max_length - n),
    }
}

/// Whether `tokenizer` can encode a single sequence with special tokens
/// without failing an arithmetic or stride check inside the encoder.
pub open spec fn encodable(tokenizer: Tokenizer) -> bool {
    truncation_leaves_room(truncation_settings(tokenizer), post_processor_added_tokens(tokenizer))
}

/// What the room check accepts. A tokenizer that does not truncate always
/// has room, whatever its post-processor adds. With a maximum length `m` and
/// a stride `s`, and `n` special tokens added (none without a
/// post-processor), there is room exactly when the special tokens fit
/// (`n <= m`) and what is left for the text is either nothing (`n == m`) or
/// longer than the stride (`n + s < m`); in particular, with no special
/// tokens, exactly when `m == 0` or `s < m`.
pub proof fn lemma_truncation_room(settings: Option<(usize, usize)>, added: Option<usize>)
    ensures
        settings is None ==> truncation_leaves_room(settings, added),
        settings matches Some((m, st)) ==> (added matches Some(n) ==> (truncation_leaves_room(
            settings,
            added,
        ) <==> (n <= m && (n == m || n + st < m)))),
        settings matches Some((m, st)) ==> ((added is None || added == Some(0usize)) ==> (
        truncation_leaves_room(settings, added) <==> (m == 0 || st < m))),
{
}

/// Decides `truncation_leaves_room` on values read from a tokenizer.
pub fn check_truncation_room(settings: Option<(usize, usize)>, added: Option<usize>) -> (r: bool)
    ensures
        r == truncation_leaves_room(settings, added),
        settings is None ==> r,
        settings matches Some((m, st)) ==> (added matches Some(n) ==> (r <==> (n <= m && (n == m
            || n + st < m)))),
        settings matches Some((m, st)) ==> ((added is None || added == Some(0usize)) ==> (r <==> (m
            == 0 || st < m))),
{
    let n: usize = match added {
        Some(k) => k,
        None => 0,
    };
    match settings {
        None => true,
        Some((max_length, stride)) => n <= max_length && (max_length - n == 0 || stride
            < max_length - n),
    }
}

/// The cause recorded when the tokenizer's truncation leaves no room for its
/// special tokens.
pub open spec fn truncation_cause() -> Seq<char> {
    "the truncation length leaves no room for the special tokens and the stride"@
}

/// Whether the encoder, run on `tokenizer` with `input` and special tokens
/// added, can end with `outcome`: the tokens, or the text of its error. A
/// relation rather than a function: a model such as BPE with dropout draws
/// random numbers, so one tokenizer and input may give different outcomes.
pub uninterp spec fn encoding_possible(
    tokenizer: Tokenizer,
    input: Seq<char>,
    outcome: Result<Seq<Seq<char>>, Seq<char>>,
) -> bool;

/// The characters that an encoding outcome holds.
pub open spec fn outcome_view(outcome: Result<Vec<String>, String>) -> Result<
    Seq<Seq<char>>,
    Seq<char>,
> {
    match outcome {
        Ok(tokens) => Ok(string_views(tokens@)),
        Err(cause) => Err(cause@),
    }
}

/// Whether `r` is what the library makes of the encoder's `outcome`: the
/// same tokens, or a tokenisation error carrying the encoder's message.
pub open spec fn reports_outcome(
    r: Result<Vec<String>, TokenizerError>,
    outcome: Result<Seq<Seq<char>>, Seq<char>>,
) -> bool {
    match outcome {
        Ok(tokens) => r matches Ok(t) && string_views(t@) == tokens,
        Err(cause) => r matches Err(TokenizerError::TokenizationError(msg)) && msg@
            == tokenization_detail(cause),
    }
}

/// `Tokenizer::encode(input, true)` followed by `Encoding::get_tokens`; an
/// encoder error is passed on as its display text. Nothing is stated of the
/// tokens: they follow the tokenizer's model and rules, which are loaded at
/// run time and which Verus cannot see. The encoder subtracts the number of
/// special tokens from the truncation length unchecked and asserts that the
/// stride is shorter than what is left; `requires` keeps such tokenizers out.
/// The contract says only that the outcome is one the encoder can give for
/// this tokenizer and this input.
#[verifier::external_body]
fn encode_tokens(tokenizer: &Tokenizer, input: &str) -> (r: Result<Vec<String>, String>)
    requires
        encodable(*tokenizer),
    ensures
        encoding_possible(*tokenizer, input@, outcome_view(r)),
{
    match tokenizer.encode(input, true) {
        Ok(encoding) => Ok(encoding.get_tokens().to_vec()),
        Err(e) => Err(e.to_string()),
    }
}

/// Tokenises `input` with `tokenizer`, special tokens included. A tokenizer
/// whose truncation leaves no room for its special tokens is refused with a
/// tokenisation error before anything is encoded.
pub fn tokenize_with(tokenizer: &Tokenizer, input: &str) -> (r: Result<Vec<String>, TokenizerError>)
    ensures
        !encodable(*tokenizer) ==> (r matches Err(TokenizerError::TokenizationError(msg)) && msg@
            == tokenization_detail(truncation_cause())),
        encodable(*tokenizer) ==> exists|outcome: Result<Seq<Seq<char>>, Seq<char>>|
            encoding_possible(*tokenizer, input@, outcome) && reports_outcome(r, outcome),
{
    let settings = read_truncation_settings(tokenizer);
    let added = read_post_processor_added_tokens(tokenizer);
    if !check_truncation_room(settings, added) {
        let mut msg = String::from_str("Failed to tokenize the input text. Error: ");
        msg.append("the truncation length leaves no room for the special tokens and the stride");
        return Err(TokenizerError::TokenizationError(msg));
    }
    let outcome = encode_tokens(tokenizer, input);
    let ghost seen = outcome_view(outcome);
    let r = tokenization_outcome(outcome);
    assert(reports_outcome(r, seen));
    r
}

} // verus!
