//! The steps of a semantic comparison that happen around the embedding
//! model: what the model is given, and the check on what it gives back.

use vstd::prelude::*;
use vstd::string::StringExecFns;
use crate::preprocessing::{preprocess, preprocessed};

verus! {

/// The character for a decimal digit.
pub open spec fn digit_char(d: nat) -> char {
    ('0' as u32 + d) as char
}

/// The decimal notation of `n`, without sign or leading zeros.
pub open spec fn decimal(n: nat) -> Seq<char>
    decreases n,
{
    if n < 10 {
        seq![digit_char(n)]
    } else {
        decimal(n / 10).push(digit_char(n % 10))
    }
}

/// `usize`'s `Display`, which writes the number in decimal.
#[verifier::external_body]
fn decimal_text(n: usize) -> (r: String)
    ensures
        r@ == decimal(n as nat),
{
    n.to_string()
}

/// The two sentences handed to the embedding model when comparing `text1`
/// with `text2`: both normalised, in that order.
pub fn similarity_inputs(text1: &str, text2: &str) -> (sentences: Vec<String>)
    ensures
        sentences@.len() == 2,
        sentences@[0]@ == preprocessed(text1@),
        sentences@[1]@ == preprocessed(text2@),
{
    let mut sentences: Vec<String> = Vec::new();
    sentences.push(preprocess(text1));
    sentences.push(preprocess(text2));
    sentences
}

/// The error text when the model returns `count` embeddings instead of two.
pub open spec fn embedding_count_text(count: nat) -> Seq<char> {
    "Expected 2 embeddings but got "@ + decimal(count)
}

/// Checks that the model returned one embedding per sentence of the pair.
pub fn check_embedding_count(count: usize) -> (r: Result<(), String>)
    ensures
        r is Ok <==> count == 2,
        r matches Err(msg) ==> msg@ == embedding_count_text(count as nat),
{
    if count != 2 {
        let mut msg = String::from_str("Expected 2 embeddings but got ");
        let shown = decimal_text(count);
        msg.append(shown.as_str());
        return Err(msg);
    }
    Ok(())
}

} // verus!
