//! The cross-encoder's decision rule: what the classifier is asked and how
//! its answer becomes a match.

use vstd::prelude::*;
use vstd::string::StringExecFns;
use crate::text::{lowercase, to_lowercase};

verus! {

/// The label that marks an entailment, compared without regard to case.
pub open spec fn is_entailment(label: Seq<char>) -> bool {
    lowercase(label) == "entailment"@
}

/// The premise handed to the classifier for a filter phrase.
pub open spec fn premise_text(filter: Seq<char>) -> Seq<char> {
    "user is asking about "@ + filter
}

/// Builds the premise for `filter`.
pub fn cross_encoder_premise(filter: &str) -> (r: String)
    ensures
        r@ == premise_text(filter@),
{
    let mut r = String::from_str("user is asking about ");
    r.append(filter);
    r
}

/// Whether the classifier's predicted label is an entailment.
pub fn is_entailment_label(label: &str) -> (r: bool)
    ensures
        r == is_entailment(label@),
{
    let lower = to_lowercase(label);
    let expected = String::from_str("entailment");
    lower == expected
}

/// The cross-encoder's verdict on a filter and a text: the predicted label
/// is entailment and its score reached the threshold.
pub fn cross_encoder_verdict(label: &str, meets_threshold: bool) -> (is_match: bool)
    ensures
        is_match == (is_entailment(label@) && meets_threshold),
{
    let entails = is_entailment_label(label);
    entails && meets_threshold
}

} // verus!
