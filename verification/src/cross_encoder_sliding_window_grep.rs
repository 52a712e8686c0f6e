//! Matching a filter phrase against the fragments of a log line: the line is
//! cut into windows of consecutive words, and the windows are handed one by
//! one to a classifier until one of them matches.

use vstd::prelude::*;
use crate::cross_encoder_grep::is_entailment_label;
use crate::text::{
    all_words, is_word, join_range, join_with_spaces, lemma_join_shape, lemma_words_are_words,
    split_words, string_views, words,
};

verus! {

/// The windows of `size` consecutive words of `ws`, each written with single
/// spaces, from the window that starts at the first word to the one that ends
/// at the last.
pub open spec fn window_texts(ws: Seq<Seq<char>>, size: nat) -> Seq<Seq<char>> {
    Seq::new((ws.len() - size + 1) as nat, |i: int| join_with_spaces(ws.subrange(i, i + size)))
}

/// Which texts a log line is compared through.
pub enum FragmentPlan {
    /// The line has fewer words than a window: the whole line, as it is, is
    /// the only candidate, and its answer is the answer.
    WholeText,
    /// The windows of the line, in order.
    Windows(Vec<String>),
}

/// Decides how `text` is cut for a window of `window_size` words.
pub fn plan_fragments(text: &str, window_size: usize) -> (plan: FragmentPlan)
    requires
        window_size > 0,
    ensures
        match plan {
            FragmentPlan::WholeText => words(text@).len() < window_size,
            FragmentPlan::Windows(c) => {
                &&& words(text@).len() >= window_size
                &&& string_views(c@) == window_texts(words(text@), window_size as nat)
            },
        },
{
    let ws = split_words(text);
    let n = ws.len();
    if n < window_size {
        return FragmentPlan::WholeText;
    }
    let ghost views = string_views(ws@);
    let mut candidates: Vec<String> = Vec::new();
    let last_start = n - window_size;
    let mut start: usize = 0;
    while start <= last_start
        invariant
            n == ws.len(),
            views == string_views(ws@),
            views == words(text@),
            window_size > 0,
            last_start == n - window_size,
            start <= last_start + 1,
            candidates@.len() == start,
            forall|i: int|
                0 <= i < start ==> #[trigger] candidates@[i]@ == join_with_spaces(
                    views.subrange(i, i + window_size),
                ),
        decreases last_start + 1 - start,
    {
        let fragment = join_range(&ws, start, start + window_size);
        candidates.push(fragment);
        start = start + 1;
    }
    assert(string_views(candidates@) =~= window_texts(views, window_size as nat));
    FragmentPlan::Windows(candidates)
}

/// The next step of a scan over candidate fragments.
#[derive(PartialEq, Eq, Structural, Debug, Clone, Copy)]
pub enum ScanAction {
    /// Ask the classifier about the candidate with this index.
    Evaluate(usize),
    /// The scan is over; the line matches if the flag is set.
    Finish(bool),
}

/// The first step of a scan over `count` candidates.
pub open spec fn first_action(count: nat) -> ScanAction {
    if count > 0 {
        ScanAction::Evaluate(0)
    } else {
        ScanAction::Finish(false)
    }
}

/// The step after the classifier answered `is_match` for candidate `evaluated`.
pub open spec fn next_action(count: nat, evaluated: nat, is_match: bool) -> ScanAction {
    if is_match {
        ScanAction::Finish(true)
    } else if evaluated + 1 < count {
        ScanAction::Evaluate((evaluated + 1) as usize)
    } else {
        ScanAction::Finish(false)
    }
}

/// Every step of a scan over `count` candidates names a candidate that
/// exists: the first step evaluates candidate 0 when there is one and
/// finishes without a match otherwise; after candidate `evaluated`, a match
/// finishes the scan with a match, and otherwise the scan moves on to the
/// very next candidate, or, after the last one, finishes without a match.
pub proof fn lemma_scan_steps_stay_in_range(count: nat, evaluated: nat, is_match: bool)
    requires
        evaluated < count <= usize::MAX,
    ensures
        first_action(count) matches ScanAction::Evaluate(k) ==> k == 0 && 0 < count,
        first_action(count) matches ScanAction::Finish(m) ==> !m && count == 0,
        next_action(count, evaluated, is_match) matches ScanAction::Evaluate(k) ==> {
            &&& !is_match
            &&& evaluated < k < count
            &&& k == evaluated + 1
        },
        next_action(count, evaluated, is_match) matches ScanAction::Finish(m) ==> {
            &&& m == is_match
            &&& !is_match ==> evaluated + 1 == count
        },
        is_match ==> next_action(count, evaluated, is_match) == ScanAction::Finish(true),
        !is_match && evaluated + 1 == count ==> next_action(count, evaluated, is_match)
            == ScanAction::Finish(false),
        !is_match && evaluated + 1 < count ==> next_action(count, evaluated, is_match)
            == ScanAction::Evaluate((evaluated + 1) as usize),
{
}

/// Starts a scan over `count` candidates.
pub fn scan_start(count: usize) -> (a: ScanAction)
    ensures
        a == first_action(count as nat),
        count > 0 ==> a == ScanAction::Evaluate(0),
        count == 0 ==> a == ScanAction::Finish(false),
{
    if count > 0 {
        ScanAction::Evaluate(0)
    } else {
        ScanAction::Finish(false)
    }
}

/// Continues a scan over `count` candidates once the classifier has answered
/// `is_match` for candidate `evaluated`: the first match ends the scan.
pub fn scan_next(count: usize, evaluated: usize, is_match: bool) -> (a: ScanAction)
    requires
        evaluated < count,
    ensures
        a == next_action(count as nat, evaluated as nat, is_match),
        a matches ScanAction::Evaluate(k) ==> !is_match && evaluated < k < count && k == evaluated
            + 1,
        a matches ScanAction::Finish(m) ==> m == is_match && (!is_match ==> evaluated + 1 == count),
        is_match ==> a == ScanAction::Finish(true),
        !is_match && evaluated + 1 == count ==> a == ScanAction::Finish(false),
        !is_match && evaluated + 1 < count ==> a == ScanAction::Evaluate((evaluated + 1) as usize),
{
    if is_match {
        ScanAction::Finish(true)
    } else if evaluated + 1 < count {
        ScanAction::Evaluate(evaluated + 1)
    } else {
        ScanAction::Finish(false)
    }
}

/// Each window of a text, split into words again, gives back exactly the
/// words it was cut from, and a text of `n` words has `n - size + 1` windows.
pub proof fn lemma_window_words(text: Seq<char>, size: nat, i: int)
    requires
        1 <= size <= words(text).len(),
        0 <= i <= words(text).len() - size,
    ensures
        window_texts(words(text), size).len() == words(text).len() - size + 1,
        words(window_texts(words(text), size)[i]) == words(text).subrange(i, i + size),
{
    let ws = words(text);
    lemma_words_are_words(text);
    let window = ws.subrange(i, i + size);
    assert(all_words(window)) by {
        assert forall|k: int| 0 <= k < window.len() implies is_word(#[trigger] window[k]) by {
            assert(window[k] == ws[i + k]);
        }
    }
    lemma_join_shape(window);
}

/// The scan over answers `answers`, once the next step is to evaluate
/// candidate `j`: how many candidates it evaluates in all, and whether it
/// ends with a match.
pub open spec fn scan_from(answers: Seq<bool>, j: nat) -> (nat, bool)
    decreases answers.len() - j,
{
    if j >= answers.len() {
        (j, false)
    } else {
        match next_action(answers.len(), j, answers[j as int]) {
            ScanAction::Finish(m) => ((j + 1) as nat, m),
            ScanAction::Evaluate(k) => if j < k <= answers.len() {
                scan_from(answers, k as nat)
            } else {
                (j, false)
            },
        }
    }
}

/// The whole scan over candidates whose answers are `answers`, from its
/// first step: how many candidates it evaluates, and whether it matches.
pub open spec fn scan_outcome(answers: Seq<bool>) -> (nat, bool) {
    match first_action(answers.len()) {
        ScanAction::Finish(m) => (0, m),
        ScanAction::Evaluate(j) => scan_from(answers, j as nat),
    }
}

proof fn lemma_scan_from(answers: Seq<bool>, j: nat)
    requires
        j < answers.len() <= usize::MAX,
        forall|i: int| 0 <= i < j ==> !answers[i],
    ensures
        scan_from(answers, j).1 == (exists|i: int| 0 <= i < answers.len() && answers[i]),
        scan_from(answers, j).1 ==> {
            let k = scan_from(answers, j).0;
            &&& 0 < k <= answers.len()
            &&& answers[k - 1]
            &&& forall|i: int| 0 <= i < k - 1 ==> !answers[i]
        },
        !scan_from(answers, j).1 ==> scan_from(answers, j).0 == answers.len(),
    decreases answers.len() - j,
{
    if answers[j as int] {
        assert(next_action(answers.len(), j, true) == ScanAction::Finish(true));
        assert(scan_from(answers, j) == ((j + 1) as nat, true));
    } else if j + 1 < answers.len() {
        assert(next_action(answers.len(), j, false) == ScanAction::Evaluate((j + 1) as usize));
        assert(((j + 1) as usize) as nat == j + 1);
        assert(scan_from(answers, j) == scan_from(answers, j + 1));
        lemma_scan_from(answers, j + 1);
    } else {
        assert(next_action(answers.len(), j, false) == ScanAction::Finish(false));
        assert(scan_from(answers, j) == ((j + 1) as nat, false));
        assert forall|i: int| 0 <= i < answers.len() implies !answers[i] by {
            if i == j {
            }
        }
    }
}

/// A scan driven by `scan_start` and `scan_next` evaluates the candidates in
/// order, stops at the first one that matches, and reports a match exactly
/// when some candidate matches; without a match it evaluates them all.
pub proof fn lemma_scan_stops_at_first_match(answers: Seq<bool>)
    requires
        answers.len() <= usize::MAX,
    ensures
        scan_outcome(answers).1 == (exists|i: int| 0 <= i < answers.len() && answers[i]),
        scan_outcome(answers).1 ==> {
            let k = scan_outcome(answers).0;
            &&& 0 < k <= answers.len()
            &&& answers[k - 1]
            &&& forall|i: int| 0 <= i < k - 1 ==> !answers[i]
        },
        !scan_outcome(answers).1 ==> scan_outcome(answers).0 == answers.len(),
{
    if answers.len() > 0 {
        lemma_scan_from(answers, 0);
        assert(first_action(answers.len()) == ScanAction::Evaluate(0));
    }
}

/// The sliding-window classifier's verdict on one fragment: the predicted
/// label is entailment and its score reached the threshold.
pub fn sliding_window_verdict(label: &str, meets_threshold: bool) -> (is_match: bool)
    ensures
        is_match == (crate::cross_encoder_grep::is_entailment(label@) && meets_threshold),
{
    let entails = is_entailment_label(label);
    entails && meets_threshold
}

} // verus!
