use segrep::cross_encoder_grep::{cross_encoder_premise, cross_encoder_verdict, is_entailment_label};
use segrep::cross_encoder_sliding_window_grep::{
    plan_fragments, scan_next, scan_start, sliding_window_verdict, FragmentPlan, ScanAction,
};

#[test]
fn premise_prefixes_the_filter() {
    assert_eq!(cross_encoder_premise("disk error"), "user is asking about disk error");
    assert_eq!(cross_encoder_premise(""), "user is asking about ");
}

#[test]
fn entailment_label_ignores_case() {
    assert!(is_entailment_label("entailment"));
    assert!(is_entailment_label("ENTAILMENT"));
    assert!(is_entailment_label("Entailment"));
    assert!(!is_entailment_label("neutral"));
    assert!(!is_entailment_label("contradiction"));
    assert!(!is_entailment_label("entailment "));
}

#[test]
fn cross_encoder_verdict_rule() {
    assert!(cross_encoder_verdict("Entailment", true));
    assert!(cross_encoder_verdict("ENTAILMENT", true));
    assert!(!cross_encoder_verdict("entailment", false));
    assert!(!cross_encoder_verdict("neutral", true));
    assert!(!cross_encoder_verdict("CONTRADICTION", true));
    assert!(!cross_encoder_verdict("contradiction", false));
}

#[test]
fn sliding_window_verdict_rule() {
    assert!(sliding_window_verdict("ENTAILMENT", true));
    assert!(sliding_window_verdict("entailment", true));
    assert!(!sliding_window_verdict("ENTAILMENT", false));
    assert!(!sliding_window_verdict("contradiction", false));
    assert!(!sliding_window_verdict("neutral", true));
    assert!(!sliding_window_verdict("contradiction", true));
}

#[test]
fn plan_whole_text_when_fewer_words() {
    assert!(matches!(plan_fragments("disk is full", 5), FragmentPlan::WholeText));
    assert!(matches!(plan_fragments("", 1), FragmentPlan::WholeText));
}

#[test]
fn plan_windows_of_consecutive_words() {
    match plan_fragments("  Disk read   operation\tcompleted ", 2) {
        FragmentPlan::Windows(c) => {
            assert_eq!(c, vec!["Disk read", "read operation", "operation completed"]);
        }
        FragmentPlan::WholeText => panic!("expected windows"),
    }
    match plan_fragments("GET /api/users returned 200 OK", 1) {
        FragmentPlan::Windows(c) => assert_eq!(c, vec!["GET", "/api/users", "returned", "200", "OK"]),
        FragmentPlan::WholeText => panic!("expected windows"),
    }
    match plan_fragments("a b c", 3) {
        FragmentPlan::Windows(c) => assert_eq!(c, vec!["a b c"]),
        FragmentPlan::WholeText => panic!("expected windows"),
    }
}

fn run_scan(answers: &[bool]) -> (Vec<usize>, bool) {
    let mut evaluated = Vec::new();
    let mut step = scan_start(answers.len());
    loop {
        match step {
            ScanAction::Evaluate(i) => {
                evaluated.push(i);
                step = scan_next(answers.len(), i, answers[i]);
            }
            ScanAction::Finish(m) => return (evaluated, m),
        }
    }
}

#[test]
fn scan_stops_at_first_match() {
    assert_eq!(run_scan(&[]), (vec![], false));
    assert_eq!(run_scan(&[false, false, false]), (vec![0, 1, 2], false));
    assert_eq!(run_scan(&[false, true, true]), (vec![0, 1], true));
    assert_eq!(run_scan(&[true]), (vec![0], true));
    assert_eq!(scan_next(3, 2, false), ScanAction::Finish(false));
    assert_eq!(scan_next(3, 0, false), ScanAction::Evaluate(1));
}
