use segrep::text::{chars_of, join_range, split_words};

#[test]
fn chars_of_keeps_order() {
    assert_eq!(chars_of("añb"), vec!['a', 'ñ', 'b']);
    assert_eq!(chars_of(""), Vec::<char>::new());
}

#[test]
fn split_words_like_split_whitespace() {
    let samples = ["  a\tb\n c  ", "", "   ", "one", "x\u{3000}y\u{a0}z", "Failed password for root"];
    for s in samples {
        let expected: Vec<String> = s.split_whitespace().map(|w| w.to_string()).collect();
        assert_eq!(split_words(s), expected, "input {:?}", s);
    }
    assert_eq!(split_words(" GET /api/users  200 "), vec!["GET", "/api/users", "200"]);
}

#[test]
fn join_range_uses_single_spaces() {
    let words: Vec<String> = vec!["one".to_string(), "two".to_string(), "three".to_string()];
    assert_eq!(join_range(&words, 0, 3), "one two three");
    assert_eq!(join_range(&words, 1, 3), "two three");
    assert_eq!(join_range(&words, 2, 3), "three");
    assert_eq!(join_range(&words, 1, 1), "");
}

#[test]
fn joined_window_splits_back_into_its_words() {
    let words = split_words("  alpha beta\tgamma  delta ");
    let joined = join_range(&words, 1, 3);
    assert_eq!(joined, "beta gamma");
    assert_eq!(split_words(&joined), vec!["beta", "gamma"]);
}
