use keymui::matcher::commonest_completion;
use keymui::matcher::linear_matches;
use keymui::matcher::str_eq;

#[test]
fn prefix_empty_probe_matches_everything() {
    assert!(linear_matches("", "anything"));
    assert!(linear_matches("", ""));
}

#[test]
fn prefix_literal_prefixes_match() {
    assert!(linear_matches("s", "swap"));
    assert!(linear_matches("sw", "swap"));
    assert!(linear_matches("swap", "swap"));
    assert!(linear_matches("save", "save-layout"));
}

#[test]
fn prefix_longer_probe_never_matches() {
    assert!(!linear_matches("swapx", "swap"));
    assert!(!linear_matches("a", ""));
    assert!(!linear_matches("save-layouts", "save-layout"));
}

#[test]
fn prefix_mismatch_fails() {
    assert!(!linear_matches("sw", "save-layout"));
    assert!(!linear_matches("b", "anything"));
}

#[test]
fn prefix_compares_characters_not_bytes() {
    assert!(linear_matches("n\u{e9}", "n\u{e9}o"));
    assert!(!linear_matches("n\u{e9}o", "n\u{e9}"));
    assert!(!linear_matches("ab", "\u{e9}"));
}

#[test]
fn lcp_of_no_candidates_is_zero() {
    assert_eq!(commonest_completion(vec![]), 0);
}

#[test]
fn lcp_of_single_candidate_is_its_length() {
    assert_eq!(commonest_completion(vec!["abc"]), 3);
}

#[test]
fn lcp_of_diverging_candidates() {
    assert_eq!(commonest_completion(vec!["abc", "abd"]), 2);
}

#[test]
fn lcp_tolerates_shorter_candidates() {
    assert_eq!(commonest_completion(vec!["ab", "abc"]), 2);
    assert_eq!(commonest_completion(vec!["abc", "ab"]), 2);
}

#[test]
fn lcp_of_identical_candidates_is_full_length() {
    assert_eq!(commonest_completion(vec!["swap", "swap"]), 4);
}

#[test]
fn lcp_of_registry_like_names() {
    assert_eq!(
        commonest_completion(vec!["set-metrics-directory", "swap", "save-layout"]),
        1
    );
}

#[test]
fn str_eq_compares_exactly() {
    assert!(str_eq("swap", "swap"));
    assert!(!str_eq("swap", "swap "));
    assert!(!str_eq("swap", "swab"));
    assert!(str_eq("", ""));
}
