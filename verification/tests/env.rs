use rust_engine::resolve_env_any;
use rust_engine::SystemError;

#[test]
fn first_candidate_wins_when_both_are_set() {
    let candidates = vec![Some("alpha".to_string()), Some("beta".to_string())];
    let value = resolve_env_any(&candidates, "A/B").expect("a candidate is set");
    assert_eq!(value, "alpha");
}

#[test]
fn second_candidate_wins_when_first_is_unset() {
    let candidates = vec![None, Some("beta".to_string())];
    let value = resolve_env_any(&candidates, "A/B").expect("a candidate is set");
    assert_eq!(value, "beta");
}

#[test]
fn fails_with_label_when_no_candidate_is_set() {
    let candidates: Vec<Option<String>> = vec![None, None];
    let err = resolve_env_any(&candidates, "A/B").expect_err("no candidate is set");
    assert!(matches!(err, SystemError::MissingEnv("A/B")));
    assert_eq!(err.message(), "Missing environment variable: A/B");
}

#[test]
fn empty_string_counts_as_set() {
    let candidates = vec![Some(String::new()), Some("beta".to_string())];
    let value = resolve_env_any(&candidates, "A/B").expect("a candidate is set");
    assert_eq!(value, "");
}

#[test]
fn no_candidates_at_all_fails() {
    let candidates: Vec<Option<String>> = Vec::new();
    let err = resolve_env_any(&candidates, "EMPTY").expect_err("nothing to resolve");
    assert!(matches!(err, SystemError::MissingEnv("EMPTY")));
}
