use dingo_test_runner::tester::replace_regex::{apply_replacements, parse_replace_regex};

#[test]
fn rules_apply_in_order_and_a_bad_pattern_is_skipped() {
    let rules = vec![
        ("(".to_string(), "x".to_string()),
        ("a+".to_string(), "b".to_string()),
        ("b".to_string(), "[$0]".to_string()),
    ];
    let mut buffer = "aa(a".to_string();
    apply_replacements(&rules, &mut buffer);
    assert_eq!(buffer, "[b]([b]");
}

#[test]
fn replace_regex_argument_is_split_at_unescaped_slashes() {
    let (pattern, replacement) = parse_replace_regex("/\\d+/N/").unwrap();
    assert_eq!(pattern, "\\d+");
    assert_eq!(replacement, "N");
}
