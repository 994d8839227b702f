use plumbum::text::split_on_colon;

#[test]
fn splits_plain_path() {
    assert_eq!(split_on_colon("/bin:/usr/bin:/usr/local/bin"), vec![
        "/bin".to_string(),
        "/usr/bin".to_string(),
        "/usr/local/bin".to_string(),
    ]);
}

#[test]
fn empty_value_is_one_empty_segment() {
    assert_eq!(split_on_colon(""), vec![String::new()]);
}

#[test]
fn adjacent_separators_keep_empty_segments() {
    assert_eq!(split_on_colon("a::b"), vec![
        "a".to_string(),
        String::new(),
        "b".to_string(),
    ]);
}

#[test]
fn leading_and_trailing_separators() {
    assert_eq!(split_on_colon(":a:"), vec![
        String::new(),
        "a".to_string(),
        String::new(),
    ]);
}

#[test]
fn no_separator_is_one_segment() {
    assert_eq!(split_on_colon("/sbin"), vec!["/sbin".to_string()]);
}
