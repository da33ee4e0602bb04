use runicscript::tokenize;

#[test]
fn splits_on_single_spaces() {
    assert_eq!(tokenize("cast fireball"), vec!["cast", "fireball"]);
}

#[test]
fn collapses_whitespace_runs() {
    assert_eq!(tokenize("  inscribe \t x   as\n5 "), vec!["inscribe", "x", "as", "5"]);
}

#[test]
fn empty_input_has_no_tokens() {
    assert_eq!(tokenize(""), Vec::<String>::new());
    assert_eq!(tokenize("   \t\n"), Vec::<String>::new());
}

#[test]
fn unicode_whitespace_is_a_boundary() {
    assert_eq!(tokenize("cast\u{3000}fireball"), vec!["cast", "fireball"]);
    assert_eq!(tokenize("a\u{2028}b\u{a0}c"), vec!["a", "b", "c"]);
}

#[test]
fn no_quoting_awareness() {
    assert_eq!(tokenize("scry \"two words\""), vec!["scry", "\"two", "words\""]);
}
