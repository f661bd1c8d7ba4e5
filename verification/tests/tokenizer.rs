use vshell::parser::parse_input;

#[test]
fn single_quotes_preserve_internal_spaces() {
    let argv = parse_input("echo 'hello   world'");
    assert_eq!(argv, vec!["echo".to_string(), "hello   world".to_string()]);
}

#[test]
fn escaped_double_quote_inside_double_quotes() {
    let argv = parse_input("echo \"a\\\"b\"");
    assert_eq!(argv, vec!["echo".to_string(), "a\"b".to_string()]);
}

#[test]
fn whitespace_runs_collapse() {
    let argv = parse_input("  a   b  ");
    assert_eq!(argv, vec!["a".to_string(), "b".to_string()]);
}

#[test]
fn backslash_outside_quotes_escapes_anything() {
    let argv = parse_input("a\\ b c");
    assert_eq!(argv, vec!["a b".to_string(), "c".to_string()]);
}

#[test]
fn backslash_in_double_quotes_is_literal_unless_quote_or_backslash() {
    let argv = parse_input("\"x\\ny\" \"z\\\\w\"");
    assert_eq!(argv, vec!["x\\ny".to_string(), "z\\w".to_string()]);
}

#[test]
fn adjacent_quoted_pieces_join_into_one_token() {
    let argv = parse_input("ab'cd'\"ef\"");
    assert_eq!(argv, vec!["abcdef".to_string()]);
}

#[test]
fn unterminated_quote_flushes_partial_token() {
    let argv = parse_input("echo 'abc");
    assert_eq!(argv, vec!["echo".to_string(), "abc".to_string()]);
}

#[test]
fn empty_input_gives_no_tokens() {
    let argv = parse_input("");
    assert!(argv.is_empty());
}

#[test]
fn quotes_may_produce_empty_token_only_with_content() {
    // An empty quoted pair contributes nothing on its own.
    let argv = parse_input("a '' b");
    assert_eq!(argv, vec!["a".to_string(), "b".to_string()]);
}

#[test]
fn single_quotes_keep_backslashes_literal() {
    let argv = parse_input("echo 'a\\nb'");
    assert_eq!(argv, vec!["echo".to_string(), "a\\nb".to_string()]);
}

#[test]
fn unterminated_double_quote_flushes_partial_token() {
    let argv = parse_input("say \"half done");
    assert_eq!(argv, vec!["say".to_string(), "half done".to_string()]);
}

#[test]
fn any_whitespace_separates_tokens() {
    let argv = parse_input("a\tb");
    assert_eq!(argv, vec!["a".to_string(), "b".to_string()]);
}

#[test]
fn mixed_whitespace_runs_collapse() {
    let argv = parse_input(" \t a \t\r b\t");
    assert_eq!(argv, vec!["a".to_string(), "b".to_string()]);
}

#[test]
fn quoted_tab_stays_inside_the_token() {
    let argv = parse_input("echo 'a\tb'");
    assert_eq!(argv, vec!["echo".to_string(), "a\tb".to_string()]);
}
