use rsh::Utils;

fn toks(input: &str) -> Vec<String> {
    Utils::parse_command(input)
}

#[test]
fn tokenize_empty_line() {
    assert_eq!(toks(""), Vec::<String>::new());
}

#[test]
fn tokenize_two_words() {
    assert_eq!(toks("a b"), vec!["a".to_string(), "b".to_string()]);
}

#[test]
fn tokenize_single_quotes_group() {
    assert_eq!(toks("'a b' c"), vec!["a b".to_string(), "c".to_string()]);
}

#[test]
fn tokenize_escaped_space() {
    assert_eq!(toks("a\\ b"), vec!["a b".to_string()]);
}

#[test]
fn tokenize_double_quotes_group() {
    assert_eq!(toks("echo \"hello world\" x"), vec![
        "echo".to_string(),
        "hello world".to_string(),
        "x".to_string()
    ]);
}

#[test]
fn tokenize_tabs_separate() {
    assert_eq!(toks("a\tb  c"), vec![
        "a".to_string(),
        "b".to_string(),
        "c".to_string()
    ]);
}

#[test]
fn tokenize_unterminated_quote_is_literal() {
    assert_eq!(toks("'a b"), vec!["a b".to_string()]);
}

#[test]
fn tokenize_trailing_escape_is_dropped() {
    assert_eq!(toks("ab\\"), vec!["ab".to_string()]);
}

#[test]
fn tokenize_quote_inside_other_quote() {
    assert_eq!(toks("\"it's\""), vec!["it's".to_string()]);
}

#[test]
fn tokenize_whitespace_only() {
    assert_eq!(toks("  \t "), Vec::<String>::new());
}

#[test]
fn trim_strips_both_ends() {
    assert_eq!(Utils::trim("  ls -l \t"), "ls -l".to_string());
    assert_eq!(Utils::trim(""), "".to_string());
    assert_eq!(Utils::trim(" \t\r\n"), "".to_string());
    assert_eq!(Utils::trim("x"), "x".to_string());
}

#[test]
fn builtin_names() {
    assert!(Utils::is_builtin("cd"));
    assert!(Utils::is_builtin("pwd"));
    assert!(Utils::is_builtin("exit"));
    assert!(Utils::is_builtin("help"));
    assert!(Utils::is_builtin("alias"));
    assert!(Utils::is_builtin("history"));
    assert!(!Utils::is_builtin("ls"));
    assert!(!Utils::is_builtin(""));
}

#[test]
fn expand_path_with_home() {
    let home = Some("/home/u".to_string());
    assert_eq!(Utils::expand_path("~/notes", &home), "/home/u/notes".to_string());
    assert_eq!(Utils::expand_path("/etc", &home), "/etc".to_string());
}

#[test]
fn expand_path_without_home() {
    assert_eq!(Utils::expand_path("~/notes", &None), "~/notes".to_string());
}
