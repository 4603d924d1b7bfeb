use tae::format::{format_command, format_to_string, get_word, lexer, LexItem};
use tae::urls::parse_url;
use tae::Error;

#[test]
fn expansion_with_variable() {
    let url = parse_url("https://example.com/a").unwrap();
    let argv = format_command(&url, "open ${url}").unwrap();
    assert_eq!(argv, vec!["open".to_string(), "https://example.com/a".to_string()]);
}

#[test]
fn expansion_without_variable_appends_url() {
    let url = parse_url("https://example.com/a").unwrap();
    let argv = format_command(&url, "xdg-open").unwrap();
    assert_eq!(argv, vec!["xdg-open".to_string(), "https://example.com/a".to_string()]);
}

#[test]
fn multi_field_substitution() {
    let url = parse_url("https://example.com/a/b").unwrap();
    let argv = format_command(&url, "notify ${host} ${path}").unwrap();
    assert_eq!(
        argv,
        vec!["notify".to_string(), "example.com".to_string(), "/a/b".to_string()]
    );
}

#[test]
fn expansion_is_idempotent() {
    let url = parse_url("https://example.com/a?q=1#frag").unwrap();
    let template = "open ${scheme} ${host} ${path} ${query} ${fragment} ${url}";
    let first = format_command(&url, template).unwrap();
    let second = format_command(&url, template).unwrap();
    assert_eq!(first, second);
    assert_eq!(
        first,
        vec![
            "open".to_string(),
            "https".to_string(),
            "example.com".to_string(),
            "/a".to_string(),
            "q=1".to_string(),
            "frag".to_string(),
            "https://example.com/a?q=1#frag".to_string(),
        ]
    );
}

#[test]
fn variable_glued_to_text() {
    let url = parse_url("https://example.com/a").unwrap();
    let argv = format_command(&url, "pre${host}post").unwrap();
    assert_eq!(argv, vec!["preexample.compost".to_string()]);
}

#[test]
fn unknown_variable_is_bad_template() {
    let url = parse_url("https://example.com").unwrap();
    assert_eq!(format_command(&url, "open ${nope}"), Err(Error::BadTemplate));
}

#[test]
fn absent_component_is_bad_template() {
    let url = parse_url("mailto:user@example.com").unwrap();
    assert_eq!(format_command(&url, "open ${host}"), Err(Error::BadTemplate));
}

#[test]
fn dangling_variable_start_is_bad_template() {
    let url = parse_url("https://example.com").unwrap();
    assert_eq!(format_command(&url, "open ${"), Err(Error::BadTemplate));
    assert_eq!(format_command(&url, "open ${ }"), Err(Error::BadTemplate));
}

#[test]
fn dollar_without_brace_is_plain_text() {
    let url = parse_url("https://example.com/a").unwrap();
    let argv = format_command(&url, "echo $HOME a$b").unwrap();
    assert_eq!(
        argv,
        vec![
            "echo".to_string(),
            "$HOME".to_string(),
            "a$b".to_string(),
            "https://example.com/a".to_string(),
        ]
    );
}

#[test]
fn format_to_string_joins_without_separator() {
    let url = parse_url("short://x.co/abc").unwrap();
    let s = format_to_string(&url, "https://${host}${path}").unwrap();
    assert_eq!(s, "https://x.co/abc".to_string());
}

#[test]
fn lexer_splits_words_spaces_and_variables() {
    let items = lexer("ab ${host}c");
    assert_eq!(
        items,
        vec![
            LexItem::Word("ab".to_string()),
            LexItem::Space,
            LexItem::StartVariable,
            LexItem::Word("host".to_string()),
            LexItem::Word("c".to_string()),
        ]
    );
}

#[test]
fn lexer_emits_end_variable_for_bare_brace() {
    let items = lexer("${} x");
    assert_eq!(
        items,
        vec![
            LexItem::StartVariable,
            LexItem::EndVariable,
            LexItem::Space,
            LexItem::Word("x".to_string()),
        ]
    );
}

#[test]
fn get_word_stops_at_space() {
    let (word, next, closed) = get_word("hello world", 0, false);
    assert_eq!(word, "hello".to_string());
    assert_eq!(next, 5);
    assert!(!closed);
}

#[test]
fn get_word_consumes_closing_brace_inside_variable() {
    let (word, next, closed) = get_word("host}tail", 0, true);
    assert_eq!(word, "host".to_string());
    assert_eq!(next, 5);
    assert!(closed);
}

#[test]
fn error_messages_are_one_line() {
    assert_eq!(Error::NoRuleFound.message(), "No rule found".to_string());
    assert_eq!(
        Error::ParseUrl("x".to_string()).message(),
        "Failed to parse url: x".to_string()
    );
    assert_eq!(Error::InvalidRedirect.message(), "Invalid url on redirect".to_string());
}
