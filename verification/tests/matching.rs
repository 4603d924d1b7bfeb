use tae::config::{Config, Rule};
use tae::find_command::{find_matching_rule, url_matches_param};
use tae::urls::parse_url;

#[test]
fn scheme() {
    let url = parse_url("https://example.com").unwrap();
    let config = Config {
        rules: vec![Rule { scheme: Some("https".to_string()), ..Default::default() }],
    };
    let rule = find_matching_rule(&url, &config);
    assert!(rule.is_some());
}

#[test]
fn host() {
    let url = parse_url("https://example.com").unwrap();
    let config = Config {
        rules: vec![Rule { host: Some("example.com".to_string()), ..Default::default() }],
    };
    let rule = find_matching_rule(&url, &config);
    assert!(rule.is_some());
}

#[test]
fn find_none() {
    let url = parse_url("https://example.com").unwrap();
    let config = Config {
        rules: vec![Rule { scheme: Some("gemini".to_string()), ..Default::default() }],
    };
    let rule = find_matching_rule(&url, &config);
    assert!(rule.is_none());
}

#[test]
fn wildcard_rule_matches_every_url() {
    let config = Config { rules: vec![Rule::default()] };
    for s in ["https://example.com/a?q=1#f", "mailto:user@example.com", "file:///tmp/x"] {
        let url = parse_url(s).unwrap();
        assert!(find_matching_rule(&url, &config).is_some());
    }
}

#[test]
fn host_match_is_exact() {
    let config = Config {
        rules: vec![Rule { host: Some("example.com".to_string()), ..Default::default() }],
    };
    let other = parse_url("https://example.org").unwrap();
    assert!(find_matching_rule(&other, &config).is_none());
    let sub = parse_url("https://sub.example.com").unwrap();
    assert!(find_matching_rule(&sub, &config).is_none());
    let same = parse_url("https://example.com").unwrap();
    assert!(find_matching_rule(&same, &config).is_some());
}

#[test]
fn first_match_wins() {
    let config = Config {
        rules: vec![
            Rule { scheme: Some("gemini".to_string()), command: Some("first".to_string()), ..Default::default() },
            Rule { command: Some("second".to_string()), ..Default::default() },
            Rule { command: Some("third".to_string()), ..Default::default() },
        ],
    };
    let url = parse_url("https://example.com").unwrap();
    let rule = find_matching_rule(&url, &config).unwrap();
    assert_eq!(rule.command, Some("second".to_string()));
}

#[test]
fn matching_is_deterministic() {
    let config = Config {
        rules: vec![
            Rule { host: Some("example.com".to_string()), command: Some("a".to_string()), ..Default::default() },
            Rule { command: Some("b".to_string()), ..Default::default() },
        ],
    };
    let url = parse_url("https://example.com/x").unwrap();
    let first = find_matching_rule(&url, &config).unwrap().command.clone();
    let second = find_matching_rule(&url, &config).unwrap().command.clone();
    assert_eq!(first, second);
    assert_eq!(first, Some("a".to_string()));
}

#[test]
fn param_absent_matches_anything() {
    assert!(url_matches_param(&Some("x"), &None));
    assert!(url_matches_param(&None, &None));
    assert!(url_matches_param(&Some("x"), &Some("x".to_string())));
    assert!(!url_matches_param(&Some("x"), &Some("y".to_string())));
    assert!(!url_matches_param(&None, &Some("x".to_string())));
}
