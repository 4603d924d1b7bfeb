use tae::config::{Config, Rule};
use tae::find_command::find_command;
use tae::urls::parse_url;
use tae::Error;

fn rule_with_command(scheme: &str, command: &str) -> Rule {
    Rule {
        scheme: Some(scheme.to_string()),
        command: Some(command.to_string()),
        ..Default::default()
    }
}

fn rule_with_redirect(scheme: &str, redirect: &str) -> Rule {
    Rule {
        scheme: Some(scheme.to_string()),
        redirect: Some(redirect.to_string()),
        ..Default::default()
    }
}

#[test]
fn command_without_redirect_resolves_at_once() {
    let config = Config { rules: vec![rule_with_command("https", "firefox")] };
    let url = parse_url("https://example.com/a").unwrap();
    let (final_url, command) = find_command(url, &config).unwrap();
    assert_eq!(final_url.full, "https://example.com/a".to_string());
    assert_eq!(command, "firefox".to_string());
}

#[test]
fn redirect_round_trip() {
    let config = Config {
        rules: vec![
            rule_with_redirect("short", "https://${host}${path}"),
            rule_with_command("https", "firefox"),
        ],
    };
    let url = parse_url("short://x.co/abc").unwrap();
    let (final_url, command) = find_command(url, &config).unwrap();
    assert_eq!(final_url.full, "https://x.co/abc".to_string());
    assert_eq!(final_url.scheme, "https".to_string());
    assert_eq!(command, "firefox".to_string());
}

#[test]
fn acyclic_chain_resolves_after_each_hop() {
    let config = Config {
        rules: vec![
            rule_with_redirect("aa", "bb://${host}${path}"),
            rule_with_redirect("bb", "cc://${host}${path}"),
            rule_with_command("cc", "open"),
        ],
    };
    let url = parse_url("aa://x.co/p").unwrap();
    let (final_url, command) = find_command(url, &config).unwrap();
    assert_eq!(final_url.full, "cc://x.co/p".to_string());
    assert_eq!(command, "open".to_string());
}

#[test]
fn cyclic_redirects_do_not_resolve() {
    // The rule redirects every matching URL to itself, so dispatching must
    // stop at the hop limit instead of resolving.
    let config = Config { rules: vec![rule_with_redirect("aa", "${url}")] };
    let url = parse_url("aa://x.co/p").unwrap();
    assert!(matches!(find_command(url, &config), Err(Error::TooManyRedirects)));
}

#[test]
fn no_rule_matched() {
    let config = Config { rules: vec![rule_with_command("gemini", "open")] };
    let url = parse_url("https://example.com").unwrap();
    assert!(matches!(find_command(url, &config), Err(Error::NoRuleFound)));
}

#[test]
fn matched_rule_with_no_action() {
    let config = Config { rules: vec![Rule::default()] };
    let url = parse_url("https://example.com").unwrap();
    assert!(matches!(find_command(url, &config), Err(Error::NoRuleFound)));
}

#[test]
fn redirect_to_unparsable_string_is_invalid() {
    // "${path}" renders to "/a", which is a relative URL and reparsing fails.
    let config = Config { rules: vec![rule_with_redirect("https", "${path}")] };
    let url = parse_url("https://example.com/a").unwrap();
    assert!(matches!(find_command(url, &config), Err(Error::InvalidRedirect)));
}

#[test]
fn bad_redirect_template_is_reported() {
    let config = Config { rules: vec![rule_with_redirect("https", "x${nope}")] };
    let url = parse_url("https://example.com/a").unwrap();
    assert!(matches!(find_command(url, &config), Err(Error::BadTemplate)));
}

#[test]
fn parse_url_reads_components() {
    let url = parse_url("https://example.com/a/b?q=1#frag").unwrap();
    assert_eq!(url.scheme, "https".to_string());
    assert_eq!(url.host, Some("example.com".to_string()));
    assert_eq!(url.path, "/a/b".to_string());
    assert_eq!(url.query, Some("q=1".to_string()));
    assert_eq!(url.fragment, Some("frag".to_string()));
    assert_eq!(url.full, "https://example.com/a/b?q=1#frag".to_string());
}

#[test]
fn parse_url_falls_back_to_base64() {
    // "aHR0cHM6Ly9leGFtcGxlLmNvbQ==" is the base64 form of
    // "https://example.com".
    let url = parse_url("aHR0cHM6Ly9leGFtcGxlLmNvbQ==").unwrap();
    assert_eq!(url.scheme, "https".to_string());
    assert_eq!(url.host, Some("example.com".to_string()));
}

#[test]
fn parse_url_rejects_garbage() {
    assert!(parse_url("not a url at all!!!").is_none());
}
