use accessforge::devtools::{parse_github_url, yaml_quote};

#[test]
fn test_parse_github_url_https() {
    let (owner, repo) = parse_github_url("https://github.com/jessica/sparking-zero-access");
    assert_eq!(owner.as_deref(), Some("jessica"));
    assert_eq!(repo.as_deref(), Some("sparking-zero-access"));
}

#[test]
fn test_parse_github_url_https_git_suffix() {
    let (owner, repo) = parse_github_url("https://github.com/jessica/sparking-zero-access.git");
    assert_eq!(owner.as_deref(), Some("jessica"));
    assert_eq!(repo.as_deref(), Some("sparking-zero-access"));
}

#[test]
fn test_parse_github_url_ssh() {
    let (owner, repo) = parse_github_url("git@github.com:jessica/sparking-zero-access.git");
    assert_eq!(owner.as_deref(), Some("jessica"));
    assert_eq!(repo.as_deref(), Some("sparking-zero-access"));
}

#[test]
fn test_parse_github_url_ssh_no_suffix() {
    let (owner, repo) = parse_github_url("git@github.com:jessica/sparking-zero-access");
    assert_eq!(owner.as_deref(), Some("jessica"));
    assert_eq!(repo.as_deref(), Some("sparking-zero-access"));
}

#[test]
fn test_parse_github_url_invalid() {
    let (owner, repo) = parse_github_url("https://gitlab.com/owner/repo");
    assert!(owner.is_none());
    assert!(repo.is_none());
}

#[test]
fn test_parse_github_url_empty() {
    let (owner, repo) = parse_github_url("");
    assert!(owner.is_none());
    assert!(repo.is_none());
}

#[test]
fn test_yaml_quote_plain() {
    assert_eq!(yaml_quote("simple name"), "simple name");
}

#[test]
fn test_yaml_quote_colon() {
    assert_eq!(yaml_quote("DRAGON BALL: Sparking! ZERO"), "\"DRAGON BALL: Sparking! ZERO\"");
}

#[test]
fn test_yaml_quote_hash() {
    assert_eq!(yaml_quote("mod #1"), "\"mod #1\"");
}

#[test]
fn test_yaml_quote_inner_quotes() {
    assert_eq!(yaml_quote("it's a \"test\""), "\"it's a \\\"test\\\"\"");
}

#[test]
fn test_yaml_quote_leading_bracket() {
    assert_eq!(yaml_quote("[array]"), "\"[array]\"");
    assert_eq!(yaml_quote("{object}"), "\"{object}\"");
}

#[test]
fn test_yaml_quote_leading_trailing_space() {
    assert_eq!(yaml_quote(" leading"), "\" leading\"");
    assert_eq!(yaml_quote("trailing "), "\"trailing \"");
}

#[test]
fn yaml_quote_leading_indicator() {
    assert_eq!(yaml_quote("*Star"), "\"*Star\"");
    assert_eq!(yaml_quote("&anchor"), "\"&anchor\"");
    assert_eq!(yaml_quote("!tag"), "\"!tag\"");
    assert_eq!(yaml_quote("- item"), "\"- item\"");
    assert_eq!(yaml_quote("|block"), "\"|block\"");
    assert_eq!(yaml_quote(""), "\"\"");
    assert_eq!(yaml_quote("Star*"), "Star*");
    assert_eq!(yaml_quote("a-b"), "a-b");
}
