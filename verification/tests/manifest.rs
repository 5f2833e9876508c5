use accessforge::manifest::{resolve_asset, slugify, Source};

#[test]
fn test_source_parse_github() {
    let source = Source::parse("github:jessica/sparking-zero-access").unwrap();
    assert_eq!(
        source,
        Source::GitHub { owner: "jessica".to_string(), repo: "sparking-zero-access".to_string() }
    );
    assert_eq!(source.as_github(), Some(("jessica", "sparking-zero-access")));
    assert_eq!(source.as_url(), None);
}

#[test]
fn test_source_parse_url() {
    let source = Source::parse("url:https://example.com/my-mod").unwrap();
    assert_eq!(source, Source::Url { url: "https://example.com/my-mod".to_string() });
    assert_eq!(source.as_url(), Some("https://example.com/my-mod"));
    assert_eq!(source.as_github(), None);
}

#[test]
fn test_source_parse_invalid() {
    assert!(Source::parse("invalid:foo/bar").is_err());
    assert!(Source::parse("github:").is_err());
    assert!(Source::parse("url:ftp://bad").is_err());
}

#[test]
fn test_resolve_asset() {
    assert_eq!(resolve_asset("MyMod-{version}.zip", "1.0.0"), "MyMod-1.0.0.zip");
    assert_eq!(resolve_asset("MyMod-{version}.zip", "1.0.0a1"), "MyMod-1.0.0a1.zip");
    assert_eq!(resolve_asset("MyMod.zip", "1.0.0"), "MyMod.zip");
}

#[test]
fn test_slugify() {
    assert_eq!(slugify("Dragon Ball Sparking! ZERO"), "dragon-ball-sparking-zero");
    assert_eq!(slugify("Sparking Zero Access"), "sparking-zero-access");
}

#[test]
fn test_parse_user_input_github_url() {
    let source = Source::parse_user_input("https://github.com/jessica/sparking-zero-access").unwrap();
    assert_eq!(
        source,
        Source::GitHub { owner: "jessica".to_string(), repo: "sparking-zero-access".to_string() }
    );
}

#[test]
fn test_parse_user_input_github_url_with_path() {
    let source =
        Source::parse_user_input("https://github.com/jessica/sparking-zero-access/tree/main").unwrap();
    assert_eq!(
        source,
        Source::GitHub { owner: "jessica".to_string(), repo: "sparking-zero-access".to_string() }
    );
}

#[test]
fn test_parse_user_input_github_url_trailing_slash() {
    let source = Source::parse_user_input("https://github.com/jessica/sparking-zero-access/").unwrap();
    assert_eq!(
        source,
        Source::GitHub { owner: "jessica".to_string(), repo: "sparking-zero-access".to_string() }
    );
}

#[test]
fn test_parse_user_input_http_url() {
    let source = Source::parse_user_input("https://example.com/my-mod").unwrap();
    assert_eq!(source, Source::Url { url: "https://example.com/my-mod".to_string() });
}

#[test]
fn test_parse_user_input_prefixed() {
    let source = Source::parse_user_input("github:owner/repo").unwrap();
    assert_eq!(source, Source::GitHub { owner: "owner".to_string(), repo: "repo".to_string() });

    let source = Source::parse_user_input("url:https://example.com").unwrap();
    assert_eq!(source, Source::Url { url: "https://example.com".to_string() });
}

#[test]
fn test_parse_user_input_invalid() {
    assert!(Source::parse_user_input("not-a-url").is_err());
    assert!(Source::parse_user_input("ftp://example.com").is_err());
    assert!(Source::parse_user_input("").is_err());
}
