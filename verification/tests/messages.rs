use accessforge::manifest::{
    Dependency, Game, LoaderField, Manifest, ManifestError, Release, SourceError,
};
use accessforge::messages::{manifest_error_headline, manifest_error_message, source_error_message};

fn manifest_with_dep() -> Manifest {
    Manifest {
        spec: 1,
        id: "m".to_string(),
        name: "M".to_string(),
        description: String::new(),
        author: String::new(),
        version: "1.0.0".to_string(),
        source: "github:bad".to_string(),
        license: None,
        game: Game { name: "G".to_string(), store: None },
        loader: LoaderField { name: "quux".to_string(), version: None, arch: None },
        release: Release { asset: "m.zip".to_string() },
        dependencies: vec![Dependency {
            name: "Dep".to_string(),
            dep_type: "plugin".to_string(),
            source: "ftp:x".to_string(),
            asset: "d.zip".to_string(),
            version: "1".to_string(),
        }],
    }
}

#[test]
fn source_error_messages() {
    assert_eq!(
        source_error_message(SourceError::MissingSlash, "github:bad"),
        "source must be 'github:owner/repo', got 'github:bad'"
    );
    assert_eq!(
        source_error_message(SourceError::EmptyOwnerOrRepo, "github:/r"),
        "owner and repo must not be empty in 'github:/r'"
    );
    assert_eq!(
        source_error_message(SourceError::BadUrlScheme, "url:ftp://x"),
        "url source must start with http:// or https://, got 'url:ftp://x'"
    );
    assert_eq!(
        source_error_message(SourceError::UnknownPrefix, "ftp:x"),
        "source must start with 'github:' or 'url:', got 'ftp:x'"
    );
    assert_eq!(
        source_error_message(SourceError::BadGitHubUrl, "https://github.com/x"),
        "could not parse GitHub URL: expected https://github.com/owner/repo"
    );
    assert_eq!(
        source_error_message(SourceError::NotAUrl, "x"),
        "expected a URL (https://github.com/owner/repo or https://example.com/my-mod)"
    );
}

#[test]
fn manifest_error_messages() {
    let m = manifest_with_dep();
    assert_eq!(
        manifest_error_message(ManifestError::UnsupportedSpec(2), &m),
        "unsupported manifest spec version 2 (expected 1)"
    );
    assert_eq!(manifest_error_message(ManifestError::EmptyId, &m), "id must not be empty");
    assert_eq!(manifest_error_message(ManifestError::UnsupportedLoader, &m), "unsupported loader: quux");
    assert_eq!(
        manifest_error_message(ManifestError::InvalidSource(SourceError::MissingSlash), &m),
        "invalid source field: source must be 'github:owner/repo', got 'github:bad'"
    );
    assert_eq!(
        manifest_error_message(ManifestError::DependencyType(0), &m),
        "in dependency 'Dep': unsupported dependency type: plugin"
    );
    assert_eq!(
        manifest_error_message(ManifestError::DependencySource(0, SourceError::UnknownPrefix), &m),
        "invalid source in dependency 'Dep': source must start with 'github:' or 'url:', got 'ftp:x'"
    );
}

#[test]
fn manifest_error_headlines() {
    let m = manifest_with_dep();
    assert_eq!(
        manifest_error_headline(ManifestError::InvalidSource(SourceError::MissingSlash), &m),
        "invalid source field"
    );
    assert_eq!(manifest_error_headline(ManifestError::DependencyType(0), &m), "in dependency 'Dep'");
    assert_eq!(
        manifest_error_headline(ManifestError::DependencySource(0, SourceError::UnknownPrefix), &m),
        "invalid source in dependency 'Dep'"
    );
    assert_eq!(manifest_error_headline(ManifestError::EmptyId, &m), "id must not be empty");
}
