//! The words in which errors are reported to the user.
use vstd::prelude::*;

use crate::manifest::{Manifest, ManifestError, SourceError, SUPPORTED_SPEC};
use crate::text::{decimal_spec, push_decimal, push_str};

verus! {

/// The message for a malformed source `s`.
pub open spec fn source_error_text(e: SourceError, s: Seq<char>) -> Seq<char> {
    match e {
        SourceError::MissingSlash => "source must be 'github:owner/repo', got '"@ + s + "'"@,
        SourceError::EmptyOwnerOrRepo => "owner and repo must not be empty in '"@ + s + "'"@,
        SourceError::BadUrlScheme => "url source must start with http:// or https://, got '"@ + s
            + "'"@,
        SourceError::UnknownPrefix => "source must start with 'github:' or 'url:', got '"@ + s
            + "'"@,
        SourceError::BadGitHubUrl => "could not parse GitHub URL: expected https://github.com/owner/repo"@,
        SourceError::NotAUrl => "expected a URL (https://github.com/owner/repo or https://example.com/my-mod)"@,
    }
}

/// The message for a malformed source `s`.
pub fn source_error_message(e: SourceError, s: &str) -> (r: String)
    ensures
        r@ == source_error_text(e, s@),
{
    let mut out = String::new();
    match e {
        SourceError::MissingSlash => {
            push_str(&mut out, "source must be 'github:owner/repo', got '");
            push_str(&mut out, s);
            push_str(&mut out, "'");
        },
        SourceError::EmptyOwnerOrRepo => {
            push_str(&mut out, "owner and repo must not be empty in '");
            push_str(&mut out, s);
            push_str(&mut out, "'");
        },
        SourceError::BadUrlScheme => {
            push_str(&mut out, "url source must start with http:// or https://, got '");
            push_str(&mut out, s);
            push_str(&mut out, "'");
        },
        SourceError::UnknownPrefix => {
            push_str(&mut out, "source must start with 'github:' or 'url:', got '");
            push_str(&mut out, s);
            push_str(&mut out, "'");
        },
        SourceError::BadGitHubUrl => {
            push_str(&mut out, "could not parse GitHub URL: expected https://github.com/owner/repo");
        },
        SourceError::NotAUrl => {
            push_str(
                &mut out,
                "expected a URL (https://github.com/owner/repo or https://example.com/my-mod)",
            );
        },
    }
    assert(out@ =~= source_error_text(e, s@));
    out
}

/// The message for a manifest that breaks a rule.
pub open spec fn manifest_error_text(e: ManifestError, m: Manifest) -> Seq<char> {
    match e {
        ManifestError::UnsupportedSpec(n) => "unsupported manifest spec version "@ + decimal_spec(
            n as nat,
        ) + " (expected "@ + decimal_spec(SUPPORTED_SPEC as nat) + ")"@,
        ManifestError::EmptyId => "id must not be empty"@,
        ManifestError::UnsupportedLoader => "unsupported loader: "@ + m.loader.name@,
        ManifestError::UnsupportedDependencyType => "unsupported dependency type"@,
        ManifestError::InvalidSource(se) => "invalid source field: "@ + source_error_text(
            se,
            m.source@,
        ),
        ManifestError::DependencyType(i) => if i < m.dependencies@.len() {
            "in dependency '"@ + m.dependencies@[i as int].name@ + "': unsupported dependency type: "@
                + m.dependencies@[i as int].dep_type@
        } else {
            "unsupported dependency type"@
        },
        ManifestError::DependencySource(i, se) => if i < m.dependencies@.len() {
            "invalid source in dependency '"@ + m.dependencies@[i as int].name@ + "': "@
                + source_error_text(se, m.dependencies@[i as int].source@)
        } else {
            "invalid source in dependency"@
        },
    }
}

/// The message for a manifest that breaks a rule.
pub fn manifest_error_message(e: ManifestError, m: &Manifest) -> (r: String)
    ensures
        r@ == manifest_error_text(e, *m),
{
    let mut out = String::new();
    match e {
        ManifestError::UnsupportedSpec(n) => {
            push_str(&mut out, "unsupported manifest spec version ");
            push_decimal(&mut out, n as u64);
            push_str(&mut out, " (expected ");
            push_decimal(&mut out, SUPPORTED_SPEC as u64);
            push_str(&mut out, ")");
        },
        ManifestError::EmptyId => {
            push_str(&mut out, "id must not be empty");
        },
        ManifestError::UnsupportedLoader => {
            push_str(&mut out, "unsupported loader: ");
            push_str(&mut out, m.loader.name.as_str());
        },
        ManifestError::UnsupportedDependencyType => {
            push_str(&mut out, "unsupported dependency type");
        },
        ManifestError::InvalidSource(se) => {
            push_str(&mut out, "invalid source field: ");
            let t = source_error_message(se, m.source.as_str());
            push_str(&mut out, t.as_str());
        },
        ManifestError::DependencyType(i) => {
            if i < m.dependencies.len() {
                push_str(&mut out, "in dependency '");
                push_str(&mut out, m.dependencies[i].name.as_str());
                push_str(&mut out, "': unsupported dependency type: ");
                push_str(&mut out, m.dependencies[i].dep_type.as_str());
            } else {
                push_str(&mut out, "unsupported dependency type");
            }
        },
        ManifestError::DependencySource(i, se) => {
            if i < m.dependencies.len() {
                push_str(&mut out, "invalid source in dependency '");
                push_str(&mut out, m.dependencies[i].name.as_str());
                push_str(&mut out, "': ");
                let t = source_error_message(se, m.dependencies[i].source.as_str());
                push_str(&mut out, t.as_str());
            } else {
                push_str(&mut out, "invalid source in dependency");
            }
        },
    }
    assert(out@ =~= manifest_error_text(e, *m));
    out
}

/// The outermost part of the message for a manifest that breaks a rule:
/// what a report that shows only the outermost context says.
pub open spec fn manifest_error_headline_text(e: ManifestError, m: Manifest) -> Seq<char> {
    match e {
        ManifestError::InvalidSource(_) => "invalid source field"@,
        ManifestError::DependencyType(i) => if i < m.dependencies@.len() {
            "in dependency '"@ + m.dependencies@[i as int].name@ + "'"@
        } else {
            "unsupported dependency type"@
        },
        ManifestError::DependencySource(i, _) => if i < m.dependencies@.len() {
            "invalid source in dependency '"@ + m.dependencies@[i as int].name@ + "'"@
        } else {
            "invalid source in dependency"@
        },
        _ => manifest_error_text(e, m),
    }
}

/// The outermost part of the message for a manifest that breaks a rule.
pub fn manifest_error_headline(e: ManifestError, m: &Manifest) -> (r: String)
    ensures
        r@ == manifest_error_headline_text(e, *m),
{
    let mut out = String::new();
    match e {
        ManifestError::InvalidSource(_) => {
            push_str(&mut out, "invalid source field");
        },
        ManifestError::DependencyType(i) => {
            if i < m.dependencies.len() {
                push_str(&mut out, "in dependency '");
                push_str(&mut out, m.dependencies[i].name.as_str());
                push_str(&mut out, "'");
            } else {
                push_str(&mut out, "unsupported dependency type");
            }
        },
        ManifestError::DependencySource(i, _) => {
            if i < m.dependencies.len() {
                push_str(&mut out, "invalid source in dependency '");
                push_str(&mut out, m.dependencies[i].name.as_str());
                push_str(&mut out, "'");
            } else {
                push_str(&mut out, "invalid source in dependency");
            }
        },
        _ => {
            return manifest_error_message(e, m);
        },
    }
    assert(out@ =~= manifest_error_headline_text(e, *m));
    out
}

} // verus!
