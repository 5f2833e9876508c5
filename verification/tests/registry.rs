use accessforge::registry::{LookupStep, ReleaseLookup};
use accessforge::manifest::Source;
use accessforge::registry::{
    after_tag, discovered_from_full_name, github_manifest_url, http_manifest_url, manifest_url,
    pick_latest_release_asset, pick_release_asset, release_by_tag_url, release_tag_candidates,
    release_tags, url_release_asset, AssetEntry, RegistryError, ReleaseEntry, TagAnswer, TagOutcome,
};

fn asset(name: Option<&str>, url: Option<&str>) -> AssetEntry {
    AssetEntry { name: name.map(|s| s.to_string()), download_url: url.map(|s| s.to_string()) }
}

#[test]
fn full_name_splits_at_first_slash() {
    let d = discovered_from_full_name("owner/repo/extra").unwrap();
    assert_eq!(d.owner, "owner");
    assert_eq!(d.repo, "repo/extra");
    assert!(discovered_from_full_name("no-slash").is_none());
}

#[test]
fn manifest_urls() {
    assert_eq!(
        github_manifest_url("owner", "repo"),
        "https://raw.githubusercontent.com/owner/repo/HEAD/accessforge.yml"
    );
    assert_eq!(http_manifest_url("https://example.com/mod//"), "https://example.com/mod/accessforge.yml");
    let src = Source::Url { url: "https://example.com/m".to_string() };
    assert_eq!(manifest_url(&src), "https://example.com/m/accessforge.yml");
    let gh = Source::GitHub { owner: "a".to_string(), repo: "b".to_string() };
    assert_eq!(manifest_url(&gh), "https://raw.githubusercontent.com/a/b/HEAD/accessforge.yml");
}

#[test]
fn url_release_asset_joins_url_and_asset() {
    let a = url_release_asset("https://example.com/files/", "Mod-{version}.zip", "1.2.3");
    assert_eq!(a.tag, "1.2.3");
    assert_eq!(a.download_url, "https://example.com/files/Mod-1.2.3.zip");
}

#[test]
fn tag_candidates_try_v_prefix_first() {
    assert_eq!(release_tag_candidates("1.0.0"), vec!["v1.0.0".to_string(), "1.0.0".to_string()]);
    assert_eq!(
        release_by_tag_url("o", "r", "v1.0.0"),
        "https://api.github.com/repos/o/r/releases/tags/v1.0.0"
    );
}

#[test]
fn pick_asset_exact_and_prefix() {
    let assets = vec![
        asset(None, Some("https://x/none")),
        asset(Some("Other.zip"), Some("https://x/other")),
        asset(Some("App.exe"), Some("https://x/app")),
    ];
    let a = pick_release_asset("v1", "App.exe", &assets).unwrap().unwrap();
    assert_eq!(a.download_url, "https://x/app");
    assert_eq!(a.tag, "v1");
    assert!(pick_release_asset("v1", "Missing.zip", &assets).unwrap().is_none());
    let b = pick_latest_release_asset("v2", "Oth", &assets).unwrap().unwrap();
    assert_eq!(b.download_url, "https://x/other");
    let broken = vec![asset(Some("App.exe"), None)];
    assert_eq!(pick_release_asset("v1", "App.exe", &broken).unwrap_err(), RegistryError::AssetWithoutUrl);
}

#[test]
fn release_tags_skip_prereleases_and_drafts() {
    let entry = |tag: Option<&str>, pre: Option<bool>, draft: Option<bool>| ReleaseEntry {
        tag_name: tag.map(|s| s.to_string()),
        prerelease: pre,
        draft,
    };
    let releases = vec![
        entry(Some("v3.0.0"), Some(true), Some(false)),
        entry(Some("v2.0.0"), Some(false), Some(false)),
        entry(Some("v1.9.0"), Some(false), Some(true)),
        entry(None, Some(false), Some(false)),
        entry(Some("v1.0.0"), None, Some(false)),
        entry(Some("v0.9.0"), Some(false), Some(false)),
    ];
    assert_eq!(release_tags(&releases), vec!["v2.0.0".to_string(), "v0.9.0".to_string()]);
}

#[test]
fn after_tag_outcomes() {
    assert!(matches!(after_tag("v1", "A.zip", TagAnswer::Missing), TagOutcome::TryNext));
    assert!(matches!(after_tag("v1", "A.zip", TagAnswer::NoAssets), TagOutcome::TryNext));
    assert!(matches!(
        after_tag("v1", "A.zip", TagAnswer::Failed("timeout".to_string())),
        TagOutcome::Fail(e) if e == "timeout"
    ));
    let found = after_tag("v1", "A.zip", TagAnswer::Assets(vec![asset(Some("A.zip"), Some("https://x/a"))]));
    assert!(matches!(found, TagOutcome::Found(a) if a.download_url == "https://x/a" && a.tag == "v1"));
    let other = after_tag("v1", "A.zip", TagAnswer::Assets(vec![asset(Some("B.zip"), Some("https://x/b"))]));
    assert!(matches!(other, TagOutcome::TryNext));
    let no_url = after_tag("v1", "A.zip", TagAnswer::Assets(vec![asset(Some("A.zip"), None)]));
    assert!(matches!(no_url, TagOutcome::Fail(e) if e == "asset has no download URL"));
}

#[test]
fn release_lookup_tries_v_tag_then_plain_tag() {
    let (mut lookup, step) = ReleaseLookup::start("Mod-{version}.zip", "1.2.0");
    assert!(matches!(&step, LookupStep::Fetch { tag } if tag == "v1.2.0"));
    let step = lookup.step(TagAnswer::Missing);
    assert!(matches!(&step, LookupStep::Fetch { tag } if tag == "1.2.0"));
    let step = lookup.step(TagAnswer::Assets(vec![asset(Some("Mod-1.2.0.zip"), Some("https://x/m"))]));
    assert!(matches!(&step, LookupStep::Done(Ok(Some(a))) if a.tag == "1.2.0" && a.download_url == "https://x/m"));

    let (mut lookup, _) = ReleaseLookup::start("Mod-{version}.zip", "1.2.0");
    let step = lookup.step(TagAnswer::Assets(vec![asset(Some("Mod-1.2.0.zip"), Some("https://x/v"))]));
    assert!(matches!(&step, LookupStep::Done(Ok(Some(a))) if a.tag == "v1.2.0"));

    let (mut lookup, _) = ReleaseLookup::start("Mod-{version}.zip", "1.2.0");
    lookup.step(TagAnswer::NoAssets);
    let step = lookup.step(TagAnswer::Missing);
    assert!(matches!(step, LookupStep::Done(Ok(None))));

    let (mut lookup, _) = ReleaseLookup::start("Mod-{version}.zip", "1.2.0");
    let step = lookup.step(TagAnswer::Failed("boom".to_string()));
    assert!(matches!(&step, LookupStep::Done(Err(e)) if e == "boom"));
}
