use accessforge::loaders::{LoaderEvent, LoaderInstall, LoaderRequest};
use accessforge::registry::ReleaseAsset;
use accessforge::loaders::{find_best_partial_match, find_latest_tag};

#[test]
fn test_find_latest_tag() {
    let tags = vec!["v1.0.0".to_string(), "v2.0.0".to_string(), "v1.5.0".to_string()];
    assert_eq!(find_latest_tag(&tags).unwrap(), "v2.0.0");
}

#[test]
fn test_find_best_partial_match() {
    let tags = vec![
        "v5.4.21".to_string(),
        "v5.4.22".to_string(),
        "v5.4.23.5".to_string(),
        "v5.3.0".to_string(),
        "v6.0.0-pre.1".to_string(),
    ];
    assert_eq!(find_best_partial_match(&tags, "5.4").unwrap(), "v5.4.23.5");
    assert_eq!(find_best_partial_match(&tags, "5.3").unwrap(), "v5.3.0");
    assert!(find_best_partial_match(&tags, "7.0").is_err());
}

#[test]
fn test_partial_match_no_false_prefix() {
    let tags = vec!["v5.4.0".to_string(), "v5.40.0".to_string()];
    // "5.4" should match "5.4.0" but NOT "5.40.0"
    assert_eq!(find_best_partial_match(&tags, "5.4").unwrap(), "v5.4.0");
}

use accessforge::loaders::{
    get_loader_def, loader_download_plan, loader_error_message, missing_loader_asset_message,
    resolve_loader_version, LoaderError, PostInstall,
};
use accessforge::manifest::LoaderKind;

fn tags(list: &[&str]) -> Vec<String> {
    list.iter().map(|s| s.to_string()).collect()
}

#[test]
fn loader_definitions() {
    let ue = get_loader_def(LoaderKind::Ue4ss);
    assert_eq!((ue.github_owner, ue.github_repo, ue.mod_dir), ("UE4SS-RE", "RE-UE4SS", "Mods"));
    assert!(matches!(ue.post_install, Some(PostInstall::EnableUe4ssMod)));
    let bep = get_loader_def(LoaderKind::BepInEx);
    assert_eq!(bep.mod_dir, "BepInEx/plugins");
    assert!(bep.post_install.is_none());
    let none = get_loader_def(LoaderKind::NoLoader);
    assert!(!none.needs_download());
    assert!(get_loader_def(LoaderKind::MelonLoader).needs_download());
}

#[test]
fn loader_asset_names() {
    assert_eq!(get_loader_def(LoaderKind::Ue4ss).asset_name("v3.0.1", "x64"), "UE4SS_v3.0.1.zip");
    assert_eq!(get_loader_def(LoaderKind::BepInEx).asset_name("v5.4.23", "x64"), "BepInEx_win_x64_5.4.23.zip");
    assert_eq!(get_loader_def(LoaderKind::MelonLoader).asset_name("v0.6.1", "x86"), "MelonLoader.x86.zip");
}

#[test]
fn loader_version_resolution() {
    let def = get_loader_def(LoaderKind::BepInEx);
    let available = tags(&["v5.4.21", "v5.4.22", "6.0.0"]);
    assert_eq!(resolve_loader_version(&def, None, &available).unwrap(), ("6.0.0".to_string(), "6.0.0".to_string()));
    assert_eq!(
        resolve_loader_version(&def, Some("5.4.21"), &available).unwrap(),
        ("v5.4.21".to_string(), "5.4.21".to_string())
    );
    assert_eq!(
        resolve_loader_version(&def, Some("6.0.0"), &available).unwrap(),
        ("6.0.0".to_string(), "6.0.0".to_string())
    );
    assert_eq!(
        resolve_loader_version(&def, Some("5.4"), &available).unwrap(),
        ("v5.4.22".to_string(), "5.4.22".to_string())
    );
    assert_eq!(resolve_loader_version(&def, Some("7"), &available).unwrap_err(), LoaderError::NoMatchingRelease);
    assert_eq!(resolve_loader_version(&def, None, &tags(&[])).unwrap_err(), LoaderError::NoReleases);
    let none = get_loader_def(LoaderKind::NoLoader);
    assert_eq!(resolve_loader_version(&none, None, &tags(&[])).unwrap(), (String::new(), String::new()));
}

#[test]
fn loader_plan_and_messages() {
    let def = get_loader_def(LoaderKind::BepInEx);
    let plan = loader_download_plan(&def, Some("5.4"), "x64", &tags(&["v5.4.21", "v5.4.23"])).unwrap();
    assert_eq!(plan, ("v5.4.23".to_string(), "5.4.23".to_string(), "BepInEx_win_x64_5.4.23.zip".to_string()));
    assert_eq!(loader_error_message(LoaderError::NoReleases, None), "no releases found");
    assert_eq!(
        loader_error_message(LoaderError::NoMatchingRelease, Some("9.9")),
        "no release matching version '9.9' found"
    );
    assert_eq!(
        missing_loader_asset_message(&def, "BepInEx_win_x64_5.4.23.zip"),
        "no release asset 'BepInEx_win_x64_5.4.23.zip' found for BepInEx/BepInEx"
    );
}

#[test]
fn loader_install_steps() {
    let (_, req) = LoaderInstall::start(LoaderKind::NoLoader, None, "x64");
    assert!(matches!(req, LoaderRequest::Done(Ok(()))));

    let (mut li, req) = LoaderInstall::start(LoaderKind::BepInEx, Some("5.4"), "x64");
    assert!(matches!(&req, LoaderRequest::ListTags { owner, repo } if owner == "BepInEx" && repo == "BepInEx"));
    let req = li.step(LoaderEvent::Tags(Ok(tags(&["v5.4.21", "v5.4.23"]))));
    assert!(matches!(&req, LoaderRequest::FetchRelease { owner, repo, asset, version }
        if owner == "BepInEx" && repo == "BepInEx" && asset == "BepInEx_win_x64_5.4.23.zip" && version == "5.4.23"));
    let req = li.step(LoaderEvent::Release(Ok(Some(ReleaseAsset { tag: "v5.4.23".to_string(), download_url: "https://dl".to_string() }))));
    assert!(matches!(&req, LoaderRequest::Download { url } if url == "https://dl"));
    let req = li.step(LoaderEvent::Downloaded(Ok(vec![1, 2])));
    assert!(matches!(&req, LoaderRequest::Extract { data } if *data == vec![1, 2]));
    let req = li.step(LoaderEvent::Extracted(Ok(())));
    assert!(matches!(req, LoaderRequest::Done(Ok(()))));

    let (mut li, _) = LoaderInstall::start(LoaderKind::BepInEx, Some("9"), "x64");
    let req = li.step(LoaderEvent::Tags(Ok(tags(&["v5.4.21"]))));
    assert!(matches!(&req, LoaderRequest::Done(Err(e)) if e == "no release matching version '9' found"));

    let (mut li, _) = LoaderInstall::start(LoaderKind::Ue4ss, None, "x64");
    li.step(LoaderEvent::Tags(Ok(tags(&["v3.0.1"]))));
    let req = li.step(LoaderEvent::Release(Ok(None)));
    assert!(matches!(&req, LoaderRequest::Done(Err(e)) if e == "no release asset 'UE4SS_v3.0.1.zip' found for UE4SS-RE/RE-UE4SS"));
}
