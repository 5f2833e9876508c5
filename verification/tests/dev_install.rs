use accessforge::dev_install::{
    dev_files_subdir, dev_intro_lines, is_http_argument, DevInstallSession, DevSource,
};
use accessforge::install::{InstallEvent, InstallRequest};
use accessforge::manifest::{Dependency, Game, LoaderField, LoaderKind, Manifest, Release};
use accessforge::registry::ReleaseAsset;

fn manifest(loader: &str, dep_type: &str) -> Manifest {
    Manifest {
        spec: 1,
        id: "test-mod".to_string(),
        name: "Test Mod".to_string(),
        description: "A test".to_string(),
        author: "tester".to_string(),
        version: "1.0.0".to_string(),
        source: "github:tester/test-mod".to_string(),
        license: None,
        game: Game { name: "Test Game".to_string(), store: None },
        loader: LoaderField { name: loader.to_string(), version: None, arch: None },
        release: Release { asset: "test-{version}.zip".to_string() },
        dependencies: vec![Dependency {
            name: "Dep".to_string(),
            dep_type: dep_type.to_string(),
            source: "github:o/dep".to_string(),
            asset: "dep.zip".to_string(),
            version: "1.0".to_string(),
        }],
    }
}

#[test]
fn local_install_copies_files_and_saves() {
    let src = DevSource::Local { from: "/proj".to_string() };
    let (mut s, step) = DevInstallSession::start(manifest("ue4ss", "mod"), src, "/games/tg");
    assert_eq!(step.lines, vec!["Game found at: /games/tg".to_string(), "Installing ue4ss...".to_string()]);
    let step = s.step(InstallEvent::LoaderInstalled(Ok(())));
    assert_eq!(step.lines, vec!["Installing dependency: Dep...".to_string()]);
    s.step(InstallEvent::ReleaseFetched(Ok(Some(ReleaseAsset {
        tag: "v1.0".to_string(),
        download_url: "https://dl/dep.zip".to_string(),
    }))));
    s.step(InstallEvent::Downloaded(Ok(vec![1])));
    let step = s.step(InstallEvent::Extracted(Ok(())));
    assert_eq!(step.lines, vec!["  Installed: Dep".to_string(), "Copying local mod files...".to_string()]);
    assert!(matches!(&step.request, InstallRequest::CopyModFiles { subdir } if *subdir == vec!["test-mod".to_string(), "Scripts".to_string()]));
    let step = s.step(InstallEvent::Extracted(Ok(())));
    assert_eq!(step.lines, vec!["Running post-install...".to_string()]);
    let step = s.step(InstallEvent::PostInstalled(Ok(())));
    assert!(matches!(&step.request, InstallRequest::SaveInstall { version } if version == "1.0.0"));
    let step = s.step(InstallEvent::Saved(Ok(())));
    assert_eq!(
        step.lines,
        vec!["State saved.".to_string(), "Done! Test Mod installed from local source.".to_string()]
    );
    assert_eq!(step.outcome, Some(Ok(())));
}

#[test]
fn url_install_reports_missing_release_and_bad_type_after_download() {
    let src = DevSource::Url { url: "https://example.com/m".to_string() };
    let (mut s, _) = DevInstallSession::start(manifest("none", "weird"), src, "/g");
    s.step(InstallEvent::LoaderInstalled(Ok(())));
    s.step(InstallEvent::ReleaseFetched(Ok(Some(ReleaseAsset {
        tag: "1.0".to_string(),
        download_url: "u".to_string(),
    }))));
    let step = s.step(InstallEvent::Downloaded(Ok(vec![])));
    assert_eq!(step.outcome, Some(Err("unsupported dependency type: weird".to_string())));

    let src = DevSource::Url { url: "https://example.com/m".to_string() };
    let (mut s, _) = DevInstallSession::start(manifest("none", "patch"), src, "/g");
    s.step(InstallEvent::LoaderInstalled(Ok(())));
    let step = s.step(InstallEvent::ReleaseFetched(Ok(None)));
    assert_eq!(step.outcome, Some(Err("no release found for dependency 'Dep'".to_string())));
}

#[test]
fn url_install_downloads_the_mod() {
    let src = DevSource::Url { url: "https://example.com/m".to_string() };
    let (mut s, _) = DevInstallSession::start(manifest("bepinex", "patch"), src, "/g");
    s.step(InstallEvent::LoaderInstalled(Ok(())));
    s.step(InstallEvent::ReleaseFetched(Ok(Some(ReleaseAsset { tag: "1".to_string(), download_url: "d".to_string() }))));
    s.step(InstallEvent::Downloaded(Ok(vec![])));
    let step = s.step(InstallEvent::Extracted(Ok(())));
    assert_eq!(step.lines, vec!["  Installed: Dep".to_string(), "Installing Test Mod...".to_string()]);
    let step = s.step(InstallEvent::ReleaseFetched(Ok(None)));
    assert_eq!(step.outcome, Some(Err("no release found for 'Test Mod'".to_string())));
}

#[test]
fn dev_install_rejects_unknown_loader() {
    let (_, step) = DevInstallSession::start(
        manifest("forge", "mod"),
        DevSource::Local { from: "/p".to_string() },
        "/g",
    );
    assert_eq!(step.outcome, Some(Err("unsupported loader: forge".to_string())));
}

#[test]
fn dev_intro_lines_and_helpers() {
    let m = manifest("none", "mod");
    let local = DevSource::Local { from: "/p/sub".to_string() };
    assert_eq!(
        dev_intro_lines(&m, &local, Some("/p")),
        vec![
            "Found manifest in /p".to_string(),
            "Copying files from /p/sub".to_string(),
            "Mod: Test Mod".to_string(),
            "Game: Test Game".to_string()
        ]
    );
    assert_eq!(dev_intro_lines(&m, &local, Some("/p/sub")).len(), 2);
    let url = DevSource::Url { url: "https://x".to_string() };
    assert_eq!(dev_intro_lines(&m, &url, None)[0], "Mod: Test Mod (test-mod)");
    assert!(is_http_argument("https://example.com"));
    assert!(is_http_argument("http://example.com"));
    assert!(!is_http_argument("./mod"));
    assert!(dev_files_subdir(&m, LoaderKind::BepInEx).is_empty());
}

#[test]
fn url_install_extracts_the_release_where_the_player_install_does() {
    let src = DevSource::Url { url: "https://example.com/m".to_string() };
    let (mut s, _) = DevInstallSession::start(manifest("ue4ss", "mod"), src, "/g");
    s.step(InstallEvent::LoaderInstalled(Ok(())));
    s.step(InstallEvent::ReleaseFetched(Ok(Some(ReleaseAsset { tag: "1".to_string(), download_url: "d".to_string() }))));
    s.step(InstallEvent::Downloaded(Ok(vec![])));
    s.step(InstallEvent::Extracted(Ok(())));
    s.step(InstallEvent::ReleaseFetched(Ok(Some(ReleaseAsset {
        tag: "v1.0.0".to_string(),
        download_url: "https://example.com/m/test-1.0.0.zip".to_string(),
    }))));
    let step = s.step(InstallEvent::Downloaded(Ok(vec![7])));
    assert!(matches!(
        &step.request,
        InstallRequest::ExtractMod { data, subdir } if *data == vec![7] && *subdir == vec!["test-mod".to_string()]
    ));
}
