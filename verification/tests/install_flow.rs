use accessforge::install::{
    install_record, record_install, saved_game_path, ExtractFailure, InstallEvent,
    InstallRequest, InstallSession,
};
use accessforge::manifest::{DepType, Dependency, Game, LoaderField, LoaderKind, Manifest, Release, Source};
use accessforge::registry::ReleaseAsset;
use accessforge::state::AppState;
use accessforge::worker::{InstallStep, ProgressMsg, TaskResult};

fn manifest(loader: &str, deps: Vec<Dependency>) -> Manifest {
    Manifest {
        spec: 1,
        id: "cool-mod".to_string(),
        name: "Cool Mod".to_string(),
        description: "A mod".to_string(),
        author: "me".to_string(),
        version: "1.2.0".to_string(),
        source: "github:me/cool-mod".to_string(),
        license: None,
        game: Game { name: "Some Game".to_string(), store: None },
        loader: LoaderField { name: loader.to_string(), version: Some("3.0".to_string()), arch: None },
        release: Release { asset: "cool-{version}.zip".to_string() },
        dependencies: deps,
    }
}

fn dep(name: &str, ty: &str, source: &str) -> Dependency {
    Dependency {
        name: name.to_string(),
        dep_type: ty.to_string(),
        source: source.to_string(),
        asset: "dep-{version}.zip".to_string(),
        version: "2.0.0".to_string(),
    }
}

fn asset(tag: &str, url: &str) -> Option<ReleaseAsset> {
    Some(ReleaseAsset { tag: tag.to_string(), download_url: url.to_string() })
}

fn failure(msgs: &[ProgressMsg]) -> Option<String> {
    match msgs.last() {
        Some(ProgressMsg::Failed(e)) => Some(e.clone()),
        _ => None,
    }
}

#[test]
fn install_runs_loader_dependency_mod_post_install_and_save() {
    let m = manifest("ue4ss", vec![dep("Helper Lib", "mod", "github:org/helper")]);
    let (mut s, out) = InstallSession::start(m);
    assert!(matches!(&out.messages[0], ProgressMsg::InstallProgress { step: InstallStep::InstallingLoader, detail } if detail == "ue4ss"));
    assert!(matches!(&out.messages[1], ProgressMsg::Status(t) if t == "Installing ue4ss..."));
    match &out.request {
        InstallRequest::InstallLoader { kind, version, arch } => {
            assert_eq!(*kind, LoaderKind::Ue4ss);
            assert_eq!(version.as_deref(), Some("3.0"));
            assert_eq!(arch, "x64");
        }
        _ => panic!("expected the loader request"),
    }

    let out = s.step(InstallEvent::LoaderInstalled(Ok(())));
    assert!(matches!(&out.messages[1], ProgressMsg::Status(t) if t == "Installing dependency: Helper Lib..."));
    match &out.request {
        InstallRequest::FetchRelease { source, asset, version } => {
            assert_eq!(*source, Source::GitHub { owner: "org".to_string(), repo: "helper".to_string() });
            assert_eq!(asset, "dep-{version}.zip");
            assert_eq!(version, "2.0.0");
        }
        _ => panic!("expected a release request"),
    }

    let out = s.step(InstallEvent::ReleaseFetched(Ok(asset("v2.0.0", "https://dl/helper.zip"))));
    assert!(matches!(&out.request, InstallRequest::Download { url } if url == "https://dl/helper.zip"));
    let out = s.step(InstallEvent::Downloaded(Ok(vec![1, 2, 3])));
    assert!(matches!(&out.request, InstallRequest::ExtractDependency { data, target: DepType::Mod } if *data == vec![1, 2, 3]));

    let out = s.step(InstallEvent::Extracted(Ok(())));
    assert!(matches!(&out.messages[0], ProgressMsg::InstallProgress { step: InstallStep::InstallingMod, detail } if detail == "Cool Mod"));
    assert!(matches!(&out.messages[1], ProgressMsg::Status(t) if t == "Installing Cool Mod..."));
    assert!(matches!(&out.request, InstallRequest::FetchRelease { version, .. } if version == "1.2.0"));

    let out = s.step(InstallEvent::ReleaseFetched(Ok(asset("v1.2.0", "https://dl/cool.zip"))));
    assert!(matches!(&out.request, InstallRequest::Download { url } if url == "https://dl/cool.zip"));
    let out = s.step(InstallEvent::Downloaded(Ok(vec![9])));
    assert!(matches!(&out.request, InstallRequest::ExtractMod { subdir, .. } if *subdir == vec!["cool-mod".to_string()]));

    let out = s.step(InstallEvent::Extracted(Ok(())));
    assert!(matches!(&out.messages[0], ProgressMsg::InstallProgress { step: InstallStep::PostInstall, detail } if detail.is_empty()));
    assert!(matches!(&out.request, InstallRequest::EnableMod { mod_slug } if mod_slug == "cool-mod"));

    let out = s.step(InstallEvent::PostInstalled(Ok(())));
    assert!(matches!(&out.messages[0], ProgressMsg::InstallProgress { step: InstallStep::SavingState, .. }));
    assert!(matches!(&out.request, InstallRequest::SaveInstall { version } if version == "1.2.0"));

    let out = s.step(InstallEvent::Saved(Ok(())));
    assert!(matches!(&out.messages[0], ProgressMsg::Done(TaskResult::Install { mod_name, version }) if mod_name == "Cool Mod" && version == "1.2.0"));
    assert!(matches!(out.request, InstallRequest::Finished));

    // Once over, later answers change nothing.
    let out = s.step(InstallEvent::Saved(Ok(())));
    assert!(out.messages.is_empty());
    assert!(matches!(out.request, InstallRequest::Finished));
}

#[test]
fn install_without_post_install_goes_to_saving() {
    let m = manifest("bepinex", vec![]);
    let (mut s, _) = InstallSession::start(m);
    let out = s.step(InstallEvent::LoaderInstalled(Ok(())));
    assert!(matches!(&out.request, InstallRequest::FetchRelease { .. }));
    s.step(InstallEvent::ReleaseFetched(Ok(asset("2.0", "u"))));
    let out = s.step(InstallEvent::Downloaded(Ok(vec![])));
    assert!(matches!(&out.request, InstallRequest::ExtractMod { subdir, .. } if subdir.is_empty()));
    let out = s.step(InstallEvent::Extracted(Ok(())));
    assert!(matches!(&out.request, InstallRequest::SaveInstall { version } if version == "2.0"));
}

#[test]
fn install_rejects_unknown_loader() {
    let (_, out) = InstallSession::start(manifest("forge", vec![]));
    assert_eq!(failure(&out.messages).as_deref(), Some("Invalid loader: unsupported loader: forge"));
    assert!(matches!(out.request, InstallRequest::Finished));
}

#[test]
fn install_reports_loader_failure() {
    let (mut s, _) = InstallSession::start(manifest("none", vec![]));
    let out = s.step(InstallEvent::LoaderInstalled(Err("network down".to_string())));
    assert_eq!(failure(&out.messages).as_deref(), Some("Failed to install loader: network down"));
}

#[test]
fn install_reports_bad_dependency_type_and_source() {
    let (mut s, _) = InstallSession::start(manifest("none", vec![dep("Weird", "plugin", "github:a/b")]));
    let out = s.step(InstallEvent::LoaderInstalled(Ok(())));
    assert_eq!(out.messages.len(), 3);
    assert_eq!(
        failure(&out.messages).as_deref(),
        Some("Bad dependency type for 'Weird': unsupported dependency type: plugin")
    );

    let (mut s, _) = InstallSession::start(manifest("none", vec![dep("Lib", "patch", "gitlab:a/b")]));
    let out = s.step(InstallEvent::LoaderInstalled(Ok(())));
    assert_eq!(
        failure(&out.messages).as_deref(),
        Some("Bad source for 'Lib': source must start with 'github:' or 'url:', got 'gitlab:a/b'")
    );
}

#[test]
fn install_reports_missing_and_failed_releases() {
    let (mut s, _) = InstallSession::start(manifest("none", vec![dep("Lib", "patch", "github:a/b")]));
    s.step(InstallEvent::LoaderInstalled(Ok(())));
    let out = s.step(InstallEvent::ReleaseFetched(Ok(None)));
    assert_eq!(failure(&out.messages).as_deref(), Some("No release found for dependency 'Lib'"));

    let (mut s, _) = InstallSession::start(manifest("none", vec![]));
    s.step(InstallEvent::LoaderInstalled(Ok(())));
    let out = s.step(InstallEvent::ReleaseFetched(Err("timeout".to_string())));
    assert_eq!(failure(&out.messages).as_deref(), Some("Failed to fetch mod release: timeout"));
}

#[test]
fn install_reports_extract_failures() {
    let (mut s, _) = InstallSession::start(manifest("none", vec![dep("Lib", "patch", "github:a/b")]));
    s.step(InstallEvent::LoaderInstalled(Ok(())));
    s.step(InstallEvent::ReleaseFetched(Ok(asset("1", "u"))));
    s.step(InstallEvent::Downloaded(Ok(vec![])));
    let out = s.step(InstallEvent::Extracted(Err(ExtractFailure::Archive("bad zip".to_string()))));
    assert_eq!(failure(&out.messages).as_deref(), Some("Failed to extract 'Lib': bad zip"));

    let (mut s, _) = InstallSession::start(manifest("none", vec![]));
    s.step(InstallEvent::LoaderInstalled(Ok(())));
    s.step(InstallEvent::ReleaseFetched(Ok(asset("1", "u"))));
    s.step(InstallEvent::Downloaded(Ok(vec![])));
    let out = s.step(InstallEvent::Extracted(Err(ExtractFailure::Target("no Binaries".to_string()))));
    assert_eq!(failure(&out.messages).as_deref(), Some("no Binaries"));
}

#[test]
fn install_rejects_unexpected_answer() {
    let (mut s, _) = InstallSession::start(manifest("none", vec![]));
    let out = s.step(InstallEvent::Saved(Ok(())));
    assert_eq!(
        failure(&out.messages).as_deref(),
        Some("install received an answer it did not ask for")
    );
}

#[test]
fn install_record_maps_dependency_slugs_to_versions() {
    let m = manifest("none", vec![dep("Helper Lib", "mod", "github:o/h"), dep("UTOC Bypass", "patch", "github:o/u")]);
    let r = install_record(&m, "1.2.0", "2026-01-01T00:00:00Z", None);
    assert_eq!(r.name, "Cool Mod");
    assert_eq!(r.source, "github:me/cool-mod");
    assert_eq!(r.version, "1.2.0");
    assert_eq!(r.loader, "none");
    assert_eq!(r.dependencies.get("helper-lib").map(|s| s.as_str()), Some("2.0.0"));
    assert_eq!(r.dependencies.get("utoc-bypass").map(|s| s.as_str()), Some("2.0.0"));
    assert_eq!(r.dependencies.len(), 2);
}

#[test]
fn record_install_creates_game_and_keeps_existing_path() {
    let m = manifest("none", vec![]);
    let mut state = AppState::new();
    record_install(&mut state, &m, "C:/Games/Some", "1.2.0", "now", Some("D:/dev/mod".to_string()));
    let rec = state.installed_mod("some-game", "cool-mod").unwrap();
    assert_eq!(rec.local_path.as_deref(), Some("D:/dev/mod"));
    assert_eq!(saved_game_path(&state, &m).as_deref(), Some("C:/Games/Some"));

    record_install(&mut state, &m, "E:/Elsewhere", "1.3.0", "later", None);
    assert_eq!(saved_game_path(&state, &m).as_deref(), Some("C:/Games/Some"));
    assert_eq!(state.installed_mod("some-game", "cool-mod").unwrap().version, "1.3.0");
}
