use accessforge::catalog::{manual_entry, manual_input, Catalog, InstallLog, ManualInput, Tab};
use accessforge::detail::ModEntry;
use accessforge::manifest::{Game, LoaderField, Manifest, Release, Source};
use accessforge::map::StrMap;
use accessforge::state::ModState;
use accessforge::worker::{InstallStep, LoadedMod, ProgressMsg, TaskResult};

fn manifest(name: &str) -> Manifest {
    Manifest {
        spec: 1,
        id: name.to_lowercase(),
        name: name.to_string(),
        description: String::new(),
        author: "a".to_string(),
        version: "1.0.0".to_string(),
        source: "github:a/b".to_string(),
        license: None,
        game: Game { name: "G".to_string(), store: None },
        loader: LoaderField { name: "none".to_string(), version: None, arch: None },
        release: Release { asset: "x.zip".to_string() },
        dependencies: vec![],
    }
}

fn installed(version: &str) -> ModState {
    ModState {
        name: "x".to_string(),
        source: "github:a/b".to_string(),
        version: version.to_string(),
        installed_at: "t".to_string(),
        loader: "none".to_string(),
        local_path: None,
        dependencies: StrMap::new(),
    }
}

fn loaded(name: &str, inst: Option<&str>, latest: Option<&str>) -> LoadedMod {
    LoadedMod {
        manifest: manifest(name),
        installed: inst.map(installed),
        latest_tag: latest.map(|s| s.to_string()),
    }
}

#[test]
fn catalog_sorts_mods_into_tabs_and_summarises() {
    let mut c = Catalog::new();
    assert_eq!(c.summary(), "No mods found.");
    let (t, label) = c.add(ModEntry(loaded("A", None, Some("v1.0.0"))));
    assert_eq!(t, Tab::Browse);
    assert_eq!(label, "A (G)");
    assert_eq!(c.add(ModEntry(loaded("B", Some("1.0.0"), Some("v1.0.0")))).0, Tab::Installed);
    assert_eq!(c.add(ModEntry(loaded("C", Some("1.0.0"), Some("v2.0.0")))).0, Tab::Updates);
    assert_eq!(c.summary(), "3 mods found, 2 installed, 1 update(s) available");
    assert_eq!(c.list(Tab::Updates).len(), 1);
}

#[test]
fn summary_without_updates() {
    let mut c = Catalog::new();
    c.add(ModEntry(loaded("A", None, None)));
    assert_eq!(c.summary(), "1 mods found, 0 installed");
}

#[test]
fn discovery_messages_update_the_window() {
    let mut c = Catalog::new();
    let u = c.on_discovery_message(ProgressMsg::Status("Searching for mods...".to_string()));
    assert_eq!(u.status.as_deref(), Some("Searching for mods..."));
    let u = c.on_discovery_message(ProgressMsg::ModLoaded(Box::new(loaded("A", None, None))));
    assert_eq!(u.listed, Some((Tab::Browse, "A (G)".to_string())));
    let u = c.on_discovery_message(ProgressMsg::DiscoveryStarted { repo_count: 3 });
    assert!(u.status.is_none() && u.listed.is_none() && !u.stop);
    let u = c.on_discovery_message(ProgressMsg::DiscoveryFinished);
    assert_eq!(u.status.as_deref(), Some("1 mods found, 0 installed"));
    let u = c.on_discovery_message(ProgressMsg::Done(TaskResult::Discovery));
    assert!(u.stop);
    let u = c.on_discovery_message(ProgressMsg::Failed("offline".to_string()));
    assert_eq!(u.status.as_deref(), Some("Error: offline"));
    assert!(u.stop);
}

#[test]
fn move_to_installed_records_the_install() {
    let mut c = Catalog::new();
    c.add(ModEntry(loaded("A", None, None)));
    c.add(ModEntry(loaded("B", None, None)));
    let label = c.move_to_installed(Tab::Browse, 0, "A".to_string(), "1.1.0".to_string(), "now".to_string());
    assert_eq!(label, "A (G)");
    assert_eq!(c.list(Tab::Browse).len(), 1);
    assert_eq!(c.list(Tab::Browse)[0].0.manifest.name, "B");
    let moved = &c.list(Tab::Installed)[0].0;
    assert_eq!(moved.latest_tag.as_deref(), Some("1.1.0"));
    let rec = moved.installed.as_ref().unwrap();
    assert_eq!(rec.version, "1.1.0");
    assert_eq!(rec.source, "github:a/b");
    assert!(rec.dependencies.is_empty());
}

#[test]
fn install_log_tracks_steps_and_success() {
    let mut log = InstallLog::new();
    assert_eq!(log.lines, vec!["Preparing installation...".to_string()]);
    assert_eq!(log.gauge, 2);
    log.on_message(ProgressMsg::Status("internal".to_string()));
    assert_eq!(log.lines.len(), 1);
    log.on_message(ProgressMsg::InstallProgress {
        step: InstallStep::InstallingLoader,
        detail: "ue4ss".to_string(),
    });
    assert_eq!(log.gauge, 15);
    assert_eq!(log.lines[1], "Installing loader: ue4ss");
    log.on_message(ProgressMsg::InstallProgress { step: InstallStep::PostInstall, detail: String::new() });
    assert_eq!(log.lines[2], "Running post-install");
    assert_eq!(log.gauge, 20);
    log.on_message(ProgressMsg::Done(TaskResult::Install {
        mod_name: "M".to_string(),
        version: "1.0".to_string(),
    }));
    assert_eq!(log.gauge, 100);
    assert_eq!(log.lines[3], "M 1.0 installed successfully!");
    assert_eq!(log.result, Some(("M".to_string(), "1.0".to_string())));
    assert!(log.finished && !log.failed);
    log.on_message(ProgressMsg::Failed("late".to_string()));
    assert_eq!(log.lines.len(), 4);
}

#[test]
fn install_log_caps_gauge_and_reports_failure() {
    let mut log = InstallLog::new();
    for _ in 0..20 {
        log.on_message(ProgressMsg::InstallProgress {
            step: InstallStep::InstallingDependency,
            detail: "d".to_string(),
        });
    }
    assert_eq!(log.gauge, 95);
    log.on_message(ProgressMsg::Failed("boom".to_string()));
    assert_eq!(log.lines.last().unwrap(), "Error: boom");
    assert!(log.failed && log.finished && log.result.is_none());

    let mut log = InstallLog::new();
    log.on_disconnect();
    assert_eq!(log.lines.last().unwrap(), "Installation stopped unexpectedly.");
    assert!(log.finished && !log.failed);
}

#[test]
fn manual_input_reads_links() {
    assert!(matches!(manual_input("   "), ManualInput::Empty));
    match manual_input("  https://github.com/o/r  ") {
        ManualInput::Found(s) => assert_eq!(s, Source::GitHub { owner: "o".to_string(), repo: "r".to_string() }),
        _ => panic!("expected a source"),
    }
    match manual_input("ftp://x") {
        ManualInput::Invalid(t) => assert_eq!(
            t,
            "Invalid source: expected a URL (https://github.com/owner/repo or https://example.com/my-mod)"
        ),
        _ => panic!("expected an error"),
    }
    let e = manual_entry(manifest("Z"));
    assert!(e.0.installed.is_none() && e.0.latest_tag.is_none());
}
