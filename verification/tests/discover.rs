use accessforge::discover::{DiscoverEvent, DiscoverRequest, DiscoverySession};
use accessforge::manifest::{Game, LoaderField, Manifest, Release};
use accessforge::map::StrMap;
use accessforge::registry::{CachedResponse, DiscoveredMod};
use accessforge::state::{AppState, CachedManifest, GameState, ModState};
use accessforge::worker::{ProgressMsg, TaskResult};

fn manifest(id: &str, game: &str) -> Manifest {
    Manifest {
        spec: 1,
        id: id.to_string(),
        name: "Test Mod".to_string(),
        description: "A test mod".to_string(),
        author: "TestAuthor".to_string(),
        version: "1.2.0".to_string(),
        source: "github:owner/repo".to_string(),
        license: None,
        game: Game { name: game.to_string(), store: None },
        loader: LoaderField { name: "bepinex".to_string(), version: None, arch: None },
        release: Release { asset: "TestMod-{version}.zip".to_string() },
        dependencies: vec![],
    }
}

fn status_text(msg: &ProgressMsg) -> Option<&str> {
    match msg {
        ProgressMsg::Status(s) => Some(s.as_str()),
        _ => None,
    }
}

#[test]
fn discovery_of_one_repo_reports_loading_and_the_mod() {
    let (mut session, step) = DiscoverySession::start(AppState::new());
    assert_eq!(step.messages.len(), 1);
    assert_eq!(status_text(&step.messages[0]), Some("Searching for mods..."));
    assert!(matches!(step.request, DiscoverRequest::SearchRepos));

    let repos = vec![DiscoveredMod { owner: "owner".to_string(), repo: "repo".to_string() }];
    let step = session.step(DiscoverEvent::Repos(Ok(repos)));
    assert_eq!(step.messages.len(), 2);
    assert!(matches!(step.messages[0], ProgressMsg::DiscoveryStarted { repo_count: 1 }));
    assert_eq!(status_text(&step.messages[1]), Some("Loading 1 of 1: owner/repo"));
    match &step.request {
        DiscoverRequest::FetchManifest { owner, repo, etag } => {
            assert_eq!(owner, "owner");
            assert_eq!(repo, "repo");
            assert!(etag.is_none());
        }
        _ => panic!("expected a manifest fetch"),
    }

    let fresh = CachedResponse::Fresh { yaml: "spec: 1".to_string(), etag: Some("\"abc\"".to_string()) };
    let step = session.step(DiscoverEvent::Fetched(Ok(fresh)));
    assert!(step.messages.is_empty());
    assert!(matches!(&step.request, DiscoverRequest::Parse { yaml } if yaml == "spec: 1"));
    assert!(session.state().manifest_cache.contains_key("owner/repo"));

    let step = session.step(DiscoverEvent::Parsed(Ok(manifest("test-mod", "Test Game"))));
    assert_eq!(step.messages.len(), 3);
    match &step.messages[0] {
        ProgressMsg::ModLoaded(loaded) => {
            assert_eq!(loaded.manifest.id, "test-mod");
            assert!(loaded.installed.is_none());
            assert_eq!(loaded.latest_tag.as_deref(), Some("1.2.0"));
        }
        _ => panic!("expected a loaded mod"),
    }
    assert!(matches!(step.messages[1], ProgressMsg::DiscoveryFinished));
    assert!(matches!(step.messages[2], ProgressMsg::Done(TaskResult::Discovery)));
    assert!(step.save_state);
    assert!(matches!(step.request, DiscoverRequest::Finished));
}

#[test]
fn discovery_search_failure_without_cache_fails() {
    let (mut session, _) = DiscoverySession::start(AppState::new());
    let step = session.step(DiscoverEvent::Repos(Err("no network".to_string())));
    assert_eq!(step.messages.len(), 1);
    assert!(matches!(&step.messages[0], ProgressMsg::Failed(e) if e == "Failed to search GitHub: no network"));
    assert!(!step.save_state);
    assert!(matches!(step.request, DiscoverRequest::Finished));
}

#[test]
fn discovery_offline_uses_cached_manifests() {
    let mut state = AppState::new();
    state.manifest_cache.insert(
        "owner/repo".to_string(),
        CachedManifest { etag: None, yaml: "cached yaml".to_string() },
    );
    let (mut session, _) = DiscoverySession::start(state);
    let step = session.step(DiscoverEvent::Repos(Err("no network".to_string())));
    assert_eq!(status_text(&step.messages[0]), Some("Offline — showing cached mods..."));
    assert!(matches!(step.messages[1], ProgressMsg::DiscoveryStarted { repo_count: 1 }));
    assert!(matches!(&step.request, DiscoverRequest::Parse { yaml } if yaml == "cached yaml"));

    let step = session.step(DiscoverEvent::Parsed(Ok(manifest("test-mod", "Test Game"))));
    assert_eq!(step.messages.len(), 3);
    assert!(matches!(step.messages[0], ProgressMsg::ModLoaded(_)));
    assert!(!step.save_state);
    assert!(matches!(step.request, DiscoverRequest::Finished));
}

#[test]
fn discovery_skips_repo_without_manifest() {
    let (mut session, _) = DiscoverySession::start(AppState::new());
    let repos = vec![DiscoveredMod { owner: "o".to_string(), repo: "r".to_string() }];
    session.step(DiscoverEvent::Repos(Ok(repos)));
    let step = session.step(DiscoverEvent::Fetched(Ok(CachedResponse::NotModified)));
    assert!(matches!(
        &step.messages[0],
        ProgressMsg::ModSkipped { owner, repo, reason }
            if owner == "o" && repo == "r" && reason == "304 but no cached data"
    ));
    assert!(matches!(step.messages[1], ProgressMsg::DiscoveryFinished));
    assert!(!step.save_state);
}

#[test]
fn discovery_reports_installed_mods_the_search_missed() {
    let mut state = AppState::new();
    let mut mods = StrMap::new();
    mods.insert(
        "local-mod".to_string(),
        ModState {
            name: "Local \"Mod\"".to_string(),
            source: "not a source".to_string(),
            version: "0.3.0".to_string(),
            installed_at: "2024-01-01T00:00:00Z".to_string(),
            loader: "none".to_string(),
            local_path: None,
            dependencies: StrMap::new(),
        },
    );
    state.games.insert(
        "test-game".to_string(),
        GameState { name: "Test Game".to_string(), path: "/games/test".to_string(), mods },
    );
    let (mut session, _) = DiscoverySession::start(state);
    let step = session.step(DiscoverEvent::Repos(Ok(vec![])));
    match &step.request {
        DiscoverRequest::Parse { yaml } => {
            assert!(yaml.starts_with("spec: 1\nid: local-mod\nname: \"Local \\\"Mod\\\"\"\n"));
            assert!(yaml.contains("version: \"0.3.0\""));
        }
        _ => panic!("expected the stand-in manifest"),
    }
    let step = session.step(DiscoverEvent::Parsed(Ok(manifest("local-mod", "Test Game"))));
    match &step.messages[0] {
        ProgressMsg::ModLoaded(loaded) => {
            assert_eq!(loaded.installed.as_ref().map(|m| m.version.as_str()), Some("0.3.0"));
            assert!(loaded.latest_tag.is_none());
        }
        _ => panic!("expected a loaded mod"),
    }
    assert!(matches!(step.request, DiscoverRequest::Finished));
}

#[test]
fn discovery_refuses_an_unexpected_answer() {
    let (mut session, _) = DiscoverySession::start(AppState::new());
    let step = session.step(DiscoverEvent::Parsed(Err("x".to_string())));
    assert!(matches!(&step.messages[0], ProgressMsg::Failed(_)));
    assert!(matches!(step.request, DiscoverRequest::Finished));
    let again = session.step(DiscoverEvent::Parsed(Err("x".to_string())));
    assert!(again.messages.is_empty());
}
