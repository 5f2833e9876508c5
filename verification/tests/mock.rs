use accessforge::manifest::{slugify, Game, LoaderField, Manifest, Release};
use accessforge::mock::{mock_discovery_messages, mock_loaded, mock_manifest_yaml, mock_mods, MockDep, MockMod};
use accessforge::worker::{ProgressMsg, TaskResult};

fn sample(installed: bool, update: bool) -> MockMod {
    MockMod {
        name: "Stardew Access".to_string(),
        description: "Screen reader accessibility mod for Stardew Valley".to_string(),
        author: "stardew-access".to_string(),
        game: "Stardew Valley".to_string(),
        steam_id: 413150,
        loader: "none".to_string(),
        version: "1.6.0".to_string(),
        installed,
        update,
        deps: vec![MockDep {
            name: "SMAPI".to_string(),
            version: "4.0.0".to_string(),
            dep_type: "mod".to_string(),
        }],
    }
}

fn any_manifest() -> Manifest {
    Manifest {
        spec: 1,
        id: "stardew-access".to_string(),
        name: "Stardew Access".to_string(),
        description: String::new(),
        author: "a".to_string(),
        version: "1.6.0".to_string(),
        source: "github:a/b".to_string(),
        license: None,
        game: Game { name: "Stardew Valley".to_string(), store: None },
        loader: LoaderField { name: "none".to_string(), version: None, arch: None },
        release: Release { asset: "x.zip".to_string() },
        dependencies: vec![],
    }
}

#[test]
fn mock_manifest_text() {
    assert_eq!(
        mock_manifest_yaml(&sample(false, false)),
        "spec: 1\nid: stardew-access\nname: Stardew Access\ndescription: Screen reader accessibility mod for Stardew Valley\nauthor: stardew-access\nversion: \"1.6.0\"\nsource: github:stardew-access/stardew-access\ngame:\n  name: Stardew Valley\n  store:\n    steam: 413150\nloader:\n  name: none\nrelease:\n  asset: \"stardew-access-{version}.zip\"\ndependencies:\n  - name: SMAPI\n    type: mod\n    source: github:accessforge/smapi\n    asset: \"smapi-{version}.zip\"\n    version: \"4.0.0\"\n"
    );
}

#[test]
fn mock_listing_marks_install_and_update() {
    let l = mock_loaded(&sample(true, true), any_manifest());
    let rec = l.installed.unwrap();
    assert_eq!(rec.source, "github:stardew-access/stardew-access");
    assert_eq!(rec.installed_at, "2026-03-15T12:00:00Z");
    assert_eq!(rec.dependencies.get("smapi").map(|s| s.as_str()), Some("4.0.0"));
    assert_eq!(l.latest_tag.as_deref(), Some("99.0.0"));
    let l = mock_loaded(&sample(false, false), any_manifest());
    assert!(l.installed.is_none());
    assert_eq!(l.latest_tag.as_deref(), Some("v1.6.0"));
}

#[test]
fn mock_discovery_reports_each_mod() {
    let mods = vec![mock_loaded(&sample(false, false), any_manifest())];
    let msgs = mock_discovery_messages(mods);
    assert_eq!(msgs.len(), 5);
    assert!(matches!(&msgs[0], ProgressMsg::Status(s) if s == "Loading mock data..."));
    assert!(matches!(msgs[1], ProgressMsg::DiscoveryStarted { repo_count: 1 }));
    assert!(matches!(&msgs[2], ProgressMsg::ModLoaded(m) if m.manifest.name == "Stardew Access"));
    assert!(matches!(msgs[3], ProgressMsg::DiscoveryFinished));
    assert!(matches!(msgs[4], ProgressMsg::Done(TaskResult::Discovery)));
}

#[test]
fn mock_catalog_lists_seven_sample_mods() {
    let mods = mock_mods();
    let names: Vec<&str> = mods.iter().map(|m| m.name.as_str()).collect();
    assert_eq!(
        names,
        vec![
            "Stardew Access",
            "CrossedEyes",
            "Balatro Access",
            "Sparking Zero Access",
            "Hades Blind Accessibility",
            "Factorio Access",
            "Yu-Gi-Oh Blind Mode",
        ]
    );
    let ids: Vec<String> = mods.iter().map(|m| slugify(&m.name)).collect();
    assert_eq!(
        ids,
        vec![
            "stardew-access",
            "crossedeyes",
            "balatro-access",
            "sparking-zero-access",
            "hades-blind-accessibility",
            "factorio-access",
            "yu-gi-oh-blind-mode",
        ]
    );
    let installed: Vec<bool> = mods.iter().map(|m| m.installed).collect();
    assert_eq!(installed, vec![false, false, false, true, true, true, true]);
    let update: Vec<bool> = mods.iter().map(|m| m.update).collect();
    assert_eq!(update, vec![false, false, false, false, false, true, true]);
    assert_eq!(mods[1].deps.len(), 2);
    assert_eq!(mods[3].deps[0].dep_type, "patch");
    let l = mock_loaded(&mods[6], any_manifest());
    assert_eq!(l.latest_tag.as_deref(), Some("99.0.0"));
}
