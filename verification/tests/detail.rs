use accessforge::detail::ModEntry;
use accessforge::manifest::{Dependency, Game, LoaderField, Manifest, Release};
use accessforge::map::StrMap;
use accessforge::state::ModState;
use accessforge::worker::LoadedMod;

fn base_manifest() -> Manifest {
    Manifest {
        spec: 1,
        id: "test-mod".to_string(),
        name: "Test Mod".to_string(),
        description: "A test mod".to_string(),
        author: "TestAuthor".to_string(),
        version: "1.0.0".to_string(),
        source: "github:owner/repo".to_string(),
        license: None,
        game: Game { name: "Test Game".to_string(), store: None },
        loader: LoaderField { name: "ue4ss".to_string(), version: None, arch: None },
        release: Release { asset: "TestMod-{version}.zip".to_string() },
        dependencies: vec![],
    }
}

fn installed_state(version: &str) -> ModState {
    ModState {
        name: "Test Mod".to_string(),
        source: "github:owner/repo".to_string(),
        version: version.to_string(),
        installed_at: "2024-01-01T00:00:00Z".to_string(),
        loader: "ue4ss".to_string(),
        local_path: None,
        dependencies: StrMap::new(),
    }
}

fn entry(installed: Option<ModState>, latest_tag: Option<&str>) -> ModEntry {
    ModEntry(LoadedMod {
        manifest: base_manifest(),
        installed,
        latest_tag: latest_tag.map(|s| s.to_string()),
    })
}

// --- has_update ---

#[test]
fn has_update_not_installed_is_false() {
    assert!(!entry(None, Some("v1.0.0")).has_update());
}

#[test]
fn has_update_no_latest_tag_is_false() {
    assert!(!entry(Some(installed_state("1.0.0")), None).has_update());
}

#[test]
fn has_update_same_version_is_false() {
    assert!(!entry(Some(installed_state("1.0.0")), Some("v1.0.0")).has_update());
}

#[test]
fn has_update_newer_available_is_true() {
    assert!(entry(Some(installed_state("1.0.0")), Some("v1.1.0")).has_update());
}

#[test]
fn has_update_installed_is_newer_is_false() {
    assert!(!entry(Some(installed_state("2.0.0")), Some("v1.0.0")).has_update());
}

// --- action_label ---

#[test]
fn action_label_not_installed() {
    assert_eq!(entry(None, Some("v1.0.0")).action_label(), "Install");
}

#[test]
fn action_label_installed_up_to_date() {
    assert_eq!(entry(Some(installed_state("1.0.0")), Some("v1.0.0")).action_label(), "Reinstall");
}

#[test]
fn action_label_update_available() {
    assert_eq!(entry(Some(installed_state("1.0.0")), Some("v1.1.0")).action_label(), "Update");
}

// --- version_display ---

#[test]
fn version_display_not_installed_shows_latest() {
    assert_eq!(entry(None, Some("v1.5.0")).version_display(), "Version 1.5.0");
}

#[test]
fn version_display_installed_current() {
    assert_eq!(
        entry(Some(installed_state("1.5.0")), Some("v1.5.0")).version_display(),
        "Version 1.5.0"
    );
}

#[test]
fn version_display_update_available_shows_both() {
    assert_eq!(
        entry(Some(installed_state("1.0.0")), Some("v1.5.0")).version_display(),
        "Installed: 1.0.0. Latest: 1.5.0"
    );
}

#[test]
fn version_display_falls_back_to_manifest_version() {
    assert_eq!(entry(None, None).version_display(), "Version 1.0.0");
}

// --- also_installs_text ---

#[test]
fn also_installs_text_no_deps_is_empty() {
    assert_eq!(entry(None, None).also_installs_text(), "");
}

#[test]
fn also_installs_text_only_patches_is_empty() {
    let mut e = entry(None, None);
    e.0.manifest.dependencies = vec![Dependency {
        name: "utoc-bypass".to_string(),
        dep_type: "patch".to_string(),
        source: "github:owner/utoc-bypass".to_string(),
        asset: "utoc-{version}.zip".to_string(),
        version: "1.0.0".to_string(),
    }];
    assert_eq!(e.also_installs_text(), "");
}

#[test]
fn also_installs_text_mod_dep_listed() {
    let mut e = entry(None, None);
    e.0.manifest.dependencies = vec![Dependency {
        name: "Screen Reader Helper".to_string(),
        dep_type: "mod".to_string(),
        source: "github:owner/helper".to_string(),
        asset: "helper-{version}.zip".to_string(),
        version: "1.0.0".to_string(),
    }];
    assert_eq!(e.also_installs_text(), "Also installs: Screen Reader Helper");
}

// --- tech_details_text ---

#[test]
fn tech_details_text_none_loader_no_patches_is_empty() {
    let mut e = entry(None, None);
    e.0.manifest.loader = LoaderField { name: "none".to_string(), version: None, arch: None };
    assert_eq!(e.tech_details_text(), "");
}

#[test]
fn tech_details_text_ue4ss_shows_loader_name() {
    let text = entry(None, None).tech_details_text();
    assert!(text.contains("Loader: ue4ss"), "got: {text}");
    assert!(!text.contains("Loader version:"), "got: {text}");
}

#[test]
fn tech_details_text_shows_loader_version() {
    let mut e = entry(None, None);
    e.0.manifest.loader =
        LoaderField { name: "ue4ss".to_string(), version: Some("5.4".to_string()), arch: None };
    let text = e.tech_details_text();
    assert!(text.contains("Loader version: 5.4"), "got: {text}");
}

#[test]
fn tech_details_text_none_loader_with_patch_shows_patch() {
    let mut e = entry(None, None);
    e.0.manifest.loader = LoaderField { name: "none".to_string(), version: None, arch: None };
    e.0.manifest.dependencies = vec![Dependency {
        name: "utoc-bypass".to_string(),
        dep_type: "patch".to_string(),
        source: "github:owner/utoc-bypass".to_string(),
        asset: "utoc-{version}.zip".to_string(),
        version: "1.0.0".to_string(),
    }];
    let text = e.tech_details_text();
    assert!(text.contains("Also installs patches: utoc-bypass"), "got: {text}");
}
