use accessforge::game_dir::{
    after_saved_path, after_steam_path, folder_warning, is_engine_dir, steam_app_id, steam_game_name,
    GamePathNext,
};
use accessforge::loaders::mod_dir_parts;
use accessforge::manifest::{Game, LoaderField, LoaderKind, Manifest, Release, Store};

fn manifest(steam: Option<u64>) -> Manifest {
    Manifest {
        spec: 1,
        id: "m".to_string(),
        name: "M".to_string(),
        description: String::new(),
        author: "a".to_string(),
        version: "1".to_string(),
        source: "github:a/b".to_string(),
        license: None,
        game: Game { name: "G".to_string(), store: Some(Store { steam, gog: None, epic: None }) },
        loader: LoaderField { name: "none".to_string(), version: None, arch: None },
        release: Release { asset: "x.zip".to_string() },
        dependencies: vec![],
    }
}

#[test]
fn steam_app_id_truncates_to_32_bits() {
    assert_eq!(steam_app_id(&manifest(Some(413150))), Some(413150));
    assert_eq!(steam_app_id(&manifest(Some((1u64 << 32) + 7))), Some(7));
    assert_eq!(steam_app_id(&manifest(None)), None);
}

#[test]
fn steam_game_name_falls_back_to_app_id() {
    assert_eq!(steam_game_name(Some("Hades".to_string()), 1), "Hades");
    assert_eq!(steam_game_name(Some(String::new()), 1145360), "App 1145360");
    assert_eq!(steam_game_name(None, 9), "App 9");
}

#[test]
fn engine_dir_in_any_ascii_case() {
    assert!(is_engine_dir("Engine"));
    assert!(is_engine_dir("ENGINE"));
    assert!(!is_engine_dir("Engines"));
    assert!(!is_engine_dir("SparkingZERO"));
}

#[test]
fn folder_warnings_by_loader() {
    let none: Vec<String> = vec![];
    assert!(folder_warning(Some(LoaderKind::Ue4ss), true, &none).is_none());
    assert!(folder_warning(Some(LoaderKind::Ue4ss), false, &none).unwrap().contains("Unreal Engine"));
    let files = vec!["Uninstall.exe".to_string(), "readme.txt".to_string()];
    assert!(folder_warning(Some(LoaderKind::BepInEx), false, &files).unwrap().contains("No .exe"));
    let files = vec!["Game.exe".to_string()];
    assert!(folder_warning(Some(LoaderKind::MelonLoader), false, &files).is_none());
    assert!(folder_warning(None, false, &none).is_none());
    assert!(folder_warning(Some(LoaderKind::NoLoader), false, &none).is_none());
}

fn test_manifest() -> Manifest {
    Manifest {
        spec: 1,
        id: "test".to_string(),
        name: "Test".to_string(),
        description: String::new(),
        author: String::new(),
        version: "1.0.0".to_string(),
        source: "github:owner/repo".to_string(),
        license: None,
        game: Game { name: "TestGame".to_string(), store: None },
        loader: LoaderField { name: "none".to_string(), version: None, arch: None },
        release: Release { asset: "mod.zip".to_string() },
        dependencies: vec![],
    }
}

/// The folder found for `saved`, where finding one needs no Steam lookup.
fn resolve_without_steam(manifest: &Manifest, saved: Option<&str>) -> Option<String> {
    let is_dir = saved.map(|p| std::path::Path::new(p).is_dir()).unwrap_or(false);
    match after_saved_path(manifest, saved, is_dir) {
        GamePathNext::Use(p) => Some(p),
        GamePathNext::NotFound => None,
        GamePathNext::LookupSteam(_) => panic!("no Steam id was given"),
    }
}

#[test]
fn resolve_game_path_skips_saved_path_when_missing() {
    let result = resolve_without_steam(&test_manifest(), Some("/nonexistent/path/xyz"));
    assert!(result.is_none());
}

#[test]
fn resolve_game_path_returns_none_with_no_steam_id() {
    let result = resolve_without_steam(&test_manifest(), None);
    assert!(result.is_none());
}

#[test]
fn game_path_choice() {
    assert!(matches!(
        after_saved_path(&manifest(Some(413150)), Some("/games/sv"), true),
        GamePathNext::Use(p) if p == "/games/sv"
    ));
    assert!(matches!(
        after_saved_path(&manifest(Some(413150)), Some("/gone"), false),
        GamePathNext::LookupSteam(413150)
    ));
    assert!(matches!(after_saved_path(&manifest(None), None, false), GamePathNext::NotFound));
    assert_eq!(after_steam_path(Some("/s".to_string()), true), Some("/s".to_string()));
    assert_eq!(after_steam_path(Some("/s".to_string()), false), None);
    assert_eq!(after_steam_path(None, true), None);
}

#[test]
fn mod_folders_of_loaders() {
    assert_eq!(mod_dir_parts(LoaderKind::BepInEx), vec!["BepInEx".to_string(), "plugins".to_string()]);
    assert_eq!(mod_dir_parts(LoaderKind::Ue4ss), vec!["Mods".to_string()]);
    assert!(mod_dir_parts(LoaderKind::NoLoader).is_empty());
}
