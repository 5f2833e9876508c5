use accessforge::map::StrMap;
use accessforge::state::{AppState, ModState};

#[test]
fn test_new_state() {
    let state = AppState::new();
    assert_eq!(state.schema_version, 1);
    assert!(state.games.is_empty());
}

#[test]
fn test_should_check_updates_never_checked() {
    let state = AppState::new();
    assert!(state.should_check_updates());
}

#[test]
fn test_should_check_updates_recently_checked() {
    let mut state = AppState::new();
    state.mark_update_checked();
    assert!(!state.should_check_updates());
}

#[test]
fn test_should_check_updates_old_check() {
    let mut state = AppState::new();
    // Set to 25 hours ago
    let old_time = chrono::Utc::now() - chrono::Duration::hours(25);
    state.last_update_check = Some(old_time.to_rfc3339());
    assert!(state.should_check_updates());
}

#[test]
fn test_installed_mod_lookup() {
    let mut state = AppState::new();
    let game = state.get_or_create_game("my-game", "My Game", "C:/Games");
    game.mods.insert(
        "my-mod".to_string(),
        ModState {
            name: "My Mod".to_string(),
            source: "github:test/test".to_string(),
            version: "1.0.0".to_string(),
            installed_at: "2026-01-01T00:00:00Z".to_string(),
            loader: "none".to_string(),
            local_path: None,
            dependencies: StrMap::new(),
        },
    );

    assert!(state.installed_mod("my-game", "my-mod").is_some());
    assert!(state.installed_mod("my-game", "other-mod").is_none());
    assert!(state.installed_mod("other-game", "my-mod").is_none());
}

#[test]
fn should_check_updates_after_elapsed_hours() {
    let mut state = AppState::new();
    assert!(state.should_check_updates_after(Some(0)));
    state.mark_update_checked_at("2026-01-01T00:00:00Z".to_string());
    assert_eq!(state.last_update_check.as_deref(), Some("2026-01-01T00:00:00Z"));
    assert!(!state.should_check_updates_after(Some(23)));
    assert!(state.should_check_updates_after(Some(24)));
    assert!(state.should_check_updates_after(None));
    state.mark_update_checked_at("yesterday".to_string());
    assert!(state.should_check_updates_after(Some(1)));
}

#[test]
fn check_schema_accepts_only_current_version() {
    let mut state = AppState::new();
    assert!(state.check_schema().is_ok());
    state.schema_version = 2;
    assert_eq!(
        state.check_schema().unwrap_err(),
        accessforge::state::StateError::UnsupportedSchema(2)
    );
}
