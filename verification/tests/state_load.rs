use accessforge::state::{after_backup, after_primary, validated_state, AppState, LoadStep};

#[test]
fn validated_state_checks_schema() {
    assert!(validated_state(Ok(AppState::new())).is_ok());
    let mut s = AppState::new();
    s.schema_version = 2;
    assert_eq!(
        validated_state(Ok(s)).err().as_deref(),
        Some("unsupported schema version 2 (expected 1)")
    );
    assert_eq!(validated_state(Err("bad json".to_string())).err().as_deref(), Some("bad json"));
}

#[test]
fn loading_falls_back_to_backup_then_fresh() {
    match after_primary(None) {
        LoadStep::TryBackup(None) => {}
        _ => panic!("a missing file goes to the backup silently"),
    }
    match after_primary(Some(Ok(AppState::new()))) {
        LoadStep::Loaded(s) => assert_eq!(s.schema_version, 1),
        _ => panic!("a good file is used"),
    }
    match after_primary(Some(Err("oops".to_string()))) {
        LoadStep::TryBackup(Some(w)) => {
            assert_eq!(w, "Warning: state.json is corrupt (oops), trying backup...")
        }
        _ => panic!("a corrupt file warns and goes to the backup"),
    }
    let (s, note) = after_backup(Some(Ok(AppState::new())));
    assert_eq!(note.as_deref(), Some("Recovered state from backup."));
    assert!(s.games.is_empty());
    let (s, note) = after_backup(Some(Err("also bad".to_string())));
    assert_eq!(note.as_deref(), Some("Warning: backup is also corrupt (also bad), starting fresh."));
    assert!(s.games.is_empty() && s.manifest_cache.is_empty());
    let (_, note) = after_backup(None);
    assert!(note.is_none());
}
