use accessforge::registry::ReleaseAsset;
use accessforge::updater::{
    check_release, current_version, update_from_release, update_messages, update_prompt_text,
    up_to_date_text,
};
use accessforge::worker::{InstallStep, ProgressMsg, TaskResult};

fn release(tag: &str) -> Option<ReleaseAsset> {
    Some(ReleaseAsset { tag: tag.to_string(), download_url: "https://dl/AccessForge.exe".to_string() })
}

#[test]
fn newer_release_is_offered_without_v() {
    let info = update_from_release("0.1.0", release("v0.2.0")).unwrap();
    assert_eq!(info.version, "0.2.0");
    assert_eq!(info.download_url, "https://dl/AccessForge.exe");
}

#[test]
fn same_or_older_or_missing_release_is_not_offered() {
    assert!(update_from_release("0.1.0", release("v0.1.0")).is_none());
    assert!(update_from_release("1.0.0", release("0.9.9")).is_none());
    assert!(update_from_release("0.1.0", None).is_none());
    assert!(check_release(release(current_version())).is_none());
}

#[test]
fn update_texts() {
    assert_eq!(current_version(), "0.1.0");
    assert_eq!(up_to_date_text(), "You are running the latest version (0.1.0).");
    assert_eq!(
        update_prompt_text("0.2.0"),
        "AccessForge 0.2.0 is available (you have 0.1.0). Update now?"
    );
    let (a, b, c, d) = update_messages("0.2.0");
    assert!(matches!(a, ProgressMsg::InstallProgress { step: InstallStep::InstallingMod, ref detail } if detail == "AccessForge 0.2.0"));
    assert!(matches!(b, ProgressMsg::Status(ref t) if t == "Writing update..."));
    assert!(matches!(c, ProgressMsg::InstallProgress { step: InstallStep::SavingState, .. }));
    assert!(matches!(d, ProgressMsg::Done(TaskResult::Install { ref mod_name, .. }) if mod_name == "AccessForge"));
}
