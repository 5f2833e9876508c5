//! Self-update: whether the latest release of the app is newer than the
//! running one, and what the update reports.
use vstd::prelude::*;

use crate::manifest::{normalize_version, normalize_version_spec};
use crate::registry::ReleaseAsset;
use crate::text::push_str;
use crate::versioning::{strictly_newer, strictly_newer_spec};
use crate::worker::{InstallStep, Note, ProgressMsg, TaskResult};

verus! {

/// The version of the running app.
pub const CURRENT_VERSION: &'static str = "0.1.0";

/// The GitHub owner the app is released under.
pub const UPDATE_OWNER: &'static str = "AccessForge";

/// The GitHub repo the app is released from.
pub const UPDATE_REPO: &'static str = "AccessForge";

/// The release asset that holds the app.
pub const UPDATE_ASSET: &'static str = "AccessForge.exe";

/// An available update.
pub struct UpdateInfo {
    pub version: String,
    pub download_url: String,
}

/// The version of the running app.
pub fn current_version() -> (r: &'static str)
    ensures
        r@ == CURRENT_VERSION@,
{
    CURRENT_VERSION
}

/// The update a release offers over version `current`: the release's tag
/// without a leading `v`, when both it and `current` parse as versions and
/// it is the greater; none otherwise.
pub open spec fn update_offer(current: Seq<char>, tag: Seq<char>) -> Option<Seq<char>> {
    let latest = normalize_version_spec(tag);
    if strictly_newer_spec(current, latest) {
        Some(latest)
    } else {
        None
    }
}

/// The update that the latest release (if one with the app's asset was
/// found) offers over version `current`.
pub fn update_from_release(current: &str, release: Option<ReleaseAsset>) -> (r: Option<UpdateInfo>)
    ensures
        release is None ==> r is None,
        release matches Some(a) ==> match update_offer(current@, a.tag@) {
            Some(v) => r matches Some(info) && info.version@ == v && info.download_url
                == a.download_url,
            None => r is None,
        },
{
    match release {
        None => None,
        Some(asset) => {
            let latest = normalize_version(asset.tag.as_str());
            if strictly_newer(current, latest.as_str()) {
                Some(UpdateInfo { version: latest, download_url: asset.download_url })
            } else {
                None
            }
        },
    }
}

/// The update that the latest release offers over the running app.
pub fn check_release(release: Option<ReleaseAsset>) -> (r: Option<UpdateInfo>)
    ensures
        release is None ==> r is None,
        release matches Some(a) ==> match update_offer(CURRENT_VERSION@, a.tag@) {
            Some(v) => r matches Some(info) && info.version@ == v && info.download_url
                == a.download_url,
            None => r is None,
        },
{
    update_from_release(CURRENT_VERSION, release)
}

/// "You are running the latest version (X)."
pub fn up_to_date_text() -> (r: String)
    ensures
        r@ == "You are running the latest version ("@ + CURRENT_VERSION@ + ")."@,
{
    let mut t = String::new();
    push_str(&mut t, "You are running the latest version (");
    push_str(&mut t, CURRENT_VERSION);
    push_str(&mut t, ").");
    t
}

/// "AccessForge V is available (you have X). Update now?"
pub fn update_prompt_text(version: &str) -> (r: String)
    ensures
        r@ == "AccessForge "@ + version@ + " is available (you have "@ + CURRENT_VERSION@
            + "). Update now?"@,
{
    let mut t = String::new();
    push_str(&mut t, "AccessForge ");
    push_str(&mut t, version);
    push_str(&mut t, " is available (you have ");
    push_str(&mut t, CURRENT_VERSION);
    push_str(&mut t, "). Update now?");
    t
}

/// The messages an update reports, in order: downloading, writing,
/// applying, and done.
pub fn update_messages(version: &str) -> (r: (ProgressMsg, ProgressMsg, ProgressMsg, ProgressMsg))
    ensures
        r.0@ == Note::Progress(InstallStep::InstallingMod, "AccessForge "@ + version@),
        r.1@ == Note::Status("Writing update..."@),
        r.2@ == Note::Progress(InstallStep::SavingState, "Applying update"@),
        r.3@ == Note::Installed("AccessForge"@, version@),
{
    let mut detail = String::new();
    push_str(&mut detail, "AccessForge ");
    push_str(&mut detail, version);
    (
        ProgressMsg::InstallProgress { step: InstallStep::InstallingMod, detail },
        ProgressMsg::Status("Writing update...".to_owned()),
        ProgressMsg::InstallProgress {
            step: InstallStep::SavingState,
            detail: "Applying update".to_owned(),
        },
        ProgressMsg::Done(
            TaskResult::Install { mod_name: "AccessForge".to_owned(), version: version.to_owned() },
        ),
    )
}

} // verus!
