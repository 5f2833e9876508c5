//! What background work reports: loaded mods, progress messages, and the
//! install steps with their share of the progress gauge.
use vstd::prelude::*;

use crate::manifest::Manifest;
use crate::state::ModState;

verus! {

/// A mod loaded from a remote source, with its install record if any.
pub struct LoadedMod {
    pub manifest: Manifest,
    pub installed: Option<ModState>,
    pub latest_tag: Option<String>,
}

/// Progress messages sent from background work to the UI or CLI.
pub enum ProgressMsg {
    /// A status line to display.
    Status(String),
    /// Discovery found repos, now fetching manifests.
    DiscoveryStarted { repo_count: usize },
    /// One mod loaded successfully.
    ModLoaded(Box<LoadedMod>),
    /// One mod skipped due to an error.
    ModSkipped { owner: String, repo: String, reason: String },
    /// All mods have been sent.
    DiscoveryFinished,
    /// An installation step is in progress.
    InstallProgress { step: InstallStep, detail: String },
    /// The operation completed successfully.
    Done(TaskResult),
    /// The operation failed.
    Failed(String),
}

/// The steps of an installation.
#[derive(Debug, Clone, Copy, PartialEq, Eq, Structural)]
pub enum InstallStep {
    InstallingLoader,
    InstallingDependency,
    InstallingMod,
    PostInstall,
    SavingState,
}

/// How a finished task ended.
pub enum TaskResult {
    /// Discovery complete.
    Discovery,
    /// Installation complete.
    Install { mod_name: String, version: String },
}

/// The meaning of a progress message, its texts as character sequences.
pub enum Note {
    Status(Seq<char>),
    DiscoveryStarted(nat),
    ModLoaded(LoadedMod),
    ModSkipped(Seq<char>, Seq<char>, Seq<char>),
    DiscoveryFinished,
    Progress(InstallStep, Seq<char>),
    DiscoveryDone,
    Installed(Seq<char>, Seq<char>),
    Failed(Seq<char>),
}

impl View for ProgressMsg {
    type V = Note;

    open spec fn view(&self) -> Note {
        match self {
            ProgressMsg::Status(s) => Note::Status(s@),
            ProgressMsg::DiscoveryStarted { repo_count } => Note::DiscoveryStarted(*repo_count as nat),
            ProgressMsg::ModLoaded(m) => Note::ModLoaded(**m),
            ProgressMsg::ModSkipped { owner, repo, reason } => Note::ModSkipped(owner@, repo@, reason@),
            ProgressMsg::DiscoveryFinished => Note::DiscoveryFinished,
            ProgressMsg::InstallProgress { step, detail } => Note::Progress(*step, detail@),
            ProgressMsg::Done(TaskResult::Discovery) => Note::DiscoveryDone,
            ProgressMsg::Done(TaskResult::Install { mod_name, version }) => Note::Installed(
                mod_name@,
                version@,
            ),
            ProgressMsg::Failed(s) => Note::Failed(s@),
        }
    }
}

/// The meanings of a list of progress messages.
pub open spec fn notes_of(msgs: Seq<ProgressMsg>) -> Seq<Note> {
    msgs.map_values(|m: ProgressMsg| m@)
}

/// The text shown for a step.
pub open spec fn step_label_spec(step: InstallStep) -> Seq<char> {
    match step {
        InstallStep::InstallingLoader => "Installing loader"@,
        InstallStep::InstallingDependency => "Installing dependency"@,
        InstallStep::InstallingMod => "Installing mod"@,
        InstallStep::PostInstall => "Running post-install"@,
        InstallStep::SavingState => "Saving state"@,
    }
}

impl InstallStep {
    /// The text shown for this step.
    pub fn label(&self) -> (r: &'static str)
        ensures
            r@ == step_label_spec(*self),
    {
        match self {
            InstallStep::InstallingLoader => "Installing loader",
            InstallStep::InstallingDependency => "Installing dependency",
            InstallStep::InstallingMod => "Installing mod",
            InstallStep::PostInstall => "Running post-install",
            InstallStep::SavingState => "Saving state",
        }
    }
}

/// How much the progress gauge advances for a step.
pub open spec fn step_increment_spec(step: InstallStep) -> int {
    match step {
        InstallStep::InstallingLoader => 15,
        InstallStep::InstallingDependency => 10,
        InstallStep::InstallingMod => 15,
        InstallStep::PostInstall => 5,
        InstallStep::SavingState => 5,
    }
}

/// How much to increment the gauge for each step.
pub fn step_increment(step: &InstallStep) -> (r: i32)
    ensures
        r == step_increment_spec(*step),
{
    match step {
        InstallStep::InstallingLoader => 15,
        InstallStep::InstallingDependency => 10,
        InstallStep::InstallingMod => 15,
        InstallStep::PostInstall => 5,
        InstallStep::SavingState => 5,
    }
}

/// The gauge value before a task reports it is done never passes this.
pub const GAUGE_CAP: i32 = 95;

/// The gauge after a step: advanced by the step's share, capped at 95.
pub fn advance_gauge(pct: i32, step: &InstallStep) -> (r: i32)
    requires
        0 <= pct <= GAUGE_CAP,
    ensures
        r == if pct + step_increment_spec(*step) < GAUGE_CAP {
            pct + step_increment_spec(*step)
        } else {
            GAUGE_CAP as int
        },
        pct <= r <= GAUGE_CAP,
{
    let next = pct + step_increment(step);
    if next < GAUGE_CAP {
        next
    } else {
        GAUGE_CAP
    }
}

/// Every step advances the gauge, and one pass through all the steps stays
/// within the 95 that the gauge may reach before the task is done.
pub proof fn lemma_step_increments_fit()
    ensures
        step_increment_spec(InstallStep::InstallingLoader) > 0,
        step_increment_spec(InstallStep::InstallingDependency) > 0,
        step_increment_spec(InstallStep::InstallingMod) > 0,
        step_increment_spec(InstallStep::PostInstall) > 0,
        step_increment_spec(InstallStep::SavingState) > 0,
        step_increment_spec(InstallStep::InstallingLoader) + step_increment_spec(
            InstallStep::InstallingDependency,
        ) + step_increment_spec(InstallStep::InstallingMod) + step_increment_spec(
            InstallStep::PostInstall,
        ) + step_increment_spec(InstallStep::SavingState) <= GAUGE_CAP,
{
}

} // verus!
