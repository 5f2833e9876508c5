//! The mods the GUI lists, in three tabs: mods not installed (Browse),
//! installed mods with an update (Updates), and the other installed mods
//! (Installed).
use vstd::prelude::*;

use crate::detail::{has_update_spec, list_label_spec, ModEntry};
use crate::manifest::{parse_user_input_spec, Manifest, Source, SourceSpec};
use crate::map::StrMap;
use crate::messages::{source_error_message, source_error_text};
use crate::mods_list::{trim_chars, trim_ws};
use crate::text::{chars_of, string_of};
use crate::state::ModState;
use crate::text::{decimal_spec, push_decimal, push_str};
use crate::worker::{
    advance_gauge, step_increment_spec, step_label_spec, InstallStep, LoadedMod, Note, ProgressMsg,
    TaskResult, GAUGE_CAP,
};

verus! {

/// A tab of mods.
#[derive(Debug, Clone, Copy, PartialEq, Eq, Structural)]
pub enum Tab {
    Browse,
    Installed,
    Updates,
}

/// The tab a loaded mod is listed in.
pub open spec fn tab_of(e: LoadedMod) -> Tab {
    if e.installed is None {
        Tab::Browse
    } else if has_update_spec(e) {
        Tab::Updates
    } else {
        Tab::Installed
    }
}

/// The loaded mods of a list, in order.
pub open spec fn mods_of(v: Seq<ModEntry>) -> Seq<LoadedMod> {
    v.map_values(|e: ModEntry| e.0)
}

/// The status line once discovery is over: how many mods were found, how
/// many of them are installed, and how many have an update.
pub open spec fn summary_spec(browse: nat, installed: nat, updates: nat) -> Seq<char> {
    let total = browse + installed + updates;
    if total == 0 {
        "No mods found."@
    } else {
        decimal_spec(total) + " mods found, "@ + decimal_spec(installed + updates) + " installed"@
            + if updates > 0 {
            ", "@ + decimal_spec(updates) + " update(s) available"@
        } else {
            Seq::empty()
        }
    }
}

/// The lists of the three tabs.
pub struct Catalog {
    pub browse: Vec<ModEntry>,
    pub installed: Vec<ModEntry>,
    pub updates: Vec<ModEntry>,
}

impl Catalog {
    /// The mods listed in tab `t`.
    pub open spec fn tab_mods(&self, t: Tab) -> Seq<LoadedMod> {
        match t {
            Tab::Browse => mods_of(self.browse@),
            Tab::Installed => mods_of(self.installed@),
            Tab::Updates => mods_of(self.updates@),
        }
    }

    /// Empty lists.
    pub fn new() -> (r: Catalog)
        ensures
            r.browse@.len() == 0,
            r.installed@.len() == 0,
            r.updates@.len() == 0,
    {
        Catalog { browse: Vec::new(), installed: Vec::new(), updates: Vec::new() }
    }

    /// The list of tab `t`.
    pub fn list(&self, t: Tab) -> (r: &Vec<ModEntry>)
        ensures
            mods_of(r@) == self.tab_mods(t),
    {
        match t {
            Tab::Browse => &self.browse,
            Tab::Installed => &self.installed,
            Tab::Updates => &self.updates,
        }
    }

    /// Append a loaded mod to the tab it belongs in; say which tab, and the
    /// label it is listed under there.
    pub fn add(&mut self, entry: ModEntry) -> (r: (Tab, String))
        ensures
            r.0 == tab_of(entry.0),
            r.1@ == list_label_spec(entry.0),
            final(self).tab_mods(r.0) == old(self).tab_mods(r.0).push(entry.0),
            forall|t: Tab| t != r.0 ==> final(self).tab_mods(t) == old(self).tab_mods(t),
    {
        let ghost e = entry.0;
        let ghost (b, i, u) = (self.browse@, self.installed@, self.updates@);
        if !entry.is_installed() {
            let label = entry.list_label_browse();
            self.browse.push(entry);
            assert(mods_of(self.browse@) =~= mods_of(b).push(e));
            (Tab::Browse, label)
        } else if entry.has_update() {
            let label = entry.list_label_update();
            self.updates.push(entry);
            assert(mods_of(self.updates@) =~= mods_of(u).push(e));
            (Tab::Updates, label)
        } else {
            let label = entry.list_label_installed();
            self.installed.push(entry);
            assert(mods_of(self.installed@) =~= mods_of(i).push(e));
            (Tab::Installed, label)
        }
    }

    /// The status line once discovery is over.
    pub fn summary(&self) -> (r: String)
        requires
            self.browse@.len() + self.installed@.len() + self.updates@.len() <= usize::MAX,
        ensures
            r@ == summary_spec(
                self.browse@.len(),
                self.installed@.len(),
                self.updates@.len(),
            ),
    {
        let nb: usize = self.browse.len();
        let ni: usize = self.installed.len();
        let nu: usize = self.updates.len();
        let mut out = String::new();
        let total: usize = nb + ni + nu;
        if total == 0 {
            push_str(&mut out, "No mods found.");
        } else {
            push_decimal(&mut out, total as u64);
            push_str(&mut out, " mods found, ");
            push_decimal(&mut out, (ni + nu) as u64);
            push_str(&mut out, " installed");
            if nu > 0 {
                push_str(&mut out, ", ");
                push_decimal(&mut out, nu as u64);
                push_str(&mut out, " update(s) available");
            }
        }
        proof {
            reveal_strlit("");
        }
        assert(out@ =~= summary_spec(
            self.browse@.len(),
            self.installed@.len(),
            self.updates@.len(),
        ));
        out
    }

    /// After installing the mod at position `idx` of tab `from`: take it out
    /// of that tab, record it as installed (under `mod_name`, at `version`,
    /// at time `installed_at`, with the manifest's source and loader), take
    /// `version` as its latest tag, and append it to the Installed tab.
    /// Returns the label it is listed under there.
    pub fn move_to_installed(
        &mut self,
        from: Tab,
        idx: usize,
        mod_name: String,
        version: String,
        installed_at: String,
    ) -> (r: String)
        requires
            idx < old(self).tab_mods(from).len(),
        ensures
            ({
                let moved = old(self).tab_mods(from)[idx as int];
                let after = final(self).tab_mods(Tab::Installed).last();
                &&& final(self).tab_mods(from) == (if from == Tab::Installed {
                    old(self).tab_mods(from).remove(idx as int).push(after)
                } else {
                    old(self).tab_mods(from).remove(idx as int)
                })
                &&& from != Tab::Installed ==> final(self).tab_mods(Tab::Installed) == old(
                    self,
                ).tab_mods(Tab::Installed).push(after)
                &&& after.manifest == moved.manifest
                &&& after.latest_tag matches Some(t) && t@ == version@
                &&& after.installed matches Some(m) && {
                    &&& m.name@ == mod_name@
                    &&& m.source@ == moved.manifest.source@
                    &&& m.version@ == version@
                    &&& m.installed_at@ == installed_at@
                    &&& m.loader@ == moved.manifest.loader.name@
                    &&& m.local_path is None
                    &&& m.dependencies.as_map() == Map::<Seq<char>, String>::empty()
                }
                &&& r@ == list_label_spec(after)
            }),
            forall|t: Tab|
                t != from && t != Tab::Installed ==> final(self).tab_mods(t) == old(self).tab_mods(
                    t,
                ),
    {
        let ghost (b, i, u) = (self.browse@, self.installed@, self.updates@);
        let entry = match from {
            Tab::Browse => self.browse.remove(idx),
            Tab::Installed => self.installed.remove(idx),
            Tab::Updates => self.updates.remove(idx),
        };
        let ModEntry(loaded) = entry;
        let LoadedMod { manifest, installed: _, latest_tag: _ } = loaded;
        let record = ModState {
            name: mod_name,
            source: manifest.source.clone(),
            version: version.clone(),
            installed_at,
            loader: manifest.loader.name.clone(),
            local_path: None,
            dependencies: StrMap::new(),
        };
        let moved = ModEntry(
            LoadedMod { manifest, installed: Some(record), latest_tag: Some(version) },
        );
        let label = moved.list_label_installed();
        let ghost after = moved.0;
        self.installed.push(moved);
        proof {
            match from {
                Tab::Browse => {
                    assert(mods_of(self.browse@) =~= mods_of(b).remove(idx as int));
                    assert(mods_of(self.installed@) =~= mods_of(i).push(after));
                },
                Tab::Installed => {
                    assert(mods_of(self.installed@) =~= mods_of(i).remove(idx as int).push(after));
                },
                Tab::Updates => {
                    assert(mods_of(self.updates@) =~= mods_of(u).remove(idx as int));
                    assert(mods_of(self.installed@) =~= mods_of(i).push(after));
                },
            }
        }
        label
    }
}

/// What the main window does with one discovery message.
pub struct DiscoveryUpdate {
    /// New text for the status line, if any.
    pub status: Option<String>,
    /// The tab and label of a newly listed mod, if any.
    pub listed: Option<(Tab, String)>,
    /// Stop listening for discovery messages.
    pub stop: bool,
}

impl Catalog {
    /// Take one discovery message: a status shows in the status line; a
    /// loaded mod is listed in its tab; the end of discovery shows the
    /// summary; completion stops listening; a failure shows `Error: ...`
    /// and stops listening. Other messages change nothing.
    pub fn on_discovery_message(&mut self, msg: ProgressMsg) -> (r: DiscoveryUpdate)
        requires
            old(self).browse@.len() + old(self).installed@.len() + old(self).updates@.len()
                < usize::MAX,
        ensures
            match msg@ {
                Note::Status(s) => {
                    &&& (r.status matches Some(t) && t@ == s)
                    &&& r.listed is None
                    &&& !r.stop
                    &&& *final(self) == *old(self)
                },
                Note::ModLoaded(m) => {
                    &&& r.status is None
                    &&& (r.listed matches Some((t, label)) && {
                        &&& t == tab_of(m)
                        &&& label@ == list_label_spec(m)
                        &&& final(self).tab_mods(t) == old(self).tab_mods(t).push(m)
                        &&& forall|u: Tab|
                            u != t ==> final(self).tab_mods(u) == old(self).tab_mods(u)
                    })
                    &&& !r.stop
                },
                Note::DiscoveryFinished => {
                    &&& (r.status matches Some(t) && t@ == summary_spec(
                        old(self).browse@.len(),
                        old(self).installed@.len(),
                        old(self).updates@.len(),
                    ))
                    &&& r.listed is None
                    &&& !r.stop
                    &&& *final(self) == *old(self)
                },
                Note::DiscoveryDone => {
                    &&& r.status is None
                    &&& r.listed is None
                    &&& r.stop
                    &&& *final(self) == *old(self)
                },
                Note::Failed(e) => {
                    &&& (r.status matches Some(t) && t@ == "Error: "@ + e)
                    &&& r.listed is None
                    &&& r.stop
                    &&& *final(self) == *old(self)
                },
                _ => {
                    &&& r.status is None
                    &&& r.listed is None
                    &&& !r.stop
                    &&& *final(self) == *old(self)
                },
            },
    {
        match msg {
            ProgressMsg::Status(s) => DiscoveryUpdate { status: Some(s), listed: None, stop: false },
            ProgressMsg::ModLoaded(loaded) => {
                let entry = ModEntry(*loaded);
                let listed = self.add(entry);
                DiscoveryUpdate { status: None, listed: Some(listed), stop: false }
            },
            ProgressMsg::DiscoveryFinished => {
                let t = self.summary();
                DiscoveryUpdate { status: Some(t), listed: None, stop: false }
            },
            ProgressMsg::Done(TaskResult::Discovery) => DiscoveryUpdate {
                status: None,
                listed: None,
                stop: true,
            },
            ProgressMsg::Failed(e) => {
                let mut t = String::new();
                push_str(&mut t, "Error: ");
                push_str(&mut t, e.as_str());
                DiscoveryUpdate { status: Some(t), listed: None, stop: true }
            },
            _ => DiscoveryUpdate { status: None, listed: None, stop: false },
        }
    }
}

/// The line an install step adds to the install log: `step: detail`, or
/// the step alone when there is no detail.
pub open spec fn step_line_spec(step: InstallStep, detail: Seq<char>) -> Seq<char> {
    if detail.len() == 0 {
        step_label_spec(step)
    } else {
        step_label_spec(step) + ": "@ + detail
    }
}

/// The install dialog's log and progress gauge.
pub struct InstallLog {
    /// The log lines, oldest first.
    pub lines: Vec<String>,
    /// The value the gauge shows.
    pub gauge: i32,
    /// The progress the steps so far add up to (at most 95).
    pub progress: i32,
    /// The installed mod's name and version, once the install succeeded.
    pub result: Option<(String, String)>,
    /// The install ended (successfully or not); later messages are ignored.
    pub finished: bool,
    /// The install ended in failure.
    pub failed: bool,
}

impl InstallLog {
    /// The consistency of the gauge state.
    pub open spec fn wf(&self) -> bool {
        &&& 0 <= self.progress <= GAUGE_CAP
        &&& self.failed ==> self.finished
        &&& self.result is Some ==> self.finished && self.gauge == 100
        &&& self.result is None ==> 0 <= self.gauge <= GAUGE_CAP
    }

    /// A fresh log: "Preparing installation...", the gauge at 2.
    pub fn new() -> (r: InstallLog)
        ensures
            r.wf(),
            r.lines@.map_values(|l: String| l@) == seq!["Preparing installation..."@],
            r.gauge == 2,
            r.progress == 0,
            r.result is None,
            !r.finished,
            !r.failed,
    {
        let mut lines: Vec<String> = Vec::new();
        lines.push("Preparing installation...".to_owned());
        assert(lines@.map_values(|l: String| l@) =~= seq!["Preparing installation..."@]);
        InstallLog { lines, gauge: 2, progress: 0, result: None, finished: false, failed: false }
    }

    fn log(&mut self, line: String)
        ensures
            final(self).lines@ == old(self).lines@.push(line),
            final(self).lines@.drop_last() == old(self).lines@,
            final(self).lines@.len() == old(self).lines@.len() + 1,
            final(self).lines@.last() == line,
            final(self).gauge == old(self).gauge,
            final(self).progress == old(self).progress,
            final(self).result == old(self).result,
            final(self).finished == old(self).finished,
            final(self).failed == old(self).failed,
    {
        let ghost before = self.lines@;
        self.lines.push(line);
        assert(self.lines@.drop_last() =~= before);
    }

    /// Take one install message. Once the install has ended nothing changes.
    /// A step advances the gauge by its share (up to 95) and logs the step;
    /// success fills the gauge, logs `name version installed successfully!`
    /// and keeps the result; failure logs `Error: ...`. Both end the install.
    /// Other messages (status lines among them) change nothing.
    pub fn on_message(&mut self, msg: ProgressMsg)
        requires
            old(self).wf(),
        ensures
            final(self).wf(),
            old(self).finished ==> *final(self) == *old(self),
            !old(self).finished ==> match msg@ {
                Note::Progress(step, detail) => {
                    &&& final(self).progress == (if old(self).progress + step_increment_spec(step)
                        < GAUGE_CAP {
                        old(self).progress + step_increment_spec(step)
                    } else {
                        GAUGE_CAP as int
                    })
                    &&& final(self).gauge == final(self).progress
                    &&& final(self).lines@.len() == old(self).lines@.len() + 1
                    &&& final(self).lines@.drop_last() == old(self).lines@
                    &&& final(self).lines@.last()@ == step_line_spec(step, detail)
                    &&& final(self).result == old(self).result
                    &&& !final(self).finished
                    &&& !final(self).failed
                },
                Note::Installed(name, version) => {
                    &&& final(self).gauge == 100
                    &&& final(self).progress == old(self).progress
                    &&& final(self).lines@.len() == old(self).lines@.len() + 1
                    &&& final(self).lines@.drop_last() == old(self).lines@
                    &&& final(self).lines@.last()@ == name + " "@ + version
                        + " installed successfully!"@
                    &&& final(self).result matches Some((n, v)) && n@ == name && v@ == version
                    &&& final(self).finished
                    &&& !final(self).failed
                },
                Note::Failed(e) => {
                    &&& final(self).gauge == old(self).gauge
                    &&& final(self).progress == old(self).progress
                    &&& final(self).lines@.len() == old(self).lines@.len() + 1
                    &&& final(self).lines@.drop_last() == old(self).lines@
                    &&& final(self).lines@.last()@ == "Error: "@ + e
                    &&& final(self).result == old(self).result
                    &&& final(self).finished
                    &&& final(self).failed
                },
                _ => *final(self) == *old(self),
            },
    {
        if self.finished {
            return;
        }
        match msg {
            ProgressMsg::InstallProgress { step, detail } => {
                self.progress = advance_gauge(self.progress, &step);
                self.gauge = self.progress;
                let mut line = String::new();
                push_str(&mut line, step.label());
                if !detail.as_str().is_empty() {
                    push_str(&mut line, ": ");
                    push_str(&mut line, detail.as_str());
                } else {
                    assert(line@ == step_label_spec(step));
                }
                self.log(line);
            },
            ProgressMsg::Done(TaskResult::Install { mod_name, version }) => {
                self.gauge = 100;
                let mut line = String::new();
                push_str(&mut line, mod_name.as_str());
                push_str(&mut line, " ");
                push_str(&mut line, version.as_str());
                push_str(&mut line, " installed successfully!");
                self.log(line);
                self.result = Some((mod_name, version));
                self.finished = true;
            },
            ProgressMsg::Failed(e) => {
                let mut line = String::new();
                push_str(&mut line, "Error: ");
                push_str(&mut line, e.as_str());
                self.log(line);
                self.finished = true;
                self.failed = true;
            },
            _ => {},
        }
    }

    /// The worker went away without a result: log it and end the install.
    pub fn on_disconnect(&mut self)
        requires
            old(self).wf(),
        ensures
            final(self).wf(),
            old(self).finished ==> *final(self) == *old(self),
            !old(self).finished ==> {
                &&& final(self).lines@.len() == old(self).lines@.len() + 1
                &&& final(self).lines@.drop_last() == old(self).lines@
                &&& final(self).lines@.last()@ == "Installation stopped unexpectedly."@
                &&& final(self).gauge == old(self).gauge
                &&& final(self).progress == old(self).progress
                &&& final(self).result == old(self).result
                &&& final(self).finished
                &&& !final(self).failed
            },
    {
        if self.finished {
            return;
        }
        self.log("Installation stopped unexpectedly.".to_owned());
        self.finished = true;
    }
}

/// What the "Add mod manually" dialog makes of its input.
pub enum ManualInput {
    /// Nothing was entered (only whitespace): the dialog closes.
    Empty,
    /// The input is not a usable source; the message to show.
    Invalid(String),
    /// The source whose manifest to fetch.
    Found(Source),
}

/// What the "Add mod manually" dialog makes of `input`: trimmed, nothing is
/// `Empty`; otherwise it is read as user input for a source, and a source
/// that cannot be read gives `Invalid source: ...`.
pub fn manual_input(input: &str) -> (r: ManualInput)
    ensures
        trim_ws(input@).len() == 0 ==> r is Empty,
        trim_ws(input@).len() > 0 ==> match parse_user_input_spec(trim_ws(input@)) {
            Ok(s) => r matches ManualInput::Found(src) && src@ == s,
            Err(e) => r matches ManualInput::Invalid(t) && t@ == "Invalid source: "@
                + source_error_text(e, trim_ws(input@)),
        },
{
    let t = string_of(&trim_chars(&chars_of(input)));
    if t.as_str().is_empty() {
        return ManualInput::Empty;
    }
    match Source::parse_user_input(t.as_str()) {
        Ok(src) => ManualInput::Found(src),
        Err(e) => {
            let mut msg = String::new();
            push_str(&mut msg, "Invalid source: ");
            let et = source_error_message(e, t.as_str());
            push_str(&mut msg, et.as_str());
            ManualInput::Invalid(msg)
        },
    }
}

/// The entry for a mod added by hand: not installed, no latest tag known.
pub fn manual_entry(manifest: Manifest) -> (r: ModEntry)
    ensures
        r.0.manifest == manifest,
        r.0.installed is None,
        r.0.latest_tag is None,
{
    ModEntry(LoadedMod { manifest, installed: None, latest_tag: None })
}

/// Every mod listed in a tab belongs in that tab.
pub open spec fn tabs_consistent(c: Catalog) -> bool {
    forall|t: Tab, i: int|
        0 <= i < c.tab_mods(t).len() ==> tab_of(#[trigger] c.tab_mods(t)[i]) == t
}

/// Listing loaded mods keeps every mod in the tab it belongs in: a mod not
/// installed under Browse, an installed one with an update under Updates,
/// any other installed one under Installed.
pub proof fn lemma_add_keeps_tabs(before: Catalog, after: Catalog, m: LoadedMod, t: Tab)
    requires
        tabs_consistent(before),
        t == tab_of(m),
        after.tab_mods(t) == before.tab_mods(t).push(m),
        forall|u: Tab| u != t ==> after.tab_mods(u) == before.tab_mods(u),
    ensures
        tabs_consistent(after),
{
    assert forall|u: Tab, i: int| 0 <= i < after.tab_mods(u).len() implies tab_of(
        #[trigger] after.tab_mods(u)[i],
    ) == u by {
        if u == t && i == before.tab_mods(t).len() {
            assert(after.tab_mods(u)[i] == m);
        } else {
            assert(after.tab_mods(u)[i] == before.tab_mods(u)[i]);
        }
    }
}

} // verus!
