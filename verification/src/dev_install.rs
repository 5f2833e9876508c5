//! `accessforge install` for mod developers: the same loader and
//! dependency steps as a player's install, then the mod's files from the
//! project folder (or from a URL source's release), reported as lines of
//! text; the first failure ends the install with its message.
use vstd::prelude::*;

use crate::install::{
    install_transition, mod_subdir, names_view, EventSpec, InstallStage, ExtractFailure, ExtractFailureSpec, InstallEvent, InstallRequest,
    RequestSpec,
};
use crate::loaders::{loader_post_install, PostInstall};
use crate::manifest::{
    default_arch, dep_type_of, loader_kind_of, parse_source_spec, DepType, LoaderKind, Manifest,
    Source,
};
use crate::messages::{source_error_message, source_error_text};
use crate::install::opt_view;
use crate::text::push_str;

verus! {

/// Where the mod's own files come from.
pub enum DevSource {
    /// The project folder (shown as `from`).
    Local { from: String },
    /// The release of a URL source at `url`.
    Url { url: String },
}

/// The meaning of a `DevSource`.
pub enum DevSourceSpec {
    Local(Seq<char>),
    Url(Seq<char>),
}

impl View for DevSource {
    type V = DevSourceSpec;

    open spec fn view(&self) -> DevSourceSpec {
        match self {
            DevSource::Local { from } => DevSourceSpec::Local(from@),
            DevSource::Url { url } => DevSourceSpec::Url(url@),
        }
    }
}

/// Where a developer install stands.
pub enum DevStage {
    Loader,
    DepRelease(nat),
    DepDownload(nat),
    DepExtract(nat),
    ModRelease,
    ModDownload,
    ModFiles,
    PostInstall,
    Saving,
    Done,
}

/// One step: the lines printed, the stage moved to, what is asked for
/// next, and how the install ended once it is over.
pub struct DevTransition {
    pub lines: Seq<Seq<char>>,
    pub stage: DevStage,
    pub request: RequestSpec,
    pub outcome: Option<Result<(), Seq<char>>>,
}

/// Print `lines` and end with the failure `e`.
pub open spec fn dev_fail(lines: Seq<Seq<char>>, e: Seq<char>) -> DevTransition {
    DevTransition {
        lines,
        stage: DevStage::Done,
        request: RequestSpec::Finished,
        outcome: Some(Err(e)),
    }
}

/// Print `lines` and wait in `stage` for `request`.
pub open spec fn dev_wait(lines: Seq<Seq<char>>, stage: DevStage, request: RequestSpec) -> DevTransition {
    DevTransition { lines, stage, request, outcome: None }
}

/// Where a developer install copies the files of a local mod folder below
/// the mod directory: `{id}/Scripts` for UE4SS (a mod folder holds the
/// scripts themselves), the mod directory itself otherwise. A release zip
/// from a URL already holds `Scripts/` and goes where the player install
/// puts it (`mod_subdir`).
pub open spec fn dev_mod_subdir(m: Manifest, loader: LoaderKind) -> Seq<Seq<char>> {
    if loader == LoaderKind::Ue4ss {
        seq![m.id@, "Scripts"@]
    } else {
        Seq::empty()
    }
}

/// Go on with dependency `i`, or with the mod's files once every
/// dependency is in place.
pub open spec fn dev_begin_from(m: Manifest, loader: LoaderKind, src: DevSourceSpec, i: nat) -> DevTransition {
    if i < m.dependencies@.len() {
        let d = m.dependencies@[i as int];
        let head = seq!["Installing dependency: "@ + d.name@ + "..."@];
        match parse_source_spec(d.source@) {
            Err(e) => dev_fail(head, source_error_text(e, d.source@)),
            Ok(s) => dev_wait(
                head,
                DevStage::DepRelease(i),
                RequestSpec::FetchRelease(s, d.asset@, d.version@),
            ),
        }
    } else {
        match src {
            DevSourceSpec::Url(_) => {
                let head = seq!["Installing "@ + m.name@ + "..."@];
                match parse_source_spec(m.source@) {
                    Err(e) => dev_fail(head, source_error_text(e, m.source@)),
                    Ok(s) => dev_wait(
                        head,
                        DevStage::ModRelease,
                        RequestSpec::FetchRelease(s, m.release.asset@, m.version@),
                    ),
                }
            },
            DevSourceSpec::Local(_) => dev_wait(
                seq!["Copying local mod files..."@],
                DevStage::ModFiles,
                RequestSpec::CopyModFiles(dev_mod_subdir(m, loader)),
            ),
        }
    }
}

/// Ask to record the install at the manifest's version.
pub open spec fn dev_saving(m: Manifest) -> DevTransition {
    dev_wait(Seq::empty(), DevStage::Saving, RequestSpec::SaveInstall(m.version@))
}

/// After the mod's files are in place: the loader's post-install step (said
/// aloud for a local install), or saving.
pub open spec fn dev_after_files(m: Manifest, loader: LoaderKind, src: DevSourceSpec) -> DevTransition {
    match loader_post_install(loader) {
        Some(PostInstall::EnableUe4ssMod) => dev_wait(
            match src {
                DevSourceSpec::Local(_) => seq!["Running post-install..."@],
                DevSourceSpec::Url(_) => Seq::empty(),
            },
            DevStage::PostInstall,
            RequestSpec::EnableMod(m.id@),
        ),
        None => dev_saving(m),
    }
}

/// The last line of a successful developer install.
pub open spec fn dev_done_line(m: Manifest, src: DevSourceSpec) -> Seq<char> {
    match src {
        DevSourceSpec::Local(_) => "Done! "@ + m.name@ + " installed from local source."@,
        DevSourceSpec::Url(url) => "Done! "@ + m.name@ + " v"@ + m.version@ + " installed from "@
            + url + "."@,
    }
}

/// The text of an answer that does not fit what was asked.
pub open spec fn dev_unexpected_text() -> Seq<char> {
    "install received an answer it did not ask for"@
}

/// How a developer install of `m` (loader `loader`, files from `src`) goes
/// on from `stage` when the outcome `ev` comes in.
pub open spec fn dev_transition(
    m: Manifest,
    loader: LoaderKind,
    src: DevSourceSpec,
    stage: DevStage,
    ev: EventSpec,
) -> DevTransition {
    match stage {
        DevStage::Done => dev_wait(Seq::empty(), DevStage::Done, RequestSpec::Finished),
        DevStage::Loader => match ev {
            EventSpec::LoaderInstalled(Ok(())) => dev_begin_from(m, loader, src, 0),
            EventSpec::LoaderInstalled(Err(e)) => dev_fail(Seq::empty(), e),
            _ => dev_fail(Seq::empty(), dev_unexpected_text()),
        },
        DevStage::DepRelease(i) => match ev {
            EventSpec::ReleaseFetched(Ok(Some((_tag, url)))) => dev_wait(
                Seq::empty(),
                DevStage::DepDownload(i),
                RequestSpec::Download(url),
            ),
            EventSpec::ReleaseFetched(Ok(None)) => dev_fail(
                Seq::empty(),
                "no release found for dependency '"@ + m.dependencies@[i as int].name@ + "'"@,
            ),
            EventSpec::ReleaseFetched(Err(e)) => dev_fail(Seq::empty(), e),
            _ => dev_fail(Seq::empty(), dev_unexpected_text()),
        },
        DevStage::DepDownload(i) => {
            let d = m.dependencies@[i as int];
            match ev {
                EventSpec::Downloaded(Ok(data)) => match dep_type_of(d.dep_type@) {
                    None => dev_fail(
                        Seq::empty(),
                        "unsupported dependency type: "@ + d.dep_type@,
                    ),
                    Some(t) => dev_wait(
                        Seq::empty(),
                        DevStage::DepExtract(i),
                        RequestSpec::ExtractDependency(data, t),
                    ),
                },
                EventSpec::Downloaded(Err(e)) => dev_fail(Seq::empty(), e),
                _ => dev_fail(Seq::empty(), dev_unexpected_text()),
            }
        },
        DevStage::DepExtract(i) => match ev {
            EventSpec::Extracted(Ok(())) => {
                let next = dev_begin_from(m, loader, src, i + 1);
                DevTransition {
                    lines: seq!["  Installed: "@ + m.dependencies@[i as int].name@] + next.lines,
                    ..next
                }
            },
            EventSpec::Extracted(Err(ExtractFailureSpec::Target(e))) => dev_fail(Seq::empty(), e),
            EventSpec::Extracted(Err(ExtractFailureSpec::Archive(e))) => dev_fail(Seq::empty(), e),
            _ => dev_fail(Seq::empty(), dev_unexpected_text()),
        },
        DevStage::ModRelease => match ev {
            EventSpec::ReleaseFetched(Ok(Some((_tag, url)))) => dev_wait(
                Seq::empty(),
                DevStage::ModDownload,
                RequestSpec::Download(url),
            ),
            EventSpec::ReleaseFetched(Ok(None)) => dev_fail(
                Seq::empty(),
                "no release found for '"@ + m.name@ + "'"@,
            ),
            EventSpec::ReleaseFetched(Err(e)) => dev_fail(Seq::empty(), e),
            _ => dev_fail(Seq::empty(), dev_unexpected_text()),
        },
        DevStage::ModDownload => match ev {
            EventSpec::Downloaded(Ok(data)) => dev_wait(
                Seq::empty(),
                DevStage::ModFiles,
                RequestSpec::ExtractMod(data, mod_subdir(m, loader)),
            ),
            EventSpec::Downloaded(Err(e)) => dev_fail(Seq::empty(), e),
            _ => dev_fail(Seq::empty(), dev_unexpected_text()),
        },
        DevStage::ModFiles => match ev {
            EventSpec::Extracted(Ok(())) => dev_after_files(m, loader, src),
            EventSpec::Extracted(Err(ExtractFailureSpec::Target(e))) => dev_fail(Seq::empty(), e),
            EventSpec::Extracted(Err(ExtractFailureSpec::Archive(e))) => dev_fail(Seq::empty(), e),
            _ => dev_fail(Seq::empty(), dev_unexpected_text()),
        },
        DevStage::PostInstall => match ev {
            EventSpec::PostInstalled(Ok(())) => dev_saving(m),
            EventSpec::PostInstalled(Err(e)) => dev_fail(Seq::empty(), e),
            _ => dev_fail(Seq::empty(), dev_unexpected_text()),
        },
        DevStage::Saving => match ev {
            EventSpec::Saved(Ok(())) => DevTransition {
                lines: seq!["State saved."@, dev_done_line(m, src)],
                stage: DevStage::Done,
                request: RequestSpec::Finished,
                outcome: Some(Ok(())),
            },
            EventSpec::Saved(Err(e)) => dev_fail(Seq::empty(), e),
            _ => dev_fail(Seq::empty(), dev_unexpected_text()),
        },
    }
}

/// How a developer install of `m` begins once its game was found at
/// `game_root`: that line, then the loader (refused when unsupported).
pub open spec fn dev_start(m: Manifest, game_root: Seq<char>) -> DevTransition {
    let found = seq!["Game found at: "@ + game_root];
    match loader_kind_of(m.loader.name@) {
        None => dev_fail(found, "unsupported loader: "@ + m.loader.name@),
        Some(k) => dev_wait(
            found.push("Installing "@ + m.loader.name@ + "..."@),
            DevStage::Loader,
            RequestSpec::InstallLoader(
                k,
                opt_view(m.loader.version),
                match m.loader.arch {
                    Some(a) => a@,
                    None => default_arch(),
                },
            ),
        ),
    }
}

/// What one step of a developer install produced.
pub struct DevStep {
    /// Lines to print, in order.
    pub lines: Vec<String>,
    /// What to do next.
    pub request: InstallRequest,
    /// How the install ended, once it is over.
    pub outcome: Option<Result<(), String>>,
}

/// The lines of a step as sequences.
pub open spec fn dev_lines(lines: Seq<String>) -> Seq<Seq<char>> {
    lines.map_values(|l: String| l@)
}

/// The meaning of an outcome.
pub open spec fn dev_outcome(o: Option<Result<(), String>>) -> Option<Result<(), Seq<char>>> {
    match o {
        None => None,
        Some(Ok(())) => Some(Ok(())),
        Some(Err(e)) => Some(Err(e@)),
    }
}

/// A step agrees with a transition.
pub open spec fn dev_step_matches(r: DevStep, t: DevTransition) -> bool {
    &&& dev_lines(r.lines@) == t.lines
    &&& r.request@ == t.request
    &&& dev_outcome(r.outcome) == t.outcome
}

/// The stages, without their data.
#[derive(PartialEq, Eq, Structural)]
enum DevPhase {
    Loader,
    DepRelease,
    DepDownload,
    DepExtract,
    ModRelease,
    ModDownload,
    ModFiles,
    PostInstall,
    Saving,
    Done,
}

/// A developer install in progress.
pub struct DevInstallSession {
    manifest: Manifest,
    loader: LoaderKind,
    source: DevSource,
    phase: DevPhase,
    index: usize,
}

/// `a` then `b`.
fn join2(a: &str, b: &str) -> (r: String)
    ensures
        r@ == a@ + b@,
{
    let mut t = String::new();
    push_str(&mut t, a);
    push_str(&mut t, b);
    t
}

/// `a` then `b` then `c`.
fn join3(a: &str, b: &str, c: &str) -> (r: String)
    ensures
        r@ == a@ + b@ + c@,
{
    let mut t = join2(a, b);
    push_str(&mut t, c);
    t
}

impl DevInstallSession {
    /// Where the install stands.
    pub closed spec fn stage(&self) -> DevStage {
        match self.phase {
            DevPhase::Loader => DevStage::Loader,
            DevPhase::DepRelease => DevStage::DepRelease(self.index as nat),
            DevPhase::DepDownload => DevStage::DepDownload(self.index as nat),
            DevPhase::DepExtract => DevStage::DepExtract(self.index as nat),
            DevPhase::ModRelease => DevStage::ModRelease,
            DevPhase::ModDownload => DevStage::ModDownload,
            DevPhase::ModFiles => DevStage::ModFiles,
            DevPhase::PostInstall => DevStage::PostInstall,
            DevPhase::Saving => DevStage::Saving,
            DevPhase::Done => DevStage::Done,
        }
    }

    /// The manifest being installed.
    pub closed spec fn manifest_spec(&self) -> Manifest {
        self.manifest
    }

    /// Its loader.
    pub closed spec fn loader_spec(&self) -> LoaderKind {
        self.loader
    }

    /// Where its files come from.
    pub closed spec fn source_spec(&self) -> DevSourceSpec {
        self.source@
    }

    /// The bookkeeping agrees with the manifest.
    pub closed spec fn wf(&self) -> bool {
        &&& self.phase != DevPhase::Done ==> loader_kind_of(self.manifest.loader.name@) == Some(
            self.loader,
        )
        &&& (self.phase == DevPhase::DepRelease || self.phase == DevPhase::DepDownload
            || self.phase == DevPhase::DepExtract) ==> self.index
            < self.manifest.dependencies.len()
    }

    /// The manifest being installed.
    pub fn manifest(&self) -> (r: &Manifest)
        ensures
            *r == self.manifest_spec(),
    {
        &self.manifest
    }

    /// Print `lines` and end with the failure `e`.
    fn fail(&mut self, lines: Vec<String>, e: String) -> (r: DevStep)
        ensures
            final(self).manifest == old(self).manifest,
            final(self).loader == old(self).loader,
            final(self).source == old(self).source,
            final(self).phase == DevPhase::Done,
            final(self).wf(),
            dev_step_matches(r, dev_fail(dev_lines(lines@), e@)),
            lines@.len() == 0 ==> dev_lines(lines@) == Seq::<Seq<char>>::empty(),
    {
        assert(lines@.len() == 0 ==> dev_lines(lines@) =~= Seq::<Seq<char>>::empty());
        self.phase = DevPhase::Done;
        DevStep { lines, request: InstallRequest::Finished, outcome: Some(Err(e)) }
    }

    /// Wait in `phase` for `request`, printing nothing.
    fn wait(&mut self, phase: DevPhase, request: InstallRequest) -> (r: DevStep)
        ensures
            final(self).manifest == old(self).manifest,
            final(self).loader == old(self).loader,
            final(self).source == old(self).source,
            final(self).index == old(self).index,
            final(self).phase == phase,
            dev_lines(r.lines@) == Seq::<Seq<char>>::empty(),
            r.request == request,
            r.outcome is None,
    {
        self.phase = phase;
        let lines: Vec<String> = Vec::new();
        assert(dev_lines(lines@) =~= Seq::<Seq<char>>::empty());
        DevStep { lines, request, outcome: None }
    }

    /// Go on with dependency `i`, or with the mod's files.
    fn begin_from(&mut self, i: usize) -> (r: DevStep)
        requires
            i <= old(self).manifest.dependencies@.len(),
            loader_kind_of(old(self).manifest.loader.name@) == Some(old(self).loader),
        ensures
            final(self).manifest == old(self).manifest,
            final(self).loader == old(self).loader,
            final(self).source == old(self).source,
            final(self).wf(),
            final(self).stage() == dev_begin_from(
                old(self).manifest,
                old(self).loader,
                old(self).source@,
                i as nat,
            ).stage,
            dev_step_matches(
                r,
                dev_begin_from(old(self).manifest, old(self).loader, old(self).source@, i as nat),
            ),
    {
        let mut lines: Vec<String> = Vec::new();
        if i < self.manifest.dependencies.len() {
            let name = self.manifest.dependencies[i].name.clone();
            let src = self.manifest.dependencies[i].source.clone();
            lines.push(join3("Installing dependency: ", name.as_str(), "..."));
            assert(dev_lines(lines@) =~= seq!["Installing dependency: "@ + name@ + "..."@]);
            match Source::parse(src.as_str()) {
                Err(e) => self.fail(lines, source_error_message(e, src.as_str())),
                Ok(source) => {
                    self.phase = DevPhase::DepRelease;
                    self.index = i;
                    let request = InstallRequest::FetchRelease {
                        source,
                        asset: self.manifest.dependencies[i].asset.clone(),
                        version: self.manifest.dependencies[i].version.clone(),
                    };
                    DevStep { lines, request, outcome: None }
                },
            }
        } else {
            match &self.source {
                DevSource::Url { .. } => {
                    lines.push(join3("Installing ", self.manifest.name.as_str(), "..."));
                    assert(dev_lines(lines@) =~= seq![
                        "Installing "@ + self.manifest.name@ + "..."@,
                    ]);
                    match self.manifest.parsed_source() {
                        Err(e) => {
                            let t = source_error_message(e, self.manifest.source.as_str());
                            self.fail(lines, t)
                        },
                        Ok(source) => {
                            self.phase = DevPhase::ModRelease;
                            let request = InstallRequest::FetchRelease {
                                source,
                                asset: self.manifest.release.asset.clone(),
                                version: self.manifest.version.clone(),
                            };
                            DevStep { lines, request, outcome: None }
                        },
                    }
                },
                DevSource::Local { .. } => {
                    lines.push("Copying local mod files...".to_owned());
                    assert(dev_lines(lines@) =~= seq!["Copying local mod files..."@]);
                    let subdir = self.files_subdir();
                    self.phase = DevPhase::ModFiles;
                    DevStep { lines, request: InstallRequest::CopyModFiles { subdir }, outcome: None }
                },
            }
        }
    }

    /// The path components below the mod directory where the files go.
    fn files_subdir(&self) -> (r: Vec<String>)
        ensures
            names_view(r@) == dev_mod_subdir(self.manifest, self.loader),
    {
        let mut subdir: Vec<String> = Vec::new();
        if self.loader == LoaderKind::Ue4ss {
            subdir.push(self.manifest.id.clone());
            subdir.push("Scripts".to_owned());
        }
        assert(names_view(subdir@) =~= dev_mod_subdir(self.manifest, self.loader));
        subdir
    }

    /// Begin a developer install of `manifest`, its files from `source`, in
    /// the game found at `game_root`.
    pub fn start(manifest: Manifest, source: DevSource, game_root: &str) -> (r: (
        DevInstallSession,
        DevStep,
    ))
        ensures
            r.0.wf(),
            r.0.manifest_spec() == manifest,
            r.0.source_spec() == source@,
            loader_kind_of(manifest.loader.name@) matches Some(k) ==> r.0.loader_spec() == k,
            r.0.stage() == dev_start(manifest, game_root@).stage,
            dev_step_matches(r.1, dev_start(manifest, game_root@)),
    {
        let mut lines: Vec<String> = Vec::new();
        lines.push(join2("Game found at: ", game_root));
        match manifest.loader_kind() {
            Err(_) => {
                let t = join2("unsupported loader: ", manifest.loader.name());
                assert(dev_lines(lines@) =~= seq!["Game found at: "@ + game_root@]);
                let mut session = DevInstallSession {
                    manifest,
                    loader: LoaderKind::NoLoader,
                    source,
                    phase: DevPhase::Done,
                    index: 0,
                };
                let out = session.fail(lines, t);
                (session, out)
            },
            Ok(kind) => {
                lines.push(join3("Installing ", manifest.loader.name(), "..."));
                assert(dev_lines(lines@) =~= seq!["Game found at: "@ + game_root@].push(
                    "Installing "@ + manifest.loader.name@ + "..."@,
                ));
                let version = match manifest.loader.version() {
                    Some(v) => Some(v.to_owned()),
                    None => None,
                };
                let arch = manifest.loader.arch().to_owned();
                let request = InstallRequest::InstallLoader { kind, version, arch };
                let session = DevInstallSession {
                    manifest,
                    loader: kind,
                    source,
                    phase: DevPhase::Loader,
                    index: 0,
                };
                (session, DevStep { lines, request, outcome: None })
            },
        }
    }

    /// Take the outcome of the last request; say what to print, what to ask
    /// for next, and how the install ended once it is over.
    pub fn step(&mut self, event: InstallEvent) -> (r: DevStep)
        requires
            old(self).wf(),
        ensures
            final(self).wf(),
            final(self).manifest_spec() == old(self).manifest_spec(),
            final(self).loader_spec() == old(self).loader_spec(),
            final(self).source_spec() == old(self).source_spec(),
            final(self).stage() == dev_transition(
                old(self).manifest_spec(),
                old(self).loader_spec(),
                old(self).source_spec(),
                old(self).stage(),
                event@,
            ).stage,
            dev_step_matches(
                r,
                dev_transition(
                    old(self).manifest_spec(),
                    old(self).loader_spec(),
                    old(self).source_spec(),
                    old(self).stage(),
                    event@,
                ),
            ),
    {
        if self.phase == DevPhase::Done {
            return self.wait(DevPhase::Done, InstallRequest::Finished);
        }
        let unexpected = "install received an answer it did not ask for";
        match event {
            InstallEvent::LoaderInstalled(res) => {
                if self.phase != DevPhase::Loader {
                    return self.fail(Vec::new(), unexpected.to_owned());
                }
                match res {
                    Ok(()) => self.begin_from(0),
                    Err(e) => self.fail(Vec::new(), e),
                }
            },
            InstallEvent::ReleaseFetched(res) => {
                if self.phase == DevPhase::DepRelease {
                    match res {
                        Ok(Some(asset)) => self.wait(
                            DevPhase::DepDownload,
                            InstallRequest::Download { url: asset.download_url },
                        ),
                        Ok(None) => {
                            let t = join3(
                                "no release found for dependency '",
                                self.manifest.dependencies[self.index].name.as_str(),
                                "'",
                            );
                            self.fail(Vec::new(), t)
                        },
                        Err(e) => self.fail(Vec::new(), e),
                    }
                } else if self.phase == DevPhase::ModRelease {
                    match res {
                        Ok(Some(asset)) => self.wait(
                            DevPhase::ModDownload,
                            InstallRequest::Download { url: asset.download_url },
                        ),
                        Ok(None) => {
                            let t = join3("no release found for '", self.manifest.name.as_str(), "'");
                            self.fail(Vec::new(), t)
                        },
                        Err(e) => self.fail(Vec::new(), e),
                    }
                } else {
                    self.fail(Vec::new(), unexpected.to_owned())
                }
            },
            InstallEvent::Downloaded(res) => {
                if self.phase == DevPhase::DepDownload {
                    match res {
                        Ok(data) => {
                            let ty = self.manifest.dependencies[self.index].dep_type.clone();
                            match DepType::from_str(ty.as_str()) {
                                Ok(target) => self.wait(
                                    DevPhase::DepExtract,
                                    InstallRequest::ExtractDependency { data, target },
                                ),
                                Err(_) => {
                                    let t = join2("unsupported dependency type: ", ty.as_str());
                                    self.fail(Vec::new(), t)
                                },
                            }
                        },
                        Err(e) => self.fail(Vec::new(), e),
                    }
                } else if self.phase == DevPhase::ModDownload {
                    match res {
                        Ok(data) => {
                            let mut subdir: Vec<String> = Vec::new();
                            if self.loader == LoaderKind::Ue4ss {
                                subdir.push(self.manifest.id.clone());
                            }
                            assert(names_view(subdir@) =~= mod_subdir(self.manifest, self.loader));
                            self.wait(DevPhase::ModFiles, InstallRequest::ExtractMod { data, subdir })
                        },
                        Err(e) => self.fail(Vec::new(), e),
                    }
                } else {
                    self.fail(Vec::new(), unexpected.to_owned())
                }
            },
            InstallEvent::Extracted(res) => {
                if self.phase == DevPhase::DepExtract {
                    match res {
                        Ok(()) => {
                            let line = join2(
                                "  Installed: ",
                                self.manifest.dependencies[self.index].name.as_str(),
                            );
                            let next = self.index + 1;
                            let out = self.begin_from(next);
                            let mut lines: Vec<String> = Vec::new();
                            lines.push(line);
                            let ghost first = lines@;
                            let mut rest = out.lines;
                            lines.append(&mut rest);
                            assert(dev_lines(lines@) =~= seq![dev_lines(first)[0]] + dev_lines(
                                out.lines@,
                            ));
                            DevStep { lines, request: out.request, outcome: out.outcome }
                        },
                        Err(ExtractFailure::Target(e)) => self.fail(Vec::new(), e),
                        Err(ExtractFailure::Archive(e)) => self.fail(Vec::new(), e),
                    }
                } else if self.phase == DevPhase::ModFiles {
                    match res {
                        Ok(()) => {
                            if self.loader == LoaderKind::Ue4ss {
                                let mut lines: Vec<String> = Vec::new();
                                match &self.source {
                                    DevSource::Local { .. } => {
                                        lines.push("Running post-install...".to_owned());
                                    },
                                    DevSource::Url { .. } => {},
                                }
                                assert(dev_lines(lines@) =~= match self.source@ {
                                    DevSourceSpec::Local(_) => seq!["Running post-install..."@],
                                    DevSourceSpec::Url(_) => Seq::<Seq<char>>::empty(),
                                });
                                self.phase = DevPhase::PostInstall;
                                let request = InstallRequest::EnableMod {
                                    mod_slug: self.manifest.id.clone(),
                                };
                                DevStep { lines, request, outcome: None }
                            } else {
                                let version = self.manifest.version.clone();
                                self.wait(DevPhase::Saving, InstallRequest::SaveInstall { version })
                            }
                        },
                        Err(ExtractFailure::Target(e)) => self.fail(Vec::new(), e),
                        Err(ExtractFailure::Archive(e)) => self.fail(Vec::new(), e),
                    }
                } else {
                    self.fail(Vec::new(), unexpected.to_owned())
                }
            },
            InstallEvent::PostInstalled(res) => {
                if self.phase != DevPhase::PostInstall {
                    return self.fail(Vec::new(), unexpected.to_owned());
                }
                match res {
                    Ok(()) => {
                        let version = self.manifest.version.clone();
                        self.wait(DevPhase::Saving, InstallRequest::SaveInstall { version })
                    },
                    Err(e) => self.fail(Vec::new(), e),
                }
            },
            InstallEvent::Saved(res) => {
                if self.phase != DevPhase::Saving {
                    return self.fail(Vec::new(), unexpected.to_owned());
                }
                match res {
                    Ok(()) => {
                        let done = match &self.source {
                            DevSource::Local { .. } => join3(
                                "Done! ",
                                self.manifest.name.as_str(),
                                " installed from local source.",
                            ),
                            DevSource::Url { url } => {
                                let mut t = join3("Done! ", self.manifest.name.as_str(), " v");
                                push_str(&mut t, self.manifest.version.as_str());
                                push_str(&mut t, " installed from ");
                                push_str(&mut t, url.as_str());
                                push_str(&mut t, ".");
                                t
                            },
                        };
                        let mut lines: Vec<String> = Vec::new();
                        lines.push("State saved.".to_owned());
                        lines.push(done);
                        assert(dev_lines(lines@) =~= seq![
                            "State saved."@,
                            dev_done_line(self.manifest, self.source@),
                        ]);
                        self.phase = DevPhase::Done;
                        DevStep { lines, request: InstallRequest::Finished, outcome: Some(Ok(())) }
                    },
                    Err(e) => self.fail(Vec::new(), e),
                }
            },
        }
    }
}

/// Whether the argument of `install` is an HTTP(S) URL rather than a folder.
pub fn is_http_argument(arg: &str) -> (r: bool)
    ensures
        r == (crate::text::has_prefix(arg@, "http://"@) || crate::text::has_prefix(arg@, "https://"@)),
{
    crate::text::str_starts_with(arg, "http://") || crate::text::str_starts_with(arg, "https://")
}

/// Where a developer's mod files go below the mod directory (also where
/// `watch` copies them): `{id}/Scripts` for UE4SS, the directory itself otherwise.
pub fn dev_files_subdir(m: &Manifest, loader: LoaderKind) -> (r: Vec<String>)
    ensures
        names_view(r@) == dev_mod_subdir(*m, loader),
{
    let mut subdir: Vec<String> = Vec::new();
    if loader == LoaderKind::Ue4ss {
        subdir.push(m.id.clone());
        subdir.push("Scripts".to_owned());
    }
    assert(names_view(subdir@) =~= dev_mod_subdir(*m, loader));
    subdir
}

/// The lines a developer install prints about the manifest before looking
/// for the game: for a project folder, where the manifest was found when
/// that is not the folder itself; for a URL, the mod's id too.
pub open spec fn dev_intro_spec(m: Manifest, src: DevSourceSpec, manifest_dir: Option<Seq<char>>) -> Seq<Seq<char>> {
    match src {
        DevSourceSpec::Local(from) => {
            let found = match manifest_dir {
                Some(d) => if d != from {
                    seq!["Found manifest in "@ + d, "Copying files from "@ + from]
                } else {
                    Seq::empty()
                },
                None => Seq::empty(),
            };
            found + seq!["Mod: "@ + m.name@, "Game: "@ + m.game.name@]
        },
        DevSourceSpec::Url(_) => seq!["Mod: "@ + m.name@ + " ("@ + m.id@ + ")"@, "Game: "@ + m.game.name@],
    }
}

/// The lines a developer install prints about the manifest.
pub fn dev_intro_lines(m: &Manifest, src: &DevSource, manifest_dir: Option<&str>) -> (r: Vec<String>)
    ensures
        dev_lines(r@) == dev_intro_spec(
            *m,
            src@,
            match manifest_dir {
                Some(d) => Some(d@),
                None => None,
            },
        ),
{
    let mut out: Vec<String> = Vec::new();
    match src {
        DevSource::Local { from } => {
            match manifest_dir {
                Some(d) => {
                    if !crate::text::str_eq(d, from.as_str()) {
                        out.push(join2("Found manifest in ", d));
                        out.push(join2("Copying files from ", from.as_str()));
                    }
                },
                None => {},
            }
            out.push(join2("Mod: ", m.name.as_str()));
            out.push(join2("Game: ", m.game.name.as_str()));
        },
        DevSource::Url { .. } => {
            let mut t = join3("Mod: ", m.name.as_str(), " (");
            push_str(&mut t, m.id.as_str());
            push_str(&mut t, ")");
            out.push(t);
            out.push(join2("Game: ", m.game.name.as_str()));
        },
    }
    assert(dev_lines(out@) =~= dev_intro_spec(
        *m,
        src@,
        match manifest_dir {
            Some(d) => Some(d@),
            None => None,
        },
    ));
    out
}


/// A developer install from a URL extracts the mod's release archive where
/// the player install does: the same bytes into the same folder below the
/// loader's mod folder (the mod's own `{id}` for UE4SS), so a packaged
/// `Scripts/main.lua` lands at `Mods/{id}/Scripts/main.lua` either way.
pub proof fn lemma_url_install_extracts_like_player(
    m: Manifest,
    loader: LoaderKind,
    url: Seq<char>,
    data: Seq<u8>,
    version: Seq<char>,
)
    ensures
        dev_transition(
            m,
            loader,
            DevSourceSpec::Url(url),
            DevStage::ModDownload,
            EventSpec::Downloaded(Ok(data)),
        ).request == install_transition(
            m,
            loader,
            InstallStage::ModDownload(version),
            EventSpec::Downloaded(Ok(data)),
        ).request,
        install_transition(
            m,
            loader,
            InstallStage::ModDownload(version),
            EventSpec::Downloaded(Ok(data)),
        ).request == RequestSpec::ExtractMod(data, mod_subdir(m, loader)),
{
}


/// In a developer install, after dependency `i`'s archive is downloaded,
/// the extract request carries the dependency's declared type: a `patch`
/// goes into the loader's install folder, a `mod` into the mod folder; a
/// dependency of any other type ends the install with an error instead.
pub proof fn lemma_dev_dependency_extracted_by_type(
    m: Manifest,
    loader: LoaderKind,
    src: DevSourceSpec,
    i: nat,
    data: Seq<u8>,
)
    requires
        i < m.dependencies@.len(),
    ensures
        ({
            let t = dev_transition(
                m,
                loader,
                src,
                DevStage::DepDownload(i),
                EventSpec::Downloaded(Ok(data)),
            );
            let ty = m.dependencies@[i as int].dep_type@;
            &&& ty == "patch"@ ==> t.request == RequestSpec::ExtractDependency(data, DepType::Patch)
                && t.stage == DevStage::DepExtract(i)
            &&& ty == "mod"@ ==> t.request == RequestSpec::ExtractDependency(data, DepType::Mod)
                && t.stage == DevStage::DepExtract(i)
            &&& (ty != "patch"@ && ty != "mod"@) ==> t.outcome is Some && t.outcome->0 is Err
        }),
{
    reveal_strlit("patch");
    reveal_strlit("mod");
    let ty = m.dependencies@[i as int].dep_type@;
    if ty == "mod"@ {
        assert(ty != "patch"@) by {
            assert(ty[0] != "patch"@[0]);
        }
    }
}

} // verus!
