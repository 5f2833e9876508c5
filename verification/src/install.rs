//! The install sequence: the loader, then each dependency in manifest order,
//! then the mod itself, the loader's post-install step and the install
//! record. The caller performs each request (network, disk) and hands the
//! outcome back; the first failure ends the sequence.
use vstd::prelude::*;

use crate::loaders::{loader_post_install, PostInstall};
use crate::manifest::{
    default_arch, dep_type_of, loader_kind_of, normalize_version, normalize_version_spec,
    parse_source_spec, slug_spec, slugify, DepType, Dependency, LoaderKind, Manifest, Source,
    SourceSpec,
};
use crate::map::StrMap;
use crate::state::{AppState, ModRecord, ModState};
use crate::messages::{source_error_message, source_error_text};
use crate::registry::ReleaseAsset;
use crate::text::push_str;
use crate::worker::{notes_of, InstallStep, Note, ProgressMsg, TaskResult};

verus! {

/// What the install sequence asks the caller to do next.
pub enum InstallRequest {
    /// Install the mod loader (a no-op for loaders that need no download).
    InstallLoader { kind: LoaderKind, version: Option<String>, arch: String },
    /// Find the release asset of a source.
    FetchRelease { source: Source, asset: String, version: String },
    /// Download a file.
    Download { url: String },
    /// Extract a dependency archive where dependencies of its type go.
    ExtractDependency { data: Vec<u8>, target: DepType },
    /// Extract the mod archive into the mod directory, or into the
    /// subdirectory of it that these path components name.
    ExtractMod { data: Vec<u8>, subdir: Vec<String> },
    /// Copy the mod's files from the project folder into the mod directory,
    /// or into the subdirectory of it that these path components name.
    CopyModFiles { subdir: Vec<String> },
    /// Enable the mod in UE4SS's `mods.txt`.
    EnableMod { mod_slug: String },
    /// Record the install of the manifest's mod, at this version, and save the state.
    SaveInstall { version: String },
    /// Nothing more: the sequence is over.
    Finished,
}

/// The meaning of a request, its texts and bytes as sequences.
pub enum RequestSpec {
    InstallLoader(LoaderKind, Option<Seq<char>>, Seq<char>),
    FetchRelease(SourceSpec, Seq<char>, Seq<char>),
    Download(Seq<char>),
    ExtractDependency(Seq<u8>, DepType),
    ExtractMod(Seq<u8>, Seq<Seq<char>>),
    CopyModFiles(Seq<Seq<char>>),
    EnableMod(Seq<char>),
    SaveInstall(Seq<char>),
    Finished,
}

/// The character sequence of an optional string.
pub open spec fn opt_view(o: Option<String>) -> Option<Seq<char>> {
    match o {
        Some(s) => Some(s@),
        None => None,
    }
}

/// The character sequences of a list of names.
pub open spec fn names_view(v: Seq<String>) -> Seq<Seq<char>> {
    v.map_values(|s: String| s@)
}

impl View for InstallRequest {
    type V = RequestSpec;

    open spec fn view(&self) -> RequestSpec {
        match self {
            InstallRequest::InstallLoader { kind, version, arch } => RequestSpec::InstallLoader(
                *kind,
                opt_view(*version),
                arch@,
            ),
            InstallRequest::FetchRelease { source, asset, version } => RequestSpec::FetchRelease(
                source@,
                asset@,
                version@,
            ),
            InstallRequest::Download { url } => RequestSpec::Download(url@),
            InstallRequest::ExtractDependency { data, target } => RequestSpec::ExtractDependency(
                data@,
                *target,
            ),
            InstallRequest::ExtractMod { data, subdir } => RequestSpec::ExtractMod(
                data@,
                names_view(subdir@),
            ),
            InstallRequest::CopyModFiles { subdir } => RequestSpec::CopyModFiles(
                names_view(subdir@),
            ),
            InstallRequest::EnableMod { mod_slug } => RequestSpec::EnableMod(mod_slug@),
            InstallRequest::SaveInstall { version } => RequestSpec::SaveInstall(version@),
            InstallRequest::Finished => RequestSpec::Finished,
        }
    }
}

/// Why an extraction failed: the target directory could not be found, or
/// the archive could not be written out.
pub enum ExtractFailure {
    Target(String),
    Archive(String),
}

/// The meaning of an extraction failure.
pub enum ExtractFailureSpec {
    Target(Seq<char>),
    Archive(Seq<char>),
}

/// The outcome of the last request.
pub enum InstallEvent {
    LoaderInstalled(Result<(), String>),
    ReleaseFetched(Result<Option<ReleaseAsset>, String>),
    Downloaded(Result<Vec<u8>, String>),
    Extracted(Result<(), ExtractFailure>),
    PostInstalled(Result<(), String>),
    Saved(Result<(), String>),
}

/// The meaning of an outcome; a release asset as its tag and download URL.
pub enum EventSpec {
    LoaderInstalled(Result<(), Seq<char>>),
    ReleaseFetched(Result<Option<(Seq<char>, Seq<char>)>, Seq<char>>),
    Downloaded(Result<Seq<u8>, Seq<char>>),
    Extracted(Result<(), ExtractFailureSpec>),
    PostInstalled(Result<(), Seq<char>>),
    Saved(Result<(), Seq<char>>),
}

/// The meaning of a unit result with a text error.
pub open spec fn unit_view(r: Result<(), String>) -> Result<(), Seq<char>> {
    match r {
        Ok(()) => Ok(()),
        Err(e) => Err(e@),
    }
}

impl View for InstallEvent {
    type V = EventSpec;

    open spec fn view(&self) -> EventSpec {
        match self {
            InstallEvent::LoaderInstalled(r) => EventSpec::LoaderInstalled(unit_view(*r)),
            InstallEvent::ReleaseFetched(r) => EventSpec::ReleaseFetched(
                match r {
                    Ok(Some(a)) => Ok(Some((a.tag@, a.download_url@))),
                    Ok(None) => Ok(None),
                    Err(e) => Err(e@),
                },
            ),
            InstallEvent::Downloaded(r) => EventSpec::Downloaded(
                match r {
                    Ok(d) => Ok(d@),
                    Err(e) => Err(e@),
                },
            ),
            InstallEvent::Extracted(r) => EventSpec::Extracted(
                match r {
                    Ok(()) => Ok(()),
                    Err(ExtractFailure::Target(e)) => Err(ExtractFailureSpec::Target(e@)),
                    Err(ExtractFailure::Archive(e)) => Err(ExtractFailureSpec::Archive(e@)),
                },
            ),
            InstallEvent::PostInstalled(r) => EventSpec::PostInstalled(unit_view(*r)),
            InstallEvent::Saved(r) => EventSpec::Saved(unit_view(*r)),
        }
    }
}

/// Where the install sequence stands: what it waits for. The dependency
/// stages carry the dependency's position; the mod stages after the release
/// was found carry the version it will be recorded under.
pub enum InstallStage {
    Loader,
    DepRelease(nat),
    DepDownload(nat),
    DepExtract(nat),
    ModRelease,
    ModDownload(Seq<char>),
    ModExtract(Seq<char>),
    PostInstall(Seq<char>),
    Saving(Seq<char>),
    Done,
}

/// One step of the sequence: the messages it reports, the stage it moves
/// to, and what it asks for next.
pub struct Transition {
    pub notes: Seq<Note>,
    pub stage: InstallStage,
    pub request: RequestSpec,
}

/// Report `notes`, then the failure `text`, and stop.
pub open spec fn fail_after(notes: Seq<Note>, text: Seq<char>) -> Transition {
    Transition {
        notes: notes.push(Note::Failed(text)),
        stage: InstallStage::Done,
        request: RequestSpec::Finished,
    }
}

/// Wait for `request` in `stage`, reporting nothing.
pub open spec fn ask(stage: InstallStage, request: RequestSpec) -> Transition {
    Transition { notes: Seq::empty(), stage, request }
}

/// The text of an answer that does not fit what was asked.
pub open spec fn unexpected_text() -> Seq<char> {
    "install received an answer it did not ask for"@
}

/// Go on with dependency `i`, or with the mod itself once every dependency
/// is in place.
pub open spec fn begin_from(m: Manifest, i: nat) -> Transition {
    if i < m.dependencies@.len() {
        let d = m.dependencies@[i as int];
        let head = seq![
            Note::Progress(InstallStep::InstallingDependency, d.name@),
            Note::Status("Installing dependency: "@ + d.name@ + "..."@),
        ];
        match dep_type_of(d.dep_type@) {
            None => fail_after(
                head,
                "Bad dependency type for '"@ + d.name@ + "': unsupported dependency type: "@
                    + d.dep_type@,
            ),
            Some(_) => match parse_source_spec(d.source@) {
                Err(e) => fail_after(
                    head,
                    "Bad source for '"@ + d.name@ + "': "@ + source_error_text(e, d.source@),
                ),
                Ok(src) => Transition {
                    notes: head,
                    stage: InstallStage::DepRelease(i),
                    request: RequestSpec::FetchRelease(src, d.asset@, d.version@),
                },
            },
        }
    } else {
        let head = seq![
            Note::Progress(InstallStep::InstallingMod, m.name@),
            Note::Status("Installing "@ + m.name@ + "..."@),
        ];
        match parse_source_spec(m.source@) {
            Err(e) => fail_after(head, source_error_text(e, m.source@)),
            Ok(src) => Transition {
                notes: head,
                stage: InstallStage::ModRelease,
                request: RequestSpec::FetchRelease(src, m.release.asset@, m.version@),
            },
        }
    }
}

/// Report saving and ask to record the install at `version`.
pub open spec fn begin_saving(version: Seq<char>) -> Transition {
    Transition {
        notes: seq![Note::Progress(InstallStep::SavingState, Seq::empty())],
        stage: InstallStage::Saving(version),
        request: RequestSpec::SaveInstall(version),
    }
}

/// After the mod's files are in place: the loader's post-install step, if
/// it has one, else saving.
pub open spec fn after_mod_files(m: Manifest, loader: LoaderKind, version: Seq<char>) -> Transition {
    match loader_post_install(loader) {
        Some(PostInstall::EnableUe4ssMod) => Transition {
            notes: seq![Note::Progress(InstallStep::PostInstall, Seq::empty())],
            stage: InstallStage::PostInstall(version),
            request: RequestSpec::EnableMod(m.id@),
        },
        None => begin_saving(version),
    }
}

/// The subdirectory of the mod directory the mod is extracted into: its own
/// for UE4SS, none otherwise.
pub open spec fn mod_subdir(m: Manifest, loader: LoaderKind) -> Seq<Seq<char>> {
    if loader == LoaderKind::Ue4ss {
        seq![m.id@]
    } else {
        Seq::empty()
    }
}

/// How the sequence begins for manifest `m`.
pub open spec fn install_start(m: Manifest) -> Transition {
    match loader_kind_of(m.loader.name@) {
        None => fail_after(Seq::empty(), "Invalid loader: unsupported loader: "@ + m.loader.name@),
        Some(k) => Transition {
            notes: seq![
                Note::Progress(InstallStep::InstallingLoader, m.loader.name@),
                Note::Status("Installing "@ + m.loader.name@ + "..."@),
            ],
            stage: InstallStage::Loader,
            request: RequestSpec::InstallLoader(
                k,
                opt_view(m.loader.version),
                match m.loader.arch {
                    Some(a) => a@,
                    None => default_arch(),
                },
            ),
        },
    }
}

/// How the sequence for manifest `m`, with loader `loader`, goes on from
/// `stage` when the outcome `ev` comes in.
pub open spec fn install_transition(
    m: Manifest,
    loader: LoaderKind,
    stage: InstallStage,
    ev: EventSpec,
) -> Transition {
    match stage {
        InstallStage::Done => ask(InstallStage::Done, RequestSpec::Finished),
        InstallStage::Loader => match ev {
            EventSpec::LoaderInstalled(Ok(())) => begin_from(m, 0),
            EventSpec::LoaderInstalled(Err(e)) => fail_after(
                Seq::empty(),
                "Failed to install loader: "@ + e,
            ),
            _ => fail_after(Seq::empty(), unexpected_text()),
        },
        InstallStage::DepRelease(i) => {
            let name = m.dependencies@[i as int].name@;
            match ev {
                EventSpec::ReleaseFetched(Ok(Some((_tag, url)))) => ask(
                    InstallStage::DepDownload(i),
                    RequestSpec::Download(url),
                ),
                EventSpec::ReleaseFetched(Ok(None)) => fail_after(
                    Seq::empty(),
                    "No release found for dependency '"@ + name + "'"@,
                ),
                EventSpec::ReleaseFetched(Err(e)) => fail_after(
                    Seq::empty(),
                    "Failed to fetch dependency '"@ + name + "': "@ + e,
                ),
                _ => fail_after(Seq::empty(), unexpected_text()),
            }
        },
        InstallStage::DepDownload(i) => {
            let d = m.dependencies@[i as int];
            match ev {
                EventSpec::Downloaded(Ok(data)) => ask(
                    InstallStage::DepExtract(i),
                    RequestSpec::ExtractDependency(data, dep_type_of(d.dep_type@)->Some_0),
                ),
                EventSpec::Downloaded(Err(e)) => fail_after(
                    Seq::empty(),
                    "Failed to download '"@ + d.name@ + "': "@ + e,
                ),
                _ => fail_after(Seq::empty(), unexpected_text()),
            }
        },
        InstallStage::DepExtract(i) => {
            let name = m.dependencies@[i as int].name@;
            match ev {
                EventSpec::Extracted(Ok(())) => begin_from(m, i + 1),
                EventSpec::Extracted(Err(ExtractFailureSpec::Target(e))) => fail_after(
                    Seq::empty(),
                    e,
                ),
                EventSpec::Extracted(Err(ExtractFailureSpec::Archive(e))) => fail_after(
                    Seq::empty(),
                    "Failed to extract '"@ + name + "': "@ + e,
                ),
                _ => fail_after(Seq::empty(), unexpected_text()),
            }
        },
        InstallStage::ModRelease => match ev {
            EventSpec::ReleaseFetched(Ok(Some((tag, url)))) => ask(
                InstallStage::ModDownload(normalize_version_spec(tag)),
                RequestSpec::Download(url),
            ),
            EventSpec::ReleaseFetched(Ok(None)) => fail_after(
                Seq::empty(),
                "No release found for the mod"@,
            ),
            EventSpec::ReleaseFetched(Err(e)) => fail_after(
                Seq::empty(),
                "Failed to fetch mod release: "@ + e,
            ),
            _ => fail_after(Seq::empty(), unexpected_text()),
        },
        InstallStage::ModDownload(v) => match ev {
            EventSpec::Downloaded(Ok(data)) => ask(
                InstallStage::ModExtract(v),
                RequestSpec::ExtractMod(data, mod_subdir(m, loader)),
            ),
            EventSpec::Downloaded(Err(e)) => fail_after(
                Seq::empty(),
                "Failed to download mod: "@ + e,
            ),
            _ => fail_after(Seq::empty(), unexpected_text()),
        },
        InstallStage::ModExtract(v) => match ev {
            EventSpec::Extracted(Ok(())) => after_mod_files(m, loader, v),
            EventSpec::Extracted(Err(ExtractFailureSpec::Target(e))) => fail_after(
                Seq::empty(),
                e,
            ),
            EventSpec::Extracted(Err(ExtractFailureSpec::Archive(e))) => fail_after(
                Seq::empty(),
                "Failed to extract mod: "@ + e,
            ),
            _ => fail_after(Seq::empty(), unexpected_text()),
        },
        InstallStage::PostInstall(v) => match ev {
            EventSpec::PostInstalled(Ok(())) => begin_saving(v),
            EventSpec::PostInstalled(Err(e)) => fail_after(
                Seq::empty(),
                "Post-install failed: "@ + e,
            ),
            _ => fail_after(Seq::empty(), unexpected_text()),
        },
        InstallStage::Saving(v) => match ev {
            EventSpec::Saved(Ok(())) => Transition {
                notes: seq![Note::Installed(m.name@, v)],
                stage: InstallStage::Done,
                request: RequestSpec::Finished,
            },
            EventSpec::Saved(Err(e)) => fail_after(
                Seq::empty(),
                "Failed to save state: "@ + e,
            ),
            _ => fail_after(Seq::empty(), unexpected_text()),
        },
    }
}

/// What one step of the sequence produced.
pub struct InstallStepOut {
    /// Messages to report, in order.
    pub messages: Vec<ProgressMsg>,
    /// What to do next.
    pub request: InstallRequest,
}

/// The stages, without their data.
#[derive(PartialEq, Eq, Structural)]
enum Phase {
    Loader,
    DepRelease,
    DepDownload,
    DepExtract,
    ModRelease,
    ModDownload,
    ModExtract,
    PostInstall,
    Saving,
    Done,
}

/// An install in progress: the manifest, its loader, and where it stands.
pub struct InstallSession {
    manifest: Manifest,
    loader: LoaderKind,
    phase: Phase,
    index: usize,
    version: String,
}

/// `a` then `b`.
fn text2(a: &str, b: &str) -> (r: String)
    ensures
        r@ == a@ + b@,
{
    let mut t = String::new();
    push_str(&mut t, a);
    push_str(&mut t, b);
    t
}

/// `a` then `b` then `c`.
fn text3(a: &str, b: &str, c: &str) -> (r: String)
    ensures
        r@ == a@ + b@ + c@,
{
    let mut t = String::new();
    push_str(&mut t, a);
    push_str(&mut t, b);
    push_str(&mut t, c);
    t
}

/// `a` then `b` then `c` then `d`.
fn text4(a: &str, b: &str, c: &str, d: &str) -> (r: String)
    ensures
        r@ == a@ + b@ + c@ + d@,
{
    let mut t = text3(a, b, c);
    push_str(&mut t, d);
    t
}

impl InstallSession {
    /// Where the sequence stands.
    pub closed spec fn stage(&self) -> InstallStage {
        match self.phase {
            Phase::Loader => InstallStage::Loader,
            Phase::DepRelease => InstallStage::DepRelease(self.index as nat),
            Phase::DepDownload => InstallStage::DepDownload(self.index as nat),
            Phase::DepExtract => InstallStage::DepExtract(self.index as nat),
            Phase::ModRelease => InstallStage::ModRelease,
            Phase::ModDownload => InstallStage::ModDownload(self.version@),
            Phase::ModExtract => InstallStage::ModExtract(self.version@),
            Phase::PostInstall => InstallStage::PostInstall(self.version@),
            Phase::Saving => InstallStage::Saving(self.version@),
            Phase::Done => InstallStage::Done,
        }
    }

    /// The manifest being installed.
    pub closed spec fn manifest_spec(&self) -> Manifest {
        self.manifest
    }

    /// The manifest's loader.
    pub closed spec fn loader_spec(&self) -> LoaderKind {
        self.loader
    }

    /// The sequence is over.
    pub open spec fn finished(&self) -> bool {
        self.stage() is Done
    }

    /// The bookkeeping agrees with the manifest.
    pub closed spec fn wf(&self) -> bool {
        &&& self.phase != Phase::Done ==> loader_kind_of(self.manifest.loader.name@) == Some(
            self.loader,
        )
        &&& (self.phase == Phase::DepRelease || self.phase == Phase::DepDownload || self.phase
            == Phase::DepExtract) ==> {
            &&& self.index < self.manifest.dependencies.len()
            &&& dep_type_of(self.manifest.dependencies@[self.index as int].dep_type@) is Some
        }
    }

    /// The manifest being installed.
    pub fn manifest(&self) -> (r: &Manifest)
        ensures
            *r == self.manifest_spec(),
    {
        &self.manifest
    }

    /// Stop after reporting `pre` and the failure `text`.
    fn fail(&mut self, pre: Vec<ProgressMsg>, text: String) -> (r: InstallStepOut)
        ensures
            final(self).manifest == old(self).manifest,
            final(self).loader == old(self).loader,
            final(self).phase == Phase::Done,
            final(self).wf(),
            notes_of(r.messages@) == notes_of(pre@).push(Note::Failed(text@)),
            r.request@ == RequestSpec::Finished,
    {
        let mut messages = pre;
        let ghost before = messages@;
        messages.push(ProgressMsg::Failed(text));
        self.phase = Phase::Done;
        assert(notes_of(messages@) =~= notes_of(before).push(Note::Failed(text@)));
        InstallStepOut { messages, request: InstallRequest::Finished }
    }

    /// Wait in `phase` for `request`, reporting nothing.
    fn ask(&mut self, phase: Phase, request: InstallRequest) -> (r: InstallStepOut)
        ensures
            final(self).manifest == old(self).manifest,
            final(self).loader == old(self).loader,
            final(self).index == old(self).index,
            final(self).version == old(self).version,
            final(self).phase == phase,
            notes_of(r.messages@) == Seq::<Note>::empty(),
            r.request == request,
    {
        self.phase = phase;
        let messages: Vec<ProgressMsg> = Vec::new();
        assert(notes_of(messages@) =~= Seq::<Note>::empty());
        InstallStepOut { messages, request }
    }

    /// Go on with dependency `i`, or with the mod once every dependency is in place.
    fn begin_from(&mut self, i: usize) -> (r: InstallStepOut)
        requires
            i <= old(self).manifest.dependencies@.len(),
            loader_kind_of(old(self).manifest.loader.name@) == Some(old(self).loader),
        ensures
            final(self).manifest == old(self).manifest,
            final(self).loader == old(self).loader,
            final(self).wf(),
            notes_of(r.messages@) == begin_from(old(self).manifest, i as nat).notes,
            final(self).stage() == begin_from(old(self).manifest, i as nat).stage,
            r.request@ == begin_from(old(self).manifest, i as nat).request,
    {
        let mut messages: Vec<ProgressMsg> = Vec::new();
        if i < self.manifest.dependencies.len() {
            let name = self.manifest.dependencies[i].name.clone();
            let dep_type = self.manifest.dependencies[i].dep_type.clone();
            let src = self.manifest.dependencies[i].source.clone();
            messages.push(
                ProgressMsg::InstallProgress {
                    step: InstallStep::InstallingDependency,
                    detail: name.clone(),
                },
            );
            messages.push(
                ProgressMsg::Status(text3("Installing dependency: ", name.as_str(), "...")),
            );
            let ghost head = notes_of(messages@);
            assert(head =~= seq![
                Note::Progress(InstallStep::InstallingDependency, name@),
                Note::Status("Installing dependency: "@ + name@ + "..."@),
            ]);
            if DepType::from_str(dep_type.as_str()).is_err() {
                let t = text4(
                    "Bad dependency type for '",
                    name.as_str(),
                    "': unsupported dependency type: ",
                    dep_type.as_str(),
                );
                return self.fail(messages, t);
            }
            match Source::parse(src.as_str()) {
                Err(e) => {
                    let mut t = text3("Bad source for '", name.as_str(), "': ");
                    let et = source_error_message(e, src.as_str());
                    push_str(&mut t, et.as_str());
                    self.fail(messages, t)
                },
                Ok(source) => {
                    self.phase = Phase::DepRelease;
                    self.index = i;
                    let request = InstallRequest::FetchRelease {
                        source,
                        asset: self.manifest.dependencies[i].asset.clone(),
                        version: self.manifest.dependencies[i].version.clone(),
                    };
                    InstallStepOut { messages, request }
                },
            }
        } else {
            let name = self.manifest.name.clone();
            messages.push(
                ProgressMsg::InstallProgress { step: InstallStep::InstallingMod, detail: name.clone() },
            );
            messages.push(ProgressMsg::Status(text3("Installing ", name.as_str(), "...")));
            let ghost head = notes_of(messages@);
            assert(head =~= seq![
                Note::Progress(InstallStep::InstallingMod, name@),
                Note::Status("Installing "@ + name@ + "..."@),
            ]);
            match self.manifest.parsed_source() {
                Err(e) => {
                    let t = source_error_message(e, self.manifest.source.as_str());
                    self.fail(messages, t)
                },
                Ok(source) => {
                    self.phase = Phase::ModRelease;
                    let request = InstallRequest::FetchRelease {
                        source,
                        asset: self.manifest.release.asset.clone(),
                        version: self.manifest.version.clone(),
                    };
                    InstallStepOut { messages, request }
                },
            }
        }
    }

    /// Report saving and ask to record the install at the current version.
    fn begin_saving(&mut self) -> (r: InstallStepOut)
        ensures
            final(self).manifest == old(self).manifest,
            final(self).loader == old(self).loader,
            final(self).phase == Phase::Saving,
            final(self).version == old(self).version,
            notes_of(r.messages@) == begin_saving(old(self).version@).notes,
            r.request@ == begin_saving(old(self).version@).request,
    {
        let mut messages: Vec<ProgressMsg> = Vec::new();
        messages.push(
            ProgressMsg::InstallProgress { step: InstallStep::SavingState, detail: String::new() },
        );
        proof {
            reveal_strlit("");
        }
        assert(notes_of(messages@) =~= begin_saving(self.version@).notes);
        self.phase = Phase::Saving;
        InstallStepOut { messages, request: InstallRequest::SaveInstall { version: self.version.clone() } }
    }

    /// Begin installing `manifest`: report the loader and ask to install it.
    pub fn start(manifest: Manifest) -> (r: (InstallSession, InstallStepOut))
        ensures
            r.0.wf(),
            r.0.manifest_spec() == manifest,
            loader_kind_of(manifest.loader.name@) matches Some(k) ==> r.0.loader_spec() == k,
            notes_of(r.1.messages@) == install_start(manifest).notes,
            r.0.stage() == install_start(manifest).stage,
            r.1.request@ == install_start(manifest).request,
    {
        match manifest.loader_kind() {
            Err(_) => {
                let t = text2("Invalid loader: unsupported loader: ", manifest.loader.name());
                proof {
                    reveal_strlit("");
                }
                let mut session = InstallSession {
                    manifest,
                    loader: LoaderKind::NoLoader,
                    phase: Phase::Done,
                    index: 0,
                    version: String::new(),
                };
                let out = session.fail(Vec::new(), t);
                assert(notes_of(Seq::<ProgressMsg>::empty()) =~= Seq::<Note>::empty());
                (session, out)
            },
            Ok(kind) => {
                let name = manifest.loader.name.clone();
                let mut messages: Vec<ProgressMsg> = Vec::new();
                messages.push(
                    ProgressMsg::InstallProgress {
                        step: InstallStep::InstallingLoader,
                        detail: name.clone(),
                    },
                );
                messages.push(ProgressMsg::Status(text3("Installing ", name.as_str(), "...")));
                let version = match manifest.loader.version() {
                    Some(v) => Some(v.to_owned()),
                    None => None,
                };
                let arch = manifest.loader.arch().to_owned();
                let request = InstallRequest::InstallLoader { kind, version, arch };
                assert(notes_of(messages@) =~= install_start(manifest).notes);
                let session = InstallSession {
                    manifest,
                    loader: kind,
                    phase: Phase::Loader,
                    index: 0,
                    version: String::new(),
                };
                (session, InstallStepOut { messages, request })
            },
        }
    }

    /// Take the outcome of the last request; say what to report and what to
    /// ask for next.
    pub fn step(&mut self, event: InstallEvent) -> (r: InstallStepOut)
        requires
            old(self).wf(),
        ensures
            final(self).wf(),
            final(self).manifest_spec() == old(self).manifest_spec(),
            final(self).loader_spec() == old(self).loader_spec(),
            ({
                let t = install_transition(
                    old(self).manifest_spec(),
                    old(self).loader_spec(),
                    old(self).stage(),
                    event@,
                );
                &&& notes_of(r.messages@) == t.notes
                &&& final(self).stage() == t.stage
                &&& r.request@ == t.request
            }),
    {
        let ghost ev = event@;
        if self.phase == Phase::Done {
            return self.ask(Phase::Done, InstallRequest::Finished);
        }
        let unexpected = "install received an answer it did not ask for";
        match event {
            InstallEvent::LoaderInstalled(res) => {
                if self.phase != Phase::Loader {
                    return self.fail(Vec::new(), unexpected.to_owned());
                }
                match res {
                    Ok(()) => self.begin_from(0),
                    Err(e) => {
                        let t = text2("Failed to install loader: ", e.as_str());
                        self.fail(Vec::new(), t)
                    },
                }
            },
            InstallEvent::ReleaseFetched(res) => {
                if self.phase == Phase::DepRelease {
                    let name = self.manifest.dependencies[self.index].name.clone();
                    match res {
                        Ok(Some(asset)) => self.ask(
                            Phase::DepDownload,
                            InstallRequest::Download { url: asset.download_url },
                        ),
                        Ok(None) => {
                            let t = text3("No release found for dependency '", name.as_str(), "'");
                            self.fail(Vec::new(), t)
                        },
                        Err(e) => {
                            let t = text4(
                                "Failed to fetch dependency '",
                                name.as_str(),
                                "': ",
                                e.as_str(),
                            );
                            self.fail(Vec::new(), t)
                        },
                    }
                } else if self.phase == Phase::ModRelease {
                    match res {
                        Ok(Some(asset)) => {
                            self.version = normalize_version(asset.tag.as_str());
                            self.ask(
                                Phase::ModDownload,
                                InstallRequest::Download { url: asset.download_url },
                            )
                        },
                        Ok(None) => self.fail(Vec::new(), "No release found for the mod".to_owned()),
                        Err(e) => {
                            let t = text2("Failed to fetch mod release: ", e.as_str());
                            self.fail(Vec::new(), t)
                        },
                    }
                } else {
                    self.fail(Vec::new(), unexpected.to_owned())
                }
            },
            InstallEvent::Downloaded(res) => {
                if self.phase == Phase::DepDownload {
                    let name = self.manifest.dependencies[self.index].name.clone();
                    match res {
                        Ok(data) => {
                            let target = DepType::from_str(
                                self.manifest.dependencies[self.index].dep_type.as_str(),
                            ).unwrap();
                            self.ask(
                                Phase::DepExtract,
                                InstallRequest::ExtractDependency { data, target },
                            )
                        },
                        Err(e) => {
                            let t = text4("Failed to download '", name.as_str(), "': ", e.as_str());
                            self.fail(Vec::new(), t)
                        },
                    }
                } else if self.phase == Phase::ModDownload {
                    match res {
                        Ok(data) => {
                            let mut subdir: Vec<String> = Vec::new();
                            if self.loader == LoaderKind::Ue4ss {
                                subdir.push(self.manifest.id.clone());
                            }
                            assert(names_view(subdir@) =~= mod_subdir(self.manifest, self.loader));
                            self.ask(Phase::ModExtract, InstallRequest::ExtractMod { data, subdir })
                        },
                        Err(e) => {
                            let t = text2("Failed to download mod: ", e.as_str());
                            self.fail(Vec::new(), t)
                        },
                    }
                } else {
                    self.fail(Vec::new(), unexpected.to_owned())
                }
            },
            InstallEvent::Extracted(res) => {
                if self.phase == Phase::DepExtract {
                    let name = self.manifest.dependencies[self.index].name.clone();
                    match res {
                        Ok(()) => {
                            let next = self.index + 1;
                            self.begin_from(next)
                        },
                        Err(ExtractFailure::Target(e)) => self.fail(Vec::new(), e),
                        Err(ExtractFailure::Archive(e)) => {
                            let t = text4("Failed to extract '", name.as_str(), "': ", e.as_str());
                            self.fail(Vec::new(), t)
                        },
                    }
                } else if self.phase == Phase::ModExtract {
                    match res {
                        Ok(()) => {
                            if self.loader == LoaderKind::Ue4ss {
                                let mut messages: Vec<ProgressMsg> = Vec::new();
                                messages.push(
                                    ProgressMsg::InstallProgress {
                                        step: InstallStep::PostInstall,
                                        detail: String::new(),
                                    },
                                );
                                proof {
                                    reveal_strlit("");
                                }
                                assert(notes_of(messages@) =~= seq![
                                    Note::Progress(InstallStep::PostInstall, Seq::empty()),
                                ]);
                                self.phase = Phase::PostInstall;
                                let request = InstallRequest::EnableMod {
                                    mod_slug: self.manifest.id.clone(),
                                };
                                InstallStepOut { messages, request }
                            } else {
                                self.begin_saving()
                            }
                        },
                        Err(ExtractFailure::Target(e)) => self.fail(Vec::new(), e),
                        Err(ExtractFailure::Archive(e)) => {
                            let t = text2("Failed to extract mod: ", e.as_str());
                            self.fail(Vec::new(), t)
                        },
                    }
                } else {
                    self.fail(Vec::new(), unexpected.to_owned())
                }
            },
            InstallEvent::PostInstalled(res) => {
                if self.phase != Phase::PostInstall {
                    return self.fail(Vec::new(), unexpected.to_owned());
                }
                match res {
                    Ok(()) => self.begin_saving(),
                    Err(e) => {
                        let t = text2("Post-install failed: ", e.as_str());
                        self.fail(Vec::new(), t)
                    },
                }
            },
            InstallEvent::Saved(res) => {
                if self.phase != Phase::Saving {
                    return self.fail(Vec::new(), unexpected.to_owned());
                }
                match res {
                    Ok(()) => {
                        let mut messages: Vec<ProgressMsg> = Vec::new();
                        messages.push(
                            ProgressMsg::Done(
                                TaskResult::Install {
                                    mod_name: self.manifest.name.clone(),
                                    version: self.version.clone(),
                                },
                            ),
                        );
                        assert(notes_of(messages@) =~= seq![
                            Note::Installed(self.manifest.name@, self.version@),
                        ]);
                        self.phase = Phase::Done;
                        InstallStepOut { messages, request: InstallRequest::Finished }
                    },
                    Err(e) => {
                        let t = text2("Failed to save state: ", e.as_str());
                        self.fail(Vec::new(), t)
                    },
                }
            },
        }
    }
}

/// The versions of dependencies by the slug of their names; a later
/// dependency with the same slug wins.
pub open spec fn dependency_versions(deps: Seq<Dependency>) -> Map<Seq<char>, Seq<char>>
    decreases deps.len(),
{
    if deps.len() == 0 {
        Map::empty()
    } else {
        dependency_versions(deps.drop_last()).insert(
            slug_spec(deps.last().name@),
            deps.last().version@,
        )
    }
}

/// The record of installing manifest `m`'s mod at `version`, at time `installed_at`.
pub open spec fn install_record_spec(
    m: Manifest,
    version: Seq<char>,
    installed_at: Seq<char>,
    local_path: Option<Seq<char>>,
) -> ModRecord {
    ModRecord {
        name: m.name@,
        source: m.source@,
        version,
        installed_at,
        loader: m.loader.name@,
        local_path,
        dependencies: dependency_versions(m.dependencies@),
    }
}

/// The record of installing manifest `m`'s mod at `version`, at time
/// `installed_at`, from the local folder `local_path` if it was installed from one.
pub fn install_record(m: &Manifest, version: &str, installed_at: &str, local_path: Option<String>) -> (r: ModState)
    ensures
        r@ == install_record_spec(*m, version@, installed_at@, opt_view(local_path)),
{
    let mut deps: StrMap<String> = StrMap::new();
    let mut i: usize = 0;
    while i < m.dependencies.len()
        invariant
            i <= m.dependencies@.len(),
            deps.as_map().map_values(|v: String| v@) == dependency_versions(
                m.dependencies@.take(i as int),
            ),
        decreases m.dependencies.len() - i,
    {
        let ghost before = deps.as_map();
        let d = &m.dependencies[i];
        deps.insert(slugify(d.name.as_str()), d.version.clone());
        assert(m.dependencies@.take(i + 1).drop_last() =~= m.dependencies@.take(i as int));
        assert(deps.as_map().map_values(|v: String| v@) =~= before.map_values(|v: String| v@).insert(
            slug_spec(d.name@),
            d.version@,
        ));
        i = i + 1;
    }
    assert(m.dependencies@.take(m.dependencies@.len() as int) =~= m.dependencies@);
    let r = ModState {
        name: m.name.clone(),
        source: m.source.clone(),
        version: version.to_owned(),
        installed_at: installed_at.to_owned(),
        loader: m.loader.name.clone(),
        local_path,
        dependencies: deps,
    };
    r
}

/// Record in `state` that manifest `m`'s mod is installed at `version`, at
/// time `installed_at` (from the local folder `local_path`, if any), in the
/// game found at `game_path`: the game's entry
/// is created if it is new (with the manifest's game name and that path)
/// and otherwise kept, and the mod's record is put under the mod's id.
pub fn record_install(
    state: &mut AppState,
    m: &Manifest,
    game_path: &str,
    version: &str,
    installed_at: &str,
    local_path: Option<String>,
)
    ensures
        ({
            let gs = slug_spec(m.game.name@);
            let before = old(state).games.as_map();
            let after = final(state).games.as_map();
            &&& after.dom() == before.dom().insert(gs)
            &&& forall|k: Seq<char>| #[trigger]
                before.dom().contains(k) && k != gs ==> after[k] == before[k]
            &&& before.dom().contains(gs) ==> {
                &&& after[gs].name == before[gs].name
                &&& after[gs].path == before[gs].path
                &&& after[gs].mods.as_map().dom() == before[gs].mods.as_map().dom().insert(m.id@)
                &&& forall|k: Seq<char>| #[trigger]
                    before[gs].mods.as_map().dom().contains(k) && k != m.id@
                        ==> after[gs].mods.as_map()[k] == before[gs].mods.as_map()[k]
            }
            &&& !before.dom().contains(gs) ==> {
                &&& after[gs].name@ == m.game.name@
                &&& after[gs].path@ == game_path@
                &&& after[gs].mods.as_map().dom() == Set::<Seq<char>>::empty().insert(m.id@)
            }
            &&& after[gs].mods.as_map()[m.id@]@ == install_record_spec(
                *m,
                version@,
                installed_at@,
                opt_view(local_path),
            )
        }),
        final(state).schema_version == old(state).schema_version,
        final(state).last_update_check == old(state).last_update_check,
        final(state).manifest_cache == old(state).manifest_cache,
{
    let record = install_record(m, version, installed_at, local_path);
    let game_slug = m.game_slug();
    let game = state.get_or_create_game(game_slug.as_str(), m.game.name.as_str(), game_path);
    game.mods.insert(m.id.clone(), record);
}

/// Some note of `notes` reports a failure.
pub open spec fn reports_failure(notes: Seq<Note>) -> bool {
    exists|i: int| 0 <= i < notes.len() && #[trigger] notes[i] is Failed
}

/// What `begin_from` reports before a failure: progress and status only.
proof fn lemma_begin_from_failure(m: Manifest, i: nat)
    ensures
        reports_failure(begin_from(m, i).notes) ==> begin_from(m, i).stage is Done
            && begin_from(m, i).request is Finished && begin_from(m, i).notes.last() is Failed,
        !reports_failure(begin_from(m, i).notes) ==> !(begin_from(m, i).stage is Done),
{
    let t = begin_from(m, i);
    if reports_failure(t.notes) {
        let k = choose|k: int| 0 <= k < t.notes.len() && #[trigger] t.notes[k] is Failed;
        assert(k == 2);
    }
}

/// `begin_from` reports no completed install.
proof fn lemma_begin_from_not_installed(m: Manifest, i: nat)
    ensures
        forall|k: int|
            0 <= k < begin_from(m, i).notes.len() ==> !(#[trigger] begin_from(m, i).notes[k] is Installed),
{
    let t = begin_from(m, i);
    assert forall|k: int| 0 <= k < t.notes.len() implies !(#[trigger] t.notes[k] is Installed) by {
        assert(k == 0 || k == 1 || k == 2);
    }
}

/// A failure ends the install: a step that reports a failure reports it
/// last, moves to the end and asks for nothing more; and once the install
/// is over, every later answer is ignored.
pub proof fn lemma_failure_ends_install(
    m: Manifest,
    loader: LoaderKind,
    stage: InstallStage,
    ev: EventSpec,
)
    ensures
        ({
            let t = install_transition(m, loader, stage, ev);
            reports_failure(t.notes) ==> t.stage is Done && t.request is Finished
                && t.notes.last() is Failed
        }),
        stage is Done ==> install_transition(m, loader, stage, ev) == ask(
            InstallStage::Done,
            RequestSpec::Finished,
        ),
{
    let t = install_transition(m, loader, stage, ev);
    match stage {
        InstallStage::Loader => {
            lemma_begin_from_failure(m, 0);
        },
        InstallStage::DepExtract(i) => {
            lemma_begin_from_failure(m, i + 1);
        },
        _ => {},
    }
    if reports_failure(t.notes) {
        let k = choose|k: int| 0 <= k < t.notes.len() && #[trigger] t.notes[k] is Failed;
        match stage {
            InstallStage::Saving(_) => {
                if ev matches EventSpec::Saved(Ok(())) {
                    assert(t.notes[k] is Installed);
                }
            },
            InstallStage::ModExtract(_) => {
                if ev matches EventSpec::Extracted(Ok(())) {
                    assert(!(t.notes[k] is Failed));
                }
            },
            InstallStage::PostInstall(_) => {
                if ev matches EventSpec::PostInstalled(Ok(())) {
                    assert(!(t.notes[k] is Failed));
                }
            },
            _ => {},
        }
    }
}

/// Dependencies are installed one after another in manifest order, and the
/// mod only after the last of them: once dependency `i` is in place, the
/// install goes on with dependency `i + 1`, or with the mod when `i` was the
/// last, or stops on a malformed next dependency.
pub proof fn lemma_dependencies_in_order(m: Manifest, loader: LoaderKind, i: nat)
    ensures
        ({
            let t = install_transition(
                m,
                loader,
                InstallStage::DepExtract(i),
                EventSpec::Extracted(Ok(())),
            );
            &&& t.stage matches InstallStage::DepRelease(j) ==> j == i + 1
            &&& t.stage is ModRelease ==> i + 1 >= m.dependencies@.len()
            &&& (t.stage is DepRelease || t.stage is ModRelease || t.stage is Done)
        }),
{
}

/// A successful install reports the mod's name and the version it was
/// recorded under, and only when the install record was saved.
pub proof fn lemma_success_reports_recorded_version(
    m: Manifest,
    loader: LoaderKind,
    stage: InstallStage,
    ev: EventSpec,
    k: int,
)
    requires
        0 <= k < install_transition(m, loader, stage, ev).notes.len(),
        install_transition(m, loader, stage, ev).notes[k] is Installed,
    ensures
        ({
            let t = install_transition(m, loader, stage, ev);
            &&& stage == InstallStage::Saving(t.notes[k]->Installed_1)
            &&& t.notes[k]->Installed_0 == m.name@
            &&& (ev matches EventSpec::Saved(Ok(_)))
            &&& t.stage is Done
        }),
{
    let t = install_transition(m, loader, stage, ev);
    match stage {
        InstallStage::Loader => {
            lemma_begin_from_not_installed(m, 0);
            if ev matches EventSpec::LoaderInstalled(Ok(())) {
                assert(t == begin_from(m, 0));
                assert(!(t.notes[k] is Installed));
            } else {
                assert(t.notes[k] is Failed);
            }
        },
        InstallStage::DepExtract(i) => {
            lemma_begin_from_not_installed(m, i + 1);
            if ev matches EventSpec::Extracted(Ok(())) {
                assert(t == begin_from(m, i + 1));
                assert(!(t.notes[k] is Installed));
            } else {
                assert(t.notes[k] is Failed);
            }
        },
        InstallStage::Saving(v) => {
            if ev matches EventSpec::Saved(Ok(())) {
                assert(t.notes[k] == Note::Installed(m.name@, v));
            } else {
                assert(t.notes[k] is Failed);
            }
        },
        InstallStage::ModExtract(v) => {
            if ev matches EventSpec::Extracted(Ok(())) {
                assert(t.notes[k] is Progress);
            } else {
                assert(t.notes[k] is Failed);
            }
        },
        InstallStage::PostInstall(v) => {
            if ev matches EventSpec::PostInstalled(Ok(())) {
                assert(t.notes[k] is Progress);
            } else {
                assert(t.notes[k] is Failed);
            }
        },
        InstallStage::Done => {},
        _ => {
            assert(t.notes[k] is Failed);
        },
    }
}

/// The folder recorded for the manifest's game, if the state has one.
pub fn saved_game_path(state: &AppState, m: &Manifest) -> (r: Option<String>)
    ensures
        ({
            let games = state.games.as_map();
            let gs = slug_spec(m.game.name@);
            &&& games.dom().contains(gs) ==> (r matches Some(p) && p@ == games[gs].path@)
            &&& !games.dom().contains(gs) ==> r is None
        }),
{
    let slug = m.game_slug();
    match state.games.get(slug.as_str()) {
        Some(g) => Some(g.path.clone()),
        None => None,
    }
}


/// The progress an install reports when all goes well, in order: the loader,
/// each dependency in manifest order, the mod, the loader's post-install
/// step when it has one, and saving.
pub open spec fn install_progress(m: Manifest, loader: LoaderKind) -> Seq<Note> {
    seq![Note::Progress(InstallStep::InstallingLoader, m.loader.name@)] + m.dependencies@.map_values(
        |d: Dependency| Note::Progress(InstallStep::InstallingDependency, d.name@),
    ) + seq![Note::Progress(InstallStep::InstallingMod, m.name@)] + (if loader_post_install(
        loader,
    ) is Some {
        seq![Note::Progress(InstallStep::PostInstall, Seq::empty())]
    } else {
        Seq::empty()
    }) + seq![Note::Progress(InstallStep::SavingState, Seq::empty())]
}

/// The messages of `notes` other than status lines.
pub open spec fn reported(notes: Seq<Note>) -> Seq<Note>
    decreases notes.len(),
{
    if notes.len() == 0 {
        Seq::empty()
    } else if notes.last() is Status {
        reported(notes.drop_last())
    } else {
        reported(notes.drop_last()).push(notes.last())
    }
}

/// The messages of an install from its start through the answers `events`,
/// and the stage it is in afterwards.
pub open spec fn install_run(m: Manifest, loader: LoaderKind, events: Seq<EventSpec>) -> (
    InstallStage,
    Seq<Note>,
)
    decreases events.len(),
{
    if events.len() == 0 {
        let t = install_start(m);
        (t.stage, t.notes)
    } else {
        let (stage, notes) = install_run(m, loader, events.drop_last());
        let t = install_transition(m, loader, stage, events.last());
        (t.stage, notes + t.notes)
    }
}

/// How much of `install_progress` has been reported on reaching `stage`.
pub open spec fn progress_reached(m: Manifest, loader: LoaderKind, stage: InstallStage) -> int {
    let n = m.dependencies@.len() as int;
    match stage {
        InstallStage::Loader => 1,
        InstallStage::DepRelease(i) => i as int + 2,
        InstallStage::DepDownload(i) => i as int + 2,
        InstallStage::DepExtract(i) => i as int + 2,
        InstallStage::ModRelease => n + 2,
        InstallStage::ModDownload(_) => n + 2,
        InstallStage::ModExtract(_) => n + 2,
        InstallStage::PostInstall(_) => n + 3,
        InstallStage::Saving(_) => install_progress(m, loader).len() as int,
        InstallStage::Done => 0,
    }
}

/// What an install has reported so far, without status lines, is in order:
/// while it runs, the start of `install_progress` up to its stage; once it
/// is over, a start of `install_progress` followed by one failure, or by the
/// success report after all of it.
pub open spec fn reported_in_order(m: Manifest, loader: LoaderKind, stage: InstallStage, notes: Seq<
    Note,
>) -> bool {
    let p = install_progress(m, loader);
    match stage {
        InstallStage::Done => exists|j: int, t: Note|
            0 <= j <= p.len() && reported(notes) == p.take(j).push(t) && (t is Failed || (
            t is Installed && j == p.len())),
        InstallStage::DepRelease(i) => i < m.dependencies@.len() && reported(notes) == p.take(
            progress_reached(m, loader, stage),
        ),
        InstallStage::DepDownload(i) => i < m.dependencies@.len() && reported(notes) == p.take(
            progress_reached(m, loader, stage),
        ),
        InstallStage::DepExtract(i) => i < m.dependencies@.len() && reported(notes) == p.take(
            progress_reached(m, loader, stage),
        ),
        InstallStage::PostInstall(_) => loader_post_install(loader) is Some && reported(notes)
            == p.take(progress_reached(m, loader, stage)),
        _ => reported(notes) == p.take(progress_reached(m, loader, stage)),
    }
}

proof fn lemma_reported_concat(a: Seq<Note>, b: Seq<Note>)
    ensures
        reported(a + b) == reported(a) + reported(b),
    decreases b.len(),
{
    if b.len() == 0 {
        assert(a + b =~= a);
        assert(reported(a) + reported(b) =~= reported(a));
    } else {
        lemma_reported_concat(a, b.drop_last());
        assert((a + b).drop_last() =~= a + b.drop_last());
        assert((a + b).last() == b.last());
        if !(b.last() is Status) {
            assert(reported(a) + reported(b) =~= (reported(a) + reported(b.drop_last())).push(
                b.last(),
            ));
        }
    }
}

proof fn lemma_reported_one(x: Note)
    ensures
        reported(seq![x]) == (if x is Status {
            Seq::<Note>::empty()
        } else {
            seq![x]
        }),
{
    assert(seq![x].drop_last() =~= Seq::<Note>::empty());
    assert(seq![x].last() == x);
    assert(reported(Seq::<Note>::empty()) == Seq::<Note>::empty());
    if !(x is Status) {
        assert(Seq::<Note>::empty().push(x) =~= seq![x]);
    }
}

/// The facts about the positions in `install_progress`.
proof fn lemma_install_progress_at(m: Manifest, loader: LoaderKind)
    ensures
        ({
            let p = install_progress(m, loader);
            let n = m.dependencies@.len() as int;
            let post = loader_post_install(loader) is Some;
            &&& p.len() == (if post { n + 4 } else { n + 3 })
            &&& p[0] == Note::Progress(InstallStep::InstallingLoader, m.loader.name@)
            &&& forall|i: int|
                0 <= i < n ==> p[i + 1] == Note::Progress(
                    InstallStep::InstallingDependency,
                    #[trigger] m.dependencies@[i].name@,
                )
            &&& p[n + 1] == Note::Progress(InstallStep::InstallingMod, m.name@)
            &&& post ==> p[n + 2] == Note::Progress(InstallStep::PostInstall, Seq::empty())
            &&& p[p.len() - 1] == Note::Progress(InstallStep::SavingState, Seq::empty())
        }),
{
}

/// Going on with dependency `i` (or the mod) keeps the report in order.
proof fn lemma_begin_from_in_order(m: Manifest, loader: LoaderKind, i: nat, notes: Seq<Note>)
    requires
        i <= m.dependencies@.len(),
        reported(notes) == install_progress(m, loader).take(i as int + 1),
    ensures
        ({
            let t = begin_from(m, i);
            reported_in_order(m, loader, t.stage, notes + t.notes)
        }),
{
    let p = install_progress(m, loader);
    lemma_install_progress_at(m, loader);
    let t = begin_from(m, i);
    lemma_reported_concat(notes, t.notes);
    let x = if i < m.dependencies@.len() {
        Note::Progress(InstallStep::InstallingDependency, m.dependencies@[i as int].name@)
    } else {
        Note::Progress(InstallStep::InstallingMod, m.name@)
    };
    assert(p[i as int + 1] == x);
    assert(p.take(i as int + 1).push(x) =~= p.take(i as int + 2));
    let head = seq![x, t.notes[1]];
    assert(t.notes[1] is Status);
    assert(reported(seq![x, t.notes[1]]) =~= seq![x]) by {
        lemma_reported_one(x);
        lemma_reported_one(t.notes[1]);
        lemma_reported_concat(seq![x], seq![t.notes[1]]);
        assert(seq![x] + seq![t.notes[1]] =~= seq![x, t.notes[1]]);
    }
    if t.stage is Done {
        let f = t.notes.last();
        assert(t.notes =~= head.push(f));
        assert(reported(t.notes) =~= seq![x].push(f)) by {
            lemma_reported_one(f);
            lemma_reported_concat(head, seq![f]);
            assert(head + seq![f] =~= t.notes);
        }
        assert(reported(notes + t.notes) =~= p.take(i as int + 2).push(f));
    } else {
        assert(t.notes =~= head);
        assert(reported(notes + t.notes) =~= p.take(i as int + 2));
    }
}

/// Ending with `text` keeps the report in order.
proof fn lemma_fail_in_order(m: Manifest, loader: LoaderKind, notes: Seq<Note>, j: int, text: Seq<char>)
    requires
        0 <= j <= install_progress(m, loader).len(),
        reported(notes) == install_progress(m, loader).take(j),
    ensures
        reported_in_order(m, loader, InstallStage::Done, notes + fail_after(Seq::empty(), text).notes),
{
    let f = Note::Failed(text);
    let t = fail_after(Seq::empty(), text);
    assert(t.notes =~= seq![f]);
    lemma_reported_concat(notes, t.notes);
    lemma_reported_one(f);
    assert(reported(notes + t.notes) =~= install_progress(m, loader).take(j).push(f));
}

/// One step keeps the report in order.
proof fn lemma_step_in_order(
    m: Manifest,
    loader: LoaderKind,
    stage: InstallStage,
    notes: Seq<Note>,
    ev: EventSpec,
)
    requires
        reported_in_order(m, loader, stage, notes),
    ensures
        ({
            let t = install_transition(m, loader, stage, ev);
            reported_in_order(m, loader, t.stage, notes + t.notes)
        }),
{
    let p = install_progress(m, loader);
    let n = m.dependencies@.len() as int;
    lemma_install_progress_at(m, loader);
    let t = install_transition(m, loader, stage, ev);
    let j = progress_reached(m, loader, stage);
    if stage is Done {
        assert(notes + t.notes =~= notes);
    } else if t.stage is Done && t.notes.len() == 1 && t.notes[0] is Failed {
        assert(0 <= j <= p.len());
        let text = t.notes[0]->Failed_0;
        assert(fail_after(Seq::empty(), text).notes =~= t.notes);
        lemma_fail_in_order(m, loader, notes, j, text);
    } else {
        lemma_step_in_order_going_on(m, loader, stage, notes, ev);
    }
}

/// One step that neither starts nor fails keeps the report in order.
proof fn lemma_step_in_order_going_on(
    m: Manifest,
    loader: LoaderKind,
    stage: InstallStage,
    notes: Seq<Note>,
    ev: EventSpec,
)
    requires
        reported_in_order(m, loader, stage, notes),
        !(stage is Done),
        !({
            let t = install_transition(m, loader, stage, ev);
            t.stage is Done && t.notes.len() == 1 && t.notes[0] is Failed
        }),
    ensures
        ({
            let t = install_transition(m, loader, stage, ev);
            reported_in_order(m, loader, t.stage, notes + t.notes)
        }),
{
    let p = install_progress(m, loader);
    let n = m.dependencies@.len() as int;
    lemma_install_progress_at(m, loader);
    let t = install_transition(m, loader, stage, ev);
    match stage {
        InstallStage::Loader => {
            assert(ev matches EventSpec::LoaderInstalled(Ok(())));
            lemma_begin_from_in_order(m, loader, 0, notes);
        },
        InstallStage::DepExtract(i) => {
            assert(ev matches EventSpec::Extracted(Ok(())));
            lemma_begin_from_in_order(m, loader, i + 1, notes);
        },
        InstallStage::ModExtract(v) => {
            assert(ev matches EventSpec::Extracted(Ok(())));
            let x = if loader_post_install(loader) is Some {
                Note::Progress(InstallStep::PostInstall, Seq::empty())
            } else {
                Note::Progress(InstallStep::SavingState, Seq::empty())
            };
            assert(t.notes =~= seq![x]);
            lemma_reported_one(x);
            lemma_reported_concat(notes, t.notes);
            assert(p[n + 2] == x);
            assert(p.take(n + 2).push(x) =~= p.take(n + 3));
            assert(reported(notes) + reported(t.notes) =~= p.take(n + 3));
        },
        InstallStage::PostInstall(v) => {
            assert(ev matches EventSpec::PostInstalled(Ok(())));
            let x = Note::Progress(InstallStep::SavingState, Seq::empty());
            assert(t.notes =~= seq![x]);
            lemma_reported_one(x);
            lemma_reported_concat(notes, t.notes);
            assert(p[n + 3] == x);
            assert(p.take(n + 3).push(x) =~= p.take(n + 4));
            assert(reported(notes) + reported(t.notes) =~= p.take(n + 4));
        },
        InstallStage::Saving(v) => {
            assert(ev matches EventSpec::Saved(Ok(())));
            let x = Note::Installed(m.name@, v);
            assert(t.notes =~= seq![x]);
            lemma_reported_one(x);
            lemma_reported_concat(notes, t.notes);
            assert(reported(notes + t.notes) == p.take(p.len() as int).push(x));
            assert(0 <= p.len() as int <= p.len() && reported(notes + t.notes) == p.take(
                p.len() as int,
            ).push(x) && (x is Failed || (x is Installed && p.len() as int == p.len())));
        },
        _ => {
            assert(t.notes =~= Seq::<Note>::empty());
            assert(notes + t.notes =~= notes);
        },
    }
}

/// Over a whole install, whatever the answers: the messages other than
/// status lines are, in order, the loader, each dependency in manifest
/// order, the mod, the post-install step (for a loader that has one) and
/// saving, up to where the install has come; an install that is over added
/// exactly one more message, a failure, or the success report after all of
/// them.
pub proof fn lemma_install_reports_in_order(m: Manifest, loader: LoaderKind, events: Seq<EventSpec>)
    requires
        loader_kind_of(m.loader.name@) is None || loader_kind_of(m.loader.name@) == Some(loader),
    ensures
        ({
            let (stage, notes) = install_run(m, loader, events);
            reported_in_order(m, loader, stage, notes)
        }),
    decreases events.len(),
{
    if events.len() == 0 {
        let t = install_start(m);
        let p = install_progress(m, loader);
        lemma_install_progress_at(m, loader);
        if loader_kind_of(m.loader.name@) is None {
            let f = t.notes.last();
            assert(t.notes =~= seq![f]);
            lemma_reported_one(f);
            assert(reported(t.notes) =~= p.take(0).push(f));
        } else {
            assert(reported(t.notes) =~= p.take(1)) by {
                lemma_reported_one(t.notes[0]);
                lemma_reported_one(t.notes[1]);
                lemma_reported_concat(seq![t.notes[0]], seq![t.notes[1]]);
                assert(seq![t.notes[0]] + seq![t.notes[1]] =~= t.notes);
            }
        }
    } else {
        lemma_install_reports_in_order(m, loader, events.drop_last());
        let (stage, notes) = install_run(m, loader, events.drop_last());
        lemma_step_in_order(m, loader, stage, notes, events.last());
    }
}


/// After a dependency's archive is downloaded, the install asks to extract
/// that archive into the place the dependency's declared type names, and
/// reports nothing: a `patch` dependency goes into the loader's install
/// folder (`DepType::Patch`), a `mod` dependency into the loader's mod folder
/// (`DepType::Mod`). A patch is never sent to the mod folder.
pub proof fn lemma_dependency_extracted_by_type(m: Manifest, loader: LoaderKind, i: nat, data: Seq<u8>)
    requires
        i < m.dependencies@.len(),
    ensures
        ({
            let t = install_transition(
                m,
                loader,
                InstallStage::DepDownload(i),
                EventSpec::Downloaded(Ok(data)),
            );
            &&& m.dependencies@[i as int].dep_type@ == "patch"@ ==> t.request
                == RequestSpec::ExtractDependency(data, DepType::Patch)
            &&& m.dependencies@[i as int].dep_type@ == "mod"@ ==> t.request
                == RequestSpec::ExtractDependency(data, DepType::Mod)
            &&& t.stage == InstallStage::DepExtract(i)
            &&& t.notes.len() == 0
        }),
{
    reveal_strlit("patch");
    reveal_strlit("mod");
    let ty = m.dependencies@[i as int].dep_type@;
    if ty == "mod"@ {
        assert(ty != "patch"@) by {
            assert(ty[0] != "patch"@[0]);
        }
    }
}

} // verus!
