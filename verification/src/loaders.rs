//! Mod loader definitions and loader version resolution.
use vstd::prelude::*;

use crate::manifest::{LoaderKind, normalize_version, normalize_version_spec};
use crate::text::{join_seqs, push_str, str_eq};
use crate::versioning::{compare_tags, tag_order};

verus! {

/// The character sequences of a list of strings.
pub open spec fn strings_view(v: Seq<String>) -> Seq<Seq<char>> {
    v.map_values(|s: String| s@)
}

/// A step to run after a mod's files are in place.
#[derive(Debug, Clone, Copy, PartialEq, Eq, Structural)]
pub enum PostInstall {
    /// Add or enable the mod's line in UE4SS's `mods.txt`.
    EnableUe4ssMod,
}

/// Static definition of a mod loader: where it is released and where mods go.
#[derive(Debug, Clone, Copy)]
pub struct LoaderDef {
    pub kind: LoaderKind,
    pub github_owner: &'static str,
    pub github_repo: &'static str,
    /// Mod directory relative to the loader install path; empty means that path itself.
    pub mod_dir: &'static str,
    pub post_install: Option<PostInstall>,
}

/// The GitHub owner a loader is released under (empty for none).
pub open spec fn loader_owner(k: LoaderKind) -> Seq<char> {
    match k {
        LoaderKind::Ue4ss => "UE4SS-RE"@,
        LoaderKind::BepInEx => "BepInEx"@,
        LoaderKind::MelonLoader => "LavaGang"@,
        LoaderKind::NoLoader => ""@,
    }
}

/// The GitHub repo a loader is released from (empty for none).
pub open spec fn loader_repo(k: LoaderKind) -> Seq<char> {
    match k {
        LoaderKind::Ue4ss => "RE-UE4SS"@,
        LoaderKind::BepInEx => "BepInEx"@,
        LoaderKind::MelonLoader => "MelonLoader"@,
        LoaderKind::NoLoader => ""@,
    }
}

/// Where a loader's mods go, relative to its install path.
pub open spec fn loader_mod_dir(k: LoaderKind) -> Seq<char> {
    match k {
        LoaderKind::Ue4ss => "Mods"@,
        LoaderKind::BepInEx => "BepInEx/plugins"@,
        LoaderKind::MelonLoader => "Mods"@,
        LoaderKind::NoLoader => ""@,
    }
}

/// The path components of a loader's mod folder below its install path
/// (`loader_mod_dir` split at `/`).
pub open spec fn loader_mod_dir_parts(k: LoaderKind) -> Seq<Seq<char>> {
    match k {
        LoaderKind::Ue4ss => seq!["Mods"@],
        LoaderKind::BepInEx => seq!["BepInEx"@, "plugins"@],
        LoaderKind::MelonLoader => seq!["Mods"@],
        LoaderKind::NoLoader => seq![],
    }
}

/// The path components of a loader's mod folder below its install path.
pub fn mod_dir_parts(kind: LoaderKind) -> (r: Vec<String>)
    ensures
        r@.map_values(|p: String| p@) == loader_mod_dir_parts(kind),
{
    let mut out: Vec<String> = Vec::new();
    match kind {
        LoaderKind::Ue4ss => out.push("Mods".to_owned()),
        LoaderKind::BepInEx => {
            out.push("BepInEx".to_owned());
            out.push("plugins".to_owned());
        },
        LoaderKind::MelonLoader => out.push("Mods".to_owned()),
        LoaderKind::NoLoader => {},
    }
    assert(out@.map_values(|p: String| p@) =~= loader_mod_dir_parts(kind));
    out
}

/// The parts joined with `/` give the loader's mod folder.
pub proof fn lemma_mod_dir_parts_join(k: LoaderKind)
    ensures
        join_seqs(loader_mod_dir_parts(k), "/"@) == loader_mod_dir(k),
{
    reveal_strlit("/");
    reveal_strlit("Mods");
    reveal_strlit("BepInEx");
    reveal_strlit("plugins");
    reveal_strlit("BepInEx/plugins");
    reveal_strlit("");
    let parts = loader_mod_dir_parts(k);
    if k == LoaderKind::BepInEx {
        assert(parts.drop_last() =~= seq!["BepInEx"@]);
        assert(join_seqs(parts.drop_last(), "/"@) == "BepInEx"@);
        assert(parts.last() == "plugins"@);
        assert(join_seqs(parts, "/"@) == join_seqs(parts.drop_last(), "/"@) + "/"@ + parts.last());
        assert("BepInEx"@ + "/"@ + "plugins"@ =~= "BepInEx/plugins"@);
    }
}

/// The step a loader needs after a mod is installed.
pub open spec fn loader_post_install(k: LoaderKind) -> Option<PostInstall> {
    match k {
        LoaderKind::Ue4ss => Some(PostInstall::EnableUe4ssMod),
        _ => None,
    }
}

/// The release asset a loader is downloaded as, for a release tag and architecture.
pub open spec fn loader_asset_spec(k: LoaderKind, tag: Seq<char>, arch: Seq<char>) -> Seq<char> {
    match k {
        LoaderKind::Ue4ss => "UE4SS_"@ + tag + ".zip"@,
        LoaderKind::BepInEx => "BepInEx_win_"@ + arch + "_"@ + normalize_version_spec(tag)
            + ".zip"@,
        LoaderKind::MelonLoader => "MelonLoader."@ + arch + ".zip"@,
        LoaderKind::NoLoader => ""@,
    }
}

/// Look up the loader definition by kind.
pub fn get_loader_def(kind: LoaderKind) -> (r: LoaderDef)
    ensures
        r.kind == kind,
        r.github_owner@ == loader_owner(kind),
        r.github_repo@ == loader_repo(kind),
        r.mod_dir@ == loader_mod_dir(kind),
        r.post_install == loader_post_install(kind),
{
    match kind {
        LoaderKind::Ue4ss => LoaderDef {
            kind,
            github_owner: "UE4SS-RE",
            github_repo: "RE-UE4SS",
            mod_dir: "Mods",
            post_install: Some(PostInstall::EnableUe4ssMod),
        },
        LoaderKind::BepInEx => LoaderDef {
            kind,
            github_owner: "BepInEx",
            github_repo: "BepInEx",
            mod_dir: "BepInEx/plugins",
            post_install: None,
        },
        LoaderKind::MelonLoader => LoaderDef {
            kind,
            github_owner: "LavaGang",
            github_repo: "MelonLoader",
            mod_dir: "Mods",
            post_install: None,
        },
        LoaderKind::NoLoader => LoaderDef {
            kind,
            github_owner: "",
            github_repo: "",
            mod_dir: "",
            post_install: None,
        },
    }
}

impl LoaderDef {
    /// Whether this loader requires a download (false for `none`).
    pub fn needs_download(&self) -> (r: bool)
        ensures
            r == (self.github_owner@.len() > 0),
    {
        !self.github_owner.is_empty()
    }

    /// The asset filename for a release tag and architecture.
    pub fn asset_name(&self, tag: &str, arch: &str) -> (r: String)
        ensures
            r@ == loader_asset_spec(self.kind, tag@, arch@),
    {
        let mut out = String::new();
        match self.kind {
            LoaderKind::Ue4ss => {
                push_str(&mut out, "UE4SS_");
                push_str(&mut out, tag);
                push_str(&mut out, ".zip");
            },
            LoaderKind::BepInEx => {
                let v = normalize_version(tag);
                push_str(&mut out, "BepInEx_win_");
                push_str(&mut out, arch);
                push_str(&mut out, "_");
                push_str(&mut out, v.as_str());
                push_str(&mut out, ".zip");
            },
            LoaderKind::MelonLoader => {
                push_str(&mut out, "MelonLoader.");
                push_str(&mut out, arch);
                push_str(&mut out, ".zip");
            },
            LoaderKind::NoLoader => {
                proof {
                    reveal_strlit("");
                }
            },
        }
        assert(out@ =~= loader_asset_spec(self.kind, tag@, arch@));
        out
    }
}

/// Why no loader release could be chosen.
#[derive(Debug, Clone, Copy, PartialEq, Eq, Structural)]
pub enum LoaderError {
    /// The loader has no releases.
    NoReleases,
    /// No release matches the requested (partial) version.
    NoMatchingRelease,
}

/// The tag `Iterator::max_by` picks with the tag order: the first tag, then
/// each later tag replaces the current pick unless the pick compares greater
/// (so among equals the last one wins).
pub open spec fn latest_tag_spec(tags: Seq<Seq<char>>) -> Seq<char>
    decreases tags.len(),
{
    if tags.len() <= 1 {
        tags[0]
    } else {
        let best = latest_tag_spec(tags.drop_last());
        let y = tags.last();
        if tag_order(best, y) > 0 {
            best
        } else {
            y
        }
    }
}

/// Find the latest tag by version ordering.
pub fn find_latest_tag(tags: &Vec<String>) -> (r: Result<String, LoaderError>)
    ensures
        tags@.len() == 0 <==> r is Err,
        r matches Err(e) ==> e == LoaderError::NoReleases,
        r matches Ok(t) ==> t@ == latest_tag_spec(strings_view(tags@)),
{
    if tags.len() == 0 {
        return Err(LoaderError::NoReleases);
    }
    let ghost tv = strings_view(tags@);
    let mut best: usize = 0;
    let mut j: usize = 1;
    assert(tv.take(1).len() == 1);
    while j < tags.len()
        invariant
            tv == strings_view(tags@),
            1 <= j <= tags@.len(),
            best < j,
            tv[best as int] == latest_tag_spec(tv.take(j as int)),
        decreases tags.len() - j,
    {
        let ghost t = tv.take(j + 1);
        assert(t.drop_last() =~= tv.take(j as int));
        assert(t.last() == tv[j as int]);
        if compare_tags(tags[best].as_str(), tags[j].as_str()) > 0 {
        } else {
            best = j;
        }
        j = j + 1;
    }
    assert(tv.take(tags@.len() as int) =~= tv);
    Ok(tags[best].clone())
}

/// `ver` is `prefix` or continues it with a `.` (so `5.4` covers `5.4.x`
/// but not `5.40`).
pub open spec fn matches_partial(ver: Seq<char>, prefix: Seq<char>) -> bool {
    &&& crate::text::has_prefix(ver, prefix)
    &&& (ver.len() == prefix.len() || ver[prefix.len() as int] == '.')
}

/// The tags whose version (a leading `v` stripped) matches `prefix`, in order.
pub open spec fn partial_matches(tags: Seq<Seq<char>>, prefix: Seq<char>) -> Seq<Seq<char>> {
    tags.filter(|t: Seq<char>| matches_partial(normalize_version_spec(t), prefix))
}

/// Whether the version of `tag` matches the partial version `prefix`.
fn tag_matches_partial(tag: &str, prefix: &str) -> (r: bool)
    ensures
        r == matches_partial(normalize_version_spec(tag@), prefix@),
{
    let ver = normalize_version(tag);
    let v = crate::text::chars_of(ver.as_str());
    let p = crate::text::chars_of(prefix);
    if !crate::text::starts_with_chars(&v, &p) {
        return false;
    }
    v.len() == p.len() || v[p.len()] == '.'
}

/// Find the best matching tag for a partial version like "5.4": the latest,
/// by version ordering, of the tags whose version is "5.4" or starts with "5.4.".
pub fn find_best_partial_match(tags: &Vec<String>, prefix: &str) -> (r: Result<String, LoaderError>)
    ensures
        partial_matches(strings_view(tags@), prefix@).len() == 0 <==> r is Err,
        r matches Err(e) ==> e == LoaderError::NoMatchingRelease,
        r matches Ok(t) ==> t@ == latest_tag_spec(partial_matches(strings_view(tags@), prefix@)),
{
    let ghost tv = strings_view(tags@);
    let ghost pred = |t: Seq<char>| matches_partial(normalize_version_spec(t), prefix@);
    let mut matching: Vec<String> = Vec::new();
    let mut i: usize = 0;
    assert(tv.take(0) =~= Seq::<Seq<char>>::empty());
    while i < tags.len()
        invariant
            tv == strings_view(tags@),
            pred == (|t: Seq<char>| matches_partial(normalize_version_spec(t), prefix@)),
            i <= tags@.len(),
            strings_view(matching@) == tv.take(i as int).filter(pred),
        decreases tags.len() - i,
    {
        let ghost t = tv.take(i + 1);
        assert(t.drop_last() =~= tv.take(i as int));
        assert(t.last() == tv[i as int]);
        proof {
            reveal(Seq::filter);
        }
        assert(tv[i as int] == tags@[i as int]@);
        if tag_matches_partial(tags[i].as_str(), prefix) {
            let ghost before = matching@;
            matching.push(tags[i].clone());
            assert(pred(t.last()));
            assert(t.filter(pred) == t.drop_last().filter(pred).push(t.last()));
            assert(strings_view(matching@) =~= strings_view(before).push(tv[i as int]));
        } else {
            assert(!pred(t.last()));
            assert(t.filter(pred) == t.drop_last().filter(pred));
        }
        i = i + 1;
    }
    assert(tv.take(tags@.len() as int) =~= tv);
    if matching.len() == 0 {
        return Err(LoaderError::NoMatchingRelease);
    }
    match find_latest_tag(&matching) {
        Ok(t) => Ok(t),
        Err(e) => Err(e),
    }
}

/// What `resolve_loader_version` gives: `(tag, version)`.
pub open spec fn resolve_loader_version_spec(
    needs_download: bool,
    requested: Option<Seq<char>>,
    tags: Seq<Seq<char>>,
) -> Result<(Seq<char>, Seq<char>), LoaderError> {
    if !needs_download {
        Ok((Seq::empty(), Seq::empty()))
    } else {
        match requested {
            None => if tags.len() == 0 {
                Err(LoaderError::NoReleases)
            } else {
                let t = latest_tag_spec(tags);
                Ok((t, normalize_version_spec(t)))
            },
            Some(req) => if tags.contains("v"@ + req) {
                Ok(("v"@ + req, req))
            } else if tags.contains(req) {
                Ok((req, normalize_version_spec(req)))
            } else {
                let m = partial_matches(tags, req);
                if m.len() == 0 {
                    Err(LoaderError::NoMatchingRelease)
                } else {
                    let t = latest_tag_spec(m);
                    Ok((t, normalize_version_spec(t)))
                }
            },
        }
    }
}

/// Whether `tags` holds a tag equal to `t`.
fn tags_contain(tags: &Vec<String>, t: &str) -> (r: bool)
    ensures
        r == strings_view(tags@).contains(t@),
{
    let ghost tv = strings_view(tags@);
    let mut i: usize = 0;
    while i < tags.len()
        invariant
            tv == strings_view(tags@),
            i <= tags@.len(),
            forall|j: int| 0 <= j < i ==> tv[j] != t@,
        decreases tags.len() - i,
    {
        if str_eq(tags[i].as_str(), t) {
            assert(tv[i as int] == t@);
            return true;
        }
        i = i + 1;
    }
    false
}

/// Resolve a loader version against the loader's release tags.
/// - If `requested` is None, the latest release tag.
/// - If `requested` is a tag (with or without a `v` prefix), that tag.
/// - Otherwise the latest tag whose version matches it as a partial version.
///
/// Returns `(tag, version)` where tag is e.g. "v3.0.1" and version is "3.0.1".
pub fn resolve_loader_version(def: &LoaderDef, requested: Option<&str>, tags: &Vec<String>) -> (r:
    Result<(String, String), LoaderError>)
    ensures
        r matches Ok((t, v)) ==> resolve_loader_version_spec(
            def.github_owner@.len() > 0,
            match requested {
                Some(q) => Some(q@),
                None => None,
            },
            strings_view(tags@),
        ) == Ok::<(Seq<char>, Seq<char>), LoaderError>((t@, v@)),
        r matches Err(e) ==> resolve_loader_version_spec(
            def.github_owner@.len() > 0,
            match requested {
                Some(q) => Some(q@),
                None => None,
            },
            strings_view(tags@),
        ) == Err::<(Seq<char>, Seq<char>), LoaderError>(e),
{
    if !def.needs_download() {
        return Ok((String::new(), String::new()));
    }
    match requested {
        None => {
            let tag = find_latest_tag(tags)?;
            let version = normalize_version(tag.as_str());
            Ok((tag, version))
        },
        Some(req) => {
            let mut exact_v = String::new();
            push_str(&mut exact_v, "v");
            push_str(&mut exact_v, req);
            if tags_contain(tags, exact_v.as_str()) {
                return Ok((exact_v, req.to_owned()));
            }
            if tags_contain(tags, req) {
                let version = normalize_version(req);
                return Ok((req.to_owned(), version));
            }
            let matching = find_best_partial_match(tags, req)?;
            let version = normalize_version(matching.as_str());
            Ok((matching, version))
        },
    }
}

/// The latest tag of a non-empty list of tags is one of them.
pub proof fn lemma_latest_tag_is_a_tag(tags: Seq<Seq<char>>)
    requires
        tags.len() > 0,
    ensures
        tags.contains(latest_tag_spec(tags)),
    decreases tags.len(),
{
    if tags.len() > 1 {
        let rest = tags.drop_last();
        lemma_latest_tag_is_a_tag(rest);
        let best = latest_tag_spec(rest);
        let i = choose|i: int| 0 <= i < rest.len() && rest[i] == best;
        assert(tags[i] == best);
        assert(tags[tags.len() - 1] == tags.last());
    } else {
        assert(tags[0] == latest_tag_spec(tags));
    }
}

/// The tag a partial version resolves to is one of the tags, and its
/// version (a leading `v` stripped) is the requested version or continues
/// it with a `.`: `5.4` picks a `5.4` or `5.4.x` tag, never `5.40`.
pub proof fn lemma_partial_match_is_a_matching_tag(tags: Seq<Seq<char>>, prefix: Seq<char>)
    requires
        partial_matches(tags, prefix).len() > 0,
    ensures
        tags.contains(latest_tag_spec(partial_matches(tags, prefix))),
        matches_partial(
            normalize_version_spec(latest_tag_spec(partial_matches(tags, prefix))),
            prefix,
        ),
{
    let pred = |t: Seq<char>| matches_partial(normalize_version_spec(t), prefix);
    let pm = tags.filter(pred);
    lemma_latest_tag_is_a_tag(pm);
    let best = latest_tag_spec(pm);
    let i = choose|i: int| 0 <= i < pm.len() && pm[i] == best;
    tags.lemma_filter_pred(pred, i);
    tags.lemma_filter_contains_rev(pred, best);
}

/// A resolved loader version is one of the loader's tags together with that
/// tag's version (a leading `v` stripped): the tag `v{requested}` or
/// `{requested}` when there is one, else the latest tag (matching the
/// requested partial version when one is asked for, as `5.4` matches
/// `5.4.x`). It fails only without tags, or without a matching tag.
pub proof fn lemma_resolved_loader_version(requested: Option<Seq<char>>, tags: Seq<Seq<char>>)
    ensures
        resolve_loader_version_spec(true, requested, tags) matches Ok((t, v)) ==> tags.contains(t)
            && v == normalize_version_spec(t),
        resolve_loader_version_spec(true, requested, tags) matches Err(e) ==> match requested {
            None => tags.len() == 0 && e == LoaderError::NoReleases,
            Some(q) => partial_matches(tags, q).len() == 0 && e == LoaderError::NoMatchingRelease,
        },
{
    match requested {
        None => {
            if tags.len() > 0 {
                lemma_latest_tag_is_a_tag(tags);
            }
        },
        Some(q) => {
            if tags.contains("v"@ + q) {
                reveal_strlit("v");
                assert(("v"@ + q).skip(1) =~= q);
            } else if !tags.contains(q) && partial_matches(tags, q).len() > 0 {
                lemma_partial_match_is_a_matching_tag(tags, q);
            }
        },
    }
}

/// The message for a loader version that could not be resolved.
pub open spec fn loader_error_text(e: LoaderError, requested: Option<Seq<char>>) -> Seq<char> {
    match e {
        LoaderError::NoReleases => "no releases found"@,
        LoaderError::NoMatchingRelease => match requested {
            Some(p) => "no release matching version '"@ + p + "' found"@,
            None => "no releases found"@,
        },
    }
}

/// The message for a loader version that could not be resolved.
pub fn loader_error_message(e: LoaderError, requested: Option<&str>) -> (r: String)
    ensures
        r@ == loader_error_text(
            e,
            match requested {
                Some(p) => Some(p@),
                None => None,
            },
        ),
{
    let mut t = String::new();
    match e {
        LoaderError::NoReleases => push_str(&mut t, "no releases found"),
        LoaderError::NoMatchingRelease => match requested {
            Some(p) => {
                push_str(&mut t, "no release matching version '");
                push_str(&mut t, p);
                push_str(&mut t, "' found");
            },
            None => push_str(&mut t, "no releases found"),
        },
    }
    t
}

/// What installing a loader downloads: the release tag, the version, and
/// the asset name for the architecture.
pub fn loader_download_plan(def: &LoaderDef, requested: Option<&str>, arch: &str, tags: &Vec<String>) -> (r:
    Result<(String, String, String), LoaderError>)
    ensures
        ({
            let q = match requested {
                Some(x) => Some(x@),
                None => None,
            };
            match resolve_loader_version_spec(def.github_owner@.len() > 0, q, strings_view(tags@)) {
                Ok((t, v)) => r matches Ok((rt, rv, ra)) && rt@ == t && rv@ == v && ra@
                    == loader_asset_spec(def.kind, t, arch@),
                Err(e) => r == Err::<(String, String, String), LoaderError>(e),
            }
        }),
{
    match resolve_loader_version(def, requested, tags) {
        Ok((tag, version)) => {
            let asset = def.asset_name(tag.as_str(), arch);
            Ok((tag, version, asset))
        },
        Err(e) => Err(e),
    }
}

/// The message when a loader's release has no asset with the expected name.
pub fn missing_loader_asset_message(def: &LoaderDef, asset: &str) -> (r: String)
    ensures
        r@ == "no release asset '"@ + asset@ + "' found for "@ + def.github_owner@ + "/"@
            + def.github_repo@,
{
    let mut t = String::new();
    push_str(&mut t, "no release asset '");
    push_str(&mut t, asset);
    push_str(&mut t, "' found for ");
    push_str(&mut t, def.github_owner);
    push_str(&mut t, "/");
    push_str(&mut t, def.github_repo);
    t
}


/// What installing a loader asks the caller to do next.
pub enum LoaderRequest {
    /// List the release tags of the loader's GitHub repo.
    ListTags { owner: String, repo: String },
    /// Look up the release of `version` and its asset `asset`.
    FetchRelease { owner: String, repo: String, asset: String, version: String },
    /// Download the asset.
    Download { url: String },
    /// Extract the downloaded archive into the loader's install folder.
    Extract { data: Vec<u8> },
    /// Nothing more: the loader is installed, or why not.
    Done(Result<(), String>),
}

/// The meaning of a loader request, as character sequences and bytes.
pub enum LoaderRequestSpec {
    ListTags(Seq<char>, Seq<char>),
    FetchRelease(Seq<char>, Seq<char>, Seq<char>, Seq<char>),
    Download(Seq<char>),
    Extract(Seq<u8>),
    Done(Result<(), Seq<char>>),
}

impl View for LoaderRequest {
    type V = LoaderRequestSpec;

    open spec fn view(&self) -> LoaderRequestSpec {
        match self {
            LoaderRequest::ListTags { owner, repo } => LoaderRequestSpec::ListTags(owner@, repo@),
            LoaderRequest::FetchRelease { owner, repo, asset, version } => LoaderRequestSpec::FetchRelease(
                owner@,
                repo@,
                asset@,
                version@,
            ),
            LoaderRequest::Download { url } => LoaderRequestSpec::Download(url@),
            LoaderRequest::Extract { data } => LoaderRequestSpec::Extract(data@),
            LoaderRequest::Done(Ok(())) => LoaderRequestSpec::Done(Ok(())),
            LoaderRequest::Done(Err(e)) => LoaderRequestSpec::Done(Err(e@)),
        }
    }
}

/// The answer to the last loader request.
pub enum LoaderEvent {
    Tags(Result<Vec<String>, String>),
    Release(Result<Option<crate::registry::ReleaseAsset>, String>),
    Downloaded(Result<Vec<u8>, String>),
    Extracted(Result<(), String>),
}

/// Where installing a loader stands.
#[derive(PartialEq, Eq, Structural)]
pub enum LoaderStage {
    Tags,
    Release,
    Download,
    Extract,
    Done,
}

/// The meaning of a loader install: the loader, the version asked for, the
/// architecture, where it stands, and the asset chosen.
pub struct LoaderInstallModel {
    pub kind: LoaderKind,
    pub requested: Option<Seq<char>>,
    pub arch: Seq<char>,
    pub stage: LoaderStage,
    pub asset: Seq<char>,
}

/// The text of an answer that does not fit what was asked.
pub open spec fn loader_unexpected_text() -> Seq<char> {
    "loader install received an answer it did not ask for"@
}

/// How installing loader `kind` begins: nothing to do for a loader without
/// downloads; otherwise list its release tags.
pub open spec fn loader_install_start(kind: LoaderKind, requested: Option<Seq<char>>, arch: Seq<char>) -> (
    LoaderInstallModel,
    LoaderRequestSpec,
) {
    if loader_owner(kind).len() == 0 {
        (
            LoaderInstallModel { kind, requested, arch, stage: LoaderStage::Done, asset: Seq::empty() },
            LoaderRequestSpec::Done(Ok(())),
        )
    } else {
        (
            LoaderInstallModel { kind, requested, arch, stage: LoaderStage::Tags, asset: Seq::empty() },
            LoaderRequestSpec::ListTags(loader_owner(kind), loader_repo(kind)),
        )
    }
}

/// One step of installing a loader: the tags give the release and asset to
/// look up (or why none fits), the release gives the download (or the
/// missing asset), the download is extracted, and extraction ends it; any
/// failure ends it with its message.
pub open spec fn loader_install_step(v: LoaderInstallModel, ev: LoaderEvent) -> (
    LoaderInstallModel,
    LoaderRequestSpec,
) {
    let done = LoaderInstallModel { stage: LoaderStage::Done, ..v };
    match (v.stage, ev) {
        (LoaderStage::Done, _) => (v, LoaderRequestSpec::Done(Ok(()))),
        (LoaderStage::Tags, LoaderEvent::Tags(Ok(tags))) => match resolve_loader_version_spec(
            true,
            v.requested,
            strings_view(tags@),
        ) {
            Ok((t, ver)) => {
                let asset = loader_asset_spec(v.kind, t, v.arch);
                (
                    LoaderInstallModel { stage: LoaderStage::Release, asset, ..v },
                    LoaderRequestSpec::FetchRelease(loader_owner(v.kind), loader_repo(v.kind), asset, ver),
                )
            },
            Err(e) => (done, LoaderRequestSpec::Done(Err(loader_error_text(e, v.requested)))),
        },
        (LoaderStage::Release, LoaderEvent::Release(Ok(Some(a)))) => (
            LoaderInstallModel { stage: LoaderStage::Download, ..v },
            LoaderRequestSpec::Download(a.download_url@),
        ),
        (LoaderStage::Release, LoaderEvent::Release(Ok(None))) => (
            done,
            LoaderRequestSpec::Done(
                Err(
                    "no release asset '"@ + v.asset + "' found for "@ + loader_owner(v.kind) + "/"@
                        + loader_repo(v.kind),
                ),
            ),
        ),
        (LoaderStage::Download, LoaderEvent::Downloaded(Ok(data))) => (
            LoaderInstallModel { stage: LoaderStage::Extract, ..v },
            LoaderRequestSpec::Extract(data@),
        ),
        (LoaderStage::Extract, LoaderEvent::Extracted(Ok(()))) => (done, LoaderRequestSpec::Done(Ok(()))),
        (LoaderStage::Tags, LoaderEvent::Tags(Err(e))) => (done, LoaderRequestSpec::Done(Err(e@))),
        (LoaderStage::Release, LoaderEvent::Release(Err(e))) => (done, LoaderRequestSpec::Done(Err(e@))),
        (LoaderStage::Download, LoaderEvent::Downloaded(Err(e))) => (done, LoaderRequestSpec::Done(Err(e@))),
        (LoaderStage::Extract, LoaderEvent::Extracted(Err(e))) => (done, LoaderRequestSpec::Done(Err(e@))),
        (_, _) => (done, LoaderRequestSpec::Done(Err(loader_unexpected_text()))),
    }
}

/// Installing a loader: list tags, choose the release, download, extract.
pub struct LoaderInstall {
    def: LoaderDef,
    requested: Option<String>,
    arch: String,
    stage: LoaderStage,
    asset: String,
}

impl LoaderInstall {
    /// The meaning of the install.
    pub closed spec fn model(&self) -> LoaderInstallModel {
        LoaderInstallModel {
            kind: self.def.kind,
            requested: match self.requested {
                Some(q) => Some(q@),
                None => None,
            },
            arch: self.arch@,
            stage: self.stage,
            asset: self.asset@,
        }
    }

    /// The definition is that of the loader.
    pub closed spec fn wf(&self) -> bool {
        &&& self.def.github_owner@ == loader_owner(self.def.kind)
        &&& self.def.github_repo@ == loader_repo(self.def.kind)
        &&& self.stage != LoaderStage::Done ==> loader_owner(self.def.kind).len() > 0
    }

    /// Begin installing loader `kind` at the version asked for, for `arch`.
    pub fn start(kind: LoaderKind, requested: Option<&str>, arch: &str) -> (r: (LoaderInstall, LoaderRequest))
        ensures
            r.0.wf(),
            (r.0.model(), r.1@) == loader_install_start(
                kind,
                match requested {
                    Some(q) => Some(q@),
                    None => None,
                },
                arch@,
            ),
    {
        let def = get_loader_def(kind);
        let requested = match requested {
            Some(q) => Some(q.to_owned()),
            None => None,
        };
        if !def.needs_download() {
            let li = LoaderInstall { def, requested, arch: arch.to_owned(), stage: LoaderStage::Done, asset: String::new() };
            proof { reveal_strlit(""); }
            (li, LoaderRequest::Done(Ok(())))
        } else {
            let owner = def.github_owner.to_owned();
            let repo = def.github_repo.to_owned();
            let li = LoaderInstall { def, requested, arch: arch.to_owned(), stage: LoaderStage::Tags, asset: String::new() };
            proof { reveal_strlit(""); }
            (li, LoaderRequest::ListTags { owner, repo })
        }
    }

    /// Take the answer to the last request, as `loader_install_step` says.
    pub fn step(&mut self, ev: LoaderEvent) -> (r: LoaderRequest)
        requires
            old(self).wf(),
        ensures
            final(self).wf(),
            (final(self).model(), r@) == loader_install_step(old(self).model(), ev),
    {
        match (&self.stage, ev) {
            (LoaderStage::Done, _) => LoaderRequest::Done(Ok(())),
            (LoaderStage::Tags, LoaderEvent::Tags(Ok(tags))) => {
                let requested = match &self.requested {
                    Some(q) => Some(q.as_str()),
                    None => None,
                };
                match loader_download_plan(&self.def, requested, self.arch.as_str(), &tags) {
                    Ok((_tag, version, asset)) => {
                        self.asset = asset.clone();
                        self.stage = LoaderStage::Release;
                        LoaderRequest::FetchRelease {
                            owner: self.def.github_owner.to_owned(),
                            repo: self.def.github_repo.to_owned(),
                            asset,
                            version,
                        }
                    },
                    Err(e) => {
                        let t = loader_error_message(e, requested);
                        self.stage = LoaderStage::Done;
                        LoaderRequest::Done(Err(t))
                    },
                }
            },
            (LoaderStage::Release, LoaderEvent::Release(Ok(Some(a)))) => {
                self.stage = LoaderStage::Download;
                LoaderRequest::Download { url: a.download_url }
            },
            (LoaderStage::Release, LoaderEvent::Release(Ok(None))) => {
                let t = missing_loader_asset_message(&self.def, self.asset.as_str());
                self.stage = LoaderStage::Done;
                LoaderRequest::Done(Err(t))
            },
            (LoaderStage::Download, LoaderEvent::Downloaded(Ok(data))) => {
                self.stage = LoaderStage::Extract;
                LoaderRequest::Extract { data }
            },
            (LoaderStage::Extract, LoaderEvent::Extracted(Ok(()))) => {
                self.stage = LoaderStage::Done;
                LoaderRequest::Done(Ok(()))
            },
            (LoaderStage::Tags, LoaderEvent::Tags(Err(e))) => {
                self.stage = LoaderStage::Done;
                LoaderRequest::Done(Err(e))
            },
            (LoaderStage::Release, LoaderEvent::Release(Err(e))) => {
                self.stage = LoaderStage::Done;
                LoaderRequest::Done(Err(e))
            },
            (LoaderStage::Download, LoaderEvent::Downloaded(Err(e))) => {
                self.stage = LoaderStage::Done;
                LoaderRequest::Done(Err(e))
            },
            (LoaderStage::Extract, LoaderEvent::Extracted(Err(e))) => {
                self.stage = LoaderStage::Done;
                LoaderRequest::Done(Err(e))
            },
            (_, _) => {
                self.stage = LoaderStage::Done;
                LoaderRequest::Done(Err("loader install received an answer it did not ask for".to_owned()))
            },
        }
    }
}

} // verus!
