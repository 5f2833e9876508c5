//! Where manifests and release assets live, and how the GitHub answers are
//! read: URLs, release tags to try, and the choice of asset.
use vstd::prelude::*;

use crate::manifest::{resolve_asset, resolve_asset_spec, Source};
use crate::text::{
    chars_of, has_prefix, push_str, split_first_spec, str_eq, string_of, string_of_range,
    trim_end_char, trim_end_char_len,
};

verus! {

/// A mod repository found by topic search.
#[derive(Debug, Clone)]
pub struct DiscoveredMod {
    pub owner: String,
    pub repo: String,
}

/// Result of a manifest fetch that may be answered from an ETag.
pub enum CachedResponse {
    /// New or updated content.
    Fresh { yaml: String, etag: Option<String> },
    /// Content hasn't changed since the provided etag.
    NotModified,
}

/// A release asset and the tag it belongs to.
#[derive(Debug, Clone)]
pub struct ReleaseAsset {
    pub tag: String,
    pub download_url: String,
}

/// One asset of a GitHub release, as the API lists it.
#[derive(Debug, Clone)]
pub struct AssetEntry {
    pub name: Option<String>,
    pub download_url: Option<String>,
}

/// One release of a GitHub repository, as the API lists it.
#[derive(Debug, Clone)]
pub struct ReleaseEntry {
    pub tag_name: Option<String>,
    pub prerelease: Option<bool>,
    pub draft: Option<bool>,
}

/// Why a registry answer could not be used.
#[derive(Debug, Clone, Copy, PartialEq, Eq, Structural)]
pub enum RegistryError {
    /// The matching asset has no download URL.
    AssetWithoutUrl,
}

/// The owner and repo of a `full_name` such as `owner/repo`: split at the first `/`.
pub fn discovered_from_full_name(full_name: &str) -> (r: Option<DiscoveredMod>)
    ensures
        r is None <==> split_first_spec(full_name@, '/') is None,
        r matches Some(d) ==> split_first_spec(full_name@, '/') == Some((d.owner@, d.repo@)),
{
    let v = chars_of(full_name);
    match crate::manifest::split_at_first(&v, '/') {
        Some((owner, repo)) => Some(DiscoveredMod { owner: string_of(&owner), repo: string_of(&repo) }),
        None => None,
    }
}

/// Where a GitHub repo's manifest is read from (its default branch).
pub open spec fn github_manifest_url_spec(owner: Seq<char>, repo: Seq<char>) -> Seq<char> {
    "https://raw.githubusercontent.com/"@ + owner + "/"@ + repo + "/HEAD/accessforge.yml"@
}

/// Where a GitHub repo's manifest is read from (its default branch).
pub fn github_manifest_url(owner: &str, repo: &str) -> (r: String)
    ensures
        r@ == github_manifest_url_spec(owner@, repo@),
{
    let mut out = String::new();
    push_str(&mut out, "https://raw.githubusercontent.com/");
    push_str(&mut out, owner);
    push_str(&mut out, "/");
    push_str(&mut out, repo);
    push_str(&mut out, "/HEAD/accessforge.yml");
    assert(out@ =~= github_manifest_url_spec(owner@, repo@));
    out
}

/// Where an HTTP source's manifest is read from: `{base}/accessforge.yml`,
/// trailing slashes of the base dropped.
pub open spec fn http_manifest_url_spec(base: Seq<char>) -> Seq<char> {
    trim_end_char(base, '/') + "/accessforge.yml"@
}

/// `base` without trailing slashes.
fn trim_slashes(base: &str) -> (r: String)
    ensures
        r@ == trim_end_char(base@, '/'),
{
    let v = chars_of(base);
    let n = trim_end_char_len(&v, v.len(), '/');
    assert(v@.subrange(0, v@.len() as int) =~= v@);
    string_of_range(&v, 0, n)
}

/// Where an HTTP source's manifest is read from.
pub fn http_manifest_url(base: &str) -> (r: String)
    ensures
        r@ == http_manifest_url_spec(base@),
{
    let mut out = trim_slashes(base);
    push_str(&mut out, "/accessforge.yml");
    out
}

/// Where the manifest of a source is read from.
pub open spec fn manifest_url_spec(s: Source) -> Seq<char> {
    match s {
        Source::GitHub { owner, repo } => github_manifest_url_spec(owner@, repo@),
        Source::Url { url } => http_manifest_url_spec(url@),
    }
}

/// Where the manifest of a source is read from.
pub fn manifest_url(source: &Source) -> (r: String)
    ensures
        r@ == manifest_url_spec(*source),
{
    match source {
        Source::GitHub { owner, repo } => github_manifest_url(owner.as_str(), repo.as_str()),
        Source::Url { url } => http_manifest_url(url.as_str()),
    }
}

/// The asset of an HTTP source: `{url}/{asset}`, with the asset template
/// resolved and trailing slashes of the URL dropped; the tag is the version.
pub fn url_release_asset(url: &str, asset_template: &str, version: &str) -> (r: ReleaseAsset)
    ensures
        r.tag@ == version@,
        r.download_url@ == trim_end_char(url@, '/') + "/"@ + resolve_asset_spec(
            asset_template@,
            version@,
        ),
{
    let asset_name = resolve_asset(asset_template, version);
    let mut download_url = trim_slashes(url);
    push_str(&mut download_url, "/");
    push_str(&mut download_url, asset_name.as_str());
    ReleaseAsset { tag: version.to_owned(), download_url }
}

/// The release tags tried for a version, in order: `v{version}`, then `{version}`.
pub fn release_tag_candidates(version: &str) -> (r: Vec<String>)
    ensures
        r@.len() == 2,
        r@[0]@ == "v"@ + version@,
        r@[1]@ == version@,
{
    let mut with_v = String::new();
    push_str(&mut with_v, "v");
    push_str(&mut with_v, version);
    let mut out = Vec::new();
    out.push(with_v);
    out.push(version.to_owned());
    out
}

/// The GitHub API URL of a repo's release with the given tag.
pub open spec fn release_by_tag_url_spec(owner: Seq<char>, repo: Seq<char>, tag: Seq<char>) -> Seq<
    char,
> {
    "https://api.github.com/repos/"@ + owner + "/"@ + repo + "/releases/tags/"@ + tag
}

/// The GitHub API URL of a repo's release with the given tag.
pub fn release_by_tag_url(owner: &str, repo: &str, tag: &str) -> (r: String)
    ensures
        r@ == release_by_tag_url_spec(owner@, repo@, tag@),
{
    let mut out = String::new();
    push_str(&mut out, "https://api.github.com/repos/");
    push_str(&mut out, owner);
    push_str(&mut out, "/");
    push_str(&mut out, repo);
    push_str(&mut out, "/releases/tags/");
    push_str(&mut out, tag);
    assert(out@ =~= release_by_tag_url_spec(owner@, repo@, tag@));
    out
}

/// The first asset (from position `i` on) whose name satisfies `wanted`.
pub open spec fn first_named_asset(
    assets: Seq<AssetEntry>,
    i: int,
    wanted: spec_fn(Seq<char>) -> bool,
) -> Option<int>
    decreases assets.len() - i,
{
    if i < 0 || i >= assets.len() {
        None
    } else if assets[i].name is Some && wanted(assets[i].name->0@) {
        Some(i)
    } else {
        first_named_asset(assets, i + 1, wanted)
    }
}

/// What choosing an asset gives: the first named asset that is wanted,
/// with its URL, or an error when that asset has no URL.
pub open spec fn pick_asset_spec(assets: Seq<AssetEntry>, wanted: spec_fn(Seq<char>) -> bool) -> Result<
    Option<Seq<char>>,
    RegistryError,
> {
    match first_named_asset(assets, 0, wanted) {
        None => Ok(None),
        Some(i) => match assets[i].download_url {
            Some(u) => Ok(Some(u@)),
            None => Err(RegistryError::AssetWithoutUrl),
        },
    }
}

/// The asset of a release whose name is `asset_name`, with the release's tag.
pub fn pick_release_asset(tag: &str, asset_name: &str, assets: &Vec<AssetEntry>) -> (r: Result<
    Option<ReleaseAsset>,
    RegistryError,
>)
    ensures
        match pick_asset_spec(assets@, |n: Seq<char>| n == asset_name@) {
            Ok(None) => r matches Ok(None),
            Ok(Some(u)) => r matches Ok(Some(a)) && a.download_url@ == u && a.tag@ == tag@,
            Err(e) => r == Err::<Option<ReleaseAsset>, RegistryError>(e),
        },
{
    let ghost wanted = |n: Seq<char>| n == asset_name@;
    let mut i: usize = 0;
    while i < assets.len()
        invariant
            i <= assets@.len(),
            wanted == (|n: Seq<char>| n == asset_name@),
            first_named_asset(assets@, 0, wanted) == first_named_asset(assets@, i as int, wanted),
        decreases assets.len() - i,
    {
        match &assets[i].name {
            Some(n) => {
                if str_eq(n.as_str(), asset_name) {
                    return match &assets[i].download_url {
                        Some(u) => Ok(Some(ReleaseAsset { tag: tag.to_owned(), download_url: u.clone() })),
                        None => Err(RegistryError::AssetWithoutUrl),
                    };
                }
            },
            None => {},
        }
        i = i + 1;
    }
    Ok(None)
}

/// The asset of the latest release whose name starts with `asset_name`.
pub fn pick_latest_release_asset(tag: &str, asset_name: &str, assets: &Vec<AssetEntry>) -> (r:
    Result<Option<ReleaseAsset>, RegistryError>)
    ensures
        match pick_asset_spec(assets@, |n: Seq<char>| has_prefix(n, asset_name@)) {
            Ok(None) => r matches Ok(None),
            Ok(Some(u)) => r matches Ok(Some(a)) && a.download_url@ == u && a.tag@ == tag@,
            Err(e) => r == Err::<Option<ReleaseAsset>, RegistryError>(e),
        },
{
    let ghost wanted = |n: Seq<char>| has_prefix(n, asset_name@);
    let mut i: usize = 0;
    while i < assets.len()
        invariant
            i <= assets@.len(),
            wanted == (|n: Seq<char>| has_prefix(n, asset_name@)),
            first_named_asset(assets@, 0, wanted) == first_named_asset(assets@, i as int, wanted),
        decreases assets.len() - i,
    {
        match &assets[i].name {
            Some(n) => {
                if crate::text::str_starts_with(n.as_str(), asset_name) {
                    return match &assets[i].download_url {
                        Some(u) => Ok(Some(ReleaseAsset { tag: tag.to_owned(), download_url: u.clone() })),
                        None => Err(RegistryError::AssetWithoutUrl),
                    };
                }
            },
            None => {},
        }
        i = i + 1;
    }
    Ok(None)
}

/// A release counts when it is marked neither pre-release nor draft (a
/// missing mark counts as set) and has a tag.
pub open spec fn release_counts(r: ReleaseEntry) -> bool {
    r.prerelease == Some(false) && r.draft == Some(false) && r.tag_name is Some
}

/// The tags of the releases that count, in order.
pub open spec fn release_tags_spec(releases: Seq<ReleaseEntry>) -> Seq<Seq<char>>
    decreases releases.len(),
{
    if releases.len() == 0 {
        Seq::empty()
    } else {
        let prev = release_tags_spec(releases.drop_last());
        let r = releases.last();
        if release_counts(r) {
            prev.push(r.tag_name->0@)
        } else {
            prev
        }
    }
}

/// The tags of the non-pre-release, non-draft releases.
pub fn release_tags(releases: &Vec<ReleaseEntry>) -> (r: Vec<String>)
    ensures
        r@.map_values(|s: String| s@) == release_tags_spec(releases@),
{
    let mut out: Vec<String> = Vec::new();
    let mut i: usize = 0;
    assert(releases@.take(0) =~= Seq::<ReleaseEntry>::empty());
    assert(out@.map_values(|s: String| s@) =~= Seq::<Seq<char>>::empty());
    while i < releases.len()
        invariant
            i <= releases@.len(),
            out@.map_values(|s: String| s@) == release_tags_spec(releases@.take(i as int)),
        decreases releases.len() - i,
    {
        let ghost t = releases@.take(i + 1);
        assert(t.drop_last() =~= releases@.take(i as int));
        assert(t.last() == releases@[i as int]);
        let rel = &releases[i];
        let prerelease = match rel.prerelease {
            Some(b) => b,
            None => true,
        };
        let draft = match rel.draft {
            Some(b) => b,
            None => true,
        };
        if !prerelease && !draft {
            match &rel.tag_name {
                Some(tag) => {
                    let ghost before = out@;
                    out.push(tag.clone());
                    assert(out@.map_values(|s: String| s@) =~= before.map_values(|s: String| s@).push(
                        tag@,
                    ));
                },
                None => {},
            }
        }
        i = i + 1;
    }
    assert(releases@.take(releases@.len() as int) =~= releases@);
    out
}

/// What fetching the release with one tag answered.
pub enum TagAnswer {
    /// There is no release with that tag.
    Missing,
    /// The release lists no assets.
    NoAssets,
    /// The release's assets.
    Assets(Vec<AssetEntry>),
    /// The request failed; why.
    Failed(String),
}

/// What to do after one tag was tried.
pub enum TagOutcome {
    /// The asset was found.
    Found(ReleaseAsset),
    /// Try the next tag (none found under this one).
    TryNext,
    /// Stop with this error.
    Fail(String),
}

/// What trying one tag comes to, as character sequences.
pub enum TagOutcomeSpec {
    /// The asset was found: the tag and the download URL.
    Found(Seq<char>, Seq<char>),
    /// Try the next tag.
    TryNext,
    /// Stop with this error.
    Fail(Seq<char>),
}

/// What trying tag `tag` for the asset named `asset_name` comes to.
pub open spec fn tag_outcome_spec(tag: Seq<char>, asset_name: Seq<char>, answer: TagAnswer) -> TagOutcomeSpec {
    match answer {
        TagAnswer::Missing => TagOutcomeSpec::TryNext,
        TagAnswer::NoAssets => TagOutcomeSpec::TryNext,
        TagAnswer::Failed(e) => TagOutcomeSpec::Fail(e@),
        TagAnswer::Assets(assets) => match pick_asset_spec(assets@, |n: Seq<char>| n == asset_name) {
            Ok(None) => TagOutcomeSpec::TryNext,
            Ok(Some(u)) => TagOutcomeSpec::Found(tag, u),
            Err(_) => TagOutcomeSpec::Fail("asset has no download URL"@),
        },
    }
}

impl View for TagOutcome {
    type V = TagOutcomeSpec;

    open spec fn view(&self) -> TagOutcomeSpec {
        match self {
            TagOutcome::Found(a) => TagOutcomeSpec::Found(a.tag@, a.download_url@),
            TagOutcome::TryNext => TagOutcomeSpec::TryNext,
            TagOutcome::Fail(e) => TagOutcomeSpec::Fail(e@),
        }
    }
}

/// After trying tag `tag` for the asset named `asset_name`: a missing
/// release, a release without assets, or one without that asset moves on
/// to the next tag; a failed request, or the asset without a download URL,
/// stops with an error.
pub fn after_tag(tag: &str, asset_name: &str, answer: TagAnswer) -> (r: TagOutcome)
    ensures
        r@ == tag_outcome_spec(tag@, asset_name@, answer),
        match answer {
            TagAnswer::Missing => r is TryNext,
            TagAnswer::NoAssets => r is TryNext,
            TagAnswer::Failed(e) => r matches TagOutcome::Fail(t) && t@ == e@,
            TagAnswer::Assets(assets) => match pick_asset_spec(
                assets@,
                |n: Seq<char>| n == asset_name@,
            ) {
                Ok(None) => r is TryNext,
                Ok(Some(u)) => r matches TagOutcome::Found(a) && a.download_url@ == u && a.tag@
                    == tag@,
                Err(_) => r matches TagOutcome::Fail(t) && t@ == "asset has no download URL"@,
            },
        },
{
    match answer {
        TagAnswer::Missing => TagOutcome::TryNext,
        TagAnswer::NoAssets => TagOutcome::TryNext,
        TagAnswer::Failed(e) => TagOutcome::Fail(e),
        TagAnswer::Assets(assets) => match pick_release_asset(tag, asset_name, &assets) {
            Ok(Some(a)) => TagOutcome::Found(a),
            Ok(None) => TagOutcome::TryNext,
            Err(_) => TagOutcome::Fail("asset has no download URL".to_owned()),
        },
    }
}


/// Where a lookup of a release by tag stands: the tags to try, the asset
/// wanted, and the position of the tag being tried.
pub struct LookupModel {
    pub tags: Seq<Seq<char>>,
    pub asset_name: Seq<char>,
    pub next: int,
}

/// What a lookup asks for next, as character sequences: the release with
/// a tag, or nothing more, with the result (the tag and download URL found,
/// none, or an error).
pub enum LookupStepSpec {
    Fetch(Seq<char>),
    Done(Result<Option<(Seq<char>, Seq<char>)>, Seq<char>>),
}

/// How a lookup of the asset `asset_template` at `version` begins: try
/// `v{version}`, then `{version}`.
pub open spec fn lookup_start_spec(asset_template: Seq<char>, version: Seq<char>) -> (
    LookupModel,
    LookupStepSpec,
) {
    let tags = seq!["v"@ + version, version];
    (
        LookupModel { tags, asset_name: resolve_asset_spec(asset_template, version), next: 0 },
        LookupStepSpec::Fetch(tags[0]),
    )
}

/// One step of a lookup: what the answer for the current tag comes to. A
/// found asset or an error ends the lookup; otherwise the next tag is tried,
/// and after the last the lookup ends with none.
pub open spec fn lookup_step_spec(v: LookupModel, answer: TagAnswer) -> (LookupModel, LookupStepSpec) {
    let end = LookupModel { tags: v.tags, asset_name: v.asset_name, next: v.tags.len() as int };
    if v.next < 0 || v.next >= v.tags.len() {
        (v, LookupStepSpec::Done(Ok(None)))
    } else {
        match tag_outcome_spec(v.tags[v.next], v.asset_name, answer) {
            TagOutcomeSpec::Found(t, u) => (end, LookupStepSpec::Done(Ok(Some((t, u))))),
            TagOutcomeSpec::Fail(e) => (end, LookupStepSpec::Done(Err(e))),
            TagOutcomeSpec::TryNext => if v.next + 1 < v.tags.len() {
                (
                    LookupModel { tags: v.tags, asset_name: v.asset_name, next: v.next + 1 },
                    LookupStepSpec::Fetch(v.tags[v.next + 1]),
                )
            } else {
                (end, LookupStepSpec::Done(Ok(None)))
            },
        }
    }
}

/// What a lookup asks for next.
pub enum LookupStep {
    /// Fetch the release with this tag and answer with `TagAnswer`.
    Fetch { tag: String },
    /// The lookup is over: the asset found, none, or an error.
    Done(Result<Option<ReleaseAsset>, String>),
}

impl View for LookupStep {
    type V = LookupStepSpec;

    open spec fn view(&self) -> LookupStepSpec {
        match self {
            LookupStep::Fetch { tag } => LookupStepSpec::Fetch(tag@),
            LookupStep::Done(Ok(Some(a))) => LookupStepSpec::Done(Ok(Some((a.tag@, a.download_url@)))),
            LookupStep::Done(Ok(None)) => LookupStepSpec::Done(Ok(None)),
            LookupStep::Done(Err(e)) => LookupStepSpec::Done(Err(e@)),
        }
    }
}

/// A lookup of a GitHub release by tag and of its asset.
pub struct ReleaseLookup {
    tags: Vec<String>,
    asset_name: String,
    next: usize,
}

impl ReleaseLookup {
    /// Where the lookup stands.
    pub closed spec fn model(&self) -> LookupModel {
        LookupModel {
            tags: self.tags@.map_values(|t: String| t@),
            asset_name: self.asset_name@,
            next: self.next as int,
        }
    }

    /// Begin looking up the asset `asset_template` at `version`.
    pub fn start(asset_template: &str, version: &str) -> (r: (ReleaseLookup, LookupStep))
        ensures
            (r.0.model(), r.1@) == lookup_start_spec(asset_template@, version@),
    {
        let tags = release_tag_candidates(version);
        let first = tags[0].clone();
        let lookup = ReleaseLookup { tags, asset_name: resolve_asset(asset_template, version), next: 0 };
        assert(lookup.model().tags =~= seq!["v"@ + version@, version@]);
        (lookup, LookupStep::Fetch { tag: first })
    }

    /// Take the answer for the tag asked for, as `lookup_step_spec` says.
    pub fn step(&mut self, answer: TagAnswer) -> (r: LookupStep)
        ensures
            (final(self).model(), r@) == lookup_step_spec(old(self).model(), answer),
    {
        let ghost v = self.model();
        let n = self.tags.len();
        if self.next >= n {
            return LookupStep::Done(Ok(None));
        }
        let outcome = after_tag(self.tags[self.next].as_str(), self.asset_name.as_str(), answer);
        match outcome {
            TagOutcome::Found(a) => {
                self.next = n;
                LookupStep::Done(Ok(Some(a)))
            },
            TagOutcome::Fail(e) => {
                self.next = n;
                LookupStep::Done(Err(e))
            },
            TagOutcome::TryNext => {
                if self.next + 1 < n {
                    self.next = self.next + 1;
                    LookupStep::Fetch { tag: self.tags[self.next].clone() }
                } else {
                    self.next = n;
                    LookupStep::Done(Ok(None))
                }
            },
        }
    }
}

/// What looking up the asset `asset_template` at `version` gives, from the
/// answers for `v{version}` and for `{version}`.
pub open spec fn release_lookup_spec(
    asset_template: Seq<char>,
    version: Seq<char>,
    first: TagAnswer,
    second: TagAnswer,
) -> Result<Option<(Seq<char>, Seq<char>)>, Seq<char>> {
    let name = resolve_asset_spec(asset_template, version);
    match tag_outcome_spec("v"@ + version, name, first) {
        TagOutcomeSpec::Found(t, u) => Ok(Some((t, u))),
        TagOutcomeSpec::Fail(e) => Err(e),
        TagOutcomeSpec::TryNext => match tag_outcome_spec(version, name, second) {
            TagOutcomeSpec::Found(t, u) => Ok(Some((t, u))),
            TagOutcomeSpec::Fail(e) => Err(e),
            TagOutcomeSpec::TryNext => Ok(None),
        },
    }
}

/// A lookup tries `v{version}` first and `{version}` second: it ends with
/// the asset of the first of them whose release has it, with none when
/// neither has, and with the error of the first failed request. The second
/// tag is asked for only when the first gave nothing.
pub proof fn lemma_release_lookup_order(
    asset_template: Seq<char>,
    version: Seq<char>,
    first: TagAnswer,
    second: TagAnswer,
)
    ensures
        ({
            let (v0, s0) = lookup_start_spec(asset_template, version);
            let (v1, s1) = lookup_step_spec(v0, first);
            &&& s0 == LookupStepSpec::Fetch("v"@ + version)
            &&& match s1 {
                LookupStepSpec::Fetch(t) => t == version && lookup_step_spec(v1, second).1
                    == LookupStepSpec::Done(release_lookup_spec(asset_template, version, first, second)),
                LookupStepSpec::Done(res) => res == release_lookup_spec(
                    asset_template,
                    version,
                    first,
                    second,
                ),
            }
        }),
{
}

} // verus!
