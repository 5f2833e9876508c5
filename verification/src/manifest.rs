//! The mod manifest (`accessforge.yml`): its types, source references,
//! validation rules, and the naming helpers built on it.
use vstd::prelude::*;

use crate::std_ext::{is_alphanumeric, is_alphanumeric_char, lowercase_of, to_lowercase};
use crate::text::{
    chars_of, first_index_of, has_char, has_prefix, has_substring, occurs_at, lemma_first_index_of, replace_all, replace_str,
    starts_with_chars, str_eq, string_of, string_of_range, sub_chars, trim_end_char,
    trim_end_char_len, find_char,
};

verus! {

/// The manifest spec version this library understands.
pub const SUPPORTED_SPEC: u32 = 1;

/// The game a mod is for.
#[derive(Debug, Clone)]
pub struct Game {
    pub name: String,
    pub store: Option<Store>,
}

/// Store identifiers used to find an installed game.
#[derive(Debug, Clone)]
pub struct Store {
    pub steam: Option<u64>,
    pub gog: Option<u64>,
    pub epic: Option<String>,
}

/// Loader configuration: a name, an optional (possibly partial) version and
/// an optional architecture.
#[derive(Debug, Clone)]
pub struct LoaderField {
    pub name: String,
    pub version: Option<String>,
    pub arch: Option<String>,
}

/// The architecture used when a manifest names none.
pub open spec fn default_arch() -> Seq<char> {
    "x64"@
}

impl LoaderField {
    /// The loader's name.
    pub fn name(&self) -> (r: &str)
        ensures
            r@ == self.name@,
    {
        self.name.as_str()
    }

    /// The pinned loader version, if any.
    pub fn version(&self) -> (r: Option<&str>)
        ensures
            r is None <==> self.version is None,
            r matches Some(v) ==> v@ == self.version->0@,
    {
        match &self.version {
            Some(v) => Some(v.as_str()),
            None => None,
        }
    }

    /// The architecture: the one given, or `x64`.
    pub fn arch(&self) -> (r: &str)
        ensures
            r@ == match self.arch {
                Some(a) => a@,
                None => default_arch(),
            },
    {
        match &self.arch {
            Some(a) => a.as_str(),
            None => "x64",
        }
    }
}

/// The mod loaders the platform knows.
#[derive(Debug, Clone, Copy, PartialEq, Eq, Structural)]
pub enum LoaderKind {
    Ue4ss,
    BepInEx,
    MelonLoader,
    NoLoader,
}

/// The loader a manifest name stands for.
pub open spec fn loader_kind_of(s: Seq<char>) -> Option<LoaderKind> {
    if s == "ue4ss"@ {
        Some(LoaderKind::Ue4ss)
    } else if s == "bepinex"@ {
        Some(LoaderKind::BepInEx)
    } else if s == "melonloader"@ {
        Some(LoaderKind::MelonLoader)
    } else if s == "none"@ {
        Some(LoaderKind::NoLoader)
    } else {
        None
    }
}

/// Errors in a manifest or in one of its fields.
#[derive(Debug, Clone, Copy, PartialEq, Eq, Structural)]
pub enum ManifestError {
    /// The `spec` field names a version this library does not understand.
    UnsupportedSpec(u32),
    /// The `id` field is empty.
    EmptyId,
    /// The loader name is not one of `ue4ss`, `bepinex`, `melonloader`, `none`.
    UnsupportedLoader,
    /// A dependency type is not `patch` or `mod`.
    UnsupportedDependencyType,
    /// The `source` field is malformed.
    InvalidSource(SourceError),
    /// The dependency at this position has an unsupported type.
    DependencyType(usize),
    /// The dependency at this position has a malformed source.
    DependencySource(usize, SourceError),
}

impl LoaderKind {
    /// The loader named `s`.
    pub fn from_str(s: &str) -> (r: Result<LoaderKind, ManifestError>)
        ensures
            r matches Ok(k) ==> loader_kind_of(s@) == Some(k),
            r is Err ==> loader_kind_of(s@) is None && r == Err::<LoaderKind, ManifestError>(
                ManifestError::UnsupportedLoader,
            ),
    {
        if str_eq(s, "ue4ss") {
            Ok(LoaderKind::Ue4ss)
        } else if str_eq(s, "bepinex") {
            Ok(LoaderKind::BepInEx)
        } else if str_eq(s, "melonloader") {
            Ok(LoaderKind::MelonLoader)
        } else if str_eq(s, "none") {
            Ok(LoaderKind::NoLoader)
        } else {
            Err(ManifestError::UnsupportedLoader)
        }
    }
}

/// Where a mod's release asset is found: a filename template.
#[derive(Debug, Clone)]
pub struct Release {
    pub asset: String,
}

/// An external dependency a mod needs.
#[derive(Debug, Clone)]
pub struct Dependency {
    pub name: String,
    pub dep_type: String,
    pub source: String,
    pub asset: String,
    pub version: String,
}

/// Where a dependency is extracted.
#[derive(Debug, Clone, Copy, PartialEq, Eq, Structural)]
pub enum DepType {
    Patch,
    Mod,
}

/// The dependency type a manifest string stands for.
pub open spec fn dep_type_of(s: Seq<char>) -> Option<DepType> {
    if s == "patch"@ {
        Some(DepType::Patch)
    } else if s == "mod"@ {
        Some(DepType::Mod)
    } else {
        None
    }
}

impl DepType {
    /// The dependency type named `s`.
    pub fn from_str(s: &str) -> (r: Result<DepType, ManifestError>)
        ensures
            r matches Ok(k) ==> dep_type_of(s@) == Some(k),
            r is Err ==> dep_type_of(s@) is None && r == Err::<DepType, ManifestError>(
                ManifestError::UnsupportedDependencyType,
            ),
    {
        if str_eq(s, "patch") {
            Ok(DepType::Patch)
        } else if str_eq(s, "mod") {
            Ok(DepType::Mod)
        } else {
            Err(ManifestError::UnsupportedDependencyType)
        }
    }
}

/// Why a source reference could not be read.
#[derive(Debug, Clone, Copy, PartialEq, Eq, Structural)]
pub enum SourceError {
    /// `github:` is not followed by `owner/repo`.
    MissingSlash,
    /// The owner or the repo of a `github:` source is empty.
    EmptyOwnerOrRepo,
    /// A `url:` source does not start with `http://` or `https://`.
    BadUrlScheme,
    /// The source starts with neither `github:` nor `url:`.
    UnknownPrefix,
    /// A GitHub URL lacks an owner or a repo.
    BadGitHubUrl,
    /// The input is not a URL.
    NotAUrl,
}

/// A parsed source reference: a GitHub repository or an HTTP location.
#[derive(Debug, Clone, PartialEq, Eq)]
pub enum Source {
    GitHub { owner: String, repo: String },
    Url { url: String },
}

/// The meaning of a `Source`, as character sequences.
pub enum SourceSpec {
    GitHub { owner: Seq<char>, repo: Seq<char> },
    Url { url: Seq<char> },
}

impl View for Source {
    type V = SourceSpec;

    open spec fn view(&self) -> SourceSpec {
        match self {
            Source::GitHub { owner, repo } => SourceSpec::GitHub { owner: owner@, repo: repo@ },
            Source::Url { url } => SourceSpec::Url { url: url@ },
        }
    }
}

/// `"github:"`
pub open spec fn github_prefix() -> Seq<char> {
    "github:"@
}

/// `"url:"`
pub open spec fn url_prefix() -> Seq<char> {
    "url:"@
}

/// `"http://"`
pub open spec fn http_scheme() -> Seq<char> {
    "http://"@
}

/// `"https://"`
pub open spec fn https_scheme() -> Seq<char> {
    "https://"@
}

/// `"https://github.com/"`
pub open spec fn github_https() -> Seq<char> {
    "https://github.com/"@
}

/// `"http://github.com/"`
pub open spec fn github_http() -> Seq<char> {
    "http://github.com/"@
}

/// `s` starts with `http://` or `https://`.
pub open spec fn is_http_url(s: Seq<char>) -> bool {
    has_prefix(s, http_scheme()) || has_prefix(s, https_scheme())
}

/// What `Source::parse` gives for `s`: `github:owner/repo` splits at the
/// first `/` after the prefix, both parts non-empty; `url:` must be followed
/// by an http(s) URL.
pub open spec fn parse_source_spec(s: Seq<char>) -> Result<SourceSpec, SourceError> {
    if has_prefix(s, github_prefix()) {
        let rest = s.skip(github_prefix().len() as int);
        let i = first_index_of(rest, '/');
        if i < 0 {
            Err(SourceError::MissingSlash)
        } else if i == 0 || i + 1 == rest.len() {
            Err(SourceError::EmptyOwnerOrRepo)
        } else {
            Ok(SourceSpec::GitHub { owner: rest.take(i), repo: rest.skip(i + 1) })
        }
    } else if has_prefix(s, url_prefix()) {
        let rest = s.skip(url_prefix().len() as int);
        if is_http_url(rest) {
            Ok(SourceSpec::Url { url: rest })
        } else {
            Err(SourceError::BadUrlScheme)
        }
    } else {
        Err(SourceError::UnknownPrefix)
    }
}

/// The first two `/`-separated segments of `path` (as `splitn(3, '/')` gives
/// them), when there are two and both are non-empty.
pub open spec fn first_two_segments(path: Seq<char>) -> Option<(Seq<char>, Seq<char>)> {
    let i = first_index_of(path, '/');
    if i < 0 {
        None
    } else {
        let rest = path.skip(i + 1);
        let j = first_index_of(rest, '/');
        let second = if j < 0 {
            rest
        } else {
            rest.take(j)
        };
        if i > 0 && second.len() > 0 {
            Some((path.take(i), second))
        } else {
            None
        }
    }
}

/// What `Source::parse_user_input` gives for `s`: prefixed sources are parsed
/// as such; `https://github.com/owner/repo[/...]` (or `http://`) is a GitHub
/// source; any other http(s) URL is a URL source.
pub open spec fn parse_user_input_spec(s: Seq<char>) -> Result<SourceSpec, SourceError> {
    if has_prefix(s, github_prefix()) || has_prefix(s, url_prefix()) {
        parse_source_spec(s)
    } else if has_prefix(s, github_https()) || has_prefix(s, github_http()) {
        let path = if has_prefix(s, github_https()) {
            s.skip(github_https().len() as int)
        } else {
            s.skip(github_http().len() as int)
        };
        match first_two_segments(trim_end_char(path, '/')) {
            Some((owner, repo)) => Ok(SourceSpec::GitHub { owner, repo }),
            None => Err(SourceError::BadGitHubUrl),
        }
    } else if is_http_url(s) {
        Ok(SourceSpec::Url { url: s })
    } else {
        Err(SourceError::NotAUrl)
    }
}

/// Splits `v` at its first `c`: the part before and the part after.
pub fn split_at_first(v: &Vec<char>, c: char) -> (r: Option<(Vec<char>, Vec<char>)>)
    ensures
        r is None <==> first_index_of(v@, c) < 0,
        r matches Some((a, b)) ==> a@ == v@.take(first_index_of(v@, c)) && b@ == v@.skip(
            first_index_of(v@, c) + 1,
        ),
{
    proof {
        lemma_first_index_of(v@, c);
    }
    match find_char(v, c) {
        Some(i) => {
            let n = v.len();
            assert(i < n);
            let a = sub_chars(v, 0, i);
            let b = sub_chars(v, i + 1, n);
            assert(a@ =~= v@.take(i as int));
            assert(b@ =~= v@.skip(i + 1));
            Some((a, b))
        },
        None => None,
    }
}

/// The first two `/`-separated segments of `path`, as `first_two_segments`.
pub fn first_two_segments_exec(path: &Vec<char>) -> (r: Option<(Vec<char>, Vec<char>)>)
    ensures
        r is None <==> first_two_segments(path@) is None,
        r matches Some((a, b)) ==> first_two_segments(path@) == Some((a@, b@)),
{
    proof {
        lemma_first_index_of(path@, '/');
    }
    match split_at_first(path, '/') {
        None => None,
        Some((first, rest)) => {
            let ghost i = first_index_of(path@, '/');
            assert(rest@ == path@.skip(i + 1));
            let second = match split_at_first(&rest, '/') {
                Some((s, _)) => s,
                None => rest,
            };
            let ghost j = first_index_of(path@.skip(i + 1), '/');
            assert(second@ == if j < 0 {
                path@.skip(i + 1)
            } else {
                path@.skip(i + 1).take(j)
            });
            assert(first@.len() == i);
            if first.len() > 0 && second.len() > 0 {
                Some((first, second))
            } else {
                None
            }
        },
    }
}

impl Source {
    /// Parse a source string: `github:owner/repo` or `url:https://...`.
    pub fn parse(s: &str) -> (r: Result<Source, SourceError>)
        ensures
            r matches Ok(src) ==> parse_source_spec(s@) == Ok::<SourceSpec, SourceError>(src@),
            r matches Err(e) ==> parse_source_spec(s@) == Err::<SourceSpec, SourceError>(e),
    {
        let v = chars_of(s);
        let gh = chars_of("github:");
        let up = chars_of("url:");
        if starts_with_chars(&v, &gh) {
            let rest = sub_chars(&v, gh.len(), v.len());
            assert(rest@ =~= v@.skip(github_prefix().len() as int));
            proof {
                lemma_first_index_of(rest@, '/');
            }
            match split_at_first(&rest, '/') {
                None => Err(SourceError::MissingSlash),
                Some((owner, repo)) => {
                    if owner.len() == 0 || repo.len() == 0 {
                        Err(SourceError::EmptyOwnerOrRepo)
                    } else {
                        Ok(Source::GitHub { owner: string_of(&owner), repo: string_of(&repo) })
                    }
                },
            }
        } else if starts_with_chars(&v, &up) {
            let rest = sub_chars(&v, up.len(), v.len());
            assert(rest@ =~= v@.skip(url_prefix().len() as int));
            if starts_with_chars(&rest, &chars_of("http://")) || starts_with_chars(
                &rest,
                &chars_of("https://"),
            ) {
                Ok(Source::Url { url: string_of(&rest) })
            } else {
                Err(SourceError::BadUrlScheme)
            }
        } else {
            Err(SourceError::UnknownPrefix)
        }
    }

    /// The GitHub owner and repo, if this is a GitHub source.
    pub fn as_github(&self) -> (r: Option<(&str, &str)>)
        ensures
            match self {
                Source::GitHub { owner, repo } => r matches Some((o, p)) && o@ == owner@ && p@
                    == repo@,
                Source::Url { .. } => r is None,
            },
    {
        match self {
            Source::GitHub { owner, repo } => Some((owner.as_str(), repo.as_str())),
            Source::Url { .. } => None,
        }
    }

    /// The URL, if this is an HTTP source.
    pub fn as_url(&self) -> (r: Option<&str>)
        ensures
            match self {
                Source::Url { url } => r matches Some(u) && u@ == url@,
                Source::GitHub { .. } => r is None,
            },
    {
        match self {
            Source::Url { url } => Some(url.as_str()),
            Source::GitHub { .. } => None,
        }
    }

    /// Parse user-friendly input: a prefixed source, a GitHub URL (anything
    /// after `owner/repo` is ignored), or any other http(s) URL.
    pub fn parse_user_input(input: &str) -> (r: Result<Source, SourceError>)
        ensures
            r matches Ok(src) ==> parse_user_input_spec(input@) == Ok::<SourceSpec, SourceError>(
                src@,
            ),
            r matches Err(e) ==> parse_user_input_spec(input@) == Err::<SourceSpec, SourceError>(
                e,
            ),
    {
        let v = chars_of(input);
        if starts_with_chars(&v, &chars_of("github:")) || starts_with_chars(
            &v,
            &chars_of("url:"),
        ) {
            return Source::parse(input);
        }
        let gh_https = chars_of("https://github.com/");
        let gh_http = chars_of("http://github.com/");
        let path_opt = if starts_with_chars(&v, &gh_https) {
            Some(sub_chars(&v, gh_https.len(), v.len()))
        } else if starts_with_chars(&v, &gh_http) {
            Some(sub_chars(&v, gh_http.len(), v.len()))
        } else {
            None
        };
        if let Some(path) = path_opt {
            let n = trim_end_char_len(&path, path.len(), '/');
            let trimmed = sub_chars(&path, 0, n);
            assert(path@.subrange(0, path@.len() as int) =~= path@);
            return match first_two_segments_exec(&trimmed) {
                Some((owner, repo)) => Ok(
                    Source::GitHub { owner: string_of(&owner), repo: string_of(&repo) },
                ),
                None => Err(SourceError::BadGitHubUrl),
            };
        }
        if starts_with_chars(&v, &chars_of("http://")) || starts_with_chars(
            &v,
            &chars_of("https://"),
        ) {
            return Ok(Source::Url { url: string_of(&v) });
        }
        Err(SourceError::NotAUrl)
    }
}

/// `template` with every `{version}` replaced by `version`.
pub open spec fn resolve_asset_spec(template: Seq<char>, version: Seq<char>) -> Seq<char> {
    replace_all(template, "{version}"@, version)
}

/// Substitute `{version}` in an asset template.
pub fn resolve_asset(asset_template: &str, version: &str) -> (r: String)
    ensures
        r@ == resolve_asset_spec(asset_template@, version@),
{
    replace_str(asset_template, "{version}", version)
}

/// `v` without one leading `v`, if it has one.
pub open spec fn normalize_version_spec(v: Seq<char>) -> Seq<char> {
    if v.len() > 0 && v[0] == 'v' {
        v.skip(1)
    } else {
        v
    }
}

/// Strip a leading `v` prefix from a version string (e.g. `"v1.2.3"` → `"1.2.3"`).
/// Returns the string unchanged if it does not start with `v`.
pub fn normalize_version(v: &str) -> (r: String)
    ensures
        r@ == normalize_version_spec(v@),
{
    let c = chars_of(v);
    if c.len() > 0 && c[0] == 'v' {
        string_of_range(&c, 1, c.len())
    } else {
        string_of(&c)
    }
}

/// Joins the runs of non-`-` characters of `m` with single `-`s: the pieces
/// of `m` split at `-`, empty pieces dropped, joined with `-`.
pub open spec fn join_dash_pieces(m: Seq<char>) -> Seq<char>
    decreases m.len(),
{
    if m.len() == 0 {
        seq![]
    } else {
        let prev = join_dash_pieces(m.drop_last());
        let c = m.last();
        if c == '-' {
            prev
        } else if prev.len() > 0 && m[m.len() - 2] == '-' {
            prev.push('-').push(c)
        } else {
            prev.push(c)
        }
    }
}

/// Alphanumeric characters stay, every other character becomes `-`.
pub open spec fn dash_non_alphanumeric(s: Seq<char>) -> Seq<char> {
    s.map_values(|c: char| if is_alphanumeric_char(c) { c } else { '-' })
}

/// The slug of a name: lowercased, non-alphanumerics turned into `-`, and
/// the pieces between dashes joined by single dashes.
pub open spec fn slug_spec(name: Seq<char>) -> Seq<char> {
    join_dash_pieces(dash_non_alphanumeric(lowercase_of(name)))
}

/// Convert a name to a URL-safe slug.
pub fn slugify(name: &str) -> (r: String)
    ensures
        r@ == slug_spec(name@),
{
    let lower = to_lowercase(name);
    let v = chars_of(lower.as_str());
    let ghost m = dash_non_alphanumeric(v@);
    let mut out = String::new();
    let mut prev_dash = false;
    let mut i: usize = 0;
    assert(m.take(0) =~= Seq::<char>::empty());
    while i < v.len()
        invariant
            i <= v@.len(),
            m == dash_non_alphanumeric(v@),
            m.len() == v@.len(),
            out@ == join_dash_pieces(m.take(i as int)),
            prev_dash == (i > 0 && m[i - 1] == '-'),
        decreases v.len() - i,
    {
        let c = v[i];
        let mapped = if is_alphanumeric(c) {
            c
        } else {
            '-'
        };
        assert(mapped == m[i as int]);
        let ghost t = m.take(i + 1);
        assert(t.drop_last() =~= m.take(i as int));
        assert(t.last() == mapped);
        if mapped != '-' {
            if !out.as_str().is_empty() && prev_dash {
                assert(t[t.len() - 2] == '-');
                out.push('-');
            } else {
                assert(i > 0 ==> t[t.len() - 2] == m[i - 1]);
            }
            out.push(mapped);
        }
        i = i + 1;
        prev_dash = mapped == '-';
    }
    assert(m.take(v@.len() as int) =~= m);
    out
}

/// A mod manifest.
#[derive(Debug, Clone)]
pub struct Manifest {
    pub spec: u32,
    pub id: String,
    pub name: String,
    pub description: String,
    pub author: String,
    pub version: String,
    pub source: String,
    pub license: Option<String>,
    pub game: Game,
    pub loader: LoaderField,
    pub release: Release,
    pub dependencies: Vec<Dependency>,
}

/// The first problem with the dependency at position `i`, if any: its type
/// first, then its source.
pub open spec fn dependency_error(d: Dependency, i: int) -> Option<ManifestError> {
    if dep_type_of(d.dep_type@) is None {
        Some(ManifestError::DependencyType(i as usize))
    } else {
        match parse_source_spec(d.source@) {
            Err(e) => Some(ManifestError::DependencySource(i as usize, e)),
            Ok(_) => None,
        }
    }
}

/// The first problem among the dependencies from position `i` on.
pub open spec fn first_dependency_error(deps: Seq<Dependency>, i: int) -> Option<ManifestError>
    decreases deps.len() - i,
{
    if i < 0 || i >= deps.len() {
        None
    } else {
        match dependency_error(deps[i], i) {
            Some(e) => Some(e),
            None => first_dependency_error(deps, i + 1),
        }
    }
}

/// The outcome of validating a manifest: the first rule it breaks, in the
/// order spec version, id, loader, source, then each dependency in turn.
pub open spec fn validate_spec(m: Manifest) -> Result<(), ManifestError> {
    if m.spec != SUPPORTED_SPEC {
        Err(ManifestError::UnsupportedSpec(m.spec))
    } else if m.id@.len() == 0 {
        Err(ManifestError::EmptyId)
    } else if loader_kind_of(m.loader.name@) is None {
        Err(ManifestError::UnsupportedLoader)
    } else if parse_source_spec(m.source@) is Err {
        Err(ManifestError::InvalidSource(parse_source_spec(m.source@)->Err_0))
    } else {
        match first_dependency_error(m.dependencies@, 0) {
            Some(e) => Err(e),
            None => Ok(()),
        }
    }
}

impl Manifest {
    /// Validate the manifest fields.
    pub fn validate(&self) -> (r: Result<(), ManifestError>)
        ensures
            r == validate_spec(*self),
    {
        if self.spec != SUPPORTED_SPEC {
            return Err(ManifestError::UnsupportedSpec(self.spec));
        }
        if self.id.as_str().is_empty() {
            return Err(ManifestError::EmptyId);
        }
        if LoaderKind::from_str(self.loader.name()).is_err() {
            return Err(ManifestError::UnsupportedLoader);
        }
        match Source::parse(self.source.as_str()) {
            Err(e) => {
                return Err(ManifestError::InvalidSource(e));
            },
            Ok(_) => {},
        }
        let mut i: usize = 0;
        while i < self.dependencies.len()
            invariant
                i <= self.dependencies@.len(),
                self.spec == SUPPORTED_SPEC,
                self.id@.len() > 0,
                loader_kind_of(self.loader.name@) is Some,
                parse_source_spec(self.source@) is Ok,
                first_dependency_error(self.dependencies@, 0) == first_dependency_error(
                    self.dependencies@,
                    i as int,
                ),
            decreases self.dependencies.len() - i,
        {
            let dep = &self.dependencies[i];
            if DepType::from_str(dep.dep_type.as_str()).is_err() {
                return Err(ManifestError::DependencyType(i));
            }
            match Source::parse(dep.source.as_str()) {
                Err(e) => {
                    return Err(ManifestError::DependencySource(i, e));
                },
                Ok(_) => {},
            }
            i = i + 1;
        }
        Ok(())
    }

    /// The parsed `source` field.
    pub fn parsed_source(&self) -> (r: Result<Source, SourceError>)
        ensures
            r matches Ok(src) ==> parse_source_spec(self.source@) == Ok::<
                SourceSpec,
                SourceError,
            >(src@),
            r matches Err(e) ==> parse_source_spec(self.source@) == Err::<SourceSpec, SourceError>(
                e,
            ),
    {
        Source::parse(self.source.as_str())
    }

    /// The loader kind named by the manifest.
    pub fn loader_kind(&self) -> (r: Result<LoaderKind, ManifestError>)
        ensures
            r matches Ok(k) ==> loader_kind_of(self.loader.name@) == Some(k),
            r is Err ==> loader_kind_of(self.loader.name@) is None && r == Err::<
                LoaderKind,
                ManifestError,
            >(ManifestError::UnsupportedLoader),
    {
        LoaderKind::from_str(self.loader.name())
    }

    /// The Steam app id, if the manifest gives one.
    pub fn steam_id(&self) -> (r: Option<u64>)
        ensures
            r == match self.game.store {
                Some(st) => st.steam,
                None => None,
            },
    {
        match &self.game.store {
            Some(st) => st.steam,
            None => None,
        }
    }

    /// The mod's stable identifier.
    pub fn slug(&self) -> (r: &str)
        ensures
            r@ == self.id@,
    {
        self.id.as_str()
    }

    /// The game's slug, derived from its display name.
    pub fn game_slug(&self) -> (r: String)
        ensures
            r@ == slug_spec(self.game.name@),
    {
        slugify(self.game.name.as_str())
    }
}

/// A well-formed slug: no dash at either end and no two dashes in a row.
pub open spec fn dashes_well_placed(s: Seq<char>) -> bool {
    &&& s.len() > 0 ==> s[0] != '-' && s.last() != '-'
    &&& forall|i: int| 0 <= i < s.len() - 1 ==> !(#[trigger] s[i] == '-' && s[i + 1] == '-')
}

/// Joining dash-separated pieces gives nothing exactly when there are only dashes.
proof fn lemma_join_dash_pieces_empty(m: Seq<char>)
    ensures
        join_dash_pieces(m).len() == 0 <==> forall|j: int| 0 <= j < m.len() ==> m[j] == '-',
    decreases m.len(),
{
    if m.len() > 0 {
        let rest = m.drop_last();
        lemma_join_dash_pieces_empty(rest);
        if forall|j: int| 0 <= j < m.len() ==> m[j] == '-' {
            assert forall|j: int| 0 <= j < rest.len() implies rest[j] == '-' by {
                assert(rest[j] == m[j]);
            }
        }
        if join_dash_pieces(m).len() == 0 {
            assert forall|j: int| 0 <= j < m.len() implies m[j] == '-' by {
                if j < rest.len() {
                    assert(rest[j] == m[j]);
                }
            }
        }
    }
}

/// Joining dash-separated pieces leaves dashes well placed, and every other
/// character comes from the input.
proof fn lemma_join_dash_pieces(m: Seq<char>)
    ensures
        dashes_well_placed(join_dash_pieces(m)),
        forall|i: int|
            0 <= i < join_dash_pieces(m).len() ==> #[trigger] join_dash_pieces(m)[i] == '-'
                || m.contains(join_dash_pieces(m)[i]),
    decreases m.len(),
{
    if m.len() > 0 {
        let rest = m.drop_last();
        lemma_join_dash_pieces(rest);
        let prev = join_dash_pieces(rest);
        let r = join_dash_pieces(m);
        assert forall|i: int| 0 <= i < r.len() implies #[trigger] r[i] == '-' || m.contains(r[i]) by {
            if i < prev.len() {
                assert(r[i] == prev[i]);
                if prev[i] != '-' {
                    let j = choose|j: int| 0 <= j < rest.len() && rest[j] == prev[i];
                    assert(m[j] == rest[j]);
                }
            } else if r[i] != '-' {
                assert(r[i] == m.last());
                assert(m[m.len() - 1] == m.last());
            }
        }
    }
}

/// A slug has no dash at either end and no two dashes in a row, and every
/// other character is alphanumeric: the lowercase form of a character of the
/// name that is alphanumeric. It is empty exactly when the lowercased name
/// has no alphanumeric character other than `-`.
pub proof fn lemma_slug_shape(name: Seq<char>)
    ensures
        dashes_well_placed(slug_spec(name)),
        forall|i: int|
            0 <= i < slug_spec(name).len() ==> #[trigger] slug_spec(name)[i] == '-'
                || is_alphanumeric_char(slug_spec(name)[i]),
        slug_spec(name).len() == 0 <==> forall|j: int|
            0 <= j < lowercase_of(name).len() ==> !is_alphanumeric_char(#[trigger] lowercase_of(name)[j])
                || lowercase_of(name)[j] == '-',
{
    let m = dash_non_alphanumeric(lowercase_of(name));
    lemma_join_dash_pieces(m);
    lemma_join_dash_pieces_empty(m);
    let l = lowercase_of(name);
    assert forall|j: int| 0 <= j < l.len() implies (m[j] == '-' <==> (!is_alphanumeric_char(l[j])
        || l[j] == '-')) by {}
    if forall|j: int| 0 <= j < l.len() ==> !is_alphanumeric_char(#[trigger] l[j]) || l[j] == '-' {
        assert forall|j: int| 0 <= j < m.len() implies m[j] == '-' by {}
    }
    if forall|j: int| 0 <= j < m.len() ==> m[j] == '-' {
        assert forall|j: int| 0 <= j < l.len() implies !is_alphanumeric_char(#[trigger] l[j]) || l[j]
            == '-' by {
            assert(m[j] == '-');
        }
    }
    let r = slug_spec(name);
    assert forall|i: int| 0 <= i < r.len() implies #[trigger] r[i] == '-' || is_alphanumeric_char(
        r[i],
    ) by {
        if r[i] != '-' {
            let j = choose|j: int| 0 <= j < m.len() && m[j] == r[i];
            assert(m[j] == (if is_alphanumeric_char(lowercase_of(name)[j]) {
                lowercase_of(name)[j]
            } else {
                '-'
            }));
        }
    }
}

/// What `Source::parse` accepts, in full: `github:` + owner + `/` + repo with
/// a non-empty owner without `/` and a non-empty repo, read as that owner
/// and repo; and `url:` + an `http://` or `https://` URL, read as that URL.
/// Everything else is an error.
pub proof fn lemma_source_parse_characterised(s: Seq<char>)
    ensures
        forall|o: Seq<char>, r: Seq<char>|
            parse_source_spec(s) == Ok::<SourceSpec, SourceError>(SourceSpec::GitHub { owner: o, repo: r })
                <==> (s == github_prefix() + o + seq!['/'] + r && o.len() > 0 && !has_char(o, '/')
                && r.len() > 0),
        forall|u: Seq<char>|
            parse_source_spec(s) == Ok::<SourceSpec, SourceError>(SourceSpec::Url { url: u })
                <==> (s == url_prefix() + u && is_http_url(u)),
{
    reveal_strlit("github:");
    reveal_strlit("url:");
    assert forall|o: Seq<char>, r: Seq<char>|
        parse_source_spec(s) == Ok::<SourceSpec, SourceError>(SourceSpec::GitHub { owner: o, repo: r })
            <==> (s == github_prefix() + o + seq!['/'] + r && o.len() > 0 && !has_char(o, '/')
            && r.len() > 0) by {
        let g = github_prefix();
        if s == g + o + seq!['/'] + r && o.len() > 0 && !has_char(o, '/') && r.len() > 0 {
            assert(s.subrange(0, g.len() as int) =~= g);
            let rest = s.skip(g.len() as int);
            assert(rest =~= o + seq!['/'] + r);
            lemma_first_index_of(rest, '/');
            lemma_first_index_of(o, '/');
            assert(rest[o.len() as int] == '/');
            let i = first_index_of(rest, '/');
            assert(i == o.len()) by {
                if i < o.len() {
                    assert(rest[i] == o[i]);
                }
            }
            assert(rest.take(i) =~= o);
            assert(rest.skip(i + 1) =~= r);
        }
        if parse_source_spec(s) == Ok::<SourceSpec, SourceError>(SourceSpec::GitHub { owner: o, repo: r }) {
            assert(has_prefix(s, g));
            let rest = s.skip(g.len() as int);
            lemma_first_index_of(rest, '/');
            let i = first_index_of(rest, '/');
            assert(o == rest.take(i) && r == rest.skip(i + 1));
            assert(s =~= g + o + seq!['/'] + r) by {
                assert(s =~= s.subrange(0, g.len() as int) + rest);
                assert(rest =~= rest.take(i) + seq![rest[i]] + rest.skip(i + 1));
            }
            assert(!has_char(o, '/')) by {
                if has_char(o, '/') {
                    let k = choose|k: int| 0 <= k < o.len() && o[k] == '/';
                    assert(rest[k] == '/');
                }
            }
        }
    }
    assert forall|u: Seq<char>|
        parse_source_spec(s) == Ok::<SourceSpec, SourceError>(SourceSpec::Url { url: u })
            <==> (s == url_prefix() + u && is_http_url(u)) by {
        let p = url_prefix();
        if s == p + u && is_http_url(u) {
            assert(s.subrange(0, p.len() as int) =~= p);
            assert(!has_prefix(s, github_prefix())) by {
                if has_prefix(s, github_prefix()) {
                    assert(s[0] == github_prefix()[0]);
                }
            }
            assert(s.skip(p.len() as int) =~= u);
        }
        if parse_source_spec(s) == Ok::<SourceSpec, SourceError>(SourceSpec::Url { url: u }) {
            assert(s =~= s.subrange(0, p.len() as int) + s.skip(p.len() as int));
        }
    }
}

/// A dependency passes validation: its type is `mod` or `patch` and its
/// source parses.
pub open spec fn dependency_ok(d: Dependency) -> bool {
    (d.dep_type@ == "mod"@ || d.dep_type@ == "patch"@) && parse_source_spec(d.source@) is Ok
}

proof fn lemma_first_dependency_error(deps: Seq<Dependency>, i: int)
    requires
        0 <= i <= deps.len(),
    ensures
        first_dependency_error(deps, i) is None <==> forall|j: int|
            i <= j < deps.len() ==> dependency_ok(#[trigger] deps[j]),
        forall|k: int|
            i <= k < deps.len() && !dependency_ok(#[trigger] deps[k]) && (forall|j: int|
                i <= j < k ==> dependency_ok(deps[j])) ==> first_dependency_error(deps, i) == dependency_error(
                deps[k],
                k,
            ),
    decreases deps.len() - i,
{
    reveal_strlit("mod");
    reveal_strlit("patch");
    if i < deps.len() {
        lemma_first_dependency_error(deps, i + 1);
        assert(dependency_error(deps[i], i) is None <==> dependency_ok(deps[i]));
    }
}

/// A manifest is valid exactly when its spec version is the supported one,
/// its id is not empty, its loader is one the platform knows, its source
/// parses, and every dependency has type `mod` or `patch` and a source that
/// parses. When everything before them is valid, the first dependency that
/// is not is the one reported.
pub proof fn lemma_validate_characterised(m: Manifest)
    ensures
        validate_spec(m) is Ok <==> {
            &&& m.spec == SUPPORTED_SPEC
            &&& m.id@.len() > 0
            &&& loader_kind_of(m.loader.name@) is Some
            &&& parse_source_spec(m.source@) is Ok
            &&& forall|j: int| 0 <= j < m.dependencies@.len() ==> dependency_ok(#[trigger] m.dependencies@[j])
        },
        forall|k: int|
            0 <= k < m.dependencies@.len() && !dependency_ok(#[trigger] m.dependencies@[k]) && (forall|j: int|
                0 <= j < k ==> dependency_ok(m.dependencies@[j])) && m.spec == SUPPORTED_SPEC
                && m.id@.len() > 0 && loader_kind_of(m.loader.name@) is Some && parse_source_spec(
                m.source@,
            ) is Ok ==> validate_spec(m) == Err::<(), ManifestError>(
                if !(m.dependencies@[k].dep_type@ == "mod"@ || m.dependencies@[k].dep_type@
                    == "patch"@) {
                    ManifestError::DependencyType(k as usize)
                } else {
                    ManifestError::DependencySource(
                        k as usize,
                        parse_source_spec(m.dependencies@[k].source@)->Err_0,
                    )
                },
            ),
{
    reveal_strlit("mod");
    reveal_strlit("patch");
    lemma_first_dependency_error(m.dependencies@, 0);
}

/// Prefixed user input is read exactly as a source in a manifest is.
pub proof fn lemma_prefixed_user_input(s: Seq<char>)
    requires
        has_prefix(s, github_prefix()) || has_prefix(s, url_prefix()),
    ensures
        parse_user_input_spec(s) == parse_source_spec(s),
{
}

/// A leading `v` is stripped once, and only a leading `v`.
pub proof fn lemma_normalize_version(v: Seq<char>)
    ensures
        v.len() > 0 && v[0] == 'v' ==> seq!['v'] + normalize_version_spec(v) == v,
        !(v.len() > 0 && v[0] == 'v') ==> normalize_version_spec(v) == v,
{
    if v.len() > 0 && v[0] == 'v' {
        assert(seq!['v'] + v.skip(1) =~= v);
    }
}

/// An asset template without `{version}` names the asset as it is.
pub proof fn lemma_asset_without_placeholder(template: Seq<char>, version: Seq<char>)
    requires
        !has_substring(template, "{version}"@),
    ensures
        resolve_asset_spec(template, version) == template,
    decreases template.len(),
{
    reveal_strlit("{version}");
    if template.len() > 0 {
        if has_prefix(template, "{version}"@) {
            assert(occurs_at(template, "{version}"@, 0));
        }
        let rest = template.drop_first();
        assert(!has_substring(rest, "{version}"@)) by {
            if has_substring(rest, "{version}"@) {
                let i = choose|i: int| occurs_at(rest, "{version}"@, i);
                assert(rest.subrange(i, i + 9) =~= template.subrange(i + 1, i + 10));
                assert(occurs_at(template, "{version}"@, i + 1));
            }
        }
        lemma_asset_without_placeholder(rest, version);
        assert(seq![template[0]] + rest =~= template);
    }
}

} // verus!
