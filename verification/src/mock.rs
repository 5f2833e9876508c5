//! The sample catalog shown in mock mode: a few mods, some installed and
//! some with updates, described by manifests built from a handful of fields.
use vstd::prelude::*;

use crate::manifest::{slug_spec, slugify, Manifest};
use crate::map::StrMap;
use crate::state::ModState;
use crate::text::{decimal_spec, push_decimal, push_str};
use crate::worker::{LoadedMod, Note, ProgressMsg, TaskResult};

verus! {

/// A dependency of a sample mod: name, version and type.
pub struct MockDep {
    pub name: String,
    pub version: String,
    pub dep_type: String,
}

/// A sample mod.
pub struct MockMod {
    pub name: String,
    pub description: String,
    pub author: String,
    pub game: String,
    pub steam_id: u64,
    pub loader: String,
    pub version: String,
    /// Listed as installed (at `version`).
    pub installed: bool,
    /// Listed with an update available.
    pub update: bool,
    pub deps: Vec<MockDep>,
}

/// The manifest text of one dependency.
pub open spec fn mock_dep_yaml(d: MockDep) -> Seq<char> {
    let slug = slug_spec(d.name@);
    "  - name: "@ + d.name@ + "\n    type: "@ + d.dep_type@ + "\n    source: github:accessforge/"@
        + slug + "\n    asset: \""@ + slug + "-{version}.zip\"\n    version: \""@ + d.version@
        + "\"\n"@
}

/// The manifest text of the dependencies from position `i` on.
pub open spec fn mock_deps_yaml_from(deps: Seq<MockDep>, i: int) -> Seq<char>
    decreases deps.len() - i,
{
    if i < 0 || i >= deps.len() {
        Seq::empty()
    } else {
        mock_dep_yaml(deps[i]) + mock_deps_yaml_from(deps, i + 1)
    }
}

/// The manifest text of a sample mod.
pub open spec fn mock_manifest_yaml_spec(m: MockMod) -> Seq<char> {
    let slug = slug_spec(m.name@);
    "spec: 1\nid: "@ + slug + "\nname: "@ + m.name@ + "\ndescription: "@ + m.description@
        + "\nauthor: "@ + m.author@ + "\nversion: \""@ + m.version@ + "\"\nsource: github:"@
        + m.author@ + "/"@ + slug + "\ngame:\n  name: "@ + m.game@ + "\n  store:\n    steam: "@
        + decimal_spec(m.steam_id as nat) + "\nloader:\n  name: "@ + m.loader@
        + "\nrelease:\n  asset: \""@ + slug + "-{version}.zip\"\n"@ + if m.deps@.len() == 0 {
        Seq::empty()
    } else {
        "dependencies:\n"@ + mock_deps_yaml_from(m.deps@, 0)
    }
}

/// The manifest text of a sample mod.
pub fn mock_manifest_yaml(m: &MockMod) -> (r: String)
    ensures
        r@ == mock_manifest_yaml_spec(*m),
{
    let slug = slugify(m.name.as_str());
    let mut y = String::new();
    push_str(&mut y, "spec: 1\nid: ");
    push_str(&mut y, slug.as_str());
    push_str(&mut y, "\nname: ");
    push_str(&mut y, m.name.as_str());
    push_str(&mut y, "\ndescription: ");
    push_str(&mut y, m.description.as_str());
    push_str(&mut y, "\nauthor: ");
    push_str(&mut y, m.author.as_str());
    push_str(&mut y, "\nversion: \"");
    push_str(&mut y, m.version.as_str());
    push_str(&mut y, "\"\nsource: github:");
    push_str(&mut y, m.author.as_str());
    push_str(&mut y, "/");
    push_str(&mut y, slug.as_str());
    push_str(&mut y, "\ngame:\n  name: ");
    push_str(&mut y, m.game.as_str());
    push_str(&mut y, "\n  store:\n    steam: ");
    push_decimal(&mut y, m.steam_id);
    push_str(&mut y, "\nloader:\n  name: ");
    push_str(&mut y, m.loader.as_str());
    push_str(&mut y, "\nrelease:\n  asset: \"");
    push_str(&mut y, slug.as_str());
    push_str(&mut y, "-{version}.zip\"\n");
    let ghost head = y@;
    if m.deps.len() > 0 {
        push_str(&mut y, "dependencies:\n");
        let ghost start = y@;
        let mut i: usize = 0;
        while i < m.deps.len()
            invariant
                i <= m.deps@.len(),
                y@ + mock_deps_yaml_from(m.deps@, i as int) == start + mock_deps_yaml_from(
                    m.deps@,
                    0,
                ),
            decreases m.deps.len() - i,
        {
            let d = &m.deps[i];
            let ds = slugify(d.name.as_str());
            let ghost before = y@;
            push_str(&mut y, "  - name: ");
            push_str(&mut y, d.name.as_str());
            push_str(&mut y, "\n    type: ");
            push_str(&mut y, d.dep_type.as_str());
            push_str(&mut y, "\n    source: github:accessforge/");
            push_str(&mut y, ds.as_str());
            push_str(&mut y, "\n    asset: \"");
            push_str(&mut y, ds.as_str());
            push_str(&mut y, "-{version}.zip\"\n    version: \"");
            push_str(&mut y, d.version.as_str());
            push_str(&mut y, "\"\n");
            assert(y@ =~= before + mock_dep_yaml(*d));
            assert(y@ + mock_deps_yaml_from(m.deps@, i + 1) =~= before + mock_deps_yaml_from(
                m.deps@,
                i as int,
            ));
            i = i + 1;
        }
        assert(mock_deps_yaml_from(m.deps@, m.deps@.len() as int) =~= Seq::<char>::empty());
        assert(y@ =~= start + mock_deps_yaml_from(m.deps@, 0));
        assert(y@ =~= mock_manifest_yaml_spec(*m));
    } else {
        assert(y@ =~= mock_manifest_yaml_spec(*m));
    }
    y
}

/// The dependency versions recorded for a sample mod, by slug of name; a
/// later dependency with the same slug wins.
pub open spec fn mock_dep_versions(deps: Seq<MockDep>) -> Map<Seq<char>, Seq<char>>
    decreases deps.len(),
{
    if deps.len() == 0 {
        Map::empty()
    } else {
        mock_dep_versions(deps.drop_last()).insert(
            slug_spec(deps.last().name@),
            deps.last().version@,
        )
    }
}

/// The listing of a sample mod with its parsed manifest: installed at its
/// version (from its GitHub source, at a fixed time) when marked installed,
/// and with latest tag `99.0.0` when marked as having an update, else
/// `v{version}`.
pub fn mock_loaded(m: &MockMod, manifest: Manifest) -> (r: LoadedMod)
    ensures
        r.manifest == manifest,
        !m.installed ==> r.installed is None,
        m.installed ==> (r.installed matches Some(s) && {
            &&& s@.name == m.name@
            &&& s@.source == "github:"@ + m.author@ + "/"@ + slug_spec(m.name@)
            &&& s@.version == m.version@
            &&& s@.installed_at == "2026-03-15T12:00:00Z"@
            &&& s@.loader == m.loader@
            &&& s@.local_path is None
            &&& s@.dependencies == mock_dep_versions(m.deps@)
        }),
        m.update ==> (r.latest_tag matches Some(t) && t@ == "99.0.0"@),
        !m.update ==> (r.latest_tag matches Some(t) && t@ == "v"@ + m.version@),
{
    let installed = if m.installed {
        let slug = slugify(m.name.as_str());
        let mut source = String::new();
        push_str(&mut source, "github:");
        push_str(&mut source, m.author.as_str());
        push_str(&mut source, "/");
        push_str(&mut source, slug.as_str());
        let mut deps: StrMap<String> = StrMap::new();
        let mut i: usize = 0;
        while i < m.deps.len()
            invariant
                i <= m.deps@.len(),
                deps.as_map().map_values(|v: String| v@) == mock_dep_versions(
                    m.deps@.take(i as int),
                ),
            decreases m.deps.len() - i,
        {
            let ghost before = deps.as_map();
            let d = &m.deps[i];
            deps.insert(slugify(d.name.as_str()), d.version.clone());
            assert(m.deps@.take(i + 1).drop_last() =~= m.deps@.take(i as int));
            assert(deps.as_map().map_values(|v: String| v@) =~= before.map_values(
                |v: String| v@,
            ).insert(slug_spec(d.name@), d.version@));
            i = i + 1;
        }
        assert(m.deps@.take(m.deps@.len() as int) =~= m.deps@);
        Some(
            ModState {
                name: m.name.clone(),
                source,
                version: m.version.clone(),
                installed_at: "2026-03-15T12:00:00Z".to_owned(),
                loader: m.loader.clone(),
                local_path: None,
                dependencies: deps,
            },
        )
    } else {
        None
    };
    let latest_tag = if m.update {
        "99.0.0".to_owned()
    } else {
        let mut t = String::new();
        push_str(&mut t, "v");
        push_str(&mut t, m.version.as_str());
        t
    };
    LoadedMod { manifest, installed, latest_tag: Some(latest_tag) }
}

/// The messages of a mock discovery: `Loading mock data...`, the count,
/// each mod in order, then the end of discovery and completion.
pub fn mock_discovery_messages(mods: Vec<LoadedMod>) -> (r: Vec<ProgressMsg>)
    ensures
        r@.len() == mods@.len() + 4,
        r@[0]@ == Note::Status("Loading mock data..."@),
        r@[1]@ == Note::DiscoveryStarted(mods@.len()),
        forall|i: int| 0 <= i < mods@.len() ==> #[trigger] r@[i + 2]@ == Note::ModLoaded(mods@[i]),
        r@[mods@.len() + 2int]@ == Note::DiscoveryFinished,
        r@[mods@.len() + 3int]@ == Note::DiscoveryDone,
{
    let n = mods.len();
    let ghost ms = mods@;
    let mut out: Vec<ProgressMsg> = Vec::new();
    out.push(ProgressMsg::Status("Loading mock data...".to_owned()));
    out.push(ProgressMsg::DiscoveryStarted { repo_count: n });
    let mut rest = mods;
    let mut i: usize = 0;
    assert(ms.skip(0) =~= ms);
    while i < n
        invariant
            n == ms.len(),
            i <= n,
            rest@ == ms.skip(i as int),
            out@.len() == i + 2,
            out@[0]@ == Note::Status("Loading mock data..."@),
            out@[1]@ == Note::DiscoveryStarted(n as nat),
            forall|k: int| 0 <= k < i ==> #[trigger] out@[k + 2]@ == Note::ModLoaded(ms[k]),
        decreases n - i,
    {
        let m = rest.remove(0);
        assert(rest@ =~= ms.skip(i + 1));
        out.push(ProgressMsg::ModLoaded(Box::new(m)));
        i = i + 1;
    }
    out.push(ProgressMsg::DiscoveryFinished);
    out.push(ProgressMsg::Done(TaskResult::Discovery));
    out
}

/// A sample mod's fields: name, description, author, game, Steam app id,
/// loader, version, installed, has an update.
pub struct MockRow {
    pub name: Seq<char>,
    pub description: Seq<char>,
    pub author: Seq<char>,
    pub game: Seq<char>,
    pub steam_id: u64,
    pub loader: Seq<char>,
    pub version: Seq<char>,
    pub installed: bool,
    pub update: bool,
    /// The dependencies: name, version, type.
    pub deps: Seq<(Seq<char>, Seq<char>, Seq<char>)>,
}

/// The sample mods of mock mode, in the order they are listed: three not
/// installed, two installed and up to date, two installed with an update.
pub open spec fn mock_rows() -> Seq<MockRow> {
    seq![
        MockRow {
            name: "Stardew Access"@,
            description: "Screen reader accessibility mod for Stardew Valley"@,
            author: "stardew-access"@,
            game: "Stardew Valley"@,
            steam_id: 413150,
            loader: "none"@,
            version: "1.6.0"@,
            installed: false,
            update: false,
            deps: seq![("SMAPI"@, "4.0.0"@, "mod"@)],
        },
        MockRow {
            name: "CrossedEyes"@,
            description: "Screen reader mod for CrossCode"@,
            author: "CCDirectLink"@,
            game: "CrossCode"@,
            steam_id: 368340,
            loader: "none"@,
            version: "0.5.2"@,
            installed: false,
            update: false,
            deps: seq![("CCLoader"@, "2.22.1"@, "mod"@), ("CrossCode Input API"@, "1.0.0"@, "mod"@)],
        },
        MockRow {
            name: "Balatro Access"@,
            description: "Screen reader accessibility for Balatro"@,
            author: "balatro-access"@,
            game: "Balatro"@,
            steam_id: 2379780,
            loader: "none"@,
            version: "1.0.0"@,
            installed: false,
            update: false,
            deps: seq![],
        },
        MockRow {
            name: "Sparking Zero Access"@,
            description: "Screen reader accessibility mod for Dragon Ball Sparking! ZERO"@,
            author: "jessica"@,
            game: "Dragon Ball Sparking! ZERO"@,
            steam_id: 1790600,
            loader: "ue4ss"@,
            version: "1.2.0"@,
            installed: true,
            update: false,
            deps: seq![("UTOC Signature Bypass"@, "1.0.0"@, "patch"@)],
        },
        MockRow {
            name: "Hades Blind Accessibility"@,
            description: "Screen reader support for Hades"@,
            author: "hades-access"@,
            game: "Hades"@,
            steam_id: 1145360,
            loader: "bepinex"@,
            version: "2.1.0"@,
            installed: true,
            update: false,
            deps: seq![],
        },
        MockRow {
            name: "Factorio Access"@,
            description: "Screen reader accessibility for Factorio"@,
            author: "factorio-access"@,
            game: "Factorio"@,
            steam_id: 427520,
            loader: "none"@,
            version: "0.9.0"@,
            installed: true,
            update: true,
            deps: seq![],
        },
        MockRow {
            name: "Yu-Gi-Oh Blind Mode"@,
            description: "Screen reader mod for Yu-Gi-Oh Master Duel"@,
            author: "yugioh-access"@,
            game: "Yu-Gi-Oh! Master Duel"@,
            steam_id: 1449850,
            loader: "bepinex"@,
            version: "1.3.0"@,
            installed: true,
            update: true,
            deps: seq![],
        },
    ]
}

/// The fields of a sample mod.
pub open spec fn mock_row_of(m: MockMod) -> MockRow {
    MockRow {
        name: m.name@,
        description: m.description@,
        author: m.author@,
        game: m.game@,
        steam_id: m.steam_id,
        loader: m.loader@,
        version: m.version@,
        installed: m.installed,
        update: m.update,
        deps: m.deps@.map_values(|d: MockDep| (d.name@, d.version@, d.dep_type@)),
    }
}

/// A dependency of a sample mod.
fn dep(name: &str, version: &str, dep_type: &str) -> (r: MockDep)
    ensures
        r.name@ == name@,
        r.version@ == version@,
        r.dep_type@ == dep_type@,
{
    MockDep { name: name.to_owned(), version: version.to_owned(), dep_type: dep_type.to_owned() }
}

/// A sample mod.
fn sample(
    name: &str,
    description: &str,
    author: &str,
    game: &str,
    steam_id: u64,
    loader: &str,
    version: &str,
    installed: bool,
    update: bool,
    deps: Vec<MockDep>,
) -> (r: MockMod)
    ensures
        mock_row_of(r) == (MockRow {
            name: name@,
            description: description@,
            author: author@,
            game: game@,
            steam_id,
            loader: loader@,
            version: version@,
            installed,
            update,
            deps: deps@.map_values(|d: MockDep| (d.name@, d.version@, d.dep_type@)),
        }),
{
    MockMod {
        name: name.to_owned(),
        description: description.to_owned(),
        author: author.to_owned(),
        game: game.to_owned(),
        steam_id,
        loader: loader.to_owned(),
        version: version.to_owned(),
        installed,
        update,
        deps,
    }
}

/// The sample mods of mock mode, as `mock_rows` lists them.
pub fn mock_mods() -> (r: Vec<MockMod>)
    ensures
        r@.map_values(|m: MockMod| mock_row_of(m)) == mock_rows(),
{
    let mut out: Vec<MockMod> = Vec::new();
    let d = vec![dep("SMAPI", "4.0.0", "mod")];
    assert(d@.map_values(|d: MockDep| (d.name@, d.version@, d.dep_type@)) =~= seq![("SMAPI"@, "4.0.0"@, "mod"@)]);
    out.push(sample("Stardew Access", "Screen reader accessibility mod for Stardew Valley",
        "stardew-access", "Stardew Valley", 413150, "none", "1.6.0", false, false, d));
    let d = vec![dep("CCLoader", "2.22.1", "mod"), dep("CrossCode Input API", "1.0.0", "mod")];
    assert(d@.map_values(|d: MockDep| (d.name@, d.version@, d.dep_type@)) =~= seq![
        ("CCLoader"@, "2.22.1"@, "mod"@),
        ("CrossCode Input API"@, "1.0.0"@, "mod"@),
    ]);
    out.push(sample("CrossedEyes", "Screen reader mod for CrossCode", "CCDirectLink", "CrossCode",
        368340, "none", "0.5.2", false, false, d));
    let d: Vec<MockDep> = Vec::new();
    assert(d@.map_values(|d: MockDep| (d.name@, d.version@, d.dep_type@)) =~= seq![]);
    out.push(sample("Balatro Access", "Screen reader accessibility for Balatro", "balatro-access",
        "Balatro", 2379780, "none", "1.0.0", false, false, d));
    let d = vec![dep("UTOC Signature Bypass", "1.0.0", "patch")];
    assert(d@.map_values(|d: MockDep| (d.name@, d.version@, d.dep_type@)) =~= seq![
        ("UTOC Signature Bypass"@, "1.0.0"@, "patch"@),
    ]);
    out.push(sample("Sparking Zero Access",
        "Screen reader accessibility mod for Dragon Ball Sparking! ZERO", "jessica",
        "Dragon Ball Sparking! ZERO", 1790600, "ue4ss", "1.2.0", true, false, d));
    let d: Vec<MockDep> = Vec::new();
    assert(d@.map_values(|d: MockDep| (d.name@, d.version@, d.dep_type@)) =~= seq![]);
    out.push(sample("Hades Blind Accessibility", "Screen reader support for Hades", "hades-access",
        "Hades", 1145360, "bepinex", "2.1.0", true, false, d));
    let d: Vec<MockDep> = Vec::new();
    assert(d@.map_values(|d: MockDep| (d.name@, d.version@, d.dep_type@)) =~= seq![]);
    out.push(sample("Factorio Access", "Screen reader accessibility for Factorio", "factorio-access",
        "Factorio", 427520, "none", "0.9.0", true, true, d));
    let d: Vec<MockDep> = Vec::new();
    assert(d@.map_values(|d: MockDep| (d.name@, d.version@, d.dep_type@)) =~= seq![]);
    out.push(sample("Yu-Gi-Oh Blind Mode", "Screen reader mod for Yu-Gi-Oh Master Duel",
        "yugioh-access", "Yu-Gi-Oh! Master Duel", 1449850, "bepinex", "1.3.0", true, true, d));
    assert(out@.map_values(|m: MockMod| mock_row_of(m)) =~= mock_rows());
    out
}

} // verus!
