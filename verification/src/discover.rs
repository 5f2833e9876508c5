//! Mod discovery: the decisions between the searches and fetches that the
//! caller performs. A `DiscoverySession` takes each answer and says what to
//! report and what to ask for next.
use vstd::prelude::*;

use crate::manifest::{slug_spec, Manifest, Source, SourceSpec};
use crate::map::StrMap;
use crate::messages::manifest_error_message;
use crate::registry::{CachedResponse, DiscoveredMod};
use crate::state::{installed_mod_spec, AppState, CachedManifest, GameState, ModRecord, ModState};
use crate::text::{push_decimal, push_str, replace_all, replace_str, str_eq};
use crate::worker::{LoadedMod, ProgressMsg, TaskResult};

verus! {

/// The cache key of a GitHub repo: `owner/repo`.
pub open spec fn cache_key_spec(owner: Seq<char>, repo: Seq<char>) -> Seq<char> {
    owner + "/"@ + repo
}

/// The cache key of a GitHub repo: `owner/repo`.
pub fn cache_key(owner: &str, repo: &str) -> (r: String)
    ensures
        r@ == cache_key_spec(owner@, repo@),
{
    let mut out = String::new();
    push_str(&mut out, owner);
    push_str(&mut out, "/");
    push_str(&mut out, repo);
    assert(out@ =~= cache_key_spec(owner@, repo@));
    out
}

/// The ETag to send for a cached manifest: only when the cached text is not
/// empty (an empty cached text forces a fresh fetch).
pub open spec fn cached_etag_spec(cache: Map<Seq<char>, CachedManifest>, key: Seq<char>) -> Option<
    Seq<char>,
> {
    if cache.dom().contains(key) && cache[key].yaml@.len() > 0 {
        match cache[key].etag {
            Some(e) => Some(e@),
            None => None,
        }
    } else {
        None
    }
}

/// The ETag to send for the manifest cached under `key`.
pub fn cached_etag(cache: &StrMap<CachedManifest>, key: &str) -> (r: Option<String>)
    ensures
        r is None <==> cached_etag_spec(cache.as_map(), key@) is None,
        r matches Some(e) ==> cached_etag_spec(cache.as_map(), key@) == Some(e@),
{
    match cache.get(key) {
        Some(c) => {
            if c.yaml.as_str().is_empty() {
                None
            } else {
                match &c.etag {
                    Some(e) => Some(e.clone()),
                    None => None,
                }
            }
        },
        None => None,
    }
}

/// What to do with a fetched (or not fetched) manifest.
pub enum FetchDecision {
    /// Parse this manifest text; `cache_updated` when it was newly stored.
    Use { yaml: String, cache_updated: bool },
    /// Skip the repo, for this reason.
    Skip { reason: String },
}

/// Decide on a manifest fetch for the repo cached under `key`: fresh text is
/// stored in the cache and used; "not modified" and failed fetches fall back
/// to the cached text, and skip the repo when there is none.
pub fn apply_fetch(
    cache: &mut StrMap<CachedManifest>,
    key: &str,
    result: Result<CachedResponse, String>,
) -> (r: FetchDecision)
    ensures
        match result {
            Ok(CachedResponse::Fresh { yaml, etag }) => {
                &&& final(cache).as_map() == old(cache).as_map().insert(
                    key@,
                    (CachedManifest { etag, yaml }),
                )
                &&& final(cache).keys() == if old(cache).as_map().dom().contains(key@) {
                    old(cache).keys()
                } else {
                    old(cache).keys().push(key@)
                }
                &&& r matches FetchDecision::Use { yaml: y, cache_updated: true } && y@ == yaml@
            },
            Ok(CachedResponse::NotModified) => {
                &&& *final(cache) == *old(cache)
                &&& old(cache).as_map().dom().contains(key@) ==> (r matches FetchDecision::Use {
                    yaml: y,
                    cache_updated: false,
                } && y@ == old(cache).as_map()[key@].yaml@)
                &&& !old(cache).as_map().dom().contains(key@) ==> (r matches FetchDecision::Skip {
                    reason,
                } && reason@ == "304 but no cached data"@)
            },
            Err(e) => {
                &&& *final(cache) == *old(cache)
                &&& old(cache).as_map().dom().contains(key@) ==> (r matches FetchDecision::Use {
                    yaml: y,
                    cache_updated: false,
                } && y@ == old(cache).as_map()[key@].yaml@)
                &&& !old(cache).as_map().dom().contains(key@) ==> (r matches FetchDecision::Skip {
                    reason,
                } && reason@ == e@)
            },
        },
{
    match result {
        Ok(CachedResponse::Fresh { yaml, etag }) => {
            let used = yaml.clone();
            cache.insert(key.to_owned(), CachedManifest { etag, yaml });
            FetchDecision::Use { yaml: used, cache_updated: true }
        },
        Ok(CachedResponse::NotModified) => match cache.get(key) {
            Some(c) => FetchDecision::Use { yaml: c.yaml.clone(), cache_updated: false },
            None => FetchDecision::Skip { reason: "304 but no cached data".to_owned() },
        },
        Err(e) => match cache.get(key) {
            Some(c) => FetchDecision::Use { yaml: c.yaml.clone(), cache_updated: false },
            None => FetchDecision::Skip { reason: e },
        },
    }
}

/// A parsed manifest that also passes validation, or the message saying why not.
pub open spec fn validated_spec(parsed: Result<Manifest, String>) -> Result<Manifest, Seq<char>> {
    match parsed {
        Ok(m) => match crate::manifest::validate_spec(m) {
            Ok(_) => Ok(m),
            Err(e) => Err(crate::messages::manifest_error_text(e, m)),
        },
        Err(s) => Err(s@),
    }
}

/// A parsed manifest that also passes validation, or the message saying why not.
pub fn validated(parsed: Result<Manifest, String>) -> (r: Result<Manifest, String>)
    ensures
        match validated_spec(parsed) {
            Ok(m) => r matches Ok(x) && x == m,
            Err(t) => r matches Err(msg) && msg@ == t,
        },
{
    match parsed {
        Ok(m) => match m.validate() {
            Ok(()) => Ok(m),
            Err(e) => Err(manifest_error_message(e, &m)),
        },
        Err(s) => Err(s),
    }
}

/// The install records of `state` as `Option<ModRecord>`.
pub open spec fn installed_view(s: AppState, g: Seq<char>, m: Seq<char>) -> Option<
    crate::state::ModRecord,
> {
    match installed_mod_spec(s, g, m) {
        Some(x) => Some(x@),
        None => None,
    }
}

/// A loaded mod for `manifest` with the state's install record for it and
/// the manifest version as the latest tag.
pub fn loaded_from_state(state: &AppState, manifest: Manifest) -> (r: LoadedMod)
    ensures
        r.manifest == manifest,
        match r.installed {
            Some(i) => installed_view(*state, slug_spec(manifest.game.name@), manifest.id@) == Some(
                i@,
            ),
            None => installed_view(*state, slug_spec(manifest.game.name@), manifest.id@) is None,
        },
        r.latest_tag matches Some(t) && t@ == manifest.version@,
{
    let game_slug = manifest.game_slug();
    let installed = match state.installed_mod(game_slug.as_str(), manifest.slug()) {
        Some(m) => Some(m.copy()),
        None => None,
    };
    let latest = manifest.version.clone();
    LoadedMod { manifest, installed, latest_tag: Some(latest) }
}

/// Whether the pair `(g, m)` is in `pairs`.
pub open spec fn has_pair(pairs: Seq<(String, String)>, g: Seq<char>, m: Seq<char>) -> bool {
    exists|i: int| 0 <= i < pairs.len() && pairs[i].0@ == g && pairs[i].1@ == m
}

/// The pairs as character sequences.
pub open spec fn pairs_view(pairs: Seq<(String, String)>) -> Seq<(Seq<char>, Seq<char>)> {
    pairs.map_values(|p: (String, String)| (p.0@, p.1@))
}

proof fn lemma_has_pair_view(pairs: Seq<(String, String)>, g: Seq<char>, m: Seq<char>)
    ensures
        has_pair(pairs, g, m) == pairs_view(pairs).contains((g, m)),
{
    if has_pair(pairs, g, m) {
        let i = choose|i: int| 0 <= i < pairs.len() && pairs[i].0@ == g && pairs[i].1@ == m;
        assert(pairs_view(pairs)[i] == (g, m));
    }
    if pairs_view(pairs).contains((g, m)) {
        let i = choose|i: int| 0 <= i < pairs_view(pairs).len() && pairs_view(pairs)[i] == (g, m);
        assert(pairs[i].0@ == g && pairs[i].1@ == m);
    }
}

/// The mods among the first `mi` of game number `gi` that are not in `found`.
pub open spec fn candidate_mods(
    games: StrMap<GameState>,
    found: Seq<(Seq<char>, Seq<char>)>,
    gi: int,
    mi: nat,
) -> Seq<(Seq<char>, Seq<char>)>
    decreases mi,
{
    if mi == 0 {
        seq![]
    } else {
        let prev = candidate_mods(games, found, gi, (mi - 1) as nat);
        let g = games.key_at(gi);
        let m = games.value_at(gi).mods.key_at(mi - 1);
        if found.contains((g, m)) {
            prev
        } else {
            prev.push((g, m))
        }
    }
}

/// The mods of the first `gi` games that are not in `found`, game by game
/// and mod by mod in the order the state keeps them.
pub open spec fn candidate_games(
    games: StrMap<GameState>,
    found: Seq<(Seq<char>, Seq<char>)>,
    gi: nat,
) -> Seq<(Seq<char>, Seq<char>)>
    decreases gi,
{
    if gi == 0 {
        seq![]
    } else {
        candidate_games(games, found, (gi - 1) as nat) + candidate_mods(
            games,
            found,
            gi - 1,
            games.value_at(gi - 1).mods.spec_len(),
        )
    }
}

/// The installed mods that discovery did not find, in the state's order.
pub open spec fn local_candidates(games: StrMap<GameState>, found: Seq<(Seq<char>, Seq<char>)>) -> Seq<
    (Seq<char>, Seq<char>),
> {
    candidate_games(games, found, games.spec_len())
}

/// Whether the pair `(g, m)` is in `pairs`.
pub fn contains_pair(pairs: &Vec<(String, String)>, g: &str, m: &str) -> (r: bool)
    ensures
        r == has_pair(pairs@, g@, m@),
{
    let mut i: usize = 0;
    while i < pairs.len()
        invariant
            i <= pairs@.len(),
            forall|j: int| 0 <= j < i ==> !(pairs@[j].0@ == g@ && pairs@[j].1@ == m@),
        decreases pairs.len() - i,
    {
        if str_eq(pairs[i].0.as_str(), g) && str_eq(pairs[i].1.as_str(), m) {
            return true;
        }
        i = i + 1;
    }
    false
}

/// The state records mod `m` for game `g`.
pub open spec fn state_has_mod(s: AppState, g: Seq<char>, m: Seq<char>) -> bool {
    s.games.as_map().dom().contains(g) && s.games.as_map()[g].mods.as_map().dom().contains(m)
}

/// The installed mods of `state` that discovery did not find: every
/// `(game, mod)` the state records and `discovered` lacks, each once.
pub fn local_only_candidates(state: &AppState, discovered: &Vec<(String, String)>) -> (r: Vec<
    (String, String),
>)
    ensures
        forall|i: int|
            0 <= i < r@.len() ==> state_has_mod(*state, #[trigger] r@[i].0@, r@[i].1@) && !has_pair(
                discovered@,
                r@[i].0@,
                r@[i].1@,
            ),
        forall|g: Seq<char>, m: Seq<char>|
            state_has_mod(*state, g, m) && !has_pair(discovered@, g, m) ==> #[trigger] has_pair(
                r@,
                g,
                m,
            ),
        forall|i: int, j: int|
            0 <= i < j < r@.len() ==> !(r@[i].0@ == r@[j].0@ && r@[i].1@ == r@[j].1@),
        pairs_view(r@) == local_candidates(state.games, pairs_view(discovered@)),
{
    let games = &state.games;
    let mut out: Vec<(String, String)> = Vec::new();
    let ghost mut gks: Seq<int> = Seq::empty();
    let mut gi: usize = 0;
    let n_games = games.len();
    assert(pairs_view(out@) =~= candidate_games(state.games, pairs_view(discovered@), 0));
    while gi < n_games
        invariant
            games == &state.games,
            n_games == games.spec_len(),
            gi <= n_games,
            forall|i: int, j: int|
                0 <= i < games.spec_len() && 0 <= j < games.spec_len() && i != j ==> games.key_at(i)
                    != games.key_at(j),
            forall|i: int|
                0 <= i < games.spec_len() ==> #[trigger] games.as_map()[games.key_at(i)]
                    == games.value_at(i) && games.as_map().dom().contains(games.key_at(i)),
            forall|i: int|
                0 <= i < out@.len() ==> state_has_mod(*state, #[trigger] out@[i].0@, out@[i].1@)
                    && !has_pair(discovered@, out@[i].0@, out@[i].1@),
            forall|gk: int, mk: int|
                0 <= gk < gi && 0 <= mk < games.value_at(gk).mods.spec_len() && !has_pair(
                    discovered@,
                    games.key_at(gk),
                    games.value_at(gk).mods.key_at(mk),
                ) ==> #[trigger] has_pair(out@, games.key_at(gk), games.value_at(gk).mods.key_at(mk)),
            gks.len() == out@.len(),
            forall|i: int| 0 <= i < out@.len() ==> 0 <= #[trigger] gks[i] < gi && out@[i].0@ == games.key_at(gks[i]),
            forall|i: int, j: int|
                0 <= i < j < out@.len() ==> !(out@[i].0@ == out@[j].0@ && out@[i].1@ == out@[j].1@),
            pairs_view(out@) == candidate_games(state.games, pairs_view(discovered@), gi as nat),
        decreases n_games - gi,
    {
        let g_key = games.key(gi);
        let game = games.value(gi);
        let mods = &game.mods;
        let n_mods = mods.len();
        let mut mi: usize = 0;
        let ghost out_before = out@;
        let ghost mut mks: Seq<int> = Seq::empty();
        assert(games.as_map()[games.key_at(gi as int)] == games.value_at(gi as int));
        assert(candidate_games(state.games, pairs_view(discovered@), gi as nat) + candidate_mods(
            state.games,
            pairs_view(discovered@),
            gi as int,
            0,
        ) =~= candidate_games(state.games, pairs_view(discovered@), gi as nat));
        while mi < n_mods
            invariant
                games == &state.games,
                n_games == games.spec_len(),
                gi < n_games,
                g_key@ == games.key_at(gi as int),
                *game == games.value_at(gi as int),
                mods == &game.mods,
                n_mods == mods.spec_len(),
                games.as_map()[g_key@] == *game,
                games.as_map().dom().contains(g_key@),
                forall|i: int, j: int|
                    0 <= i < games.spec_len() && 0 <= j < games.spec_len() && i != j
                        ==> games.key_at(i) != games.key_at(j),
                forall|i: int|
                    0 <= i < games.spec_len() ==> #[trigger] games.as_map()[games.key_at(i)]
                        == games.value_at(i) && games.as_map().dom().contains(games.key_at(i)),
                forall|i: int, j: int|
                    0 <= i < mods.spec_len() && 0 <= j < mods.spec_len() && i != j ==> mods.key_at(i)
                        != mods.key_at(j),
                forall|i: int|
                    0 <= i < mods.spec_len() ==> #[trigger] mods.as_map()[mods.key_at(i)]
                        == mods.value_at(i) && mods.as_map().dom().contains(mods.key_at(i)),
                mi <= n_mods,
                out_before.len() <= out@.len(),
                forall|i: int| 0 <= i < out_before.len() ==> #[trigger] out@[i] == out_before[i],
                mks.len() == out@.len() - out_before.len(),
                forall|k: int|
                    0 <= k < mks.len() ==> 0 <= #[trigger] mks[k] < mi && out@[out_before.len() + k].0@
                        == g_key@ && out@[out_before.len() + k].1@ == mods.key_at(mks[k]),
                gks.len() == out@.len(),
                forall|i: int|
                    0 <= i < out@.len() ==> 0 <= #[trigger] gks[i] <= gi && out@[i].0@ == games.key_at(
                        gks[i],
                    ) && (i < out_before.len() ==> gks[i] < gi),
                forall|i: int|
                    0 <= i < out@.len() ==> state_has_mod(*state, #[trigger] out@[i].0@, out@[i].1@)
                        && !has_pair(discovered@, out@[i].0@, out@[i].1@),
                forall|gk: int, mk: int|
                    0 <= gk < gi && 0 <= mk < games.value_at(gk).mods.spec_len() && !has_pair(
                        discovered@,
                        games.key_at(gk),
                        games.value_at(gk).mods.key_at(mk),
                    ) ==> #[trigger] has_pair(
                        out_before,
                        games.key_at(gk),
                        games.value_at(gk).mods.key_at(mk),
                    ),
                forall|mk: int|
                    0 <= mk < mi && !has_pair(discovered@, g_key@, mods.key_at(mk))
                        ==> #[trigger] has_pair(out@, g_key@, mods.key_at(mk)),
                forall|i: int, j: int|
                    0 <= i < j < out@.len() ==> !(out@[i].0@ == out@[j].0@ && out@[i].1@
                        == out@[j].1@),
                pairs_view(out@) == candidate_games(state.games, pairs_view(discovered@), gi as nat)
                    + candidate_mods(state.games, pairs_view(discovered@), gi as int, mi as nat),
            decreases n_mods - mi,
        {
            let m_key = mods.key(mi);
            let ghost before_push = out@;
            proof {
                lemma_has_pair_view(discovered@, g_key@, m_key@);
                assert(candidate_mods(state.games, pairs_view(discovered@), gi as int, (mi + 1) as nat)
                    == if pairs_view(discovered@).contains((g_key@, m_key@)) {
                    candidate_mods(state.games, pairs_view(discovered@), gi as int, mi as nat)
                } else {
                    candidate_mods(state.games, pairs_view(discovered@), gi as int, mi as nat).push(
                        (g_key@, m_key@),
                    )
                });
            }
            if !contains_pair(discovered, g_key.as_str(), m_key.as_str()) {
                let ghost prev = out@;
                assert(mods.as_map()[mods.key_at(mi as int)] == mods.value_at(mi as int));
                proof {
                    assert forall|i: int| 0 <= i < prev.len() implies !(prev[i].0@ == g_key@
                        && prev[i].1@ == m_key@) by {
                        if i < out_before.len() {
                            assert(0 <= gks[i] < gi);
                            assert(games.key_at(gks[i]) != games.key_at(gi as int));
                        } else {
                            let k = i - out_before.len();
                            assert(0 <= mks[k] < mi);
                            assert(mods.key_at(mks[k]) != mods.key_at(mi as int));
                        }
                    }
                }
                out.push((g_key.clone(), m_key.clone()));
                proof {
                    mks = mks.push(mi as int);
                    gks = gks.push(gi as int);
                    let n = prev.len() as int;
                    assert(out@[n].0@ == g_key@ && out@[n].1@ == m_key@);
                    assert(has_pair(out@, g_key@, m_key@));
                    assert forall|i: int| 0 <= i < out_before.len() implies #[trigger] out@[i] == out_before[i] by {
                        assert(out@[i] == prev[i]);
                    }
                    assert forall|mk: int|
                        0 <= mk < mi && !has_pair(discovered@, g_key@, mods.key_at(mk)) implies #[trigger] has_pair(
                        out@,
                        g_key@,
                        mods.key_at(mk),
                    ) by {
                        assert(has_pair(prev, g_key@, mods.key_at(mk)));
                        let w = choose|w: int|
                            0 <= w < prev.len() && prev[w].0@ == g_key@ && prev[w].1@ == mods.key_at(mk);
                        assert(out@[w] == prev[w]);
                    }
                    assert forall|k: int|
                        0 <= k < mks.len() implies 0 <= #[trigger] mks[k] < mi + 1 && out@[out_before.len()
                        + k].0@ == g_key@ && out@[out_before.len() + k].1@ == mods.key_at(mks[k]) by {
                        if out_before.len() + k < n {
                            assert(out@[out_before.len() + k] == prev[out_before.len() + k]);
                        }
                    }
                    assert forall|i: int|
                        0 <= i < out@.len() implies 0 <= #[trigger] gks[i] <= gi && out@[i].0@
                        == games.key_at(gks[i]) && (i < out_before.len() ==> gks[i] < gi) by {
                        if i < n {
                            assert(out@[i] == prev[i]);
                        }
                    }
                    assert forall|i: int| 0 <= i < out@.len() implies state_has_mod(
                        *state,
                        #[trigger] out@[i].0@,
                        out@[i].1@,
                    ) && !has_pair(discovered@, out@[i].0@, out@[i].1@) by {
                        if i < n {
                            assert(out@[i] == prev[i]);
                        }
                    }
                    assert forall|a: int, b: int|
                        0 <= a < b < out@.len() implies !(out@[a].0@ == out@[b].0@ && out@[a].1@
                        == out@[b].1@) by {
                        if b < n {
                            assert(out@[a] == prev[a] && out@[b] == prev[b]);
                        } else {
                            assert(out@[a] == prev[a]);
                        }
                    }
                }
            }
            proof {
                if out@.len() > before_push.len() {
                    assert(pairs_view(out@) =~= pairs_view(before_push).push((g_key@, m_key@)));
                }
                assert(pairs_view(out@) =~= candidate_games(
                    state.games,
                    pairs_view(discovered@),
                    gi as nat,
                ) + candidate_mods(state.games, pairs_view(discovered@), gi as int, (mi + 1) as nat));
            }
            mi = mi + 1;
        }
        assert(candidate_games(state.games, pairs_view(discovered@), (gi + 1) as nat)
            == candidate_games(state.games, pairs_view(discovered@), gi as nat) + candidate_mods(
            state.games,
            pairs_view(discovered@),
            gi as int,
            n_mods as nat,
        ));
        proof {
            assert forall|gk: int, mk: int|
                0 <= gk < gi + 1 && 0 <= mk < games.value_at(gk).mods.spec_len() && !has_pair(
                    discovered@,
                    games.key_at(gk),
                    games.value_at(gk).mods.key_at(mk),
                ) implies #[trigger] has_pair(out@, games.key_at(gk), games.value_at(gk).mods.key_at(mk))
                by {
                if gk < gi {
                    assert(has_pair(out_before, games.key_at(gk), games.value_at(gk).mods.key_at(mk)));
                    let w = choose|w: int|
                        0 <= w < out_before.len() && out_before[w].0@ == games.key_at(gk)
                            && out_before[w].1@ == games.value_at(gk).mods.key_at(mk);
                    assert(out@[w] == out_before[w]);
                } else {
                    assert(has_pair(out@, g_key@, mods.key_at(mk)));
                }
            }
            assert forall|i: int| 0 <= i < out@.len() implies 0 <= #[trigger] gks[i] < gi + 1
                && out@[i].0@ == games.key_at(gks[i]) by {}
        }
        gi = gi + 1;
    }
    proof {
        assert forall|g: Seq<char>, m: Seq<char>|
            state_has_mod(*state, g, m) && !has_pair(discovered@, g, m) implies #[trigger] has_pair(
            out@,
            g,
            m,
        ) by {
            let gk = games.index_of_key(g);
            assert(games.key_at(gk) == g);
            let game_v = games.value_at(gk);
            assert(games.as_map()[g] == game_v);
            let mk = game_v.mods.index_of_key(m);
            assert(game_v.mods.key_at(mk) == m);
        }
    }
    out
}

/// The manifest text that stands in for an installed mod whose source gave
/// no usable manifest: built from the install record, double quotes in the
/// names escaped.
pub open spec fn fallback_manifest_yaml_spec(
    mod_slug: Seq<char>,
    name: Seq<char>,
    version: Seq<char>,
    source: Seq<char>,
    game_name: Seq<char>,
    loader: Seq<char>,
) -> Seq<char> {
    "spec: 1\nid: "@ + mod_slug + "\nname: \""@ + replace_all(name, "\""@, "\\\""@)
        + "\"\ndescription: \"Locally installed\"\nauthor: unknown\nversion: \""@ + version
        + "\"\nsource: \""@ + source + "\"\ngame:\n  name: \""@ + replace_all(
        game_name,
        "\""@,
        "\\\""@,
    ) + "\"\nloader:\n  name: "@ + loader + "\nrelease:\n  asset: \"placeholder.zip\"\n"@
}

/// The stand-in manifest text for the installed mod `mod_slug` of a game named `game_name`.
pub fn fallback_manifest_yaml(mod_slug: &str, m: &ModState, game_name: &str) -> (r: String)
    ensures
        r@ == fallback_manifest_yaml_spec(
            mod_slug@,
            m.name@,
            m.version@,
            m.source@,
            game_name@,
            m.loader@,
        ),
{
    let mut y = String::new();
    push_str(&mut y, "spec: 1\nid: ");
    push_str(&mut y, mod_slug);
    push_str(&mut y, "\nname: \"");
    push_str(&mut y, replace_str(m.name.as_str(), "\"", "\\\"").as_str());
    push_str(&mut y, "\"\ndescription: \"Locally installed\"\nauthor: unknown\nversion: \"");
    push_str(&mut y, m.version.as_str());
    push_str(&mut y, "\"\nsource: \"");
    push_str(&mut y, m.source.as_str());
    push_str(&mut y, "\"\ngame:\n  name: \"");
    push_str(&mut y, replace_str(game_name, "\"", "\\\"").as_str());
    push_str(&mut y, "\"\nloader:\n  name: ");
    push_str(&mut y, m.loader.as_str());
    push_str(&mut y, "\nrelease:\n  asset: \"placeholder.zip\"\n");
    assert(y@ =~= fallback_manifest_yaml_spec(
        mod_slug@,
        m.name@,
        m.version@,
        m.source@,
        game_name@,
        m.loader@,
    ));
    y
}

/// What discovery asks the caller to do next.
pub enum DiscoverRequest {
    /// Search GitHub for mod repositories.
    SearchRepos,
    /// Fetch a repo's manifest, conditionally on the ETag if one is given.
    FetchManifest { owner: String, repo: String, etag: Option<String> },
    /// Fetch the manifest of a source.
    FetchSource { source: Source },
    /// Parse manifest text.
    Parse { yaml: String },
    /// Nothing more: discovery is over.
    Finished,
}

/// The meaning of a discovery request, its texts as character sequences.
pub enum DiscoverRequestSpec {
    SearchRepos,
    FetchManifest(Seq<char>, Seq<char>, Option<Seq<char>>),
    FetchSource(SourceSpec),
    Parse(Seq<char>),
    Finished,
}

impl View for DiscoverRequest {
    type V = DiscoverRequestSpec;

    open spec fn view(&self) -> DiscoverRequestSpec {
        match self {
            DiscoverRequest::SearchRepos => DiscoverRequestSpec::SearchRepos,
            DiscoverRequest::FetchManifest { owner, repo, etag } => DiscoverRequestSpec::FetchManifest(
                owner@,
                repo@,
                match etag {
                    Some(e) => Some(e@),
                    None => None,
                },
            ),
            DiscoverRequest::FetchSource { source } => DiscoverRequestSpec::FetchSource(source@),
            DiscoverRequest::Parse { yaml } => DiscoverRequestSpec::Parse(yaml@),
            DiscoverRequest::Finished => DiscoverRequestSpec::Finished,
        }
    }
}

/// The answer to the last request.
pub enum DiscoverEvent {
    /// The repositories found, or why the search failed.
    Repos(Result<Vec<DiscoveredMod>, String>),
    /// A repo's manifest, or why fetching it failed.
    Fetched(Result<CachedResponse, String>),
    /// A source's manifest text, or why fetching it failed.
    SourceFetched(Result<String, String>),
    /// The parsed manifest, or why the text did not parse.
    Parsed(Result<Manifest, String>),
}

/// What one step of discovery produced.
pub struct DiscoverStep {
    /// Messages to report, in order.
    pub messages: Vec<ProgressMsg>,
    /// Save the state (the manifest cache changed) before finishing.
    pub save_state: bool,
    /// What to do next.
    pub request: DiscoverRequest,
}

/// A discovery message as discovery means it: a loaded mod by its manifest,
/// the install record found for it and its latest tag.
pub enum Report {
    Status(Seq<char>),
    Started(nat),
    Loaded(Manifest, Option<ModRecord>, Option<Seq<char>>),
    Skipped(Seq<char>, Seq<char>, Seq<char>),
    Finished,
    Done,
    Failed(Seq<char>),
    Other,
}

/// What a progress message reports.
pub open spec fn report_of(msg: ProgressMsg) -> Report {
    match msg {
        ProgressMsg::Status(s) => Report::Status(s@),
        ProgressMsg::DiscoveryStarted { repo_count } => Report::Started(repo_count as nat),
        ProgressMsg::ModLoaded(l) => Report::Loaded(
            l.manifest,
            match l.installed {
                Some(i) => Some(i@),
                None => None,
            },
            match l.latest_tag {
                Some(t) => Some(t@),
                None => None,
            },
        ),
        ProgressMsg::ModSkipped { owner, repo, reason } => Report::Skipped(owner@, repo@, reason@),
        ProgressMsg::DiscoveryFinished => Report::Finished,
        ProgressMsg::Done(TaskResult::Discovery) => Report::Done,
        ProgressMsg::Failed(s) => Report::Failed(s@),
        _ => Report::Other,
    }
}

/// What a list of progress messages reports.
pub open spec fn reports_of(msgs: Seq<ProgressMsg>) -> Seq<Report> {
    msgs.map_values(|m: ProgressMsg| report_of(m))
}

/// Where a discovery session stands.
#[derive(PartialEq, Eq, Structural)]
pub enum Phase {
    /// Waiting for the repository search.
    AwaitRepos,
    /// Waiting for the manifest of the current repository.
    AwaitFetch,
    /// Waiting for the parsed manifest of the current repository.
    AwaitRepoParse,
    /// Waiting for the remote manifest of the current installed mod.
    AwaitLocalFetch,
    /// Waiting for the parsed remote manifest of the current installed mod.
    AwaitLocalParse,
    /// Waiting for the parsed stand-in manifest of the current installed mod.
    AwaitFallbackParse,
    /// Waiting for the parsed text of the current cached manifest.
    AwaitCacheParse,
    /// Discovery is over.
    Done,
}

/// The meaning of a discovery session.
#[verifier::ext_equal]
pub struct DiscoveryModel {
    /// The games and their installed mods; discovery never changes them.
    pub games: StrMap<GameState>,
    /// The keys of the manifest cache, in the cache's order.
    pub cache_keys: Seq<Seq<char>>,
    /// The manifest cache.
    pub cache: Map<Seq<char>, CachedManifest>,
    /// Where the session stands.
    pub phase: Phase,
    /// The repositories the search found.
    pub repos: Seq<DiscoveredMod>,
    /// The position of the current repository.
    pub next: int,
    /// A fetched manifest was stored in the cache.
    pub cache_updated: bool,
    /// The (game, mod) slugs of the mods the search found so far.
    pub discovered: Seq<(Seq<char>, Seq<char>)>,
    /// The installed mods that the search did not find.
    pub local: Seq<(Seq<char>, Seq<char>)>,
    /// The position of the current installed mod.
    pub next_local: int,
    /// The position of the current cached manifest.
    pub next_cache: int,
}

/// What one step makes of a session.
pub struct DiscoverOutcome {
    /// The session afterwards.
    pub session: DiscoveryModel,
    /// What the step reports, in order.
    pub reports: Seq<Report>,
    /// Save the state before finishing.
    pub save: bool,
    /// The next request.
    pub request: DiscoverRequestSpec,
}

/// An outcome.
pub open spec fn outcome(
    session: DiscoveryModel,
    reports: Seq<Report>,
    save: bool,
    request: DiscoverRequestSpec,
) -> DiscoverOutcome {
    DiscoverOutcome { session, reports, save, request }
}

/// The session `v`, now in phase `p`.
pub open spec fn in_phase(v: DiscoveryModel, p: Phase) -> DiscoveryModel {
    DiscoveryModel { phase: p, ..v }
}

/// The install record of mod `m` of game `g`.
pub open spec fn record_of(games: StrMap<GameState>, g: Seq<char>, m: Seq<char>) -> ModState {
    games.as_map()[g].mods.as_map()[m]
}

/// The install record the games hold for mod `m` of game `g`, if any.
pub open spec fn games_record(games: StrMap<GameState>, g: Seq<char>, m: Seq<char>) -> Option<
    ModRecord,
> {
    if games.as_map().dom().contains(g) && games.as_map()[g].mods.as_map().dom().contains(m) {
        Some(record_of(games, g, m)@)
    } else {
        None
    }
}

/// The install record of the current installed mod.
pub open spec fn current_record(v: DiscoveryModel) -> ModState {
    record_of(v.games, v.local[v.next_local].0, v.local[v.next_local].1)
}

/// The stand-in manifest text of the current installed mod.
pub open spec fn fallback_yaml_of(v: DiscoveryModel) -> Seq<char> {
    let rec = current_record(v);
    fallback_manifest_yaml_spec(
        v.local[v.next_local].1,
        rec.name@,
        rec.version@,
        rec.source@,
        v.games.as_map()[v.local[v.next_local].0].name@,
        rec.loader@,
    )
}

/// A mod loaded from a manifest: reported with the install record the
/// games hold for it and its manifest version as the latest tag.
pub open spec fn loaded_report(games: StrMap<GameState>, m: Manifest) -> Report {
    Report::Loaded(m, games_record(games, slug_spec(m.game.name@), m.id@), Some(m.version@))
}

/// Go on with the next installed mod that the search did not find: ask for
/// its remote manifest (or parse its stand-in manifest when its source does
/// not parse); after the last, report the end of discovery and save the
/// state if the cache changed.
pub open spec fn local_begin_spec(v: DiscoveryModel, reports: Seq<Report>) -> DiscoverOutcome {
    if v.next_local < v.local.len() {
        match crate::manifest::parse_source_spec(current_record(v).source@) {
            Ok(src) => outcome(
                in_phase(v, Phase::AwaitLocalFetch),
                reports,
                false,
                DiscoverRequestSpec::FetchSource(src),
            ),
            Err(_) => outcome(
                in_phase(v, Phase::AwaitFallbackParse),
                reports,
                false,
                DiscoverRequestSpec::Parse(fallback_yaml_of(v)),
            ),
        }
    } else {
        outcome(
            in_phase(v, Phase::Done),
            reports + seq![Report::Finished, Report::Done],
            v.cache_updated,
            DiscoverRequestSpec::Finished,
        )
    }
}

/// Go on with the next repository: report `Loading i of n: owner/repo` and
/// ask for its manifest (with the cached ETag); after the last, go on with
/// the installed mods that the search did not find.
pub open spec fn repo_begin_spec(v: DiscoveryModel, reports: Seq<Report>) -> DiscoverOutcome {
    if v.next < v.repos.len() {
        let owner = v.repos[v.next].owner@;
        let repo = v.repos[v.next].repo@;
        outcome(
            in_phase(v, Phase::AwaitFetch),
            reports.push(
                Report::Status(loading_text((v.next + 1) as nat, v.repos.len(), owner, repo)),
            ),
            false,
            DiscoverRequestSpec::FetchManifest(
                owner,
                repo,
                cached_etag_spec(v.cache, cache_key_spec(owner, repo)),
            ),
        )
    } else {
        local_begin_spec(
            DiscoveryModel { local: local_candidates(v.games, v.discovered), next_local: 0, ..v },
            reports,
        )
    }
}

/// Go on with the next cached manifest (offline): ask to parse it; after
/// the last, report the end of discovery.
pub open spec fn cache_begin_spec(v: DiscoveryModel, reports: Seq<Report>) -> DiscoverOutcome {
    if v.next_cache < v.cache_keys.len() {
        outcome(
            in_phase(v, Phase::AwaitCacheParse),
            reports,
            false,
            DiscoverRequestSpec::Parse(v.cache[v.cache_keys[v.next_cache]].yaml@),
        )
    } else {
        outcome(
            in_phase(v, Phase::Done),
            reports + seq![Report::Finished, Report::Done],
            false,
            DiscoverRequestSpec::Finished,
        )
    }
}

/// One step of discovery: what session `v` makes of answer `e`.
pub open spec fn discover_step_spec(v: DiscoveryModel, e: DiscoverEvent) -> DiscoverOutcome {
    match (v.phase, e) {
        (Phase::AwaitRepos, DiscoverEvent::Repos(Ok(repos))) => repo_begin_spec(
            DiscoveryModel { repos: repos@, next: 0, ..v },
            seq![Report::Started(repos@.len())],
        ),
        (Phase::AwaitRepos, DiscoverEvent::Repos(Err(err))) => {
            if v.cache_keys.len() > 0 {
                cache_begin_spec(
                    DiscoveryModel { next_cache: 0, ..v },
                    seq![
                        Report::Status("Offline — showing cached mods..."@),
                        Report::Started(v.cache_keys.len()),
                    ],
                )
            } else {
                outcome(
                    in_phase(v, Phase::Done),
                    seq![Report::Failed("Failed to search GitHub: "@ + err@)],
                    false,
                    DiscoverRequestSpec::Finished,
                )
            }
        },
        (Phase::AwaitFetch, DiscoverEvent::Fetched(result)) => {
            let owner = v.repos[v.next].owner@;
            let repo = v.repos[v.next].repo@;
            let key = cache_key_spec(owner, repo);
            match result {
                Ok(CachedResponse::Fresh { yaml, etag }) => outcome(
                    DiscoveryModel {
                        cache: v.cache.insert(key, CachedManifest { etag, yaml }),
                        cache_keys: if v.cache.dom().contains(key) {
                            v.cache_keys
                        } else {
                            v.cache_keys.push(key)
                        },
                        cache_updated: true,
                        phase: Phase::AwaitRepoParse,
                        ..v
                    },
                    seq![],
                    false,
                    DiscoverRequestSpec::Parse(yaml@),
                ),
                Ok(CachedResponse::NotModified) => {
                    if v.cache.dom().contains(key) {
                        outcome(
                            in_phase(v, Phase::AwaitRepoParse),
                            seq![],
                            false,
                            DiscoverRequestSpec::Parse(v.cache[key].yaml@),
                        )
                    } else {
                        repo_begin_spec(
                            DiscoveryModel { next: v.next + 1, ..v },
                            seq![Report::Skipped(owner, repo, "304 but no cached data"@)],
                        )
                    }
                },
                Err(err) => {
                    if v.cache.dom().contains(key) {
                        outcome(
                            in_phase(v, Phase::AwaitRepoParse),
                            seq![],
                            false,
                            DiscoverRequestSpec::Parse(v.cache[key].yaml@),
                        )
                    } else {
                        repo_begin_spec(
                            DiscoveryModel { next: v.next + 1, ..v },
                            seq![Report::Skipped(owner, repo, err@)],
                        )
                    }
                },
            }
        },
        (Phase::AwaitRepoParse, DiscoverEvent::Parsed(parsed)) => match validated_spec(parsed) {
            Ok(m) => repo_begin_spec(
                DiscoveryModel {
                    discovered: v.discovered.push((slug_spec(m.game.name@), m.id@)),
                    next: v.next + 1,
                    ..v
                },
                seq![loaded_report(v.games, m)],
            ),
            Err(t) => repo_begin_spec(
                DiscoveryModel { next: v.next + 1, ..v },
                seq![
                    Report::Skipped(
                        v.repos[v.next].owner@,
                        v.repos[v.next].repo@,
                        "invalid manifest: "@ + t,
                    ),
                ],
            ),
        },
        (Phase::AwaitLocalFetch, DiscoverEvent::SourceFetched(fetched)) => match fetched {
            Ok(yaml) => outcome(
                in_phase(v, Phase::AwaitLocalParse),
                seq![],
                false,
                DiscoverRequestSpec::Parse(yaml@),
            ),
            Err(_) => outcome(
                in_phase(v, Phase::AwaitFallbackParse),
                seq![],
                false,
                DiscoverRequestSpec::Parse(fallback_yaml_of(v)),
            ),
        },
        (Phase::AwaitLocalParse, DiscoverEvent::Parsed(parsed)) => match validated_spec(parsed) {
            Ok(m) => local_begin_spec(
                DiscoveryModel { next_local: v.next_local + 1, ..v },
                seq![Report::Loaded(m, Some(current_record(v)@), Some(m.version@))],
            ),
            Err(_) => outcome(
                in_phase(v, Phase::AwaitFallbackParse),
                seq![],
                false,
                DiscoverRequestSpec::Parse(fallback_yaml_of(v)),
            ),
        },
        (Phase::AwaitFallbackParse, DiscoverEvent::Parsed(parsed)) => local_begin_spec(
            DiscoveryModel { next_local: v.next_local + 1, ..v },
            match validated_spec(parsed) {
                Ok(m) => seq![Report::Loaded(m, Some(current_record(v)@), None)],
                Err(_) => seq![],
            },
        ),
        (Phase::AwaitCacheParse, DiscoverEvent::Parsed(parsed)) => cache_begin_spec(
            DiscoveryModel { next_cache: v.next_cache + 1, ..v },
            match validated_spec(parsed) {
                Ok(m) => seq![loaded_report(v.games, m)],
                Err(_) => seq![],
            },
        ),
        (Phase::Done, _) => outcome(v, seq![], false, DiscoverRequestSpec::Finished),
        (_, _) => outcome(
            in_phase(v, Phase::Done),
            seq![Report::Failed("discovery received an answer it did not ask for"@)],
            false,
            DiscoverRequestSpec::Finished,
        ),
    }
}

/// `after` and `r` are what one step makes of session `v` and answer `e`.
pub open spec fn step_matches(v: DiscoveryModel, e: DiscoverEvent, after: DiscoveryModel, r: DiscoverStep) -> bool {
    let o = discover_step_spec(v, e);
    &&& after == o.session
    &&& reports_of(r.messages@) == o.reports
    &&& r.save_state == o.save
    &&& r.request@ == o.request
}

/// The phase a session is in does not change where the next repository,
/// installed mod or cached manifest leads.
proof fn lemma_begin_ignores_phase(v: DiscoveryModel, p: Phase, reports: Seq<Report>)
    ensures
        repo_begin_spec(in_phase(v, p), reports) == repo_begin_spec(v, reports),
        local_begin_spec(in_phase(v, p), reports) == local_begin_spec(v, reports),
        cache_begin_spec(in_phase(v, p), reports) == cache_begin_spec(v, reports),
{
    let w = in_phase(v, p);
    assert forall|q: Phase| #![auto] in_phase(w, q) == in_phase(v, q) by {
        assert(in_phase(w, q) =~= in_phase(v, q));
    }
    let lw = DiscoveryModel { local: local_candidates(w.games, w.discovered), next_local: 0, ..w };
    let lv = DiscoveryModel { local: local_candidates(v.games, v.discovered), next_local: 0, ..v };
    assert(lw == in_phase(lv, p));
    assert forall|q: Phase| #![auto] in_phase(lw, q) == in_phase(lv, q) by {
        assert(in_phase(lw, q) =~= in_phase(lv, q));
    }
}

/// The reports of `rs` other than status lines.
pub open spec fn shown(rs: Seq<Report>) -> Seq<Report>
    decreases rs.len(),
{
    if rs.len() == 0 {
        Seq::empty()
    } else if rs.last() is Status {
        shown(rs.drop_last())
    } else {
        shown(rs.drop_last()).push(rs.last())
    }
}

/// The report for repository `d`: its mod loaded with the install record
/// the games `g` hold for it and its manifest version as the latest tag, or
/// `d` skipped.
pub open spec fn repo_report(r: Report, d: DiscoveredMod, g: StrMap<GameState>) -> bool {
    ||| (r matches Report::Loaded(m, rec, t) && rec == games_record(g, slug_spec(m.game.name@), m.id@)
        && t == Some(m.version@))
    ||| (r matches Report::Skipped(o, p, _) && o == d.owner@ && p == d.repo@)
}

/// The (game slug, mod id) pairs of the mods loaded in `rs`, in order.
pub open spec fn loaded_pairs(rs: Seq<Report>) -> Seq<(Seq<char>, Seq<char>)>
    decreases rs.len(),
{
    if rs.len() == 0 {
        Seq::empty()
    } else {
        let p = loaded_pairs(rs.drop_last());
        match rs.last() {
            Report::Loaded(m, _, _) => p.push((slug_spec(m.game.name@), m.id@)),
            _ => p,
        }
    }
}

/// The report for an installed mod that the search did not find: loaded
/// with the install record of one of the pairs in `local`.
pub open spec fn local_report(r: Report, local: Seq<(Seq<char>, Seq<char>)>, g: StrMap<GameState>) -> bool {
    r matches Report::Loaded(_, Some(rec), _) && exists|j: int|
        0 <= j < local.len() && rec == #[trigger] record_of(g, local[j].0, local[j].1)@
}

/// Where the reports of the repositories end in `s`.
pub open spec fn repo_end(s: Seq<Report>, repos: Seq<DiscoveredMod>) -> int {
    if s.len() <= 1 + repos.len() {
        s.len() as int
    } else {
        1 + repos.len() as int
    }
}

/// Reports of a discovery through the search: the count of repositories,
/// then one report per repository in order, then installed mods among
/// `local`, the pairs the state records that the search did not load.
/// `discovered` are the pairs of the mods loaded for repositories.
pub open spec fn online_body(
    s: Seq<Report>,
    repos: Seq<DiscoveredMod>,
    discovered: Seq<(Seq<char>, Seq<char>)>,
    local: Seq<(Seq<char>, Seq<char>)>,
    g: StrMap<GameState>,
) -> bool {
    &&& s.len() >= 1
    &&& s[0] == Report::Started(repos.len())
    &&& forall|i: int|
        1 <= i < s.len() ==> if i <= repos.len() {
            repo_report(#[trigger] s[i], repos[i - 1], g)
        } else {
            local_report(s[i], local, g)
        }
    &&& discovered == loaded_pairs(s.subrange(1, repo_end(s, repos)))
    &&& s.len() > 1 + repos.len() ==> local == local_candidates(g, discovered)
}

/// Reports of a discovery from the cache: the count, then loaded mods.
pub open spec fn offline_body(s: Seq<Report>) -> bool {
    &&& s.len() >= 1
    &&& s[0] is Started
    &&& forall|i: int| 1 <= i < s.len() ==> #[trigger] s[i] is Loaded
}

/// Reports of a discovery that has come some way.
pub open spec fn partial_body(s: Seq<Report>, v: DiscoveryModel, g: StrMap<GameState>) -> bool {
    s.len() == 0 || online_body(s, v.repos, v.discovered, v.local, g) || offline_body(s)
}

/// Reports of a discovery that went all the way: every repository reported.
pub open spec fn complete_body(s: Seq<Report>, v: DiscoveryModel, g: StrMap<GameState>) -> bool {
    (online_body(s, v.repos, v.discovered, v.local, g) && s.len() >= 1 + v.repos.len())
        || offline_body(s)
}

/// What a discovery has reported so far, status lines aside, is in order:
/// while it runs, the reports of its stage; once it is over, either all of
/// them followed by the end of discovery and completion, or some of them
/// followed by one failure. The games never change.
pub open spec fn discovery_in_order(v: DiscoveryModel, s: Seq<Report>, g: StrMap<GameState>) -> bool {
    &&& v.games == g
    &&& match v.phase {
        Phase::AwaitRepos => s.len() == 0 && v.discovered.len() == 0,
        Phase::AwaitFetch => online_body(s, v.repos, v.discovered, v.local, g) && s.len() == 1
            + v.next && 0 <= v.next < v.repos.len(),
        Phase::AwaitRepoParse => online_body(s, v.repos, v.discovered, v.local, g) && s.len() == 1
            + v.next && 0 <= v.next < v.repos.len(),
        Phase::AwaitCacheParse => offline_body(s),
        Phase::Done => {
            ||| (s.len() >= 2 && s[s.len() - 2] == Report::Finished && s[s.len() - 1] == Report::Done
                && complete_body(s.take(s.len() - 2), v, g))
            ||| (s.len() >= 1 && s[s.len() - 1] is Failed && partial_body(s.drop_last(), v, g))
        },
        _ => online_body(s, v.repos, v.discovered, v.local, g) && s.len() >= 1 + v.repos.len()
            && v.local == local_candidates(g, v.discovered) && 0 <= v.next_local < v.local.len(),
    }
}

/// Every pair among the candidates is a mod the games record (a key of a
/// game's mods) and not among `found`.
pub open spec fn unseen_candidate(
    games: StrMap<GameState>,
    found: Seq<(Seq<char>, Seq<char>)>,
    p: (Seq<char>, Seq<char>),
) -> bool {
    &&& !found.contains(p)
    &&& exists|gi: int, j: int|
        0 <= gi < games.spec_len() && 0 <= j < games.value_at(gi).mods.spec_len() && p == (
            games.key_at(gi),
            #[trigger] games.value_at(gi).mods.key_at(j),
        )
}

proof fn lemma_candidate_mods_unseen(
    games: StrMap<GameState>,
    found: Seq<(Seq<char>, Seq<char>)>,
    gi: int,
    mi: nat,
)
    requires
        0 <= gi < games.spec_len(),
        mi <= games.value_at(gi).mods.spec_len(),
    ensures
        forall|k: int|
            0 <= k < candidate_mods(games, found, gi, mi).len() ==> unseen_candidate(
                games,
                found,
                #[trigger] candidate_mods(games, found, gi, mi)[k],
            ),
    decreases mi,
{
    if mi > 0 {
        lemma_candidate_mods_unseen(games, found, gi, (mi - 1) as nat);
        let prev = candidate_mods(games, found, gi, (mi - 1) as nat);
        let c = candidate_mods(games, found, gi, mi);
        let p = (games.key_at(gi), games.value_at(gi).mods.key_at(mi - 1));
        assert forall|k: int| 0 <= k < c.len() implies unseen_candidate(games, found, #[trigger] c[k]) by {
            if k < prev.len() {
                assert(c[k] == prev[k]);
            } else {
                assert(c[k] == p);
                assert(games.value_at(gi).mods.key_at(mi - 1) == p.1);
            }
        }
    }
}

proof fn lemma_candidate_games_unseen(games: StrMap<GameState>, found: Seq<(Seq<char>, Seq<char>)>, gi: nat)
    requires
        gi <= games.spec_len(),
    ensures
        forall|k: int|
            0 <= k < candidate_games(games, found, gi).len() ==> unseen_candidate(
                games,
                found,
                #[trigger] candidate_games(games, found, gi)[k],
            ),
    decreases gi,
{
    if gi > 0 {
        lemma_candidate_games_unseen(games, found, (gi - 1) as nat);
        let n = games.value_at(gi - 1).mods.spec_len();
        lemma_candidate_mods_unseen(games, found, gi - 1, n);
        let a = candidate_games(games, found, (gi - 1) as nat);
        let b = candidate_mods(games, found, gi - 1, n);
        assert forall|k: int| 0 <= k < (a + b).len() implies unseen_candidate(games, found, #[trigger] (a + b)[k]) by {
            if k < a.len() {
                assert((a + b)[k] == a[k]);
            } else {
                assert((a + b)[k] == b[k - a.len()]);
            }
        }
    }
}

/// The installed mods a discovery goes on with after the search are mods
/// the state records whose (game, mod) pair the search did not load.
pub proof fn lemma_local_candidates_unseen(games: StrMap<GameState>, found: Seq<(Seq<char>, Seq<char>)>)
    ensures
        forall|k: int|
            0 <= k < local_candidates(games, found).len() ==> unseen_candidate(
                games,
                found,
                #[trigger] local_candidates(games, found)[k],
            ),
{
    lemma_candidate_games_unseen(games, found, games.spec_len());
}

/// The state of a discovery after the answers `events`, and everything it
/// reported, from session `v`.
pub open spec fn discover_run(v: DiscoveryModel, events: Seq<DiscoverEvent>) -> (DiscoveryModel, Seq<
    Report,
>)
    decreases events.len(),
{
    if events.len() == 0 {
        (v, Seq::empty())
    } else {
        let (w, rs) = discover_run(v, events.drop_last());
        let o = discover_step_spec(w, events.last());
        (o.session, rs + o.reports)
    }
}

proof fn lemma_shown_concat(a: Seq<Report>, b: Seq<Report>)
    ensures
        shown(a + b) == shown(a) + shown(b),
    decreases b.len(),
{
    if b.len() == 0 {
        assert(a + b =~= a);
        assert(shown(a) + shown(b) =~= shown(a));
    } else {
        lemma_shown_concat(a, b.drop_last());
        assert((a + b).drop_last() =~= a + b.drop_last());
        assert((a + b).last() == b.last());
        if !(b.last() is Status) {
            assert(shown(a) + shown(b) =~= (shown(a) + shown(b.drop_last())).push(b.last()));
        }
    }
}

proof fn lemma_shown_one(x: Report)
    ensures
        shown(seq![x]) == (if x is Status {
            Seq::<Report>::empty()
        } else {
            seq![x]
        }),
{
    assert(seq![x].drop_last() =~= Seq::<Report>::empty());
    assert(seq![x].last() == x);
    assert(shown(Seq::<Report>::empty()) == Seq::<Report>::empty());
    if !(x is Status) {
        assert(Seq::<Report>::empty().push(x) =~= seq![x]);
    }
}

/// Ending with the end of discovery and completion after complete reports.
proof fn lemma_finish_in_order(v: DiscoveryModel, rs: Seq<Report>, g: StrMap<GameState>)
    requires
        v.games == g,
        complete_body(shown(rs), v, g),
    ensures
        discovery_in_order(
            in_phase(v, Phase::Done),
            shown(rs + seq![Report::Finished, Report::Done]),
            g,
        ),
{
    lemma_shown_concat(rs, seq![Report::Finished, Report::Done]);
    lemma_shown_concat(seq![Report::Finished], seq![Report::Done]);
    lemma_shown_one(Report::Finished);
    lemma_shown_one(Report::Done);
    assert(seq![Report::Finished] + seq![Report::Done] =~= seq![Report::Finished, Report::Done]);
    let s = shown(rs + seq![Report::Finished, Report::Done]);
    assert(s =~= shown(rs) + seq![Report::Finished, Report::Done]);
    assert(s.take(s.len() - 2) =~= shown(rs));
    assert(in_phase(v, Phase::Done).repos == v.repos);
}

/// Going on with the installed mods the search did not find keeps the reports in order.
proof fn lemma_local_begin_in_order(v: DiscoveryModel, rs: Seq<Report>, g: StrMap<GameState>)
    requires
        v.games == g,
        online_body(shown(rs), v.repos, v.discovered, v.local, g),
        shown(rs).len() >= 1 + v.repos.len(),
        v.local == local_candidates(g, v.discovered),
        0 <= v.next_local,
    ensures
        ({
            let o = local_begin_spec(v, rs);
            discovery_in_order(o.session, shown(o.reports), g)
        }),
{
    if v.next_local >= v.local.len() {
        lemma_finish_in_order(v, rs, g);
    }
}

/// Going on with the next repository keeps the reports in order.
proof fn lemma_repo_begin_in_order(v: DiscoveryModel, rs: Seq<Report>, g: StrMap<GameState>)
    requires
        v.games == g,
        online_body(shown(rs), v.repos, v.discovered, v.local, g),
        shown(rs).len() == 1 + v.next,
        0 <= v.next <= v.repos.len(),
    ensures
        ({
            let o = repo_begin_spec(v, rs);
            discovery_in_order(o.session, shown(o.reports), g)
        }),
{
    if v.next < v.repos.len() {
        let owner = v.repos[v.next].owner@;
        let repo = v.repos[v.next].repo@;
        let x = Report::Status(loading_text((v.next + 1) as nat, v.repos.len(), owner, repo));
        lemma_shown_concat(rs, seq![x]);
        lemma_shown_one(x);
        assert(rs.push(x) =~= rs + seq![x]);
        assert(shown(rs.push(x)) =~= shown(rs));
    } else {
        let w = DiscoveryModel { local: local_candidates(v.games, v.discovered), next_local: 0, ..v };
        let s = shown(rs);
        assert(repo_end(s, v.repos) == s.len());
        lemma_local_begin_in_order(w, rs, g);
    }
}

/// Going on with the next cached manifest keeps the reports in order.
proof fn lemma_cache_begin_in_order(v: DiscoveryModel, rs: Seq<Report>, g: StrMap<GameState>)
    requires
        v.games == g,
        offline_body(shown(rs)),
    ensures
        ({
            let o = cache_begin_spec(v, rs);
            discovery_in_order(o.session, shown(o.reports), g)
        }),
{
    if v.next_cache >= v.cache_keys.len() {
        lemma_finish_in_order(v, rs, g);
    }
}

/// Appending one report to reports in order.
proof fn lemma_shown_push(rs: Seq<Report>, x: Report)
    requires
        !(x is Status),
    ensures
        shown(rs + seq![x]) == shown(rs).push(x),
{
    lemma_shown_concat(rs, seq![x]);
    lemma_shown_one(x);
}

/// One step keeps the reports in order.
proof fn lemma_discover_step_in_order(
    v: DiscoveryModel,
    rs: Seq<Report>,
    e: DiscoverEvent,
    g: StrMap<GameState>,
)
    requires
        discovery_in_order(v, shown(rs), g),
    ensures
        ({
            let o = discover_step_spec(v, e);
            discovery_in_order(o.session, shown(rs + o.reports), g)
        }),
{
    let s = shown(rs);
    let o = discover_step_spec(v, e);
    match (v.phase, e) {
        (Phase::AwaitRepos, DiscoverEvent::Repos(Ok(repos))) => {
            let w = DiscoveryModel { repos: repos@, next: 0, ..v };
            let st = seq![Report::Started(repos@.len())];
            lemma_shown_push(rs, Report::Started(repos@.len()));
            assert(rs + st =~= rs + seq![Report::Started(repos@.len())]);
            let s1 = shown(rs + st);
            assert(s1 =~= seq![Report::Started(repos@.len())]);
            assert(s1.subrange(1, repo_end(s1, repos@)) =~= Seq::<Report>::empty());
            assert(loaded_pairs(Seq::<Report>::empty()) == Seq::<(Seq<char>, Seq<char>)>::empty());
            assert(v.discovered =~= Seq::<(Seq<char>, Seq<char>)>::empty());
            lemma_repo_begin_in_order(w, rs + st, g);
            lemma_shown_concat(rs, o.reports);
            assert(repo_begin_spec(w, st).reports =~= o.reports);
            lemma_repo_begin_append(w, rs, st);
        },
        (Phase::AwaitRepos, DiscoverEvent::Repos(Err(err))) => {
            if v.cache_keys.len() > 0 {
                let w = DiscoveryModel { next_cache: 0, ..v };
                let st = seq![
                    Report::Status("Offline — showing cached mods..."@),
                    Report::Started(v.cache_keys.len()),
                ];
                lemma_shown_concat(rs, st);
                lemma_shown_concat(seq![st[0]], seq![st[1]]);
                lemma_shown_one(st[0]);
                lemma_shown_one(st[1]);
                assert(seq![st[0]] + seq![st[1]] =~= st);
                lemma_cache_begin_in_order(w, rs + st, g);
                lemma_cache_begin_append(w, rs, st);
            } else {
                lemma_shown_push(rs, o.reports[0]);
                assert(o.reports =~= seq![o.reports[0]]);
                assert(shown(rs + o.reports).drop_last() =~= s);
            }
        },
        (Phase::AwaitFetch, DiscoverEvent::Fetched(result)) => {
            lemma_fetched_in_order(v, rs, result, g);
        },
        (Phase::AwaitRepoParse, DiscoverEvent::Parsed(parsed)) => {
            let x = match validated_spec(parsed) {
                Ok(m) => loaded_report(v.games, m),
                Err(t) => Report::Skipped(
                    v.repos[v.next].owner@,
                    v.repos[v.next].repo@,
                    "invalid manifest: "@ + t,
                ),
            };
            let w = match validated_spec(parsed) {
                Ok(m) => DiscoveryModel {
                    discovered: v.discovered.push((slug_spec(m.game.name@), m.id@)),
                    next: v.next + 1,
                    ..v
                },
                Err(_) => DiscoveryModel { next: v.next + 1, ..v },
            };
            lemma_shown_push(rs, x);
            lemma_online_push_repo(s, v.repos, v.discovered, v.local, g, x);
            lemma_repo_begin_in_order(w, rs + seq![x], g);
            lemma_repo_begin_append(w, rs, seq![x]);
        },
        (Phase::AwaitLocalFetch, DiscoverEvent::SourceFetched(_)) => {
            assert(rs + o.reports =~= rs);
        },
        (Phase::AwaitLocalParse, DiscoverEvent::Parsed(parsed)) => {
            match validated_spec(parsed) {
                Ok(m) => {
                    let x = Report::Loaded(m, Some(current_record(v)@), Some(m.version@));
                    let w = DiscoveryModel { next_local: v.next_local + 1, ..v };
                    lemma_shown_push(rs, x);
                    assert(record_of(g, v.local[v.next_local].0, v.local[v.next_local].1) == current_record(v));
                    lemma_online_push_local(s, v.repos, v.discovered, v.local, g, x);
                    lemma_local_begin_in_order(w, rs + seq![x], g);
                    lemma_local_begin_append(w, rs, seq![x]);
                },
                Err(_) => {
                    assert(rs + o.reports =~= rs);
                },
            }
        },
        (Phase::AwaitFallbackParse, DiscoverEvent::Parsed(parsed)) => {
            let w = DiscoveryModel { next_local: v.next_local + 1, ..v };
            match validated_spec(parsed) {
                Ok(m) => {
                    let x = Report::Loaded(m, Some(current_record(v)@), None);
                    lemma_shown_push(rs, x);
                    assert(record_of(g, v.local[v.next_local].0, v.local[v.next_local].1) == current_record(v));
                    lemma_online_push_local(s, v.repos, v.discovered, v.local, g, x);
                    lemma_local_begin_in_order(w, rs + seq![x], g);
                    lemma_local_begin_append(w, rs, seq![x]);
                },
                Err(_) => {
                    assert(rs + Seq::<Report>::empty() =~= rs);
                    lemma_local_begin_in_order(w, rs, g);
                    lemma_local_begin_append(w, rs, Seq::<Report>::empty());
                },
            }
        },
        (Phase::AwaitCacheParse, DiscoverEvent::Parsed(parsed)) => {
            let w = DiscoveryModel { next_cache: v.next_cache + 1, ..v };
            match validated_spec(parsed) {
                Ok(m) => {
                    let x = loaded_report(v.games, m);
                    lemma_shown_push(rs, x);
                    assert(offline_body(s.push(x)));
                    lemma_cache_begin_in_order(w, rs + seq![x], g);
                    lemma_cache_begin_append(w, rs, seq![x]);
                },
                Err(_) => {
                    assert(rs + Seq::<Report>::empty() =~= rs);
                    lemma_cache_begin_in_order(w, rs, g);
                    lemma_cache_begin_append(w, rs, Seq::<Report>::empty());
                },
            }
        },
        (Phase::Done, _) => {
            assert(rs + o.reports =~= rs);
        },
        (_, _) => {
            lemma_shown_push(rs, o.reports[0]);
            assert(o.reports =~= seq![o.reports[0]]);
            assert(shown(rs + o.reports).drop_last() =~= s);
        },
    }
}

/// Beginning from reports `rs + pre` is beginning from `pre` after `rs`.
proof fn lemma_repo_begin_append(v: DiscoveryModel, rs: Seq<Report>, pre: Seq<Report>)
    ensures
        repo_begin_spec(v, rs + pre).session == repo_begin_spec(v, pre).session,
        repo_begin_spec(v, rs + pre).reports == rs + repo_begin_spec(v, pre).reports,
{
    let w = DiscoveryModel { local: local_candidates(v.games, v.discovered), next_local: 0, ..v };
    lemma_local_begin_append(w, rs, pre);
    if v.next < v.repos.len() {
        let owner = v.repos[v.next].owner@;
        let repo = v.repos[v.next].repo@;
        let x = Report::Status(loading_text((v.next + 1) as nat, v.repos.len(), owner, repo));
        assert((rs + pre).push(x) =~= rs + pre.push(x));
    }
}

/// Beginning from reports `rs + pre` is beginning from `pre` after `rs`.
proof fn lemma_local_begin_append(v: DiscoveryModel, rs: Seq<Report>, pre: Seq<Report>)
    ensures
        local_begin_spec(v, rs + pre).session == local_begin_spec(v, pre).session,
        local_begin_spec(v, rs + pre).reports == rs + local_begin_spec(v, pre).reports,
{
    assert((rs + pre) + seq![Report::Finished, Report::Done] =~= rs + (pre + seq![
        Report::Finished,
        Report::Done,
    ]));
}

/// Beginning from reports `rs + pre` is beginning from `pre` after `rs`.
proof fn lemma_cache_begin_append(v: DiscoveryModel, rs: Seq<Report>, pre: Seq<Report>)
    ensures
        cache_begin_spec(v, rs + pre).session == cache_begin_spec(v, pre).session,
        cache_begin_spec(v, rs + pre).reports == rs + cache_begin_spec(v, pre).reports,
{
    assert((rs + pre) + seq![Report::Finished, Report::Done] =~= rs + (pre + seq![
        Report::Finished,
        Report::Done,
    ]));
}

/// The report of the current repository extends reports in order.
proof fn lemma_online_push_repo(
    s: Seq<Report>,
    repos: Seq<DiscoveredMod>,
    discovered: Seq<(Seq<char>, Seq<char>)>,
    local: Seq<(Seq<char>, Seq<char>)>,
    g: StrMap<GameState>,
    x: Report,
)
    requires
        online_body(s, repos, discovered, local, g),
        1 <= s.len() <= repos.len(),
        repo_report(x, repos[s.len() - 1], g),
    ensures
        online_body(
            s.push(x),
            repos,
            match x {
                Report::Loaded(m, _, _) => discovered.push((slug_spec(m.game.name@), m.id@)),
                _ => discovered,
            },
            local,
            g,
        ),
{
    let t = s.push(x);
    assert forall|i: int| 1 <= i < t.len() implies if i <= repos.len() {
        repo_report(#[trigger] t[i], repos[i - 1], g)
    } else {
        local_report(t[i], local, g)
    } by {
        if i < s.len() {
            assert(t[i] == s[i]);
        }
    }
    assert(repo_end(s, repos) == s.len());
    assert(repo_end(t, repos) == t.len());
    assert(t.subrange(1, t.len() as int) =~= s.subrange(1, s.len() as int).push(x));
    assert(t.subrange(1, t.len() as int).drop_last() =~= s.subrange(1, s.len() as int));
}

/// The report of an installed mod the search missed extends reports in order.
proof fn lemma_online_push_local(
    s: Seq<Report>,
    repos: Seq<DiscoveredMod>,
    discovered: Seq<(Seq<char>, Seq<char>)>,
    local: Seq<(Seq<char>, Seq<char>)>,
    g: StrMap<GameState>,
    x: Report,
)
    requires
        online_body(s, repos, discovered, local, g),
        s.len() >= 1 + repos.len(),
        local == local_candidates(g, discovered),
        local_report(x, local, g),
    ensures
        online_body(s.push(x), repos, discovered, local, g),
{
    let t = s.push(x);
    assert forall|i: int| 1 <= i < t.len() implies if i <= repos.len() {
        repo_report(#[trigger] t[i], repos[i - 1], g)
    } else {
        local_report(t[i], local, g)
    } by {
        if i < s.len() {
            assert(t[i] == s[i]);
        }
    }
    assert(repo_end(s, repos) == 1 + repos.len());
    assert(repo_end(t, repos) == 1 + repos.len());
    assert(t.subrange(1, 1 + repos.len() as int) =~= s.subrange(1, 1 + repos.len() as int));
}

/// The answer to a manifest fetch keeps the reports in order.
proof fn lemma_fetched_in_order(
    v: DiscoveryModel,
    rs: Seq<Report>,
    result: Result<CachedResponse, String>,
    g: StrMap<GameState>,
)
    requires
        v.phase == Phase::AwaitFetch,
        discovery_in_order(v, shown(rs), g),
    ensures
        ({
            let o = discover_step_spec(v, DiscoverEvent::Fetched(result));
            discovery_in_order(o.session, shown(rs + o.reports), g)
        }),
{
    let s = shown(rs);
    let o = discover_step_spec(v, DiscoverEvent::Fetched(result));
    let owner = v.repos[v.next].owner@;
    let repo = v.repos[v.next].repo@;
    let key = cache_key_spec(owner, repo);
    let skipped = match result {
        Ok(CachedResponse::Fresh { .. }) => false,
        _ => !v.cache.dom().contains(key),
    };
    if skipped {
        let x = match result {
            Err(err) => Report::Skipped(owner, repo, err@),
            _ => Report::Skipped(owner, repo, "304 but no cached data"@),
        };
        let w = DiscoveryModel { next: v.next + 1, ..v };
        lemma_shown_push(rs, x);
        lemma_online_push_repo(s, v.repos, v.discovered, v.local, g, x);
        lemma_repo_begin_in_order(w, rs + seq![x], g);
        lemma_repo_begin_append(w, rs, seq![x]);
    } else {
        assert(rs + o.reports =~= rs);
    }
}

/// Over a whole discovery, whatever the answers: status lines aside, it
/// reports the number of repositories found, then one report per repository
/// in search order (its mod loaded, with the install record the state holds
/// for it and its manifest version as the latest tag, or the repository
/// skipped), then installed mods loaded with the install record of a pair
/// among `local_candidates` of the pairs the search loaded (by
/// `lemma_local_candidates_unseen`, mods the state records whose (game, id)
/// pair the search did not load), then the end of discovery and completion;
/// offline,
/// the number of cached manifests and the mods loaded from them; and a
/// discovery that fails reports one failure after some of these and nothing
/// after it. The games and their installed mods never change.
pub proof fn lemma_discovery_reports_in_order(v: DiscoveryModel, events: Seq<DiscoverEvent>)
    requires
        v.phase == Phase::AwaitRepos,
        v.discovered.len() == 0,
    ensures
        ({
            let (w, rs) = discover_run(v, events);
            discovery_in_order(w, shown(rs), v.games)
        }),
    decreases events.len(),
{
    if events.len() == 0 {
        assert(shown(Seq::<Report>::empty()) == Seq::<Report>::empty());
    } else {
        lemma_discovery_reports_in_order(v, events.drop_last());
        let (w, rs) = discover_run(v, events.drop_last());
        lemma_discover_step_in_order(w, rs, events.last(), v.games);
    }
}

/// An installed mod that the search did not find, whose remote manifest was
/// fetched and is valid, is reported first with that manifest, its install
/// record, and the manifest's version as its latest tag, so that a newer
/// remote version shows as an update. Only the stand-in manifest built from
/// the record (when no remote manifest could be used) is reported without a
/// latest tag.
pub proof fn lemma_local_mod_latest_tag(v: DiscoveryModel, m: Manifest)
    requires
        crate::manifest::validate_spec(m) is Ok,
    ensures
        ({
            let rec = record_of(v.games, v.local[v.next_local].0, v.local[v.next_local].1);
            let o = discover_step_spec(v, DiscoverEvent::Parsed(Ok(m)));
            &&& v.phase == Phase::AwaitLocalParse ==> o.reports.len() >= 1 && o.reports[0]
                == Report::Loaded(m, Some(rec@), Some(m.version@))
            &&& v.phase == Phase::AwaitFallbackParse ==> o.reports.len() >= 1 && o.reports[0]
                == Report::Loaded(m, Some(rec@), None)
        }),
{
    let w = DiscoveryModel { next_local: v.next_local + 1, ..v };
    if v.phase == Phase::AwaitLocalParse {
        let fetched = Report::Loaded(m, Some(current_record(v)@), Some(m.version@));
        lemma_local_begin_append(w, seq![fetched], Seq::<Report>::empty());
        assert(seq![fetched] + Seq::<Report>::empty() =~= seq![fetched]);
    }
    if v.phase == Phase::AwaitFallbackParse {
        let stand_in = Report::Loaded(m, Some(current_record(v)@), None);
        lemma_local_begin_append(w, seq![stand_in], Seq::<Report>::empty());
        assert(seq![stand_in] + Seq::<Report>::empty() =~= seq![stand_in]);
    }
}

/// A discovery run: the state it reads and updates, and where it stands.
pub struct DiscoverySession {
    state: AppState,
    phase: Phase,
    repos: Vec<DiscoveredMod>,
    next: usize,
    cache_updated: bool,
    discovered: Vec<(String, String)>,
    local: Vec<(String, String)>,
    next_local: usize,
    next_cache: usize,
}

/// A status message.
fn status_msg(s: &str) -> (r: ProgressMsg)
    ensures
        r matches ProgressMsg::Status(t) && t@ == s@,
{
    ProgressMsg::Status(s.to_owned())
}

/// "Loading {i} of {n}: {owner}/{repo}".
pub open spec fn loading_text(i: nat, n: nat, owner: Seq<char>, repo: Seq<char>) -> Seq<char> {
    "Loading "@ + crate::text::decimal_spec(i) + " of "@ + crate::text::decimal_spec(n) + ": "@
        + owner + "/"@ + repo
}

fn loading_msg(i: usize, n: usize, owner: &str, repo: &str) -> (r: ProgressMsg)
    ensures
        r matches ProgressMsg::Status(t) && t@ == loading_text(i as nat, n as nat, owner@, repo@),
{
    let mut t = String::new();
    push_str(&mut t, "Loading ");
    push_decimal(&mut t, i as u64);
    push_str(&mut t, " of ");
    push_decimal(&mut t, n as u64);
    push_str(&mut t, ": ");
    push_str(&mut t, owner);
    push_str(&mut t, "/");
    push_str(&mut t, repo);
    assert(t@ =~= loading_text(i as nat, n as nat, owner@, repo@));
    ProgressMsg::Status(t)
}

impl DiscoverySession {
    /// The meaning of the session.
    pub closed spec fn model(&self) -> DiscoveryModel {
        DiscoveryModel {
            games: self.state.games,
            cache_keys: self.state.manifest_cache.keys(),
            cache: self.state.manifest_cache.as_map(),
            phase: self.phase,
            repos: self.repos@,
            next: self.next as int,
            cache_updated: self.cache_updated,
            discovered: pairs_view(self.discovered@),
            local: pairs_view(self.local@),
            next_local: self.next_local as int,
            next_cache: self.next_cache as int,
        }
    }

    /// The session's bookkeeping is consistent with where it stands.
    pub closed spec fn wf(&self) -> bool {
        &&& self.next <= self.repos.len()
        &&& (self.phase == Phase::AwaitFetch || self.phase == Phase::AwaitRepoParse) ==> self.next
            < self.repos.len()
        &&& self.next_local <= self.local.len()
        &&& (self.phase == Phase::AwaitLocalFetch || self.phase == Phase::AwaitLocalParse
            || self.phase == Phase::AwaitFallbackParse) ==> self.next_local < self.local.len()
        &&& forall|i: int|
            0 <= i < self.local.len() ==> state_has_mod(
                self.state,
                #[trigger] self.local@[i].0@,
                self.local@[i].1@,
            )
        &&& self.next_cache <= self.state.manifest_cache.spec_len()
        &&& self.phase == Phase::AwaitCacheParse ==> self.next_cache
            < self.state.manifest_cache.spec_len()
    }

    /// The state as discovery has it now.
    pub closed spec fn state_spec(&self) -> AppState {
        self.state
    }

    /// Discovery is over.
    pub open spec fn finished(&self) -> bool {
        self.model().phase == Phase::Done
    }

    /// The state as discovery has it now (with the manifests it cached).
    pub fn state(&self) -> (r: &AppState)
        ensures
            *r == self.state_spec(),
            r.games == self.model().games,
            r.manifest_cache.keys() == self.model().cache_keys,
            r.manifest_cache.as_map() == self.model().cache,
    {
        &self.state
    }

    /// Begin discovery: report the search and ask for it.
    pub fn start(state: AppState) -> (r: (DiscoverySession, DiscoverStep))
        ensures
            r.0.wf(),
            r.0.state_spec() == state,
            r.0.model() == (DiscoveryModel {
                games: state.games,
                cache_keys: state.manifest_cache.keys(),
                cache: state.manifest_cache.as_map(),
                phase: Phase::AwaitRepos,
                repos: seq![],
                next: 0,
                cache_updated: false,
                discovered: seq![],
                local: seq![],
                next_local: 0,
                next_cache: 0,
            }),
            r.1.request is SearchRepos,
            !r.1.save_state,
            reports_of(r.1.messages@) == seq![Report::Status("Searching for mods..."@)],
    {
        let session = DiscoverySession {
            state,
            phase: Phase::AwaitRepos,
            repos: Vec::new(),
            next: 0,
            cache_updated: false,
            discovered: Vec::new(),
            local: Vec::new(),
            next_local: 0,
            next_cache: 0,
        };
        let mut messages = Vec::new();
        messages.push(status_msg("Searching for mods..."));
        proof {
            assert(reports_of(messages@) =~= seq![Report::Status("Searching for mods..."@)]);
            assert(session.model().discovered =~= seq![]);
            assert(session.model().local =~= seq![]);
        }
        (session, DiscoverStep { messages, save_state: false, request: DiscoverRequest::SearchRepos })
    }

    /// Ask for the manifest of the next repo, or go on to the installed mods
    /// that the search did not find.
    fn begin_repo(&mut self, messages: &mut Vec<ProgressMsg>) -> (r: (bool, DiscoverRequest))
        requires
            old(self).wf(),
        ensures
            final(self).wf(),
            final(self).state == old(self).state,
            ({
                let o = repo_begin_spec(old(self).model(), reports_of(old(messages)@));
                &&& final(self).model() == o.session
                &&& reports_of(final(messages)@) == o.reports
                &&& r.0 == o.save
                &&& r.1@ == o.request
            }),
    {
        if self.next < self.repos.len() {
            let n = self.repos.len();
            let owner = self.repos[self.next].owner.clone();
            let repo = self.repos[self.next].repo.clone();
            let ghost before = messages@;
            messages.push(loading_msg(self.next + 1, n, owner.as_str(), repo.as_str()));
            assert(reports_of(messages@) =~= reports_of(before).push(report_of(messages@.last())));
            let key = cache_key(owner.as_str(), repo.as_str());
            let etag = cached_etag(&self.state.manifest_cache, key.as_str());
            self.phase = Phase::AwaitFetch;
            (false, DiscoverRequest::FetchManifest { owner, repo, etag })
        } else {
            let ghost v = self.model();
            self.phase = Phase::Done;
            self.local = local_only_candidates(&self.state, &self.discovered);
            self.next_local = 0;
            proof {
                lemma_begin_ignores_phase(
                    DiscoveryModel { local: local_candidates(v.games, v.discovered), next_local: 0, ..v },
                    Phase::Done,
                    reports_of(messages@),
                );
            }
            self.begin_local(messages)
        }
    }

    /// Ask for the remote manifest of the next installed mod that the search
    /// did not find, or finish.
    fn begin_local(&mut self, messages: &mut Vec<ProgressMsg>) -> (r: (bool, DiscoverRequest))
        requires
            old(self).wf(),
        ensures
            final(self).wf(),
            final(self).state == old(self).state,
            ({
                let o = local_begin_spec(old(self).model(), reports_of(old(messages)@));
                &&& final(self).model() == o.session
                &&& reports_of(final(messages)@) == o.reports
                &&& r.0 == o.save
                &&& r.1@ == o.request
            }),
    {
        if self.next_local < self.local.len() {
            let ghost i = self.next_local as int;
            assert(state_has_mod(self.state, self.local@[i].0@, self.local@[i].1@));
            let g = self.local[self.next_local].0.as_str();
            let m = self.local[self.next_local].1.as_str();
            let game = self.state.games.get(g).unwrap();
            let record = game.mods.get(m).unwrap();
            match Source::parse(record.source.as_str()) {
                Ok(source) => {
                    self.phase = Phase::AwaitLocalFetch;
                    (false, DiscoverRequest::FetchSource { source })
                },
                Err(_) => {
                    let yaml = fallback_manifest_yaml(m, record, game.name.as_str());
                    self.phase = Phase::AwaitFallbackParse;
                    (false, DiscoverRequest::Parse { yaml })
                },
            }
        } else {
            let ghost before = messages@;
            messages.push(ProgressMsg::DiscoveryFinished);
            messages.push(ProgressMsg::Done(TaskResult::Discovery));
            assert(reports_of(messages@) =~= reports_of(before) + seq![Report::Finished, Report::Done]);
            self.phase = Phase::Done;
            (self.cache_updated, DiscoverRequest::Finished)
        }
    }

    /// Ask for the stand-in manifest of the current installed mod.
    fn begin_fallback(&mut self) -> (r: (bool, DiscoverRequest))
        requires
            old(self).wf(),
            old(self).next_local < old(self).local@.len(),
        ensures
            final(self).wf(),
            final(self).state == old(self).state,
            final(self).model() == in_phase(old(self).model(), Phase::AwaitFallbackParse),
            r.1@ == DiscoverRequestSpec::Parse(fallback_yaml_of(old(self).model())),
            !r.0,
    {
        let ghost i = self.next_local as int;
        assert(state_has_mod(self.state, self.local@[i].0@, self.local@[i].1@));
        let g = self.local[self.next_local].0.as_str();
        let m = self.local[self.next_local].1.as_str();
        let game = self.state.games.get(g).unwrap();
        let record = game.mods.get(m).unwrap();
        let yaml = fallback_manifest_yaml(m, record, game.name.as_str());
        self.phase = Phase::AwaitFallbackParse;
        (false, DiscoverRequest::Parse { yaml })
    }

    /// Ask to parse the next cached manifest, or finish.
    fn begin_cache(&mut self, messages: &mut Vec<ProgressMsg>) -> (r: (bool, DiscoverRequest))
        requires
            old(self).wf(),
        ensures
            final(self).wf(),
            final(self).state == old(self).state,
            ({
                let o = cache_begin_spec(old(self).model(), reports_of(old(messages)@));
                &&& final(self).model() == o.session
                &&& reports_of(final(messages)@) == o.reports
                &&& r.0 == o.save
                &&& r.1@ == o.request
            }),
    {
        let n = self.state.manifest_cache.len();
        if self.next_cache < n {
            let yaml = self.state.manifest_cache.value(self.next_cache).yaml.clone();
            self.phase = Phase::AwaitCacheParse;
            (false, DiscoverRequest::Parse { yaml })
        } else {
            let ghost before = messages@;
            messages.push(ProgressMsg::DiscoveryFinished);
            messages.push(ProgressMsg::Done(TaskResult::Discovery));
            assert(reports_of(messages@) =~= reports_of(before) + seq![Report::Finished, Report::Done]);
            self.phase = Phase::Done;
            (false, DiscoverRequest::Finished)
        }
    }

    /// A loaded mod for the current installed mod.
    fn local_loaded(&self, manifest: Manifest, with_latest: bool) -> (r: LoadedMod)
        requires
            self.wf(),
            self.next_local < self.local@.len(),
        ensures
            r.manifest == manifest,
            r.installed matches Some(i) && i@ == current_record(self.model())@,
            with_latest ==> (r.latest_tag matches Some(t) && t@ == manifest.version@),
            !with_latest ==> r.latest_tag is None,
    {
        let ghost i = self.next_local as int;
        assert(state_has_mod(self.state, self.local@[i].0@, self.local@[i].1@));
        let g = self.local[self.next_local].0.as_str();
        let m = self.local[self.next_local].1.as_str();
        let game = self.state.games.get(g).unwrap();
        let record = game.mods.get(m).unwrap();
        let installed = Some(record.copy());
        let latest_tag = if with_latest {
            Some(manifest.version.clone())
        } else {
            None
        };
        LoadedMod { manifest, installed, latest_tag }
    }

    /// The answer to the search.
    fn on_repos(&mut self, res: Result<Vec<DiscoveredMod>, String>) -> (r: DiscoverStep)
        requires
            old(self).wf(),
            old(self).phase == Phase::AwaitRepos,
        ensures
            final(self).wf(),
            step_matches(old(self).model(), DiscoverEvent::Repos(res), final(self).model(), r),
            final(self).state == old(self).state,
    {
        let mut messages: Vec<ProgressMsg> = Vec::new();
        let ghost v = self.model();
        let (save_state, request) = match res {
            Ok(repos) => {
                messages.push(ProgressMsg::DiscoveryStarted { repo_count: repos.len() });
                assert(reports_of(messages@) =~= seq![Report::Started(repos@.len())]);
                self.repos = repos;
                self.next = 0;
                self.begin_repo(&mut messages)
            },
            Err(e) => {
                if !self.state.manifest_cache.is_empty() {
                    messages.push(status_msg("Offline — showing cached mods..."));
                    messages.push(
                        ProgressMsg::DiscoveryStarted { repo_count: self.state.manifest_cache.len() },
                    );
                    assert(reports_of(messages@) =~= seq![
                        Report::Status("Offline — showing cached mods..."@),
                        Report::Started(v.cache_keys.len()),
                    ]);
                    self.next_cache = 0;
                    self.begin_cache(&mut messages)
                } else {
                    let mut t = String::new();
                    push_str(&mut t, "Failed to search GitHub: ");
                    push_str(&mut t, e.as_str());
                    messages.push(ProgressMsg::Failed(t));
                    assert(reports_of(messages@) =~= seq![
                        Report::Failed("Failed to search GitHub: "@ + e@),
                    ]);
                    self.phase = Phase::Done;
                    (false, DiscoverRequest::Finished)
                }
            },
        };
        DiscoverStep { messages, save_state, request }
    }

    /// The answer to a manifest fetch of the current repository.
    fn on_fetched(&mut self, result: Result<CachedResponse, String>) -> (r: DiscoverStep)
        requires
            old(self).wf(),
            old(self).phase == Phase::AwaitFetch,
        ensures
            final(self).wf(),
            step_matches(old(self).model(), DiscoverEvent::Fetched(result), final(self).model(), r),
            final(self).state.games == old(self).state.games,
            final(self).state.schema_version == old(self).state.schema_version,
            final(self).state.last_update_check == old(self).state.last_update_check,
    {
        let mut messages: Vec<ProgressMsg> = Vec::new();
        let ghost v = self.model();
        assert(self.next < self.repos@.len());
        let owner = self.repos[self.next].owner.clone();
        let repo = self.repos[self.next].repo.clone();
        let key = cache_key(owner.as_str(), repo.as_str());
        let ghost before_cache = self.state.manifest_cache;
        let (save_state, request) = match apply_fetch(&mut self.state.manifest_cache, key.as_str(), result) {
            FetchDecision::Use { yaml, cache_updated } => {
                assert(self.state.manifest_cache.keys().len() == self.state.manifest_cache.spec_len());
                assert(before_cache.keys().len() == before_cache.spec_len());
                if cache_updated {
                    self.cache_updated = true;
                }
                self.phase = Phase::AwaitRepoParse;
                assert(reports_of(messages@) =~= seq![]);
                (false, DiscoverRequest::Parse { yaml })
            },
            FetchDecision::Skip { reason } => {
                messages.push(ProgressMsg::ModSkipped { owner, repo, reason });
                assert(reports_of(messages@) =~= seq![report_of(messages@[0])]);
                self.phase = Phase::Done;
                self.next = self.next + 1;
                proof {
                    lemma_begin_ignores_phase(
                        DiscoveryModel { next: v.next + 1, ..v },
                        Phase::Done,
                        reports_of(messages@),
                    );
                }
                self.begin_repo(&mut messages)
            },
        };
        DiscoverStep { messages, save_state, request }
    }

    /// The parsed manifest of the current repository.
    fn on_repo_parsed(&mut self, parsed: Result<Manifest, String>) -> (r: DiscoverStep)
        requires
            old(self).wf(),
            old(self).phase == Phase::AwaitRepoParse,
        ensures
            final(self).wf(),
            step_matches(old(self).model(), DiscoverEvent::Parsed(parsed), final(self).model(), r),
            final(self).state == old(self).state,
    {
        let mut messages: Vec<ProgressMsg> = Vec::new();
        match validated(parsed) {
            Ok(manifest) => {
                let game_slug = manifest.game_slug();
                let mod_slug = manifest.id.clone();
                let ghost d = self.discovered@;
                self.discovered.push((game_slug, mod_slug));
                assert(pairs_view(self.discovered@) =~= pairs_view(d).push(
                    (slug_spec(manifest.game.name@), manifest.id@),
                ));
                let loaded = loaded_from_state(&self.state, manifest);
                messages.push(ProgressMsg::ModLoaded(Box::new(loaded)));
                assert(reports_of(messages@) =~= seq![report_of(messages@[0])]);
            },
            Err(msg) => {
                let mut reason = String::new();
                push_str(&mut reason, "invalid manifest: ");
                push_str(&mut reason, msg.as_str());
                messages.push(
                    ProgressMsg::ModSkipped {
                        owner: self.repos[self.next].owner.clone(),
                        repo: self.repos[self.next].repo.clone(),
                        reason,
                    },
                );
                assert(reports_of(messages@) =~= seq![report_of(messages@[0])]);
            },
        }
        let ghost before_begin = self.model();
        self.phase = Phase::Done;
        self.next = self.next + 1;
        proof {
            lemma_begin_ignores_phase(
                DiscoveryModel { next: before_begin.next + 1, ..before_begin },
                Phase::Done,
                reports_of(messages@),
            );
        }
        let (save_state, request) = self.begin_repo(&mut messages);
        DiscoverStep { messages, save_state, request }
    }

    /// The remote manifest text of the current installed mod.
    fn on_source_fetched(&mut self, fetched: Result<String, String>) -> (r: DiscoverStep)
        requires
            old(self).wf(),
            old(self).phase == Phase::AwaitLocalFetch,
        ensures
            final(self).wf(),
            step_matches(old(self).model(), DiscoverEvent::SourceFetched(fetched), final(self).model(), r),
            final(self).state == old(self).state,
    {
        let messages: Vec<ProgressMsg> = Vec::new();
        assert(reports_of(messages@) =~= seq![]);
        let (save_state, request) = match fetched {
            Ok(yaml) => {
                self.phase = Phase::AwaitLocalParse;
                (false, DiscoverRequest::Parse { yaml })
            },
            Err(_) => self.begin_fallback(),
        };
        DiscoverStep { messages, save_state, request }
    }

    /// The parsed remote manifest of the current installed mod.
    fn on_local_parsed(&mut self, parsed: Result<Manifest, String>) -> (r: DiscoverStep)
        requires
            old(self).wf(),
            old(self).phase == Phase::AwaitLocalParse,
        ensures
            final(self).wf(),
            step_matches(old(self).model(), DiscoverEvent::Parsed(parsed), final(self).model(), r),
            final(self).state == old(self).state,
    {
        let mut messages: Vec<ProgressMsg> = Vec::new();
        let ghost v = self.model();
        let (save_state, request) = match validated(parsed) {
            Ok(manifest) => {
                let loaded = self.local_loaded(manifest, true);
                messages.push(ProgressMsg::ModLoaded(Box::new(loaded)));
                assert(reports_of(messages@) =~= seq![report_of(messages@[0])]);
                self.phase = Phase::Done;
                self.next_local = self.next_local + 1;
                proof {
                    lemma_begin_ignores_phase(
                        DiscoveryModel { next_local: v.next_local + 1, ..v },
                        Phase::Done,
                        reports_of(messages@),
                    );
                }
                self.begin_local(&mut messages)
            },
            Err(_) => {
                assert(reports_of(messages@) =~= seq![]);
                self.begin_fallback()
            },
        };
        DiscoverStep { messages, save_state, request }
    }

    /// The parsed stand-in manifest of the current installed mod.
    fn on_fallback_parsed(&mut self, parsed: Result<Manifest, String>) -> (r: DiscoverStep)
        requires
            old(self).wf(),
            old(self).phase == Phase::AwaitFallbackParse,
        ensures
            final(self).wf(),
            step_matches(old(self).model(), DiscoverEvent::Parsed(parsed), final(self).model(), r),
            final(self).state == old(self).state,
    {
        let mut messages: Vec<ProgressMsg> = Vec::new();
        let ghost v = self.model();
        match validated(parsed) {
            Ok(manifest) => {
                let loaded = self.local_loaded(manifest, false);
                messages.push(ProgressMsg::ModLoaded(Box::new(loaded)));
                assert(reports_of(messages@) =~= seq![report_of(messages@[0])]);
            },
            Err(_) => {
                assert(reports_of(messages@) =~= seq![]);
            },
        }
        self.phase = Phase::Done;
        self.next_local = self.next_local + 1;
        proof {
            lemma_begin_ignores_phase(
                DiscoveryModel { next_local: v.next_local + 1, ..v },
                Phase::Done,
                reports_of(messages@),
            );
        }
        let (save_state, request) = self.begin_local(&mut messages);
        DiscoverStep { messages, save_state, request }
    }

    /// The parsed text of the current cached manifest.
    fn on_cache_parsed(&mut self, parsed: Result<Manifest, String>) -> (r: DiscoverStep)
        requires
            old(self).wf(),
            old(self).phase == Phase::AwaitCacheParse,
        ensures
            final(self).wf(),
            step_matches(old(self).model(), DiscoverEvent::Parsed(parsed), final(self).model(), r),
            final(self).state == old(self).state,
    {
        let mut messages: Vec<ProgressMsg> = Vec::new();
        let ghost v = self.model();
        match validated(parsed) {
            Ok(manifest) => {
                let loaded = loaded_from_state(&self.state, manifest);
                messages.push(ProgressMsg::ModLoaded(Box::new(loaded)));
                assert(reports_of(messages@) =~= seq![report_of(messages@[0])]);
            },
            Err(_) => {
                assert(reports_of(messages@) =~= seq![]);
            },
        }
        let n = self.state.manifest_cache.len();
        assert(self.next_cache < n);
        self.phase = Phase::Done;
        self.next_cache = self.next_cache + 1;
        proof {
            lemma_begin_ignores_phase(
                DiscoveryModel { next_cache: v.next_cache + 1, ..v },
                Phase::Done,
                reports_of(messages@),
            );
        }
        let (save_state, request) = self.begin_cache(&mut messages);
        DiscoverStep { messages, save_state, request }
    }

    /// Take the answer to the last request; say what to report and what to
    /// ask for next, as `discover_step_spec` describes. Discovery only ever
    /// changes the manifest cache of the state.
    pub fn step(&mut self, event: DiscoverEvent) -> (r: DiscoverStep)
        requires
            old(self).wf(),
        ensures
            final(self).wf(),
            step_matches(old(self).model(), event, final(self).model(), r),
            final(self).state_spec().games == old(self).state_spec().games,
            final(self).state_spec().schema_version == old(self).state_spec().schema_version,
            final(self).state_spec().last_update_check == old(self).state_spec().last_update_check,
    {
        match (&self.phase, event) {
            (Phase::AwaitRepos, DiscoverEvent::Repos(res)) => self.on_repos(res),
            (Phase::AwaitFetch, DiscoverEvent::Fetched(result)) => self.on_fetched(result),
            (Phase::AwaitRepoParse, DiscoverEvent::Parsed(parsed)) => self.on_repo_parsed(parsed),
            (Phase::AwaitLocalFetch, DiscoverEvent::SourceFetched(fetched)) => self.on_source_fetched(
                fetched,
            ),
            (Phase::AwaitLocalParse, DiscoverEvent::Parsed(parsed)) => self.on_local_parsed(parsed),
            (Phase::AwaitFallbackParse, DiscoverEvent::Parsed(parsed)) => self.on_fallback_parsed(
                parsed,
            ),
            (Phase::AwaitCacheParse, DiscoverEvent::Parsed(parsed)) => self.on_cache_parsed(parsed),
            (Phase::Done, _) => {
                let messages: Vec<ProgressMsg> = Vec::new();
                assert(reports_of(messages@) =~= seq![]);
                DiscoverStep { messages, save_state: false, request: DiscoverRequest::Finished }
            },
            (_, _) => {
                let mut messages: Vec<ProgressMsg> = Vec::new();
                messages.push(
                    ProgressMsg::Failed("discovery received an answer it did not ask for".to_owned()),
                );
                assert(reports_of(messages@) =~= seq![
                    Report::Failed("discovery received an answer it did not ask for"@),
                ]);
                self.phase = Phase::Done;
                DiscoverStep { messages, save_state: false, request: DiscoverRequest::Finished }
            },
        }
    }
}

} // verus!
