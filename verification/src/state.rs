//! The local state: installed games and mods, the manifest cache, and the
//! app update check timestamp.
use vstd::prelude::*;

use crate::clock::{hours_since, now_rfc3339, parse_rfc3339, rfc3339_instant};
use crate::map::StrMap;
use crate::text::{decimal_spec, push_decimal, push_str};

verus! {

/// The state file format version this library reads and writes.
pub const SCHEMA_VERSION: u32 = 1;

/// The whole state file.
pub struct AppState {
    pub schema_version: u32,
    pub games: StrMap<GameState>,
    pub last_update_check: Option<String>,
    pub manifest_cache: StrMap<CachedManifest>,
}

/// A manifest as last fetched, with the ETag it came with.
#[derive(Debug, Clone)]
pub struct CachedManifest {
    pub etag: Option<String>,
    pub yaml: String,
}

/// A located game and the mods installed into it.
pub struct GameState {
    pub name: String,
    pub path: String,
    pub mods: StrMap<ModState>,
}

/// One installed mod.
pub struct ModState {
    pub name: String,
    pub source: String,
    pub version: String,
    pub installed_at: String,
    pub loader: String,
    pub local_path: Option<String>,
    pub dependencies: StrMap<String>,
}

/// The meaning of an install record, as character sequences.
pub struct ModRecord {
    pub name: Seq<char>,
    pub source: Seq<char>,
    pub version: Seq<char>,
    pub installed_at: Seq<char>,
    pub loader: Seq<char>,
    pub local_path: Option<Seq<char>>,
    pub dependencies: Map<Seq<char>, Seq<char>>,
}

impl View for ModState {
    type V = ModRecord;

    open spec fn view(&self) -> ModRecord {
        ModRecord {
            name: self.name@,
            source: self.source@,
            version: self.version@,
            installed_at: self.installed_at@,
            loader: self.loader@,
            local_path: match self.local_path {
                Some(p) => Some(p@),
                None => None,
            },
            dependencies: self.dependencies.as_map().map_values(|v: String| v@),
        }
    }
}

impl ModState {
    /// A copy of the record.
    pub fn copy(&self) -> (r: ModState)
        ensures
            r@ == self@,
    {
        let local_path = match &self.local_path {
            Some(p) => Some(p.clone()),
            None => None,
        };
        let r = ModState {
            name: self.name.clone(),
            source: self.source.clone(),
            version: self.version.clone(),
            installed_at: self.installed_at.clone(),
            loader: self.loader.clone(),
            local_path,
            dependencies: self.dependencies.copy(),
        };
        assert(r@.dependencies =~= self@.dependencies);
        r
    }
}

/// Why a state file's contents were not accepted.
#[derive(Debug, Clone, Copy, PartialEq, Eq, Structural)]
pub enum StateError {
    /// The schema version is not the one this library understands.
    UnsupportedSchema(u32),
}

/// The mod `m` of game `g`, if the state records it.
pub open spec fn installed_mod_spec(s: AppState, g: Seq<char>, m: Seq<char>) -> Option<ModState> {
    if s.games.as_map().dom().contains(g) && s.games.as_map()[g].mods.as_map().dom().contains(m) {
        Some(s.games.as_map()[g].mods.as_map()[m])
    } else {
        None
    }
}

/// What `should_check_updates` decides when the elapsed time is known:
/// never checked, or a timestamp that does not parse, means check; otherwise
/// check when at least 24 whole hours have passed.
pub open spec fn should_check_spec(last: Option<Seq<char>>, elapsed_hours: Option<i64>) -> bool {
    match last {
        None => true,
        Some(s) => match rfc3339_instant(s) {
            None => true,
            Some(_) => match elapsed_hours {
                None => true,
                Some(h) => h >= 24,
            },
        },
    }
}

impl AppState {
    /// A fresh state: current schema, nothing installed, nothing cached.
    pub fn new() -> (r: Self)
        ensures
            r.schema_version == SCHEMA_VERSION,
            r.games.as_map() == Map::<Seq<char>, GameState>::empty(),
            r.last_update_check is None,
            r.manifest_cache.as_map() == Map::<Seq<char>, CachedManifest>::empty(),
    {
        AppState {
            schema_version: SCHEMA_VERSION,
            games: StrMap::new(),
            last_update_check: None,
            manifest_cache: StrMap::new(),
        }
    }

    /// Accept the state only with the schema version this library understands.
    pub fn check_schema(&self) -> (r: Result<(), StateError>)
        ensures
            r is Ok <==> self.schema_version == SCHEMA_VERSION,
            r matches Err(e) ==> e == StateError::UnsupportedSchema(self.schema_version),
    {
        if self.schema_version != SCHEMA_VERSION {
            Err(StateError::UnsupportedSchema(self.schema_version))
        } else {
            Ok(())
        }
    }

    /// Get or create a game entry. An existing entry is returned unchanged;
    /// a new one gets the given name and path and no mods.
    pub fn get_or_create_game(&mut self, slug: &str, name: &str, path: &str) -> (r: &mut GameState)
        ensures
            old(self).games.as_map().dom().contains(slug@) ==> *r == old(self).games.as_map()[slug@],
            !old(self).games.as_map().dom().contains(slug@) ==> r.name@ == name@ && r.path@ == path@
                && r.mods.as_map() == Map::<Seq<char>, ModState>::empty(),
            final(self).games.as_map() == old(self).games.as_map().insert(slug@, *final(r)),
            final(self).schema_version == old(self).schema_version,
            final(self).last_update_check == old(self).last_update_check,
            final(self).manifest_cache == old(self).manifest_cache,
    {
        if !self.games.contains_key(slug) {
            let game = GameState { name: name.to_owned(), path: path.to_owned(), mods: StrMap::new() };
            self.games.insert(slug.to_owned(), game);
        } else {
            assert(self.games.as_map().insert(slug@, self.games.as_map()[slug@]) =~= self.games.as_map());
        }
        self.games.get_mut(slug).unwrap()
    }

    /// The recorded install of mod `mod_slug` for game `game_slug`, if any.
    pub fn installed_mod(&self, game_slug: &str, mod_slug: &str) -> (r: Option<&ModState>)
        ensures
            r is None <==> installed_mod_spec(*self, game_slug@, mod_slug@) is None,
            r matches Some(m) ==> installed_mod_spec(*self, game_slug@, mod_slug@) == Some(*m),
    {
        match self.games.get(game_slug) {
            Some(game) => game.mods.get(mod_slug),
            None => None,
        }
    }

    /// Whether to check for app updates, given how many whole hours have
    /// passed since the recorded check (when that is known).
    pub fn should_check_updates_after(&self, elapsed_hours: Option<i64>) -> (r: bool)
        ensures
            r == should_check_spec(
                match self.last_update_check {
                    Some(s) => Some(s@),
                    None => None,
                },
                elapsed_hours,
            ),
    {
        match &self.last_update_check {
            None => true,
            Some(last) => match parse_rfc3339(last.as_str()) {
                None => true,
                Some(_) => match elapsed_hours {
                    None => true,
                    Some(h) => h >= 24,
                },
            },
        }
    }

    /// Whether we should check for app updates: never checked, an unreadable
    /// timestamp, or at least 24 hours since the last check.
    pub fn should_check_updates(&self) -> (r: bool)
        ensures
            self.last_update_check is None ==> r,
            self.last_update_check matches Some(s) && rfc3339_instant(s@) is None ==> r,
    {
        let elapsed = match &self.last_update_check {
            Some(last) => match parse_rfc3339(last.as_str()) {
                Some((secs, nanos)) => hours_since(secs, nanos),
                None => None,
            },
            None => None,
        };
        self.should_check_updates_after(elapsed)
    }

    /// Record `stamp` as the time of the last app update check.
    pub fn mark_update_checked_at(&mut self, stamp: String)
        ensures
            final(self).last_update_check == Some(stamp),
            final(self).schema_version == old(self).schema_version,
            final(self).games == old(self).games,
            final(self).manifest_cache == old(self).manifest_cache,
    {
        self.last_update_check = Some(stamp);
    }

    /// Record that we just checked for updates.
    pub fn mark_update_checked(&mut self)
        ensures
            final(self).last_update_check matches Some(s) && rfc3339_instant(s@) is Some,
            final(self).schema_version == old(self).schema_version,
            final(self).games == old(self).games,
            final(self).manifest_cache == old(self).manifest_cache,
    {
        let stamp = now_rfc3339();
        self.mark_update_checked_at(stamp);
    }
}

/// The message for a state file with another schema version than this
/// library reads.
pub open spec fn schema_error_text(n: u32) -> Seq<char> {
    "unsupported schema version "@ + decimal_spec(n as nat) + " (expected "@ + decimal_spec(
        SCHEMA_VERSION as nat,
    ) + ")"@
}

/// A parsed state file, accepted only with the schema version this library
/// reads; a parse failure is passed on.
pub fn validated_state(parsed: Result<AppState, String>) -> (r: Result<AppState, String>)
    ensures
        match parsed {
            Ok(s) => if s.schema_version == SCHEMA_VERSION {
                r == Ok::<AppState, String>(s)
            } else {
                r matches Err(t) && t@ == schema_error_text(s.schema_version)
            },
            Err(e) => r matches Err(t) && t@ == e@,
        },
{
    match parsed {
        Ok(s) => match s.check_schema() {
            Ok(()) => Ok(s),
            Err(StateError::UnsupportedSchema(n)) => {
                let mut t = String::new();
                push_str(&mut t, "unsupported schema version ");
                push_decimal(&mut t, n as u64);
                push_str(&mut t, " (expected ");
                push_decimal(&mut t, SCHEMA_VERSION as u64);
                push_str(&mut t, ")");
                Err(t)
            },
        },
        Err(e) => Err(e),
    }
}

/// Where loading stands after the state file itself was tried.
pub enum LoadStep {
    /// The state file was read and accepted.
    Loaded(AppState),
    /// Try the backup; the warning to print first, if any.
    TryBackup(Option<String>),
}

/// After trying the state file (none when it does not exist): keep what it
/// holds, or go on to the backup, with a warning when the file was there
/// but could not be used.
pub fn after_primary(primary: Option<Result<AppState, String>>) -> (r: LoadStep)
    ensures
        match primary {
            None => r matches LoadStep::TryBackup(None),
            Some(Ok(s)) => r == LoadStep::Loaded(s),
            Some(Err(e)) => r matches LoadStep::TryBackup(Some(w)) && w@
                == "Warning: state.json is corrupt ("@ + e@ + "), trying backup..."@,
        },
{
    match primary {
        None => LoadStep::TryBackup(None),
        Some(Ok(s)) => LoadStep::Loaded(s),
        Some(Err(e)) => {
            let mut w = String::new();
            push_str(&mut w, "Warning: state.json is corrupt (");
            push_str(&mut w, e.as_str());
            push_str(&mut w, "), trying backup...");
            LoadStep::TryBackup(Some(w))
        },
    }
}

/// After trying the backup (none when it does not exist): what it holds,
/// or a fresh state; with the line to print, if any.
pub fn after_backup(backup: Option<Result<AppState, String>>) -> (r: (AppState, Option<String>))
    ensures
        match backup {
            None => {
                &&& r.0.schema_version == SCHEMA_VERSION
                &&& r.0.games.as_map() == Map::<Seq<char>, GameState>::empty()
                &&& r.0.last_update_check is None
                &&& r.0.manifest_cache.as_map() == Map::<Seq<char>, CachedManifest>::empty()
                &&& r.1 is None
            },
            Some(Ok(s)) => r.0 == s && (r.1 matches Some(t) && t@ == "Recovered state from backup."@),
            Some(Err(e)) => {
                &&& r.0.schema_version == SCHEMA_VERSION
                &&& r.0.games.as_map() == Map::<Seq<char>, GameState>::empty()
                &&& r.0.last_update_check is None
                &&& r.0.manifest_cache.as_map() == Map::<Seq<char>, CachedManifest>::empty()
                &&& (r.1 matches Some(t) && t@ == "Warning: backup is also corrupt ("@ + e@
                    + "), starting fresh."@)
            },
        },
{
    match backup {
        None => (AppState::new(), None),
        Some(Ok(s)) => (s, Some("Recovered state from backup.".to_owned())),
        Some(Err(e)) => {
            let mut w = String::new();
            push_str(&mut w, "Warning: backup is also corrupt (");
            push_str(&mut w, e.as_str());
            push_str(&mut w, "), starting fresh.");
            (AppState::new(), Some(w))
        },
    }
}

} // verus!
