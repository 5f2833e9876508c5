//! Finding a game's folder: the Steam app id to look up, the name Steam
//! gives, which folder holds an Unreal Engine game's binaries, and whether
//! a folder the user picked looks like the game.
use vstd::prelude::*;

use crate::manifest::{LoaderKind, Manifest};
use crate::text::{has_prefix, has_suffix, push_decimal, push_str, str_ends_with, str_starts_with, chars_of, decimal_spec};

verus! {

/// The Steam app id of a manifest, as the 32-bit id Steam looks games up
/// by (the manifest's number taken modulo 2^32).
pub open spec fn steam_app_id_spec(m: Manifest) -> Option<u32> {
    match m.game.store {
        Some(st) => match st.steam {
            Some(id) => Some((id % 0x1_0000_0000) as u32),
            None => None,
        },
        None => None,
    }
}

/// The Steam app id to look the manifest's game up by.
pub fn steam_app_id(m: &Manifest) -> (r: Option<u32>)
    ensures
        r == steam_app_id_spec(*m),
{
    match m.steam_id() {
        Some(id) => {
            let low: u64 = id % 0x1_0000_0000;
            Some(low as u32)
        },
        None => None,
    }
}

/// The name of a Steam game: the one Steam records, or `App {id}` when it
/// records none.
pub open spec fn steam_game_name_spec(name: Option<Seq<char>>, app_id: u32) -> Seq<char> {
    match name {
        Some(n) if n.len() > 0 => n,
        _ => "App "@ + decimal_spec(app_id as nat),
    }
}

/// The name of a Steam game.
pub fn steam_game_name(name: Option<String>, app_id: u32) -> (r: String)
    ensures
        r@ == steam_game_name_spec(
            match name {
                Some(n) => Some(n@),
                None => None,
            },
            app_id,
        ),
{
    match name {
        Some(n) => {
            if !n.as_str().is_empty() {
                return n;
            }
        },
        None => {},
    }
    let mut out = String::new();
    push_str(&mut out, "App ");
    push_decimal(&mut out, app_id as u64);
    out
}

/// `c` lowercased if it is an ASCII capital letter.
pub open spec fn ascii_lower(c: char) -> char {
    if 'A' <= c <= 'Z' {
        ((c as u32) + 32) as char
    } else {
        c
    }
}

/// The folder named `name` is Unreal Engine's own (`Engine`, in any ASCII
/// case), not the game's.
pub open spec fn is_engine_dir_spec(name: Seq<char>) -> bool {
    name.len() == 6 && forall|i: int| 0 <= i < 6 ==> ascii_lower(#[trigger] name[i]) == "engine"@[i]
}

/// Whether the folder named `name` is Unreal Engine's own.
pub fn is_engine_dir(name: &str) -> (r: bool)
    ensures
        r == is_engine_dir_spec(name@),
{
    proof {
        reveal_strlit("engine");
    }
    let v = chars_of(name);
    let want = chars_of("engine");
    if v.len() != 6 {
        return false;
    }
    let mut i: usize = 0;
    while i < 6
        invariant
            v@ == name@,
            want@ == "engine"@,
            v@.len() == 6,
            want@.len() == 6,
            i <= 6,
            forall|j: int| 0 <= j < i ==> ascii_lower(#[trigger] v@[j]) == want@[j],
        decreases 6 - i,
    {
        let c = v[i];
        let low = if 'A' <= c && c <= 'Z' {
            let code: u32 = c as u32 + 32;
            char_of(code)
        } else {
            c
        };
        if low != want[i] {
            return false;
        }
        i = i + 1;
    }
    true
}

/// The character with code `code`, for the code of a lowercase ASCII letter.
fn char_of(code: u32) -> (r: char)
    requires
        'a' as u32 <= code <= 'z' as u32,
    ensures
        r == code as char,
{
    code as u8 as char
}

/// A file that looks like a game's executable: a `.exe` that is not an uninstaller.
pub open spec fn is_game_exe(name: Seq<char>) -> bool {
    has_suffix(name, ".exe"@) && !has_prefix(name, "Uninstall"@)
}

/// The question asked when a picked folder does not look like the game, if
/// it does not: for UE4SS, a folder without `*/Binaries/Win64`; for BepInEx
/// and MelonLoader, a folder without a game executable among `entry_names`.
pub open spec fn folder_warning_spec(
    loader: Option<LoaderKind>,
    has_ue_binaries: bool,
    entry_names: Seq<Seq<char>>,
) -> Option<Seq<char>> {
    match loader {
        Some(LoaderKind::Ue4ss) => if has_ue_binaries {
            None
        } else {
            Some(
                "This folder doesn't appear to contain an Unreal Engine game. Expected a subfolder with Binaries/Win64 inside. Would you like to pick a different folder?"@,
            )
        },
        Some(LoaderKind::BepInEx) | Some(LoaderKind::MelonLoader) => if exists|i: int|
            0 <= i < entry_names.len() && is_game_exe(#[trigger] entry_names[i]) {
            None
        } else {
            Some(
                "This folder doesn't appear to contain a game. No .exe file was found. Would you like to pick a different folder?"@,
            )
        },
        _ => None,
    }
}

/// The question asked when a picked folder does not look like the game, if it does not.
pub fn folder_warning(
    loader: Option<LoaderKind>,
    has_ue_binaries: bool,
    entry_names: &Vec<String>,
) -> (r: Option<&'static str>)
    ensures
        match r {
            Some(t) => folder_warning_spec(
                loader,
                has_ue_binaries,
                entry_names@.map_values(|s: String| s@),
            ) == Some(t@),
            None => folder_warning_spec(
                loader,
                has_ue_binaries,
                entry_names@.map_values(|s: String| s@),
            ) is None,
        },
{
    let ghost names = entry_names@.map_values(|s: String| s@);
    match loader {
        Some(LoaderKind::Ue4ss) => {
            if has_ue_binaries {
                None
            } else {
                Some(
                    "This folder doesn't appear to contain an Unreal Engine game. Expected a subfolder with Binaries/Win64 inside. Would you like to pick a different folder?",
                )
            }
        },
        Some(LoaderKind::BepInEx) | Some(LoaderKind::MelonLoader) => {
            let mut i: usize = 0;
            while i < entry_names.len()
                invariant
                    names == entry_names@.map_values(|s: String| s@),
                    loader == Some(LoaderKind::BepInEx) || loader == Some(LoaderKind::MelonLoader),
                    i <= entry_names@.len(),
                    forall|j: int| 0 <= j < i ==> !is_game_exe(#[trigger] names[j]),
                decreases entry_names.len() - i,
            {
                let n = entry_names[i].as_str();
                if str_ends_with(n, ".exe") && !str_starts_with(n, "Uninstall") {
                    assert(is_game_exe(names[i as int]));
                    return None;
                }
                i = i + 1;
            }
            Some(
                "This folder doesn't appear to contain a game. No .exe file was found. Would you like to pick a different folder?",
            )
        },
        _ => None,
    }
}


/// Where finding a game's folder goes after looking at the saved folder.
pub enum GamePathNext {
    /// The saved folder exists: use it.
    Use(String),
    /// Ask Steam where the game with this app id is.
    LookupSteam(u32),
    /// No folder can be found; the user is asked.
    NotFound,
}

/// After looking at the saved folder (`saved_is_dir` says whether it is an
/// existing directory): a saved folder that exists wins; otherwise Steam is
/// asked when the manifest names a Steam app id; otherwise nothing is found.
pub fn after_saved_path(m: &Manifest, saved: Option<&str>, saved_is_dir: bool) -> (r: GamePathNext)
    ensures
        (saved is Some && saved_is_dir) ==> (r matches GamePathNext::Use(p) && p@ == saved->0@),
        !(saved is Some && saved_is_dir) ==> match steam_app_id_spec(*m) {
            Some(id) => r == GamePathNext::LookupSteam(id),
            None => r is NotFound,
        },
{
    match saved {
        Some(p) => {
            if saved_is_dir {
                return GamePathNext::Use(p.to_owned());
            }
        },
        None => {},
    }
    match steam_app_id(m) {
        Some(id) => GamePathNext::LookupSteam(id),
        None => GamePathNext::NotFound,
    }
}

/// The folder Steam reported (when it did), used only when it is an
/// existing directory.
pub fn after_steam_path(found: Option<String>, found_is_dir: bool) -> (r: Option<String>)
    ensures
        r == (if found is Some && found_is_dir {
            found
        } else {
            None
        }),
{
    match found {
        Some(p) => if found_is_dir {
            Some(p)
        } else {
            None
        },
        None => None,
    }
}

} // verus!
