//! What the mod lists and the detail panel show for a mod: which action it
//! offers, its version line, and its description text.
use vstd::prelude::*;

use crate::manifest::{Dependency, normalize_version, normalize_version_spec};
use crate::text::{join_seqs, join_strings, push_str, str_eq, trim_start_char, trim_start_str};
use crate::versioning::{is_newer, is_newer_spec};
use crate::worker::LoadedMod;

verus! {

/// A mod as the UI lists it.
pub struct ModEntry(pub LoadedMod);

/// An update is offered when the mod is installed, a latest tag is known,
/// and the tag (leading `v`s stripped) is newer than the installed version.
pub open spec fn has_update_spec(e: LoadedMod) -> bool {
    match e.installed {
        Some(inst) => match e.latest_tag {
            Some(tag) => is_newer_spec(trim_start_char(inst.version@, 'v'), trim_start_char(tag@, 'v')),
            None => false,
        },
        None => false,
    }
}

/// The action a mod's button offers.
pub open spec fn action_label_spec(e: LoadedMod) -> Seq<char> {
    if e.installed is None {
        "Install"@
    } else if has_update_spec(e) {
        "Update"@
    } else {
        "Reinstall"@
    }
}

/// The latest known version: the latest tag without a leading `v`, or the
/// manifest's version when no tag is known.
pub open spec fn latest_version_spec(e: LoadedMod) -> Seq<char> {
    match e.latest_tag {
        Some(t) => normalize_version_spec(t@),
        None => e.manifest.version@,
    }
}

/// The version line.
pub open spec fn version_display_spec(e: LoadedMod) -> Seq<char> {
    match e.installed {
        Some(m) => if has_update_spec(e) {
            "Installed: "@ + m.version@ + ". Latest: "@ + latest_version_spec(e)
        } else {
            "Version "@ + m.version@
        },
        None => "Version "@ + latest_version_spec(e),
    }
}

/// `name (game)`.
pub open spec fn list_label_spec(e: LoadedMod) -> Seq<char> {
    e.manifest.name@ + " ("@ + e.manifest.game.name@ + ")"@
}

/// The names of the dependencies of type `ty`, in order.
pub open spec fn dep_names_of_type(deps: Seq<Dependency>, ty: Seq<char>) -> Seq<Seq<char>>
    decreases deps.len(),
{
    if deps.len() == 0 {
        Seq::empty()
    } else {
        let prev = dep_names_of_type(deps.drop_last(), ty);
        if deps.last().dep_type@ == ty {
            prev.push(deps.last().name@)
        } else {
            prev
        }
    }
}

/// "For game, by author. version line."
pub open spec fn meta_text_spec(e: LoadedMod) -> Seq<char> {
    "For "@ + e.manifest.game.name@ + ", by "@ + e.manifest.author@ + ". "@
        + version_display_spec(e) + "."@
}

/// The line naming the mod dependencies that come along, or nothing.
pub open spec fn also_installs_spec(e: LoadedMod) -> Seq<char> {
    let names = dep_names_of_type(e.manifest.dependencies@, "mod"@);
    if names.len() == 0 {
        Seq::empty()
    } else {
        "Also installs: "@ + join_seqs(names, ", "@)
    }
}

/// The loader and patch lines, or nothing for a mod without loader or patches.
pub open spec fn tech_details_spec(e: LoadedMod) -> Seq<char> {
    let patches = dep_names_of_type(e.manifest.dependencies@, "patch"@);
    let loader = e.manifest.loader;
    if loader.name@ == "none"@ && patches.len() == 0 {
        Seq::empty()
    } else {
        let first = seq!["Loader: "@ + loader.name@];
        let with_version = match loader.version {
            Some(v) => first.push("Loader version: "@ + v@),
            None => first,
        };
        let lines = if patches.len() > 0 {
            with_version.push("Also installs patches: "@ + join_seqs(patches, ", "@))
        } else {
            with_version
        };
        join_seqs(lines, "\n"@)
    }
}

/// All sections of the detail text, blank lines between them.
pub open spec fn detail_text_spec(e: LoadedMod) -> Seq<char> {
    let base = seq![e.manifest.name@, e.manifest.description@, meta_text_spec(e)];
    let with_also = if also_installs_spec(e).len() > 0 {
        base.push(also_installs_spec(e))
    } else {
        base
    };
    let parts = if tech_details_spec(e).len() > 0 {
        with_also.push(tech_details_spec(e))
    } else {
        with_also
    };
    join_seqs(parts, "\n\n"@)
}

/// The names of the dependencies of type `ty`.
fn dep_names(deps: &Vec<Dependency>, ty: &str) -> (r: Vec<String>)
    ensures
        r@.map_values(|p: String| p@) == dep_names_of_type(deps@, ty@),
{
    let mut out: Vec<String> = Vec::new();
    let mut i: usize = 0;
    assert(deps@.take(0) =~= Seq::<Dependency>::empty());
    assert(out@.map_values(|p: String| p@) =~= Seq::<Seq<char>>::empty());
    while i < deps.len()
        invariant
            i <= deps@.len(),
            out@.map_values(|p: String| p@) == dep_names_of_type(deps@.take(i as int), ty@),
        decreases deps.len() - i,
    {
        let ghost t = deps@.take(i + 1);
        assert(t.drop_last() =~= deps@.take(i as int));
        assert(t.last() == deps@[i as int]);
        if str_eq(deps[i].dep_type.as_str(), ty) {
            let ghost before = out@;
            out.push(deps[i].name.clone());
            assert(out@.map_values(|p: String| p@) =~= before.map_values(|p: String| p@).push(
                deps@[i as int].name@,
            ));
        }
        i = i + 1;
    }
    assert(deps@.take(deps@.len() as int) =~= deps@);
    out
}

impl ModEntry {
    /// Whether a newer version than the installed one is available.
    pub fn has_update(&self) -> (r: bool)
        ensures
            r == has_update_spec(self.0),
    {
        match &self.0.installed {
            Some(inst) => match &self.0.latest_tag {
                Some(tag) => {
                    let installed_ver = trim_start_str(inst.version.as_str(), 'v');
                    let latest_ver = trim_start_str(tag.as_str(), 'v');
                    is_newer(installed_ver.as_str(), latest_ver.as_str())
                },
                None => false,
            },
            None => false,
        }
    }

    /// Whether the mod is installed.
    pub fn is_installed(&self) -> (r: bool)
        ensures
            r == self.0.installed is Some,
    {
        self.0.installed.is_some()
    }

    /// "Install", "Update" or "Reinstall".
    pub fn action_label(&self) -> (r: &'static str)
        ensures
            r@ == action_label_spec(self.0),
    {
        if !self.is_installed() {
            "Install"
        } else if self.has_update() {
            "Update"
        } else {
            "Reinstall"
        }
    }

    /// The latest known version.
    pub fn latest_version(&self) -> (r: String)
        ensures
            r@ == latest_version_spec(self.0),
    {
        match &self.0.latest_tag {
            Some(t) => normalize_version(t.as_str()),
            None => self.0.manifest.version.clone(),
        }
    }

    /// The version line: both versions when an update is available.
    pub fn version_display(&self) -> (r: String)
        ensures
            r@ == version_display_spec(self.0),
    {
        let latest = self.latest_version();
        let mut out = String::new();
        match &self.0.installed {
            Some(m) => {
                if self.has_update() {
                    push_str(&mut out, "Installed: ");
                    push_str(&mut out, m.version.as_str());
                    push_str(&mut out, ". Latest: ");
                    push_str(&mut out, latest.as_str());
                } else {
                    push_str(&mut out, "Version ");
                    push_str(&mut out, m.version.as_str());
                }
            },
            None => {
                push_str(&mut out, "Version ");
                push_str(&mut out, latest.as_str());
            },
        }
        assert(out@ =~= version_display_spec(self.0));
        out
    }

    fn list_label(&self) -> (r: String)
        ensures
            r@ == list_label_spec(self.0),
    {
        let mut out = String::new();
        push_str(&mut out, self.0.manifest.name.as_str());
        push_str(&mut out, " (");
        push_str(&mut out, self.0.manifest.game.name.as_str());
        push_str(&mut out, ")");
        assert(out@ =~= list_label_spec(self.0));
        out
    }

    /// The label in the Browse list.
    pub fn list_label_browse(&self) -> (r: String)
        ensures
            r@ == list_label_spec(self.0),
    {
        self.list_label()
    }

    /// The label in the Installed list.
    pub fn list_label_installed(&self) -> (r: String)
        ensures
            r@ == list_label_spec(self.0),
    {
        self.list_label()
    }

    /// The label in the Updates list.
    pub fn list_label_update(&self) -> (r: String)
        ensures
            r@ == list_label_spec(self.0),
    {
        self.list_label()
    }

    /// "For game, by author. version line."
    pub fn meta_text(&self) -> (r: String)
        ensures
            r@ == meta_text_spec(self.0),
    {
        let version = self.version_display();
        let mut out = String::new();
        push_str(&mut out, "For ");
        push_str(&mut out, self.0.manifest.game.name.as_str());
        push_str(&mut out, ", by ");
        push_str(&mut out, self.0.manifest.author.as_str());
        push_str(&mut out, ". ");
        push_str(&mut out, version.as_str());
        push_str(&mut out, ".");
        assert(out@ =~= meta_text_spec(self.0));
        out
    }

    /// The line naming the mod dependencies installed along, or "".
    pub fn also_installs_text(&self) -> (r: String)
        ensures
            r@ == also_installs_spec(self.0),
    {
        let names = dep_names(&self.0.manifest.dependencies, "mod");
        let mut out = String::new();
        if names.len() > 0 {
            let joined = join_strings(&names, ", ");
            push_str(&mut out, "Also installs: ");
            push_str(&mut out, joined.as_str());
        }
        assert(out@ =~= also_installs_spec(self.0));
        out
    }

    /// The loader and patch lines, or "" for a mod without loader or patches.
    pub fn tech_details_text(&self) -> (r: String)
        ensures
            r@ == tech_details_spec(self.0),
    {
        let m = &self.0.manifest;
        let patches = dep_names(&m.dependencies, "patch");
        if str_eq(m.loader.name.as_str(), "none") && patches.len() == 0 {
            return String::new();
        }
        let mut lines: Vec<String> = Vec::new();
        let mut first = String::new();
        push_str(&mut first, "Loader: ");
        push_str(&mut first, m.loader.name.as_str());
        lines.push(first);
        match &m.loader.version {
            Some(v) => {
                let mut line = String::new();
                push_str(&mut line, "Loader version: ");
                push_str(&mut line, v.as_str());
                lines.push(line);
            },
            None => {},
        }
        if patches.len() > 0 {
            let joined = join_strings(&patches, ", ");
            let mut line = String::new();
            push_str(&mut line, "Also installs patches: ");
            push_str(&mut line, joined.as_str());
            lines.push(line);
        }
        let r = join_strings(&lines, "\n");
        assert(r@ =~= tech_details_spec(self.0)) by {
            let first_spec = seq!["Loader: "@ + m.loader.name@];
            let with_version = match m.loader.version {
                Some(v) => first_spec.push("Loader version: "@ + v@),
                None => first_spec,
            };
            let pnames = dep_names_of_type(m.dependencies@, "patch"@);
            let lines_spec = if pnames.len() > 0 {
                with_version.push("Also installs patches: "@ + join_seqs(pnames, ", "@))
            } else {
                with_version
            };
            assert(lines@.map_values(|p: String| p@) =~= lines_spec);
        }
        r
    }

    /// Full detail text: all sections joined with blank lines.
    pub fn detail_text(&self) -> (r: String)
        ensures
            r@ == detail_text_spec(self.0),
    {
        let m = &self.0.manifest;
        let mut parts: Vec<String> = Vec::new();
        parts.push(m.name.clone());
        parts.push(m.description.clone());
        parts.push(self.meta_text());
        let also = self.also_installs_text();
        let also_len = also.as_str().is_empty();
        if !also_len {
            parts.push(also);
        }
        let tech = self.tech_details_text();
        let tech_empty = tech.as_str().is_empty();
        if !tech_empty {
            parts.push(tech);
        }
        let r = join_strings(&parts, "\n\n");
        assert(r@ =~= detail_text_spec(self.0)) by {
            let base = seq![m.name@, m.description@, meta_text_spec(self.0)];
            let with_also = if also_installs_spec(self.0).len() > 0 {
                base.push(also_installs_spec(self.0))
            } else {
                base
            };
            let parts_spec = if tech_details_spec(self.0).len() > 0 {
                with_also.push(tech_details_spec(self.0))
            } else {
                with_also
            };
            assert(parts@.map_values(|p: String| p@) =~= parts_spec);
        }
        r
    }
}

} // verus!
