//! Release archives: which project files go into a mod's zip and under what
//! names, the checks run on a finished zip, and which entry names are safe
//! to extract.
use vstd::prelude::*;

use crate::manifest::LoaderKind;
use crate::text::{
    chars_of, decimal_spec, find_char, first_index_of, has_prefix, has_suffix,
    lemma_first_index_of, push_decimal, push_str, replace_all, replace_str, str_ends_with,
    str_eq, str_starts_with, string_of, sub_chars,
};

verus! {

/// A project entry left out when copying a mod's files: the manifest and
/// dotfiles.
pub open spec fn skipped_when_copying(name: Seq<char>) -> bool {
    name == "accessforge.yml"@ || has_prefix(name, "."@)
}

/// Whether a project entry is left out when copying a mod's files.
pub fn skip_when_copying(name: &str) -> (r: bool)
    ensures
        r == skipped_when_copying(name@),
{
    str_eq(name, "accessforge.yml") || str_starts_with(name, ".")
}

/// A project entry left out of a release zip: the manifest, dotfiles, the
/// `dist` folder and zip files.
pub open spec fn skipped_when_packaging(name: Seq<char>) -> bool {
    ||| name == "accessforge.yml"@
    ||| has_prefix(name, "."@)
    ||| name == "dist"@
    ||| has_suffix(name, ".zip"@)
}

/// Whether a project entry is left out of a release zip.
pub fn skip_when_packaging(name: &str) -> (r: bool)
    ensures
        r == skipped_when_packaging(name@),
{
    str_eq(name, "accessforge.yml") || str_starts_with(name, ".") || str_eq(name, "dist")
        || str_ends_with(name, ".zip")
}

/// The folder a release zip's files are put under: `Scripts/` for a UE4SS
/// mod whose files have no `Scripts` folder of their own, none otherwise.
pub open spec fn zip_prefix_spec(loader: LoaderKind, has_scripts_dir: bool) -> Seq<char> {
    if loader == LoaderKind::Ue4ss && !has_scripts_dir {
        "Scripts/"@
    } else {
        ""@
    }
}

/// The folder a release zip's files are put under.
pub fn zip_prefix(loader: LoaderKind, has_scripts_dir: bool) -> (r: &'static str)
    ensures
        r@ == zip_prefix_spec(loader, has_scripts_dir),
{
    if loader == LoaderKind::Ue4ss && !has_scripts_dir {
        "Scripts/"
    } else {
        ""
    }
}

/// The name of a file in a release zip: the prefix, then its path relative
/// to the packaged folder with backslashes turned into slashes.
pub open spec fn zip_entry_name_spec(prefix: Seq<char>, relative: Seq<char>) -> Seq<char> {
    prefix + replace_all(relative, "\\"@, "/"@)
}

/// The name of a file in a release zip.
pub fn zip_entry_name(prefix: &str, relative: &str) -> (r: String)
    ensures
        r@ == zip_entry_name_spec(prefix@, relative@),
{
    let mut out = String::new();
    push_str(&mut out, prefix);
    let rel = replace_str(relative, "\\", "/");
    push_str(&mut out, rel.as_str());
    out
}

/// The names of the files among a zip's entry names (directory entries end in `/`).
pub open spec fn file_entries(names: Seq<Seq<char>>) -> Seq<Seq<char>>
    decreases names.len(),
{
    if names.len() == 0 {
        Seq::empty()
    } else if has_suffix(names.last(), "/"@) {
        file_entries(names.drop_last())
    } else {
        file_entries(names.drop_last()).push(names.last())
    }
}

/// The warning about a zip's files that a loader calls for, if any.
pub open spec fn loader_warning(loader: LoaderKind, files: Seq<Seq<char>>) -> Option<Seq<char>> {
    match loader {
        LoaderKind::Ue4ss => if exists|i: int| 0 <= i < files.len() && has_prefix(
            #[trigger] files[i],
            "Scripts/"@,
        ) {
            None
        } else {
            Some(
                "Warning: UE4SS mod but no files under Scripts/ in the zip. The mod may not load."@,
            )
        },
        LoaderKind::BepInEx => if exists|i: int| 0 <= i < files.len() && has_suffix(
            #[trigger] files[i],
            ".dll"@,
        ) {
            None
        } else {
            Some("Warning: BepInEx mod but no .dll files in the zip. The mod may not load."@)
        },
        LoaderKind::MelonLoader => if exists|i: int| 0 <= i < files.len() && has_suffix(
            #[trigger] files[i],
            ".dll"@,
        ) {
            None
        } else {
            Some("Warning: MelonLoader mod but no .dll files in the zip. The mod may not load."@)
        },
        LoaderKind::NoLoader => if files.len() == 1 {
            Some(
                "Warning: only 1 file in the zip. Mods without a loader typically contain multiple files."@,
            )
        } else {
            None
        },
    }
}

/// What checking a finished zip reports, line by line: that it is empty, or
/// how many files it holds and the loader's warning, if any.
pub open spec fn zip_report_spec(loader: LoaderKind, names: Seq<Seq<char>>) -> Seq<Seq<char>> {
    let files = file_entries(names);
    if files.len() == 0 {
        seq!["Warning: zip is empty — no files were packaged."@]
    } else {
        let count = decimal_spec(files.len()) + " file(s) packaged."@;
        match loader_warning(loader, files) {
            Some(w) => seq![count, w],
            None => seq![count],
        }
    }
}

/// The files among a zip's entry names.
fn files_of(names: &Vec<String>) -> (r: Vec<String>)
    ensures
        r@.map_values(|s: String| s@) == file_entries(names@.map_values(|s: String| s@)),
{
    let ghost nv = names@.map_values(|s: String| s@);
    let mut out: Vec<String> = Vec::new();
    let mut i: usize = 0;
    assert(nv.take(0) =~= Seq::<Seq<char>>::empty());
    while i < names.len()
        invariant
            nv == names@.map_values(|s: String| s@),
            i <= names@.len(),
            out@.map_values(|s: String| s@) == file_entries(nv.take(i as int)),
        decreases names.len() - i,
    {
        assert(nv.take(i + 1).drop_last() =~= nv.take(i as int));
        let ghost before = out@.map_values(|s: String| s@);
        if !str_ends_with(names[i].as_str(), "/") {
            out.push(names[i].clone());
            assert(out@.map_values(|s: String| s@) =~= before.push(nv[i as int]));
        }
        i = i + 1;
    }
    assert(nv.take(names@.len() as int) =~= nv);
    out
}

/// Whether some name starts with `p`.
fn any_starts_with(names: &Vec<String>, p: &str) -> (r: bool)
    ensures
        r == exists|i: int| 0 <= i < names@.len() && has_prefix(#[trigger] names@[i]@, p@),
{
    let mut i: usize = 0;
    while i < names.len()
        invariant
            i <= names@.len(),
            forall|j: int| 0 <= j < i ==> !has_prefix(#[trigger] names@[j]@, p@),
        decreases names.len() - i,
    {
        if str_starts_with(names[i].as_str(), p) {
            return true;
        }
        i = i + 1;
    }
    false
}

/// Whether some name ends with `p`.
fn any_ends_with(names: &Vec<String>, p: &str) -> (r: bool)
    ensures
        r == exists|i: int| 0 <= i < names@.len() && has_suffix(#[trigger] names@[i]@, p@),
{
    let mut i: usize = 0;
    while i < names.len()
        invariant
            i <= names@.len(),
            forall|j: int| 0 <= j < i ==> !has_suffix(#[trigger] names@[j]@, p@),
        decreases names.len() - i,
    {
        if str_ends_with(names[i].as_str(), p) {
            return true;
        }
        i = i + 1;
    }
    false
}

/// What checking a finished zip with these entry names reports, line by line.
pub fn zip_report(loader: LoaderKind, names: &Vec<String>) -> (r: Vec<String>)
    ensures
        r@.map_values(|s: String| s@) == zip_report_spec(
            loader,
            names@.map_values(|s: String| s@),
        ),
{
    let files = files_of(names);
    let ghost fv = files@.map_values(|s: String| s@);
    let mut out: Vec<String> = Vec::new();
    if files.len() == 0 {
        out.push("Warning: zip is empty — no files were packaged.".to_owned());
        assert(out@.map_values(|s: String| s@) =~= zip_report_spec(
            loader,
            names@.map_values(|s: String| s@),
        ));
        return out;
    }
    let mut count = String::new();
    push_decimal(&mut count, files.len() as u64);
    push_str(&mut count, " file(s) packaged.");
    out.push(count);
    let warning: Option<&str> = match loader {
        LoaderKind::Ue4ss => {
            let found = any_starts_with(&files, "Scripts/");
            assert(found == exists|i: int| 0 <= i < fv.len() && has_prefix(
                #[trigger] fv[i],
                "Scripts/"@,
            )) by {
                if found {
                    let i = choose|i: int| 0 <= i < files@.len() && has_prefix(
                        #[trigger] files@[i]@,
                        "Scripts/"@,
                    );
                    assert(has_prefix(fv[i], "Scripts/"@));
                }
            }
            if found {
                None
            } else {
                Some(
                    "Warning: UE4SS mod but no files under Scripts/ in the zip. The mod may not load.",
                )
            }
        },
        LoaderKind::BepInEx | LoaderKind::MelonLoader => {
            let found = any_ends_with(&files, ".dll");
            assert(found == exists|i: int| 0 <= i < fv.len() && has_suffix(
                #[trigger] fv[i],
                ".dll"@,
            )) by {
                if found {
                    let i = choose|i: int| 0 <= i < files@.len() && has_suffix(
                        #[trigger] files@[i]@,
                        ".dll"@,
                    );
                    assert(has_suffix(fv[i], ".dll"@));
                }
            }
            if found {
                None
            } else if loader == LoaderKind::BepInEx {
                Some("Warning: BepInEx mod but no .dll files in the zip. The mod may not load.")
            } else {
                Some("Warning: MelonLoader mod but no .dll files in the zip. The mod may not load.")
            }
        },
        LoaderKind::NoLoader => {
            if files.len() == 1 {
                Some(
                    "Warning: only 1 file in the zip. Mods without a loader typically contain multiple files.",
                )
            } else {
                None
            }
        },
    };
    match warning {
        Some(w) => {
            out.push(w.to_owned());
        },
        None => {},
    }
    assert(out@.map_values(|s: String| s@) =~= zip_report_spec(
        loader,
        names@.map_values(|s: String| s@),
    ));
    out
}

/// `s` split at every `c`, as `str::split` gives it: at least one piece,
/// empty pieces kept.
pub open spec fn split_all(s: Seq<char>, c: char) -> Seq<Seq<char>>
    decreases s.len(),
{
    let i = first_index_of(s, c);
    if i < 0 {
        seq![s]
    } else {
        proof {
            lemma_first_index_of(s, c);
        }
        seq![s.take(i)] + split_all(s.skip(i + 1), c)
    }
}

/// The message for a zip entry that would leave the target directory.
pub open spec fn escaping_entry_text(name: Seq<char>) -> Seq<char> {
    "zip entry '"@ + name + "' contains '..' and would escape the target directory"@
}

/// Some component of the entry name `name` is `..`.
pub open spec fn has_up_component(name: Seq<char>) -> bool {
    exists|i: int|
        0 <= i < split_all(name, '/').len() && #[trigger] split_all(name, '/')[i] == ".."@
}

/// The path components of a zip entry name (split at `/`), or the error for
/// a name with a `..` component, which would write outside the target
/// directory.
pub fn entry_components(name: &str) -> (r: Result<Vec<String>, String>)
    ensures
        has_up_component(name@) ==> (r matches Err(e) && e@ == escaping_entry_text(name@)),
        !has_up_component(name@) ==> (r matches Ok(parts) && parts@.map_values(|s: String| s@)
            == split_all(name@, '/')),
{
    let ghost parts_spec = split_all(name@, '/');
    let mut rest = chars_of(name);
    let mut parts: Vec<String> = Vec::new();
    let mut escapes = false;
    let mut done = false;
    while !done
        invariant
            parts@.map_values(|s: String| s@) + (if done {
                Seq::<Seq<char>>::empty()
            } else {
                split_all(rest@, '/')
            }) == parts_spec,
            escapes <==> exists|i: int| 0 <= i < parts@.len() && #[trigger] parts@[i]@ == ".."@,
        decreases rest@.len() + (if done { 0int } else { 1int }),
    {
        proof {
            lemma_first_index_of(rest@, '/');
        }
        let ghost before = parts@.map_values(|s: String| s@);
        let ghost old_parts = parts@;
        let ghost old_escapes = escapes;
        let piece;
        match find_char(&rest, '/') {
            Some(i) => {
                let n = rest.len();
                assert(i < n);
                piece = string_of(&sub_chars(&rest, 0, i));
                let tail = sub_chars(&rest, i + 1, n);
                assert(tail@ =~= rest@.skip(i + 1));
                assert(piece@ =~= rest@.take(i as int));
                rest = tail;
            },
            None => {
                piece = string_of(&rest);
                done = true;
            },
        }
        let is_up = str_eq(piece.as_str(), "..");
        if is_up {
            escapes = true;
        }
        parts.push(piece);
        proof {
            assert(parts@ == old_parts.push(piece));
            assert(parts@.map_values(|s: String| s@) =~= before.push(piece@));
            let n = old_parts.len() as int;
            if escapes {
                if is_up {
                    assert(parts@[n]@ == ".."@);
                } else {
                    let i = choose|i: int| 0 <= i < old_parts.len() && #[trigger] old_parts[i]@
                        == ".."@;
                    assert(parts@[i]@ == ".."@);
                }
            }
            if exists|i: int| 0 <= i < parts@.len() && #[trigger] parts@[i]@ == ".."@ {
                let i = choose|i: int| 0 <= i < parts@.len() && #[trigger] parts@[i]@ == ".."@;
                if i < n {
                    assert(old_parts[i]@ == ".."@);
                }
            }
        }
    }
    assert(parts@.map_values(|s: String| s@) =~= parts_spec);
    assert(forall|i: int|
        0 <= i < parts_spec.len() ==> #[trigger] parts_spec[i] == parts@[i]@);
    proof {
        if escapes {
            let i = choose|i: int| 0 <= i < parts@.len() && #[trigger] parts@[i]@ == ".."@;
            assert(parts_spec[i] == ".."@);
        }
        if has_up_component(name@) {
            let i = choose|i: int| 0 <= i < parts_spec.len() && #[trigger] parts_spec[i] == ".."@;
            assert(parts@[i]@ == ".."@);
        }
    }
    if escapes {
        let mut e = String::new();
        push_str(&mut e, "zip entry '");
        push_str(&mut e, name);
        push_str(&mut e, "' contains '..' and would escape the target directory");
        Err(e)
    } else {
        Ok(parts)
    }
}

} // verus!
