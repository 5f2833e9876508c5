use accessforge::manifest::LoaderKind;
use accessforge::packaging::{
    entry_components, skip_when_copying, skip_when_packaging, zip_entry_name, zip_prefix,
    zip_report,
};

fn names(v: &[&str]) -> Vec<String> {
    v.iter().map(|s| s.to_string()).collect()
}

#[test]
fn entry_components_rejects_path_traversal() {
    let err = entry_components("../escape.txt").unwrap_err();
    assert!(err.contains(".."), "error should mention the offending pattern, got: {err}");
    assert_eq!(
        err,
        "zip entry '../escape.txt' contains '..' and would escape the target directory"
    );
}

#[test]
fn entry_components_rejects_nested_path_traversal() {
    assert!(entry_components("safe/../../escape.txt").is_err());
}

#[test]
fn entry_components_splits_nested_path() {
    assert_eq!(entry_components("a/b/c.txt").unwrap(), names(&["a", "b", "c.txt"]));
    assert_eq!(entry_components("dir/").unwrap(), names(&["dir", ""]));
    assert_eq!(entry_components("hello.txt").unwrap(), names(&["hello.txt"]));
    assert_eq!(entry_components("a..b/c").unwrap(), names(&["a..b", "c"]));
}

#[test]
fn zip_report_empty_zip() {
    assert_eq!(
        zip_report(LoaderKind::Ue4ss, &names(&["Scripts/"])),
        names(&["Warning: zip is empty — no files were packaged."])
    );
}

#[test]
fn zip_report_ue4ss_without_scripts() {
    assert_eq!(
        zip_report(LoaderKind::Ue4ss, &names(&["main.lua", "docs/"])),
        names(&[
            "1 file(s) packaged.",
            "Warning: UE4SS mod but no files under Scripts/ in the zip. The mod may not load."
        ])
    );
    assert_eq!(
        zip_report(LoaderKind::Ue4ss, &names(&["Scripts/", "Scripts/main.lua"])),
        names(&["1 file(s) packaged."])
    );
}

#[test]
fn zip_report_dll_loaders() {
    assert_eq!(
        zip_report(LoaderKind::BepInEx, &names(&["a.txt", "b.txt"])),
        names(&[
            "2 file(s) packaged.",
            "Warning: BepInEx mod but no .dll files in the zip. The mod may not load."
        ])
    );
    assert_eq!(
        zip_report(LoaderKind::MelonLoader, &names(&["a.txt"])),
        names(&[
            "1 file(s) packaged.",
            "Warning: MelonLoader mod but no .dll files in the zip. The mod may not load."
        ])
    );
    assert_eq!(zip_report(LoaderKind::BepInEx, &names(&["x/Mod.dll"])), names(&["1 file(s) packaged."]));
}

#[test]
fn zip_report_no_loader_single_file() {
    assert_eq!(
        zip_report(LoaderKind::NoLoader, &names(&["only.txt"])),
        names(&[
            "1 file(s) packaged.",
            "Warning: only 1 file in the zip. Mods without a loader typically contain multiple files."
        ])
    );
    assert_eq!(zip_report(LoaderKind::NoLoader, &names(&["a", "b"])), names(&["2 file(s) packaged."]));
}

#[test]
fn packaging_skips_manifest_dotfiles_dist_and_zips() {
    assert!(skip_when_packaging("accessforge.yml"));
    assert!(skip_when_packaging(".git"));
    assert!(skip_when_packaging("dist"));
    assert!(skip_when_packaging("mod-1.0.zip"));
    assert!(!skip_when_packaging("main.lua"));
    assert!(!skip_when_packaging("distribution"));
}

#[test]
fn copying_skips_manifest_and_dotfiles_only() {
    assert!(skip_when_copying("accessforge.yml"));
    assert!(skip_when_copying(".gitignore"));
    assert!(!skip_when_copying("dist"));
    assert!(!skip_when_copying("mod.zip"));
}

#[test]
fn zip_prefix_only_for_ue4ss_without_scripts_dir() {
    assert_eq!(zip_prefix(LoaderKind::Ue4ss, false), "Scripts/");
    assert_eq!(zip_prefix(LoaderKind::Ue4ss, true), "");
    assert_eq!(zip_prefix(LoaderKind::BepInEx, false), "");
}

#[test]
fn zip_entry_name_uses_forward_slashes() {
    assert_eq!(zip_entry_name("Scripts/", "lib\\util.lua"), "Scripts/lib/util.lua");
    assert_eq!(zip_entry_name("", "a/b"), "a/b");
}
