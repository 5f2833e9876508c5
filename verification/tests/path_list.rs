use accessforge::path_list::{path_has_dir, path_with_dir, reg_query_path};

#[test]
fn path_has_dir_ignores_case_and_trailing_backslashes() {
    assert!(path_has_dir("C:\\Windows;C:\\Tools\\AccessForge\\", "c:\\tools\\accessforge"));
    assert!(!path_has_dir("C:\\Windows;C:\\Tools", "C:\\Tools\\AccessForge"));
    assert!(!path_has_dir("", "C:\\X"));
}

#[test]
fn path_with_dir_appends_once() {
    assert_eq!(path_with_dir("", "C:\\A").as_deref(), Some("C:\\A"));
    assert_eq!(path_with_dir("C:\\B;;", "C:\\A").as_deref(), Some("C:\\B;C:\\A"));
    assert_eq!(path_with_dir("C:\\A;C:\\B", "c:\\a\\"), None);
}

#[test]
fn reg_query_path_reads_value_after_second_gap() {
    let out = "\r\nHKEY_CURRENT_USER\\Environment\r\n    Path    REG_EXPAND_SZ    C:\\Bin;C:\\Other\r\n\r\n";
    assert_eq!(reg_query_path(out), "REG_EXPAND_SZ    C:\\Bin;C:\\Other");
    assert_eq!(reg_query_path("Path REG_SZ"), "");
    assert_eq!(reg_query_path("nothing here"), "");
}
