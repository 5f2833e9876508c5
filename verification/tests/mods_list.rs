use accessforge::mods_list::{enable_mod_entry, entry_name_of, lines_of};

#[test]
fn enable_mod_entry_creates_list_when_missing() {
    let content = enable_mod_entry(None, "my-mod");
    assert_eq!(content, "my-mod : 1\n");
}

#[test]
fn enable_mod_entry_enables_disabled_line() {
    let content = enable_mod_entry(Some("other-mod : 1\nmy-mod : 0\n"), "my-mod");
    assert_eq!(content, "other-mod : 1\nmy-mod : 1\n");
    assert!(content.contains("other-mod : 1"));
}

#[test]
fn enable_mod_entry_keeps_single_entry_when_enabled() {
    let content = enable_mod_entry(Some("my-mod : 1\n"), "my-mod");
    assert_eq!(content.matches("my-mod").count(), 1);
    assert_eq!(content, "my-mod : 1\n");
}

#[test]
fn enable_mod_entry_puts_new_mod_first() {
    let content = enable_mod_entry(Some("a : 1\nb : 0"), "c");
    assert_eq!(content, "c : 1\na : 1\nb : 0\n");
}

#[test]
fn enable_mod_entry_matches_with_loose_spacing() {
    let content = enable_mod_entry(Some("  my-mod:0  \r\nx : 1\r\n"), "my-mod");
    assert_eq!(content, "my-mod : 1\nx : 1\n");
}

#[test]
fn enable_mod_entry_twice_is_same_as_once() {
    let once = enable_mod_entry(Some("a : 1\nmy-mod : 0\n"), "my-mod");
    let twice = enable_mod_entry(Some(&once), "my-mod");
    assert_eq!(once, twice);
}

#[test]
fn enable_mod_entry_replaces_only_first_match() {
    let content = enable_mod_entry(Some("m : 0\nm : 0\n"), "m");
    assert_eq!(content, "m : 1\nm : 0\n");
}

#[test]
fn lines_of_follows_str_lines() {
    for text in ["", "a", "a\n", "a\r\nb", "a\n\nb\n", "x\r", "\n\n"] {
        let expected: Vec<String> = text.lines().map(|l| l.to_string()).collect();
        assert_eq!(lines_of(text), expected, "for {text:?}");
    }
}

#[test]
fn entry_name_of_reads_name_before_colon() {
    assert_eq!(entry_name_of("  Foo Bar : 1 ").iter().collect::<String>(), "Foo Bar");
    assert_eq!(entry_name_of("plain").iter().collect::<String>(), "plain");
    assert_eq!(entry_name_of(":1").iter().collect::<String>(), "");
}

#[test]
fn enabling_twice_writes_the_same_text() {
    let once = accessforge::mods_list::enable_mod_entry(Some("a : 0\nmy-mod : 0\n"), "my-mod");
    assert_eq!(once, "a : 0\nmy-mod : 1\n");
    let twice = accessforge::mods_list::enable_mod_entry(Some(&once), "my-mod");
    assert_eq!(twice, once);
    let fresh = accessforge::mods_list::enable_mod_entry(None, "new-mod");
    assert_eq!(fresh, "new-mod : 1\n");
    assert_eq!(accessforge::mods_list::enable_mod_entry(Some(&fresh), "new-mod"), fresh);
}

#[test]
fn enabling_twice_with_windows_line_ends() {
    let once = enable_mod_entry(Some("a : 0\r\nmy-mod : 0\r\n"), "my-mod");
    assert_eq!(once, "a : 0\nmy-mod : 1\n");
    assert_eq!(enable_mod_entry(Some(&once), "my-mod"), once);
}
