use licensebat::text::{characters, contains, same};

#[test]
fn same_tells_equal_slices_from_different_ones() {
    assert!(same("", ""));
    assert!(same("package-lock.json", "package-lock.json"));
    assert!(!same("package-lock.json", "package-lock.jso"));
    assert!(!same("MIT", "mit"));
    assert!(!same("a", ""));
}

#[test]
fn same_compares_characters_beyond_ascii() {
    assert!(same("licença", "licença"));
    assert!(!same("licença", "licenca"));
    assert!(!same("é", "e\u{301}"));
}

#[test]
fn characters_lists_each_character_once() {
    assert_eq!(characters(""), Vec::<char>::new());
    assert_eq!(characters("a/b"), vec!['a', '/', 'b']);
    assert_eq!(characters("añ✓"), vec!['a', 'ñ', '✓']);
}

#[test]
fn contains_finds_a_name_anywhere_in_a_path() {
    assert!(contains("package-lock.json", "package-lock.json"));
    assert!(contains("./web/package-lock.json", "package-lock.json"));
    assert!(contains("package-lock.json.bak", "package-lock.json"));
    assert!(contains("xpackage-lock.jsonx", "package-lock.json"));
}

#[test]
fn contains_rejects_a_name_that_is_not_there() {
    assert!(!contains("yarn.lock", "package-lock.json"));
    assert!(!contains("package-lock.jso", "package-lock.json"));
    assert!(!contains("", "package-lock.json"));
    assert!(!contains("package-lockXjson", "package-lock.json"));
}

#[test]
fn contains_finds_the_empty_name_everywhere() {
    assert!(contains("", ""));
    assert!(contains("Cargo.lock", ""));
}

#[test]
fn contains_agrees_with_std_on_overlapping_candidates() {
    for (hay, needle) in [("aaab", "aab"), ("abababc", "ababc"), ("ñandú/ñ", "ú/ñ"), ("abc", "abcd")] {
        assert_eq!(contains(hay, needle), hay.contains(needle));
    }
}
