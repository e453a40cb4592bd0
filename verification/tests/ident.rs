use boilr::ident::{generate_app_id, generate_legacy_id, hash_text, legacy_id, LEGACY_BIT};
use boilr::text::{
    chars_of, contains_chars, decimal_string, equals_ignoring_ascii_case, same_text,
};
use std::collections::hash_map::DefaultHasher;
use std::hash::{Hash, Hasher};

fn reference_id(name: &str, path: &str) -> u32 {
    let unique_string = format!("{}{}", path, name);
    let mut hasher = DefaultHasher::new();
    unique_string.hash(&mut hasher);
    (hasher.finish() as u32) | 0x8000_0000
}

#[test]
fn identifier_is_deterministic() {
    let a = generate_app_id("Portal", "C:/Games/Portal/portal.exe");
    let b = generate_app_id("Portal", "C:/Games/Portal/portal.exe");
    assert_eq!(a, b);
    assert_eq!(
        generate_legacy_id("Portal", "C:/Games/Portal/portal.exe"),
        generate_legacy_id("Portal", "C:/Games/Portal/portal.exe")
    );
}

#[test]
fn identifier_has_high_bit_set() {
    for (name, path) in [
        ("Portal", "C:/Games/Portal/portal.exe"),
        ("", ""),
        ("Ünïcödé", "/home/ü/spiel"),
        ("a", "b"),
    ] {
        let id: u32 = generate_app_id(name, path).parse().unwrap();
        assert!(id & 0x8000_0000 != 0);
        assert!(generate_legacy_id(name, path) >= LEGACY_BIT);
    }
}

#[test]
fn identifier_is_the_hash_of_path_then_name() {
    for (name, path) in [
        ("Portal", "C:/Games/Portal/portal.exe"),
        ("", ""),
        ("Ünïcödé", "/home/ü/spiel"),
        ("TestGame", "/tmp/x/TestGame/game.exe"),
    ] {
        assert_eq!(generate_legacy_id(name, path), reference_id(name, path));
        assert_eq!(generate_app_id(name, path), reference_id(name, path).to_string());
    }
}

#[test]
fn identifier_depends_on_the_order_of_its_parts() {
    assert_eq!(generate_app_id("b", "a"), generate_app_id("", "ab"));
    assert_ne!(generate_legacy_id("a", "b"), generate_legacy_id("b", "a"));
}

#[test]
fn hash_text_matches_hashing_a_str() {
    for text in ["", "abc", "C:/Games/Portal/portal.exePortal", "ÄÖÜ"] {
        let mut hasher = DefaultHasher::new();
        text.hash(&mut hasher);
        assert_eq!(hash_text(text), hasher.finish());
    }
}

#[test]
fn legacy_id_exact_values() {
    assert_eq!(legacy_id(0), 0x8000_0000);
    assert_eq!(legacy_id(5), 0x8000_0005);
    assert_eq!(legacy_id(0x7fff_ffff), 0xffff_ffff);
    assert_eq!(legacy_id(0xffff_ffff), 0xffff_ffff);
    assert_eq!(legacy_id(0x1234_5678_9abc_def0), 0x9abc_def0);
    assert_eq!(legacy_id(0xffff_ffff_0000_0001), 0x8000_0001);
    assert_eq!(legacy_id(u64::MAX), 0xffff_ffff);
}

#[test]
fn decimal_string_exact_values() {
    assert_eq!(decimal_string(0), "0");
    assert_eq!(decimal_string(7), "7");
    assert_eq!(decimal_string(10), "10");
    assert_eq!(decimal_string(2147483648), "2147483648");
    assert_eq!(decimal_string(4294967295), "4294967295");
    assert_eq!(decimal_string(u64::MAX), "18446744073709551615");
    assert_eq!(decimal_string(1000200), "1000200");
}

#[test]
fn substring_search() {
    let hay = chars_of("program files (x86)");
    assert!(contains_chars(&hay, &chars_of("program files")));
    assert!(contains_chars(&hay, &chars_of("(x86)")));
    assert!(contains_chars(&hay, &chars_of("")));
    assert!(contains_chars(&hay, &hay));
    assert!(!contains_chars(&hay, &chars_of("x87")));
    assert!(!contains_chars(&hay, &chars_of("program files (x86) ")));
    assert!(contains_chars(&chars_of(""), &chars_of("")));
    assert!(!contains_chars(&chars_of(""), &chars_of("a")));
    assert!(contains_chars(&chars_of("aab"), &chars_of("ab")));
}

#[test]
fn chars_of_keeps_every_character() {
    assert_eq!(chars_of("añ€😀"), vec!['a', 'ñ', '€', '😀']);
    assert!(chars_of("").is_empty());
}

#[test]
fn text_comparisons() {
    assert!(same_text("abc", "abc"));
    assert!(!same_text("abc", "abd"));
    assert!(!same_text("abc", "ab"));
    assert!(same_text("", ""));
    assert!(equals_ignoring_ascii_case("ExE", "exe"));
    assert!(equals_ignoring_ascii_case("", ""));
    assert!(!equals_ignoring_ascii_case("exe", "ex"));
    assert!(!equals_ignoring_ascii_case("Ä", "ä"));
    assert!(!equals_ignoring_ascii_case("[", "{"));
    assert!(!equals_ignoring_ascii_case("@", "`"));
}
