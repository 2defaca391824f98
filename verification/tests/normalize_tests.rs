use stampname::normalize::normalize_path;
use stampname::normalize::normalize_unicode;

#[test]
fn nfkc_recomposes_decomposed_accents() {
    // "e" followed by a combining acute accent composes to a single code point
    let decomposed = "e\u{301}";
    let composed = "\u{e9}";
    assert_eq!(normalize_path(decomposed), composed);
    assert_eq!(normalize_path(composed), composed);
}

#[test]
fn nfkc_folds_compatibility_characters() {
    // the "fi" ligature decomposes to the two letters under NFKC
    assert_eq!(normalize_path("\u{fb01}le.txt"), "file.txt");
}

#[test]
fn nfkc_leaves_ascii_alone() {
    assert_eq!(normalize_path("plain_name-01.txt"), "plain_name-01.txt");
    assert_eq!(normalize_path(""), "");
}

#[test]
fn normalization_equivalence_of_encodings() {
    // two encodings of the same visible name normalize identically
    let a = "caf\u{e9}.txt";
    let b = "cafe\u{301}.txt";
    assert_eq!(normalize_path(a), normalize_path(b));
}

#[test]
fn normalize_unicode_strips_diacritics() {
    assert_eq!(normalize_unicode("caf\u{e9}"), "cafe");
    assert_eq!(normalize_unicode("e\u{301}"), "e");
    assert_eq!(normalize_unicode("plain"), "plain");
}
