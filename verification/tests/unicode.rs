use unicode_normalization::UnicodeNormalization;
use voci::unicode::fold;

#[test]
fn folding_ignores_case_and_canonical_accents() {
    assert_eq!(fold("STRASSE"), "strasse");
    assert_eq!(fold("Straße"), "strasse");
    assert_eq!(fold("e\u{301}"), fold("\u{e9}"));
    assert_eq!(fold("É"), "\u{e9}");
}

#[test]
fn folding_decomposes_then_composes_again() {
    assert_eq!(fold("ÄB"), "äb");
    assert_eq!(fold("A\u{30a}"), "\u{e5}");
    assert_eq!(fold("GRÜSSE"), fold("grüße"));
}

#[test]
fn folded_text_is_already_composed() {
    for text in ["Cafe\u{301}", "A\u{30a}NGSTRÖM", "\u{212b}", "ﬁ"] {
        let folded = fold(text);
        assert_eq!(folded.nfc().collect::<String>(), folded);
        assert_eq!(fold(&folded), folded);
    }
}
