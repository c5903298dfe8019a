use voci::text::safe_text;

#[test]
fn safe_text_drops_controls_and_bidi_overrides_once_and_for_all() {
    let shown = safe_text("a\u{1b}[31mb\u{202e}c\r\nd\u{9b}e\u{2066}");
    assert_eq!(shown, "a[31mbcde");
    assert_eq!(safe_text(&shown), shown);
    assert_eq!(safe_text("Grüße 👩\u{200d}💻"), "Grüße 👩\u{200d}💻");
}
