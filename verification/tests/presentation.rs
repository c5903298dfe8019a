use voci::domain::{initial_pair_list, LookupResult, ResultKind, TranslationCandidate};
use voci::lookup::LookupError;
use voci::presentation::{detail_lines, exit_code, lookup_error_text, render_result, values};

fn fixture() -> LookupResult {
    LookupResult {
        query: "word".into(),
        headword: "word".into(),
        normalized_headword: "word".into(),
        pair: initial_pair_list()[0],
        candidates: vec![
            TranslationCandidate {
                text: "hello\u{202e}".into(),
                normalized: "hello".into(),
                part_of_speech: None,
                sense: Some("not copied".into()),
                prefix: "the".into(),
                back_translations: vec![],
            },
            TranslationCandidate {
                text: "world".into(),
                normalized: "world".into(),
                part_of_speech: None,
                sense: None,
                prefix: String::new(),
                back_translations: vec![],
            },
        ],
        provider: "fixture".into(),
        attribution: None,
        kind: ResultKind::Dictionary,
    }
}

#[test]
fn presentation_copies_plain_values_including_prefix_without_control_sequences() {
    let result = fixture();
    assert_eq!(values(&result, Some(0)).as_deref(), Some("the hello"));
    assert_eq!(values(&result, None).as_deref(), Some("the hello\nworld"));
    assert!(values(&result, Some(9)).is_none());
}

#[test]
fn clipboard_copies_plain_values_including_prefix_without_control_sequences() {
    let result = fixture();
    assert_eq!(voci::clipboard::values(&result, Some(0)).as_deref(), Some("the hello"));
    assert_eq!(voci::clipboard::values(&result, None).as_deref(), Some("the hello\nworld"));
    assert!(voci::clipboard::values(&result, Some(9)).is_none());
}

#[test]
fn copying_from_a_result_without_candidates_gives_an_empty_text() {
    let mut result = fixture();
    result.candidates.clear();
    assert_eq!(values(&result, None).as_deref(), Some(""));
    assert!(values(&result, Some(0)).is_none());
}

#[test]
fn ambiguous_and_undetermined_errors_suggest_choosing_a_source() {
    assert_eq!(
        lookup_error_text(&LookupError::Ambiguous("Tor".into())),
        "'Tor' has entries in both German and English. Choose --from de or --from en (Source in the TUI)."
    );
    assert_eq!(
        lookup_error_text(&LookupError::Undetermined("xyz".into())),
        "Could not determine the source of 'xyz': neither dictionary returned an entry. Check spelling or specify --from de / --from en (Source in the TUI)."
    );
    assert_eq!(lookup_error_text(&LookupError::Cancelled), "Lookup cancelled.");
}

#[test]
fn results_print_up_to_eight_safe_candidates() {
    let mut result = fixture();
    result.headword = "Verbindlichkeit".into();
    result.candidates[1].part_of_speech = Some("NOUN".into());
    result.candidates[1].back_translations = vec!["Schuld".into()];
    let text = render_result(&result);
    assert_eq!(
        text,
        "Verbindlichkeit · de → en\n\n1. the hello · not copied\n2. world (NOUN) · Schuld"
    );
    let many: Vec<&str> = vec!["\u{1b}[31mone\n", "two", "three", "four", "five", "six", "seven", "eight", "nine"];
    result.candidates = many
        .iter()
        .map(|t| TranslationCandidate {
            text: t.to_string(),
            normalized: t.to_string(),
            part_of_speech: None,
            sense: None,
            prefix: String::new(),
            back_translations: vec![],
        })
        .collect();
    result.attribution = Some("WikDict".into());
    let output = render_result(&result);
    assert!(!output.contains('\u{1b}'));
    assert!(output.contains("1 more candidates omitted"));
    assert!(!output.contains("9. nine"));
    assert!(output.ends_with("\n\nWikDict"));
    assert_eq!(exit_code(&LookupError::InvalidInput("x".into())), 2);
    assert_eq!(exit_code(&LookupError::Cancelled), 130);
    assert_eq!(exit_code(&LookupError::Network), 1);
}

#[test]
fn detail_lines_wrap_the_numbered_candidate_to_the_pane() {
    let result = fixture();
    assert_eq!(detail_lines(&result, 0, 100), vec!["1. the hello · not copied".to_string()]);
    assert_eq!(detail_lines(&result, 1, 100), vec!["2. world".to_string()]);
    let narrow = detail_lines(&result, 0, 12);
    assert!(narrow.len() > 1);
    assert!(narrow.iter().all(|line| line.chars().count() <= 10));
    assert_eq!(narrow.join(" "), "1. the hello · not copied");
    assert!(detail_lines(&result, 0, 0).len() > 6);
    assert!(detail_lines(&result, 2, 100).is_empty());
}
