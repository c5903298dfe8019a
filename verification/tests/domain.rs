use voci::domain::{
    initial_pair_list, is_supported_pair, Language, LanguagePair, LookupRequest, LookupResult,
    ParseLanguageError, ResultKind,
};
use voci::history::{
    finish_page, outcome_columns, page_row_limit, suggestion_filter, AttemptOutcome, HistoryEntry,
    HistoryStore,
};
use voci::lookup::{check_provider_lookup, validate_query, LookupError, MAX_QUERY_CHARS};
use voci::outcome::history_outcome;
use voci::text::safe_text;

fn result() -> LookupResult {
    LookupResult {
        query: "Haus".into(),
        headword: "Haus".into(),
        normalized_headword: "haus".into(),
        pair: initial_pair_list()[0],
        candidates: vec![],
        provider: "WikDict 2_2026-06".into(),
        attribution: None,
        kind: ResultKind::Dictionary,
    }
}

fn entry(sequence: i64) -> HistoryEntry {
    HistoryEntry {
        id: format!("id{sequence}"),
        sequence,
        query: "q".into(),
        from: None,
        to: None,
        provider: None,
        started_at: 100 + sequence,
        finished_at: None,
        finished: None,
    }
}

#[test]
fn languages_parse_and_print_their_codes() {
    assert_eq!(Language::German.code(), "de");
    assert_eq!("en".parse::<Language>().ok(), Some(Language::English));
    let error: ParseLanguageError = "fr".parse::<Language>().err().unwrap();
    assert_eq!(error.message(), "Unsupported language 'fr'. Supported directions: de → en, en → de.");
    match LookupError::from(error) {
        LookupError::UnsupportedLanguage(code) => assert_eq!(code, "fr"),
        _ => panic!("expected an unsupported language"),
    }
    assert_eq!(Language::English.to_text(), "en");
    assert_eq!(initial_pair_list()[0].to_text(), "de → en");
    assert!(is_supported_pair(initial_pair_list()[1]));
    assert!(!is_supported_pair(LanguagePair { from: Language::German, to: Language::German }));
}

#[test]
fn queries_are_validated_before_trimming() {
    assert_eq!(validate_query("  Haus ").ok().as_deref(), Some("Haus"));
    for (query, message) in [
        ("word\u{1b}[2J", "The query must not contain control characters."),
        ("   ", "Enter a word to look up."),
        (&"x".repeat(MAX_QUERY_CHARS + 1)[..], "The query must be at most 100 characters."),
    ] {
        match validate_query(query) {
            Err(LookupError::InvalidInput(m)) => assert_eq!(m, message),
            _ => panic!("expected invalid input"),
        }
    }
    assert!(validate_query(&"ä".repeat(100)).is_ok());
    assert!(matches!(
        check_provider_lookup("Haus", LanguagePair { from: Language::English, to: Language::English }),
        Err(LookupError::UnsupportedPair(_))
    ));
    assert_eq!(
        LookupError::UnsupportedPair(LanguagePair { from: Language::English, to: Language::English })
            .message(),
        "Unsupported language pair en → en. Supported directions: de → en, en → de."
    );
}

#[test]
fn safe_text_removes_controls_and_bidi_overrides() {
    assert_eq!(safe_text("a\u{1b}[31mb\u{202e}c\u{7f}"), "a[31mbc");
    assert_eq!(safe_text("Grüße 👩‍💻"), "Grüße 👩‍💻");
}

#[test]
fn outcomes_record_successes_and_failures() {
    let ok = history_outcome(&Ok(result()));
    assert_eq!(ok.outcome, AttemptOutcome::Success);
    assert_eq!(ok.label(), "success");
    assert_eq!(ok.resolved_pair, Some(initial_pair_list()[0]));
    let failed = history_outcome(&Err(LookupError::Network));
    assert_eq!(failed.outcome, AttemptOutcome::Failure);
    assert_eq!(failed.error_code.as_deref(), Some("network"));
    assert_eq!(
        failed.message.as_deref(),
        Some("Cannot connect to Microsoft Dictionary Lookup. Check your network and retry.")
    );
    let missing = history_outcome(&Err(LookupError::NotFound {
        query: "x".into(),
        pair: initial_pair_list()[1],
    }));
    assert_eq!(missing.outcome, AttemptOutcome::NotFound);
    assert_eq!(missing.resolved_pair, Some(initial_pair_list()[1]));
    let cancelled = history_outcome(&Err(LookupError::Cancelled));
    assert_eq!(cancelled.label(), "cancelled");
    let (pair, provider) = outcome_columns(&ok, Some("WikDict".into()));
    assert_eq!(pair, Some(initial_pair_list()[0]));
    assert_eq!(provider.as_deref(), Some("WikDict 2_2026-06"));
    let (pair, provider) = outcome_columns(&failed, Some("Microsoft".into()));
    assert_eq!(pair, None);
    assert_eq!(provider.as_deref(), Some("Microsoft"));
}

#[test]
fn pages_are_limited_and_read_in_display_order() {
    let page = finish_page(vec![entry(1), entry(2), entry(3)], 2, false);
    assert!(page.has_more);
    assert_eq!(page.entries.iter().map(|e| e.sequence).collect::<Vec<_>>(), [1, 2]);
    let oldest = finish_page(vec![entry(1), entry(2), entry(3)], 5, true);
    assert!(!oldest.has_more);
    assert_eq!(oldest.entries.iter().map(|e| e.sequence).collect::<Vec<_>>(), [3, 2, 1]);
    assert_eq!(page_row_limit(20), 21);
    assert_eq!(page_row_limit(usize::MAX), i64::MAX);
    assert_eq!(entry(1).status(), "unfinished · outcome not recorded");
    assert!(entry(1).result().is_none());
}

#[test]
fn suggestions_search_the_trimmed_query() {
    let f = suggestion_filter(&LookupRequest { query: "  Ha ".into(), from: None, to: None }).unwrap();
    assert_eq!(f.text, "Ha");
    assert!(!f.today);
    assert!(suggestion_filter(&LookupRequest { query: " ".into(), from: None, to: None }).is_none());
}

#[test]
fn history_errors_name_the_database() {
    let store = HistoryStore::new("/d/history.sqlite3".into());
    assert_eq!(store.path(), "/d/history.sqlite3");
    assert_eq!(
        store.error("locked").message(),
        "History unavailable at /d/history.sqlite3: locked. Check the path, permissions, and database; existing data was not replaced."
    );
}

#[test]
fn history_store_copies_keep_the_path() {
    let store = HistoryStore::new("/d/h.sqlite3".into());
    let copy = store.clone();
    assert_eq!(copy.path(), "/d/h.sqlite3");
    assert_eq!(store.path(), copy.path());
}
