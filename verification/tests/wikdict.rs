use voci::domain::initial_pair_list;
use voci::lookup::{DictionaryProvider, LookupError};
use voci::wikdict::{
    decimal_text, download_error, download_message, lookup_result, receive, status_error,
    storage_error, too_large_error, DictionaryRow, WikDictProvider, ATTRIBUTION, MAX_DOWNLOAD,
    RELEASE,
};

fn row(source: &str, sense: Option<&str>, translations: &str) -> DictionaryRow {
    DictionaryRow {
        source: source.into(),
        sense: sense.map(|s| s.to_string()),
        translations: translations.into(),
    }
}

#[test]
fn dictionaries_live_under_the_release_directory() {
    let provider = WikDictProvider::new("/data/voci".into());
    assert_eq!(provider.directory(), "/data/voci/2_2026-06");
    assert_eq!(provider.path(initial_pair_list()[0]), "/data/voci/2_2026-06/de-en.sqlite3");
    assert_eq!(
        provider.download_url(initial_pair_list()[1]),
        "https://download.wikdict.com/dictionaries/sqlite/2_2026-06/en-de.sqlite3"
    );
    let local = WikDictProvider::with_download_base("/d/".into(), "http://127.0.0.1:9/x//".into());
    assert_eq!(local.directory(), "/d/2_2026-06");
    assert_eq!(
        local.download_url(initial_pair_list()[0]),
        "http://127.0.0.1:9/x/2_2026-06/de-en.sqlite3"
    );
    assert_eq!(provider.capabilities().dictionary_pairs, initial_pair_list());
    assert!(provider.capabilities().translation_pairs.is_empty());
}

#[test]
fn failures_name_the_file_and_reason() {
    match storage_error("/d/de-en.sqlite3", "Cannot open dictionary") {
        LookupError::Dictionary(m) => assert_eq!(
            m,
            "Cannot open dictionary: /d/de-en.sqlite3. Check permissions; for a corrupt file, remove it and retry to download a fresh copy."
        ),
        _ => panic!("expected a dictionary error"),
    }
    assert!(matches!(download_error(true), LookupError::DictionaryDownload(m) if m == "request timed out"));
    assert!(matches!(download_error(false), LookupError::DictionaryDownload(m) if m == "connection interrupted or unavailable"));
    assert!(matches!(status_error(404), LookupError::DictionaryDownload(m) if m == "server returned HTTP 404"));
    assert!(matches!(too_large_error(), LookupError::DictionaryDownload(m) if m == "dictionary exceeds the 64 MiB size limit"));
    assert_eq!(decimal_text(0), "0");
    assert_eq!(decimal_text(1234567), "1234567");
    assert_eq!(
        download_message(initial_pair_list()[0]),
        "Downloading WikDict de–en (2_2026-06) for offline lookup…"
    );
}

#[test]
fn downloads_stop_at_the_size_limit() {
    assert_eq!(receive(0, 10).ok(), Some(10));
    assert_eq!(receive(MAX_DOWNLOAD - 1, 1).ok(), Some(MAX_DOWNLOAD));
    assert!(receive(MAX_DOWNLOAD, 1).is_err());
    assert!(receive(1, u64::MAX).is_err());
}

#[test]
fn rows_become_distinct_candidates_per_sense() {
    let rows = vec![
        row("Haus", Some(""), "house | home |  | House"),
        row("Haus", Some("building"), "house | building"),
        row("haus", None, "home"),
    ];
    let result = lookup_result("haus".into(), initial_pair_list()[0], &rows);
    assert_eq!(result.headword, "Haus");
    assert_eq!(result.normalized_headword, "haus");
    let texts: Vec<(&str, Option<&str>)> = result
        .candidates
        .iter()
        .map(|c| (c.text.as_str(), c.sense.as_deref()))
        .collect();
    assert_eq!(
        texts,
        [
            ("house", None),
            ("home", None),
            ("house", Some("building")),
            ("building", Some("building"))
        ]
    );
    assert_eq!(result.candidates[0].normalized, "house");
    assert_eq!(result.provider, format!("WikDict {RELEASE}"));
    assert_eq!(result.attribution.as_deref(), Some(ATTRIBUTION));
}

#[test]
fn headword_comes_from_the_first_row_with_candidates() {
    let rows = vec![row("Straße", None, " | "), row("STRASSE", None, "street"), row("x", None, "y")];
    let result = lookup_result("strasse".into(), initial_pair_list()[0], &rows);
    assert_eq!(result.headword, "STRASSE");
    assert_eq!(result.normalized_headword, "strasse");
    let none = lookup_result("leer".into(), initial_pair_list()[0], &vec![]);
    assert_eq!(none.headword, "leer");
    assert!(none.candidates.is_empty());
}

#[test]
fn candidates_are_the_rows_translations_and_nothing_more() {
    let rows = vec![
        row("Bank", Some("financial institution"), " bank | banking house "),
        row("Bank", Some(""), "bench |  "),
    ];
    let result = lookup_result("Bank".into(), initial_pair_list()[0], &rows);
    let texts: Vec<&str> = result.candidates.iter().map(|c| c.text.as_str()).collect();
    assert_eq!(texts, ["bank", "banking house", "bench"]);
    assert_eq!(result.candidates[0].sense.as_deref(), Some("financial institution"));
    assert_eq!(result.candidates[2].sense, None);
    assert!(result
        .candidates
        .iter()
        .all(|c| c.part_of_speech.is_none() && c.prefix.is_empty() && c.back_translations.is_empty()));
}
