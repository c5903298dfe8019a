use voci::domain::{initial_pair_list, ResultKind};
use voci::lookup::LookupError;
use voci::microsoft::{
    body_error, check_key, reply_result, request_parameters, status_error, transport_error,
    MsEntry, MsTranslation,
};
use voci::ordering::sort_unique;

fn translation(display: &str, normalized: &str, pos: &str, back: &[&str]) -> MsTranslation {
    MsTranslation {
        normalized_target: normalized.into(),
        display_target: display.into(),
        pos_tag: pos.into(),
        prefix_word: String::new(),
        back_translations: back.iter().map(|s| s.to_string()).collect(),
    }
}

fn entry(translations: Vec<MsTranslation>) -> MsEntry {
    MsEntry {
        normalized_source: "haus".into(),
        display_source: "Haus".into(),
        translations,
    }
}

#[test]
fn statuses_map_to_failures() {
    assert!(status_error(200).is_none());
    assert!(matches!(status_error(401), Some(LookupError::Authentication)));
    assert!(matches!(status_error(403), Some(LookupError::Authentication)));
    assert!(matches!(status_error(429), Some(LookupError::RateLimited)));
    assert!(matches!(status_error(503), Some(LookupError::ProviderUnavailable)));
    assert!(matches!(status_error(302), Some(LookupError::InvalidResponse)));
    assert!(matches!(status_error(400), Some(LookupError::ProviderRejected)));
    assert!(matches!(status_error(204), Some(LookupError::ProviderRejected)));
    assert!(matches!(transport_error(true), LookupError::Timeout));
    assert!(matches!(transport_error(false), LookupError::Network));
    assert!(matches!(body_error(false, true), LookupError::InvalidResponse));
    assert!(matches!(body_error(false, false), LookupError::Network));
}

#[test]
fn request_names_the_direction() {
    let p = request_parameters(initial_pair_list()[1]);
    assert_eq!(p[0], ("api-version".to_string(), "3.0".to_string()));
    assert_eq!(p[1], ("from".to_string(), "en".to_string()));
    assert_eq!(p[2], ("to".to_string(), "de".to_string()));
}

#[test]
fn blank_keys_are_rejected() {
    assert!(check_key("abc").is_ok());
    match check_key("  ") {
        Err(LookupError::Configuration(m)) => {
            assert_eq!(m, "Set VOCI_MICROSOFT_KEY to your Azure Translator subscription key.")
        }
        _ => panic!("expected a configuration error"),
    }
}

#[test]
fn replies_become_sorted_distinct_candidates() {
    let pair = initial_pair_list()[0];
    let result = reply_result(
        "Haus".into(),
        pair,
        vec![entry(vec![
            translation("house", "house", "NOUN", &["Haus", "Gebäude", "Haus"]),
            translation("house", "house", "NOUN", &["Gebäude", "Haus"]),
            translation("home", "home", "", &[]),
        ])],
    )
    .unwrap();
    assert_eq!(result.headword, "Haus");
    assert_eq!(result.normalized_headword, "haus");
    assert_eq!(result.provider, "Microsoft Translator");
    assert_eq!(result.kind, ResultKind::Dictionary);
    assert_eq!(result.candidates.len(), 2);
    assert_eq!(result.candidates[0].back_translations, ["Gebäude", "Haus"]);
    assert_eq!(result.candidates[0].part_of_speech.as_deref(), Some("NOUN"));
    assert_eq!(result.candidates[1].part_of_speech, None);
}

#[test]
fn malformed_replies_are_invalid() {
    let pair = initial_pair_list()[0];
    assert!(matches!(reply_result("x".into(), pair, vec![]), Err(LookupError::InvalidResponse)));
    assert!(matches!(
        reply_result("x".into(), pair, vec![entry(vec![]), entry(vec![])]),
        Err(LookupError::InvalidResponse)
    ));
    let mut blank = entry(vec![]);
    blank.display_source = " ".into();
    assert!(matches!(reply_result("x".into(), pair, vec![blank]), Err(LookupError::InvalidResponse)));
    assert!(matches!(
        reply_result("x".into(), pair, vec![entry(vec![translation("", "a", "", &[])])]),
        Err(LookupError::InvalidResponse)
    ));
}

#[test]
fn sorting_follows_string_order() {
    let v: Vec<String> = ["b", "a", "ä", "B", "a", "ab"].iter().map(|s| s.to_string()).collect();
    assert_eq!(sort_unique(&v), ["B", "a", "ab", "b", "ä"]);
}
