use voci::domain::{
    initial_pair_list, Language, LanguagePair, LookupRequest, LookupResult, ResultKind,
    TranslationCandidate,
};
use voci::lookup::LookupError;
use voci::service::{automatic_outcome, explicit_outcome, plan_lookup, LookupPlan};

fn request(from: Option<Language>, to: Option<Language>) -> LookupRequest {
    LookupRequest { query: "Verbindlichkeit".into(), from, to }
}

fn answer(pair: LanguagePair, targets: &[&str]) -> Result<LookupResult, LookupError> {
    Ok(LookupResult {
        query: "Verbindlichkeit".into(),
        headword: "Verbindlichkeit".into(),
        normalized_headword: "verbindlichkeit".into(),
        pair,
        candidates: targets
            .iter()
            .map(|t| TranslationCandidate {
                text: t.to_string(),
                normalized: t.to_string(),
                part_of_speech: None,
                sense: None,
                prefix: String::new(),
                back_translations: vec![],
            })
            .collect(),
        provider: "fixture".into(),
        attribution: None,
        kind: ResultKind::Dictionary,
    })
}

#[test]
fn explicit_lookup_and_preference_use_one_direction() {
    for preferred in [Language::German, Language::English] {
        match plan_lookup(&request(Some(Language::German), None), preferred).unwrap() {
            LookupPlan::Explicit { query, pair } => {
                assert_eq!(query, "Verbindlichkeit");
                assert_eq!(pair, initial_pair_list()[0]);
            }
            _ => panic!("expected an explicit lookup"),
        }
        assert!(matches!(
            plan_lookup(&request(Some(Language::German), Some(Language::German)), preferred),
            Err(LookupError::UnsupportedPair(_))
        ));
    }
    assert!(matches!(
        plan_lookup(&request(None, Some(Language::English)), Language::German),
        Ok(LookupPlan::Automatic { to: Some(Language::English), .. })
    ));
    assert!(matches!(
        plan_lookup(&LookupRequest { query: "a\nb".into(), from: None, to: None }, Language::English),
        Err(LookupError::InvalidInput(_))
    ));
}

#[test]
fn automatic_lookup_reuses_the_only_matching_direction() {
    let de = initial_pair_list()[0];
    let en = initial_pair_list()[1];
    let result =
        automatic_outcome("Verbindlichkeit", None, answer(de, &["liability"]), answer(en, &[]))
            .unwrap();
    assert_eq!(result.pair, de);
    let result =
        automatic_outcome("Verbindlichkeit", None, answer(de, &[]), answer(en, &["Verbindlichkeit"]))
            .unwrap();
    assert_eq!(result.pair, en);
}

#[test]
fn ambiguous_and_undetermined_are_distinct_and_target_does_not_guess_source() {
    let de = initial_pair_list()[0];
    let en = initial_pair_list()[1];
    assert!(matches!(
        automatic_outcome("q", Some(Language::English), answer(de, &["meaning"]), answer(en, &["meaning"])),
        Err(LookupError::Ambiguous(q)) if q == "q"
    ));
    assert!(matches!(
        automatic_outcome("q", Some(Language::English), answer(de, &[]), answer(en, &[])),
        Err(LookupError::Undetermined(q)) if q == "q"
    ));
}

#[test]
fn explicit_miss_is_not_found_and_automatic_target_is_never_substituted() {
    let de = initial_pair_list()[0];
    let en = initial_pair_list()[1];
    assert!(matches!(
        explicit_outcome("Verbindlichkeit", de, answer(de, &[])),
        Err(LookupError::NotFound { query, pair }) if query == "Verbindlichkeit" && pair == de
    ));
    assert!(matches!(
        automatic_outcome("q", Some(Language::English), answer(de, &[]), answer(en, &["Verbindlichkeit"])),
        Err(LookupError::UnsupportedPair(p)) if p.from == Language::English && p.to == Language::English
    ));
    assert!(explicit_outcome("Verbindlichkeit", de, answer(de, &["liability"])).is_ok());
}

#[test]
fn partial_failure_never_becomes_language_evidence() {
    let de = initial_pair_list()[0];
    assert!(matches!(
        automatic_outcome("q", None, answer(de, &["liability"]), Err(LookupError::ProviderUnavailable)),
        Err(LookupError::ProviderUnavailable)
    ));
    assert!(matches!(
        automatic_outcome("q", None, Err(LookupError::Timeout), Err(LookupError::Network)),
        Err(LookupError::Timeout)
    ));
    assert!(matches!(
        explicit_outcome("q", de, Err(LookupError::Network)),
        Err(LookupError::Network)
    ));
}
