use voci::config::ProviderName;
use voci::domain::{initial_pair_list, Language, LookupRequest, LookupResult, ResultKind};
use voci::lookup::LookupError;
use voci::session::{
    after_saved_read, begin_recording, command_request, complete, initial_provider, record_step,
    RecordAction, RecordEvent, LookupPolicy, refused, selected_provider, unfinished_warning,
    unsaved_warning, validate_request, SavedRead,
};

fn request(query: &str, from: Option<Language>, to: Option<Language>) -> LookupRequest {
    LookupRequest { query: query.into(), from, to }
}

fn result() -> LookupResult {
    LookupResult {
        query: "Haus".into(),
        headword: "Haus".into(),
        normalized_headword: "haus".into(),
        pair: initial_pair_list()[0],
        candidates: vec![],
        provider: "fixture".into(),
        attribution: None,
        kind: ResultKind::Dictionary,
    }
}

#[test]
fn requests_are_checked_before_lookup() {
    assert!(validate_request(&request("Haus", Some(Language::German), None)).is_ok());
    assert!(matches!(
        validate_request(&request("Haus", Some(Language::German), Some(Language::German))),
        Err(LookupError::UnsupportedPair(p)) if p.from == Language::German && p.to == Language::German
    ));
    assert!(matches!(
        validate_request(&request("  ", None, None)),
        Err(LookupError::InvalidInput(m)) if m == "Enter a word to look up."
    ));
    assert!(matches!(
        validate_request(&request("word\u{1b}[2J", Some(Language::German), Some(Language::German))),
        Err(LookupError::InvalidInput(m)) if m == "The query must not contain control characters."
    ));
}

#[test]
fn providers_are_named_by_precedence() {
    assert_eq!(
        initial_provider(Some(ProviderName::Microsoft), Some(ProviderName::Wikdict), None).as_deref(),
        Some("Microsoft")
    );
    assert_eq!(initial_provider(None, None, Some(ProviderName::Wikdict)).as_deref(), Some("WikDict"));
    assert_eq!(initial_provider(None, None, None), None);
    assert_eq!(selected_provider(None, ProviderName::Microsoft), ProviderName::Microsoft);
    assert_eq!(
        selected_provider(Some(ProviderName::Wikdict), ProviderName::Microsoft),
        ProviderName::Wikdict
    );
}

#[test]
fn saved_results_are_reused_and_read_failures_become_warnings() {
    assert!(matches!(after_saved_read(Ok(Some(result()))), SavedRead::Reuse(r) if r.headword == "Haus"));
    assert!(matches!(after_saved_read(Ok(None)), SavedRead::LookUp(w) if w.is_empty()));
    assert!(matches!(after_saved_read(Err("locked".into())), SavedRead::LookUp(w) if w == ["locked"]));
    assert_eq!(unsaved_warning("disk full"), "History was not saved: disk full");
    assert_eq!(
        unfinished_warning("disk full"),
        "History outcome was not saved; the attempt remains unfinished: disk full"
    );
    let c = complete(Err(LookupError::Network), vec!["a".into()], vec!["b".into()]);
    assert_eq!(c.warnings, ["a", "b"]);
    let r = refused(LookupError::Cancelled);
    assert!(matches!(r.result, Err(LookupError::Cancelled)));
    assert!(r.warnings.is_empty());
}

#[test]
fn command_requests_reject_unsupported_inputs_before_anything_loads() {
    let error = command_request("Verbindlichkeit".into(), None, Some("fr".into())).unwrap_err();
    assert!(matches!(&error, LookupError::UnsupportedLanguage(code) if code == "fr"));
    assert!(error.message().contains("Unsupported language"));
    let error = command_request("word".into(), Some("de".into()), Some("de".into())).unwrap_err();
    assert!(error.message().contains("Unsupported language pair"));
    let error = command_request("".into(), None, None).unwrap_err();
    assert!(error.message().contains("Enter a word"));
    let error = command_request("word\x1b[2J".into(), None, None).unwrap_err();
    assert!(matches!(error, LookupError::InvalidInput(_)));
    let error = command_request("word".into(), Some("xx".into()), Some("yy".into())).unwrap_err();
    assert!(matches!(&error, LookupError::UnsupportedLanguage(code) if code == "xx"));
    let request = command_request(" ice cream ".into(), Some("en".into()), None).unwrap();
    assert_eq!(request.query, " ice cream ");
    assert_eq!(request.from, Some(Language::English));
    assert_eq!(request.to, None);
}

#[test]
fn invalid_requests_complete_without_being_recorded() {
    let (_, action) = begin_recording(&request("  ", None, None), LookupPolicy::Fresh, Ok(()), None);
    match action {
        RecordAction::Complete(c) => {
            assert!(matches!(c.result, Err(LookupError::InvalidInput(_))));
            assert!(c.warnings.is_empty());
        }
        _ => panic!("an invalid request must not start an attempt"),
    }
}

#[test]
fn saved_results_are_reused_without_recording() {
    let (state, action) =
        begin_recording(&request("Haus", None, None), LookupPolicy::PreferSaved, Ok(()), None);
    assert!(matches!(action, RecordAction::ReadSaved));
    let (_, action) = record_step(state, RecordEvent::Saved(Ok(Some(result()))));
    match action {
        RecordAction::Complete(c) => {
            assert_eq!(c.result.unwrap().query, "Haus");
            assert!(c.warnings.is_empty());
        }
        _ => panic!("a saved result completes the lookup"),
    }
}

#[test]
fn every_recorded_attempt_gets_its_outcome_and_failures_only_warn() {
    let (state, action) = begin_recording(
        &request("Haus", None, None),
        LookupPolicy::PreferSaved,
        Ok(()),
        Some(ProviderName::Microsoft),
    );
    assert!(matches!(action, RecordAction::ReadSaved));
    let (state, action) = record_step(state, RecordEvent::Saved(Err("read failed".into())));
    assert!(matches!(&action, RecordAction::StartAttempt(Some(p)) if p == "Microsoft"));
    let (state, action) = record_step(state, RecordEvent::Started(Ok("attempt-1".into())));
    assert!(matches!(action, RecordAction::LookUp));
    let (state, action) = record_step(
        state,
        RecordEvent::LookedUp { result: Err(LookupError::Cancelled), selected: Some(ProviderName::Wikdict) },
    );
    match &action {
        RecordAction::FinishAttempt { id, outcome, provider } => {
            assert_eq!(id, "attempt-1");
            assert_eq!(outcome.label(), "cancelled");
            assert_eq!(provider.as_deref(), Some("WikDict"));
        }
        _ => panic!("a recorded attempt gets its outcome"),
    }
    let (_, action) = record_step(state, RecordEvent::Finished(Err("disk full".into())));
    match action {
        RecordAction::Complete(c) => {
            assert!(matches!(c.result, Err(LookupError::Cancelled)));
            assert_eq!(
                c.warnings,
                vec![
                    "read failed".to_string(),
                    "History outcome was not saved; the attempt remains unfinished: disk full".to_string(),
                ]
            );
        }
        _ => panic!("the lookup completes"),
    }
}

#[test]
fn lookups_run_unrecorded_when_history_is_unavailable() {
    let (state, action) =
        begin_recording(&request("Haus", None, None), LookupPolicy::PreferSaved, Err("no directory".into()), None);
    assert!(matches!(action, RecordAction::LookUp));
    let (_, action) = record_step(state, RecordEvent::LookedUp { result: Ok(result()), selected: None });
    match action {
        RecordAction::Complete(c) => {
            assert!(c.result.is_ok());
            assert_eq!(c.warnings, vec!["History was not saved: no directory".to_string()]);
        }
        _ => panic!("an unrecorded lookup completes at once"),
    }
    let (state, action) = begin_recording(&request("Haus", None, None), LookupPolicy::Fresh, Ok(()), None);
    assert!(matches!(action, RecordAction::StartAttempt(None)));
    let (state, _) = record_step(state, RecordEvent::Started(Err("locked".into())));
    let (_, action) = record_step(state, RecordEvent::LookedUp { result: Err(LookupError::Network), selected: None });
    match action {
        RecordAction::Complete(c) => {
            assert!(matches!(c.result, Err(LookupError::Network)));
            assert_eq!(c.warnings, vec!["History was not saved: locked".to_string()]);
        }
        _ => panic!("an unrecorded attempt completes at once"),
    }
}
