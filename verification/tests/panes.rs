use voci::domain::{initial_pair_list, Language, LookupResult, ResultKind};
use voci::history::{HistoryEntry, HistoryPage};
use voci::lookup::LookupError;
use voci::navigation::HistorySelection;
use voci::history::Cursor;
use voci::panes::{read_limit, reread_from_start, HistoryList, HistoryTarget, LookupRun, Suggestions};
use voci::session::Completion;

fn entry(id: &str) -> HistoryEntry {
    HistoryEntry {
        id: id.into(),
        sequence: 1,
        query: id.into(),
        from: None,
        to: None,
        provider: None,
        started_at: 0,
        finished_at: None,
        finished: None,
    }
}

fn page(ids: &[&str]) -> HistoryPage {
    HistoryPage { entries: ids.iter().map(|id| entry(id)).collect(), has_more: false }
}

fn list(ids: &[&str], selected: Option<usize>) -> HistoryList {
    HistoryList { entries: page(ids).entries, selected, generation: 3, error: None }
}

fn ids(list: &HistoryList) -> Vec<&str> {
    list.entries.iter().map(|e| e.id.as_str()).collect()
}

fn result() -> LookupResult {
    LookupResult {
        query: "Haus".into(),
        headword: "Haus".into(),
        normalized_headword: "haus".into(),
        pair: initial_pair_list()[0],
        candidates: vec![],
        provider: "fixture".into(),
        attribution: None,
        kind: ResultKind::Dictionary,
    }
}

#[test]
fn history_pages_ignore_outdated_reads_and_keep_the_selected_entry() {
    let mut notice = String::new();
    let mut history = list(&["a", "b", "c"], Some(1));
    assert!(!history.apply(2, HistorySelection::First, Ok(page(&["x"])), &mut notice));
    assert_eq!(ids(&history), ["a", "b", "c"]);
    assert!(history.apply(3, HistorySelection::Preserve, Ok(page(&["n", "b", "c"])), &mut notice));
    assert_eq!(history.selected, Some(1));
    assert!(history.apply(3, HistorySelection::Preserve, Ok(page(&["b"])), &mut notice));
    assert_eq!(history.selected, Some(0));
    assert!(history.apply(3, HistorySelection::Last, Ok(page(&["p", "q"])), &mut notice));
    assert_eq!(history.selected, Some(1));
    assert!(!history.apply(3, HistorySelection::First, Ok(page(&[])), &mut notice));
    assert_eq!(ids(&history), ["p", "q"]);
    assert!(history.apply(3, HistorySelection::Preserve, Ok(page(&[])), &mut notice));
    assert!(history.entries.is_empty());
    assert_eq!(history.selected, None);
}

#[test]
fn history_read_errors_show_once_and_clear_on_success() {
    let mut notice = String::from("earlier notice");
    let mut history = list(&["a"], Some(0));
    assert!(!history.apply(3, HistorySelection::First, Err("History unavailable".into()), &mut notice));
    assert_eq!(notice, "History unavailable");
    assert!(history.entries.is_empty());
    assert_eq!(history.error.as_deref(), Some("History unavailable"));
    assert!(history.apply(3, HistorySelection::First, Ok(page(&["a"])), &mut notice));
    assert_eq!(notice, "");
    assert_eq!(history.error, None);
    let mut other = String::from("Copied to clipboard.");
    history.error = Some("old failure".into());
    history.apply(3, HistorySelection::First, Ok(page(&["a"])), &mut other);
    assert_eq!(other, "Copied to clipboard.");
}

#[test]
fn only_the_latest_lookup_completes() {
    let mut run = LookupRun { generation: 0, loading: false, live: None, problem: None, preview: Some(entry("p")) };
    let (first, _) = run.begin("Haus".into(), Some(Language::German), None);
    let (second, request) = run.begin("Hause".into(), None, Some(Language::English));
    assert_eq!((first, second), (1, 2));
    assert_eq!(request.query, "Hause");
    assert!(run.preview.is_none() && run.loading);
    let stale = Completion { result: Ok(result()), warnings: vec![] };
    assert_eq!(run.complete(first, stale), None);
    assert!(run.loading && run.live.is_none());
    let latest = Completion {
        result: Err(LookupError::Network),
        warnings: vec!["History was not saved: x".into(), "second".into()],
    };
    assert_eq!(run.complete(second, latest).as_deref(), Some("History was not saved: x · second"));
    assert!(!run.loading);
    assert!(run.problem.unwrap().contains("Cannot connect"));
}

#[test]
fn suggestions_follow_the_draft_and_ignore_outdated_reads() {
    let mut notice = String::new();
    let mut suggestions = Suggestions { query: None, generation: 0, entries: vec![], selected: None };
    assert!(!suggestions.update(true, true, false, "  ".into(), None, None));
    assert!(suggestions.update(true, true, false, "Ha".into(), None, None));
    assert_eq!(suggestions.generation, 1);
    assert!(!suggestions.update(true, true, false, "Ha".into(), None, None));
    suggestions.apply(1, Ok(page(&["Haus"])), &mut notice);
    suggestions.selected = Some(0);
    assert!(suggestions.update(true, true, false, "Hau".into(), None, None));
    assert!(suggestions.entries.is_empty() && suggestions.selected.is_none());
    suggestions.apply(1, Ok(page(&["old"])), &mut notice);
    assert!(suggestions.entries.is_empty());
    suggestions.apply(2, Err("History unavailable".into()), &mut notice);
    assert_eq!(notice, "History unavailable");
    assert!(suggestions.update(true, false, false, "Hau".into(), None, None));
    assert!(suggestions.query.is_none());
    suggestions.apply(3, Ok(page(&["late"])), &mut notice);
    assert!(suggestions.entries.is_empty());
}

#[test]
fn reads_ask_for_a_page_per_list_and_refreshes_fall_back_to_the_start() {
    assert_eq!(read_limit(HistoryTarget::Recent), 5);
    assert_eq!(read_limit(HistoryTarget::History), 50);
    let cursor = Some(Cursor { timestamp: 5, sequence: 2 });
    assert!(reread_from_start(HistorySelection::Preserve, cursor, true));
    assert!(!reread_from_start(HistorySelection::Preserve, cursor, false));
    assert!(!reread_from_start(HistorySelection::Preserve, None, true));
    assert!(!reread_from_start(HistorySelection::First, cursor, true));
}

#[test]
fn cancelling_outdates_the_running_lookup() {
    let mut run = LookupRun { generation: 4, loading: true, live: None, problem: None, preview: None };
    run.cancel();
    assert_eq!(run.generation, 5);
    assert!(!run.loading);
    assert_eq!(run.problem.as_deref(), Some("Lookup cancelled."));
    assert_eq!(run.complete(4, Completion { result: Ok(result()), warnings: vec![] }), None);
    assert!(run.live.is_none());
}
