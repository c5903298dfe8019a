use voci::domain::{initial_pair_list, Language, LookupResult, ResultKind};
use voci::history::{HistoryEntry, HistoryPage};
use voci::lookup::LookupError;
use voci::navigation::{HistoryRead, HistorySelection, Tab};
use voci::panes::HistoryTarget;
use voci::runtime::{copy_entry, Command, Job, RecentList, Request, Runtime};
use voci::session::Completion;

fn entry(id: &str) -> HistoryEntry {
    HistoryEntry {
        id: id.into(),
        sequence: 4,
        query: id.into(),
        from: None,
        to: None,
        provider: None,
        started_at: 7,
        finished_at: None,
        finished: None,
    }
}

fn page(ids: &[&str]) -> HistoryPage {
    HistoryPage { entries: ids.iter().map(|id| entry(id)).collect(), has_more: false }
}

fn result() -> LookupResult {
    LookupResult {
        query: "Haus".into(),
        headword: "Haus".into(),
        normalized_headword: "haus".into(),
        pair: initial_pair_list()[0],
        candidates: vec![],
        provider: "fixture".into(),
        attribution: None,
        kind: ResultKind::Dictionary,
    }
}

#[test]
fn opening_reads_recent_lookups_and_shows_warnings() {
    let (rt, first) = Runtime::new(Some(Language::German), None, &vec!["a".into(), "b".into()]);
    assert_eq!(rt.notice, "a · b");
    assert_eq!(rt.tab, Tab::Lookup);
    match first {
        Command::Read { filter, read, generation, target } => {
            assert_eq!(filter.text, "");
            assert_eq!(read, HistoryRead { cursor: None, oldest: false, selection: HistorySelection::First });
            assert_eq!(generation, 0);
            assert_eq!(target, HistoryTarget::Recent);
        }
        _ => panic!("expected a read"),
    }
}

#[test]
fn a_new_lookup_stops_the_running_ones() {
    let (mut rt, _) = Runtime::new(None, Some(Language::English), &vec![]);
    let first = rt.request(Request::Submit("Haus".into()));
    assert!(matches!(&first[0], Command::Cancel(ids) if ids.is_empty()));
    assert!(matches!(&first[1], Command::Lookup(1, req) if req.query == "Haus" && req.to == Some(Language::English)));
    let second = rt.request(Request::Submit("Baum".into()));
    assert!(matches!(&second[0], Command::Cancel(ids) if ids == &vec![1]));
    assert_eq!(rt.running, vec![1, 2]);
    assert!(rt.lookup.loading);
    let cancel = rt.request(Request::Cancel);
    assert!(matches!(&cancel[0], Command::Cancel(ids) if ids == &vec![1, 2]));
    assert!(matches!(rt.request(Request::Quit)[0], Command::Quit));
}

#[test]
fn only_the_latest_lookup_is_shown_and_recent_lookups_are_read_again() {
    let (mut rt, _) = Runtime::new(None, None, &vec![]);
    rt.request(Request::Submit("Haus".into()));
    rt.request(Request::Submit("Baum".into()));
    let old = Completion { result: Ok(result()), warnings: vec!["late".into()] };
    let commands = rt.job(Job::Lookup(1, old));
    assert_eq!(rt.notice, "late");
    assert!(rt.lookup.live.is_none());
    assert_eq!(rt.running, vec![2]);
    assert_eq!(commands.len(), 1);
    assert!(matches!(&commands[0], Command::Read { generation: 1, target: HistoryTarget::Recent, .. }));
    let latest = Completion { result: Err(LookupError::Network), warnings: vec![] };
    rt.job(Job::Lookup(2, latest));
    assert!(!rt.lookup.loading);
    assert_eq!(rt.notice, "");
    assert!(rt.lookup.problem.is_some());
    assert!(rt.running.is_empty());
}

#[test]
fn history_tab_refreshes_after_a_lookup() {
    let (mut rt, _) = Runtime::new(None, None, &vec![]);
    rt.tab = Tab::History;
    rt.history.entries = page(&["a", "b"]).entries;
    rt.history.selected = Some(1);
    rt.request(Request::Submit("Haus".into()));
    let commands = rt.job(Job::Lookup(1, Completion { result: Ok(result()), warnings: vec![] }));
    assert_eq!(commands.len(), 2);
    match &commands[1] {
        Command::Read { read, generation, target, .. } => {
            assert_eq!(read.selection, HistorySelection::Preserve);
            assert_eq!(read.cursor.map(|c| (c.timestamp, c.sequence)), Some((7, 5)));
            assert_eq!(*generation, 1);
            assert_eq!(*target, HistoryTarget::History);
        }
        _ => panic!("expected a history read"),
    }
    assert_eq!(rt.details.selected, Some(0));
}

#[test]
fn reads_from_the_top_empty_the_list() {
    let (mut rt, _) = Runtime::new(None, None, &vec![]);
    rt.history.entries = page(&["a"]).entries;
    rt.history.selected = Some(0);
    let read = HistoryRead { cursor: None, oldest: true, selection: HistorySelection::Last };
    let commands = rt.request(Request::Read(read));
    assert!(rt.history.entries.is_empty());
    assert_eq!(rt.history.selected, None);
    assert!(matches!(&commands[0], Command::Read { generation: 1, target: HistoryTarget::History, .. }));
}

#[test]
fn history_pages_reset_the_details_and_failures_show() {
    let (mut rt, _) = Runtime::new(None, None, &vec![]);
    rt.details.select_candidate(Some(3));
    rt.job(Job::History { generation: 0, target: HistoryTarget::History, selection: HistorySelection::First, result: Ok(page(&["a"])) });
    assert_eq!(rt.details.selected, Some(0));
    assert_eq!(rt.history.selected, Some(0));
    rt.job(Job::Failed("boom".into()));
    assert_eq!(rt.notice, "Background task failed: boom");
    rt.job(Job::Progress("Downloading\u{1b}[31m".into()));
    assert_eq!(rt.notice, "Downloading[31m");
}

#[test]
fn recent_pages_keep_selection_and_refresh_the_preview() {
    let mut recent = RecentList::new();
    recent.entries = page(&["a", "b"]).entries;
    recent.selected = Some(1);
    let mut notice = String::new();
    let mut preview = Some(entry("b"));
    let mut fresh = page(&["c", "b"]);
    fresh.entries[1].sequence = 9;
    recent.apply(0, Ok(fresh), &mut notice, &mut preview);
    assert_eq!(recent.selected, Some(1));
    assert_eq!(preview.map(|p| p.sequence), Some(9));
    recent.apply(5, Err("ignored".into()), &mut notice, &mut None);
    assert_eq!(notice, "");
    recent.apply(0, Err("locked".into()), &mut notice, &mut None);
    assert_eq!(notice, "locked");
    assert_eq!(recent.entries.len(), 2);
    recent.apply(0, Ok(page(&[])), &mut notice, &mut None);
    assert_eq!(notice, "");
    assert_eq!(recent.selected, None);
    assert_eq!(copy_entry(&entry("x")).query, "x");
}

#[test]
fn applying_a_filter_reads_the_history_anew() {
    let (mut rt, _) = Runtime::new(None, None, &vec![]);
    rt.history.entries = page(&["a"]).entries;
    rt.history.selected = Some(0);
    rt.details.select_candidate(Some(2));
    let command = rt.apply_filter(voci::history::HistoryFilter { text: "haus".into(), today: true });
    assert!(rt.history.entries.is_empty());
    assert_eq!(rt.details.selected, None);
    assert_eq!(rt.filter.text, "haus");
    match command {
        Command::Read { filter, read, generation, target } => {
            assert_eq!((filter.text.as_str(), filter.today), ("haus", true));
            assert_eq!(read.selection, HistorySelection::First);
            assert_eq!(generation, 1);
            assert_eq!(target, HistoryTarget::History);
        }
        _ => panic!("expected a read"),
    }
}
