use voci::domain::{initial_pair_list, Language, LookupResult, ResultKind, TranslationCandidate};
use voci::history::{HistoryEntry, HistoryPage};
use voci::keybindings::Action;
use voci::lookup::LookupError;
use voci::navigation::HistorySelection;
use voci::outcome::history_outcome;
use voci::panes::HistoryTarget;
use voci::runtime::{copy_entry, Job, Runtime};
use voci::screen::{candidate_blocks, DetailsPane};

fn saved_entry(sequence: i64) -> HistoryEntry {
    HistoryEntry {
        id: sequence.to_string(),
        sequence,
        query: format!("word {sequence}"),
        from: Some(Language::German),
        to: None,
        provider: None,
        started_at: sequence,
        finished_at: None,
        finished: None,
    }
}

fn page(sequences: &[i64]) -> Result<HistoryPage, String> {
    Ok(HistoryPage { entries: sequences.iter().map(|&i| saved_entry(i)).collect(), has_more: false })
}

fn apply_history(rt: &mut Runtime, generation: u64, target: HistoryTarget, selection: HistorySelection, result: Result<HistoryPage, String>) {
    rt.job(Job::History { generation, target, selection, result });
}

fn runtime() -> Runtime {
    Runtime::new(None, None, &vec![]).0
}

#[test]
fn history_updates_ignore_stale_reads_and_preserve_selection() {
    let mut app = runtime();
    app.history.generation = 2;
    apply_history(&mut app, 2, HistoryTarget::History, HistorySelection::First, page(&[3, 2, 1]));
    app.history.selected = Some(1);
    app.history.generation = 3;
    apply_history(&mut app, 2, HistoryTarget::History, HistorySelection::First, page(&[9]));
    apply_history(&mut app, 2, HistoryTarget::History, HistorySelection::First, Err("stale error".into()));
    assert_eq!(app.history.entries.len(), 3);
    assert!(app.history.error.is_none());
    apply_history(&mut app, 3, HistoryTarget::History, HistorySelection::Preserve, page(&[4, 3, 2, 1]));
    assert_eq!(app.history.selected, Some(2));
    apply_history(&mut app, 3, HistoryTarget::History, HistorySelection::First, page(&[]));
    assert_eq!(app.history.entries.len(), 4); // Paging past the boundary keeps the page.
    apply_history(&mut app, 3, HistoryTarget::History, HistorySelection::Last, page(&[8, 7]));
    assert_eq!(app.history.selected, Some(1));
    apply_history(&mut app, 3, HistoryTarget::History, HistorySelection::Preserve, page(&[]));
    assert!(app.history.entries.is_empty());
    assert_eq!(app.history.selected, None);
}

#[test]
fn history_read_errors_recover_without_interference_from_recent_reads() {
    let mut app = runtime();
    apply_history(&mut app, 0, HistoryTarget::History, HistorySelection::First, page(&[1]));
    apply_history(&mut app, 0, HistoryTarget::History, HistorySelection::Preserve, Err("read failed".into()));
    assert!(app.history.entries.is_empty());
    app.recent.generation = 1;
    apply_history(&mut app, 1, HistoryTarget::Recent, HistorySelection::First, page(&[3, 2]));
    app.recent.selected = Some(1);
    app.lookup.preview = Some(copy_entry(&app.recent.entries[1]));
    assert_eq!(app.history.error.as_deref(), Some("read failed"));
    apply_history(&mut app, 0, HistoryTarget::Recent, HistorySelection::First, page(&[9]));
    assert_eq!(app.recent.entries.len(), 2);
    let mut updated = page(&[4, 3, 2]).unwrap();
    updated.entries[2].finished = Some(history_outcome(&Err(LookupError::Cancelled)));
    apply_history(&mut app, 1, HistoryTarget::Recent, HistorySelection::First, Ok(updated));
    assert_eq!(app.recent.selected, Some(2));
    assert_eq!(app.lookup.preview.as_ref().unwrap().status(), "cancelled");
    app.history.generation += 1;
    apply_history(&mut app, 1, HistoryTarget::History, HistorySelection::Preserve, page(&[3, 2, 1]));
    assert!(app.history.error.is_none());
    assert!(app.notice.is_empty());
    assert_eq!(app.history.selected, Some(0));
}

fn result(texts: Vec<String>) -> LookupResult {
    LookupResult {
        query: "word".into(),
        headword: "word".into(),
        normalized_headword: "word".into(),
        pair: initial_pair_list()[0],
        candidates: texts
            .into_iter()
            .map(|text| TranslationCandidate {
                normalized: text.to_lowercase(),
                text,
                part_of_speech: None,
                sense: None,
                prefix: String::new(),
                back_translations: vec![],
            })
            .collect(),
        provider: "fixture".into(),
        attribution: None,
        kind: ResultKind::Dictionary,
    }
}

fn values(count: usize) -> LookupResult {
    result((0..count).map(|index| format!("value {index}")).collect())
}

/// The row of the viewport that shows the reading position, and whether the marker is there.
fn selection_row(pane: &mut DetailsPane, result: &LookupResult, width: u16, height: u16) -> usize {
    let blocks = candidate_blocks(result, width);
    let rows = pane.render(&blocks, width, height);
    let marker = format!("> {}. value", pane.selected.unwrap() + 1);
    rows.iter().position(|row| row.text.starts_with(&marker)).expect("selected candidate must be visible")
}

/// The translation viewports of the live lookup, a recent preview and the history tab on
/// screens of 80×30 and 120×32.
const VIEWPORTS: [u16; 6] = [8, 6, 6, 10, 8, 19];

#[test]
fn details_selection_moves_between_directional_margins_and_list_boundaries() {
    let r = values(40);
    for pane_height in VIEWPORTS {
        let mut pane = DetailsPane::new();
        let first_row = selection_row(&mut pane, &r, 76, pane_height);
        let pane_height = pane_height as usize;
        let lower = (pane_height - 1) * 7 / 10;
        let upper = (pane_height - 1) * 3 / 10;
        assert!(lower > upper);
        let blocks = candidate_blocks(&r, 76);
        for index in 1..=lower {
            pane.navigate(&blocks, Action::Down);
            assert_eq!(selection_row(&mut pane, &r, 76, pane_height as u16), first_row + index);
            assert_eq!(pane.scroll, 0);
        }
        for _ in 0..12 {
            pane.navigate(&blocks, Action::Down);
            assert_eq!(selection_row(&mut pane, &r, 76, pane_height as u16), first_row + lower);
        }
        let offset = pane.scroll;
        for row in (upper..lower).rev() {
            pane.navigate(&blocks, Action::Up);
            assert_eq!(selection_row(&mut pane, &r, 76, pane_height as u16), first_row + row);
            assert_eq!(pane.scroll, offset);
        }
        pane.navigate(&blocks, Action::Up);
        assert_eq!(selection_row(&mut pane, &r, 76, pane_height as u16), first_row + upper);
        assert_eq!(pane.scroll, offset - 1);
        for _ in 0..40 {
            pane.navigate(&blocks, Action::Down);
        }
        assert_eq!(pane.selected, Some(39));
        assert_eq!(selection_row(&mut pane, &r, 76, pane_height as u16), first_row + pane_height - 1);
        assert_eq!(pane.scroll, 40 - pane_height);
        for _ in 0..40 {
            pane.navigate(&blocks, Action::Up);
        }
        assert_eq!(selection_row(&mut pane, &r, 76, pane_height as u16), first_row);
        assert_eq!(pane.selected, Some(0));
        assert_eq!(pane.scroll, 0);
    }
}

#[test]
fn details_paging_short_lists_and_resize_keep_selection_visible() {
    for pane_height in VIEWPORTS {
        let short = values(3);
        let mut pane = DetailsPane::new();
        let first_row = selection_row(&mut pane, &short, 116, pane_height);
        pane.navigate(&candidate_blocks(&short, 116), Action::End);
        assert_eq!(selection_row(&mut pane, &short, 116, pane_height), first_row + 2);
        assert_eq!(pane.scroll, 0);
        pane.navigate(&candidate_blocks(&short, 116), Action::Up);
        assert_eq!(selection_row(&mut pane, &short, 116, pane_height), first_row + 1);
        let long = values(40);
        let mut pane = DetailsPane::new();
        selection_row(&mut pane, &long, 116, pane_height);
        pane.navigate(&candidate_blocks(&long, 116), Action::PageDown);
        pane.navigate(&candidate_blocks(&long, 116), Action::PageDown);
        assert_eq!(pane.selected, Some(10));
        selection_row(&mut pane, &long, 116, pane_height);
        // Shrink and expand, retaining the selected candidate.
        for (width, height) in [(36, 1), (116, 25)] {
            selection_row(&mut pane, &long, width, height);
            assert_eq!(pane.selected, Some(10));
            assert!(pane.scroll <= 10);
            assert!(10 < pane.scroll + pane.height as usize);
        }
        pane.navigate(&candidate_blocks(&long, 116), Action::PageUp);
        assert_eq!(pane.selected, Some(5));
        selection_row(&mut pane, &long, 116, 25);
        pane.navigate(&candidate_blocks(&long, 116), Action::Home);
        assert_eq!(pane.scroll, 0);
    }
}

#[test]
fn details_navigation_moves_between_candidates_after_scrolling() {
    let r = result((0..2).map(|index| format!("{} END{index}", "translation ".repeat(100))).collect());
    let shown = |pane: &mut DetailsPane| {
        let blocks = candidate_blocks(&r, 78);
        pane.render(&blocks, 78, 4).into_iter().map(|row| row.text).collect::<Vec<_>>().join("\n")
    };
    let mut pane = DetailsPane::new();
    shown(&mut pane);
    let blocks = candidate_blocks(&r, 78);
    let max_line = blocks[0].len() - 1;
    assert!(blocks[0].len() > 4);
    for _ in 0..max_line {
        pane.navigate(&blocks, Action::Down);
    }
    assert_eq!(pane.selected, Some(0));
    assert!(shown(&mut pane).contains("END0"));
    pane.navigate(&blocks, Action::Down);
    assert_eq!(pane.selected, Some(1));
    assert_eq!(pane.line, 0);
    pane.navigate(&blocks, Action::Up);
    assert_eq!(pane.selected, Some(0));
    assert!(shown(&mut pane).contains("END0"));
    pane.navigate(&blocks, Action::End);
    assert_eq!(pane.selected, Some(1));
    assert!(shown(&mut pane).contains("END1"));
}
