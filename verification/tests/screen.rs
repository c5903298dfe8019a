use voci::domain::{initial_pair_list, Language, LookupResult, ResultKind, TranslationCandidate};
use voci::history::{AttemptOutcome, Finished, HistoryEntry, HistoryFilter};
use voci::keybindings::{Action, Keybindings};
use voci::navigation::{Area, Focus, Tab};
use voci::screen::{
    attribution_text, details_header, details_layout, details_message, detail_rows, dialog_area, dialog_help,
    field_title, filter_line, history_item, history_layout, history_panes, history_placeholder, lookup_layout,
    pane_title, popup_height, recent_height, recent_item, recent_placeholder, rows_fit, source_label,
    suggestion_item, tab_header, target_label, too_small, DetailsPane, HistoryLayout,
};

fn candidate(text: &str) -> TranslationCandidate {
    TranslationCandidate {
        text: text.into(),
        normalized: text.to_lowercase(),
        part_of_speech: None,
        sense: None,
        prefix: String::new(),
        back_translations: vec![],
    }
}

fn result(texts: &[&str]) -> LookupResult {
    LookupResult {
        query: "Haus".into(),
        headword: "Haus".into(),
        normalized_headword: "haus".into(),
        pair: initial_pair_list()[0],
        candidates: texts.iter().map(|t| candidate(t)).collect(),
        provider: "WikDict".into(),
        attribution: Some("CC BY-SA".into()),
        kind: ResultKind::Dictionary,
    }
}

fn entry(query: &str, finished: Option<Finished>) -> HistoryEntry {
    HistoryEntry {
        id: query.into(),
        sequence: 1,
        query: query.into(),
        from: Some(Language::German),
        to: None,
        provider: None,
        started_at: 0,
        finished_at: None,
        finished,
    }
}

fn success(texts: &[&str]) -> Option<Finished> {
    Some(Finished {
        outcome: AttemptOutcome::Success,
        result: Some(result(texts)),
        resolved_pair: None,
        error_code: None,
        message: None,
    })
}

#[test]
fn small_screens_and_tab_lines() {
    assert!(too_small(23, 40));
    assert!(too_small(80, 11));
    assert!(!too_small(24, 12));
    assert_eq!(tab_header(Tab::Lookup), "[ lookup ]    history");
    assert_eq!(tab_header(Tab::History), "lookup    [ history ]");
}

#[test]
fn recent_lookups_shrink_with_the_tab() {
    assert_eq!(recent_height(17), 7);
    assert_eq!(recent_height(16), 4);
    assert_eq!(recent_height(13), 4);
    assert_eq!(recent_height(12), 0);
    assert_eq!(lookup_layout(30), (3, 3, 2, 7));
}

#[test]
fn history_tab_layouts() {
    assert_eq!(history_layout(100, 5), HistoryLayout::Columns);
    assert_eq!(history_layout(99, 20), HistoryLayout::Rows);
    assert_eq!(history_layout(99, 19), HistoryLayout::Single);
    assert_eq!(history_panes(HistoryLayout::Single, Focus::Details), (false, true));
    assert_eq!(history_panes(HistoryLayout::Single, Focus::History), (true, false));
    assert_eq!(history_panes(HistoryLayout::Rows, Focus::Details), (true, true));
}

#[test]
fn language_selectors_show_codes_or_their_default() {
    assert_eq!(source_label(None), "Auto");
    assert_eq!(target_label(None), "Default");
    assert_eq!(source_label(Some(Language::English)), "en");
}

#[test]
fn list_items_show_query_status_and_values() {
    let saved = entry("Haus\u{1b}", success(&["house", "home", "building"]));
    assert_eq!(recent_item(&saved, "today"), "Haus · today · success");
    assert_eq!(suggestion_item(&saved), "Haus · de → en · house");
    assert_eq!(
        history_item(&saved, "today"),
        "Haus · success\nde → ? · unknown provider · today\nhouse, home"
    );
    let open = entry("Baum", None);
    assert_eq!(suggestion_item(&open), "Baum ·  · ");
    assert_eq!(recent_item(&open, "t"), "Baum · t · unfinished · outcome not recorded");
}

#[test]
fn empty_lists_explain_themselves() {
    let all = HistoryFilter { text: String::new(), today: false };
    let some = HistoryFilter { text: "haus".into(), today: false };
    assert_eq!(recent_placeholder(&None), "No saved lookups yet.");
    assert_eq!(recent_placeholder(&Some("locked".into())), "locked");
    assert_eq!(history_placeholder(&None, &all), "No saved lookups yet.");
    assert_eq!(history_placeholder(&None, &some), "No matches. Open filters to adjust or clear them.");
    assert_eq!(filter_line(&all), "Filter: all text · all history");
    assert_eq!(filter_line(&HistoryFilter { text: "haus".into(), today: true }), "Filter: haus · today");
}

#[test]
fn titles_number_panes_and_fields() {
    assert_eq!(pane_title(Tab::Lookup, Focus::Recent, " Recent lookups "), " [5] Recent lookups ");
    assert_eq!(pane_title(Tab::History, Focus::Details, " Lookup "), " [2] Lookup ");
    assert_eq!(field_title(0, " Text "), " [1] Text");
}

#[test]
fn suggestion_popup_fits_under_the_query() {
    assert_eq!(popup_height(3, 20), 5);
    assert_eq!(popup_height(5, 6), 3);
    assert_eq!(popup_height(5, 2), 0);
}

#[test]
fn filter_dialog_is_centred() {
    let area = Area { x: 0, y: 0, width: 100, height: 30 };
    assert_eq!(dialog_area(area), Area { x: 16, y: 8, width: 68, height: 14 });
    let small = Area { x: 2, y: 1, width: 30, height: 12 };
    assert_eq!(dialog_area(small), Area { x: 2, y: 1, width: 30, height: 12 });
    let keys = Keybindings::builtin().unwrap();
    let help = dialog_help(&keys, false);
    assert!(help.ends_with(" field · Enter edit/apply\nSpace date · Esc normal/cancel"));
    assert!(dialog_help(&keys, true).starts_with("Enter / Esc / "));
    assert!(!keys.label(Action::Pane).is_empty());
}

#[test]
fn details_messages_and_header() {
    assert_eq!(details_message(false, true, None, None, "", false).as_deref(), Some("Looking up… Esc cancels."));
    assert_eq!(details_message(false, false, Some("No\u{7}pe"), None, "", true).as_deref(), Some("Nope"));
    assert_eq!(details_message(false, false, None, None, "", false).as_deref(), Some("Enter a word to look up."));
    assert_eq!(details_message(false, false, None, None, "", true), None);
    let mut failed = entry("Haus", None);
    failed.finished = Some(Finished {
        outcome: AttemptOutcome::Failure,
        result: None,
        resolved_pair: None,
        error_code: None,
        message: Some("Network down\n".into()),
    });
    assert_eq!(
        details_message(true, false, None, Some(&failed), "noon", false).as_deref(),
        Some("Haus\nfailed\nStarted noon\nNetwork down")
    );
    let r = result(&["house"]);
    assert_eq!(details_header(&r, None, None), "Haus · de → en · WikDict\n");
    assert_eq!(
        details_header(&r, Some("noon"), None),
        "Haus · de → en · WikDict\nSaved noon · finished unknown"
    );
    assert_eq!(attribution_text(&r), "CC BY-SA");
    assert_eq!(details_layout(true, 6), (3, 2));
    assert_eq!(details_layout(false, 5), (1, 0));
}

fn blocks(lines: &[&[&str]]) -> Vec<Vec<String>> {
    lines.iter().map(|b| b.iter().map(|l| l.to_string()).collect()).collect()
}

#[test]
fn detail_rows_mark_the_reading_line_and_scroll() {
    let b = blocks(&[&["1. a"], &["2. b", "   more"], &["3. c"]]);
    let rows = detail_rows(&b, 1, 1, 1, 2);
    let texts: Vec<(&str, bool)> = rows.iter().map(|r| (r.text.as_str(), r.selected)).collect();
    assert_eq!(texts, [("  2. b", true), (">    more", true)]);
    assert!(detail_rows(&b, 0, 0, 9, 3).is_empty());
    assert_eq!(detail_rows(&b, 0, 0, 0, 9).len(), 4);
    assert!(rows_fit(&b));
}

#[test]
fn details_pane_clamps_and_follows_the_selection() {
    let b = blocks(&[&["1. a"], &["2. b"], &["3. c"], &["4. d"]]);
    let mut pane = DetailsPane::new();
    pane.select_candidate(Some(9));
    let rows = pane.render(&b, 20, 2);
    assert_eq!(pane.selected, Some(3));
    assert_eq!(pane.scroll, 2);
    assert_eq!(rows[1].text, "> 4. d");
    pane.navigate(&b, Action::Home);
    assert_eq!((pane.selected, pane.line, pane.scroll), (Some(0), 0, 0));
    pane.navigate(&b, Action::PageDown);
    assert_eq!(pane.selected, Some(3));
    pane.navigate(&b, Action::Filter);
    assert_eq!(pane.selected, Some(3));
}
