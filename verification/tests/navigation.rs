use voci::domain::Language;
use voci::history::Cursor;
use voci::keybindings::{Action, Context, Keybindings};
use voci::navigation::{
    align_details, details_move, dialog_control, escape_step, hit_area, insert_step, key_route,
    pane_step, Area, DialogStep, EscapeStep, InsertStep, KeyRoute, PaneStep, dialog_field_cycle, dialog_field_direction, focus_pane,
    history_step, key_context, move_focus, move_pane, next_index, next_language, page_replaces,
    page_selection, refresh_read, route_action, suggestion_step, footer, ActionRoute, CopyKind,
    Focus, FooterState,
    HistorySelection, HistoryStep, InputMode, Tab,
};

#[test]
fn tabs_list_their_panes_in_number_order() {
    assert_eq!(
        Tab::Lookup.panes(),
        [Focus::Input, Focus::Source, Focus::Target, Focus::Details, Focus::Recent]
    );
    assert_eq!(Tab::History.panes(), [Focus::History, Focus::Details]);
    assert_eq!(focus_pane(Tab::Lookup, 3), Some(Focus::Target));
    assert_eq!(focus_pane(Tab::History, 3), None);
    assert_eq!(focus_pane(Tab::Lookup, 0), None);
    assert_eq!(InputMode::Normal.label(), "NORMAL");
    assert_eq!(InputMode::default().label(), "INSERT");
    assert_eq!(InputMode::Visual.label(), "VISUAL");
}

#[test]
fn focus_moves_wrap_and_return() {
    assert_eq!(move_focus(Tab::Lookup, Focus::Recent, true), Focus::Input);
    assert_eq!(move_focus(Tab::Lookup, Focus::Input, false), Focus::Recent);
    assert_eq!(move_focus(Tab::History, Focus::Details, true), Focus::History);
    for focus in Tab::Lookup.panes() {
        assert_eq!(move_focus(Tab::Lookup, move_focus(Tab::Lookup, focus, true), false), focus);
    }
}

#[test]
fn pane_directions_follow_the_lookup_layout_without_wrapping() {
    // The directions of the NEO profile's keys, as actions.
    let mut focus = Focus::Input;
    let mut direction = |action, expected| {
        focus = move_pane(Tab::Lookup, focus, action);
        assert_eq!(focus, expected);
    };
    direction(Action::Left, Focus::Input);
    direction(Action::Down, Focus::Source);
    direction(Action::Right, Focus::Target);
    direction(Action::Down, Focus::Details);
    direction(Action::Down, Focus::Recent);
    direction(Action::Down, Focus::Recent);
    direction(Action::Up, Focus::Details);
    direction(Action::Up, Focus::Source);
    direction(Action::Up, Focus::Input);
}

#[test]
fn history_pane_directions_reach_list_and_details() {
    assert_eq!(move_pane(Tab::History, Focus::Details, Action::Left), Focus::History);
    assert_eq!(move_pane(Tab::History, Focus::History, Action::Right), Focus::Details);
    assert_eq!(move_pane(Tab::Lookup, Focus::Target, Action::Left), Focus::Source);
}

#[test]
fn list_indexes_stay_in_bounds() {
    assert_eq!(next_index(Action::Up, 0, 3), 0);
    assert_eq!(next_index(Action::Down, 2, 3), 2);
    assert_eq!(next_index(Action::PageDown, 1, 10), 6);
    assert_eq!(next_index(Action::PageDown, 7, 10), 9);
    assert_eq!(next_index(Action::PageUp, 3, 10), 0);
    assert_eq!(next_index(Action::End, 0, 4), 3);
    assert_eq!(next_index(Action::Home, 3, 4), 0);
    assert_eq!(next_index(Action::Quit, 2, 4), 2);
}

#[test]
fn dialog_fields_cycle_and_clamp() {
    assert_eq!(dialog_field_cycle(4, true), 0);
    assert_eq!(dialog_field_cycle(0, false), 4);
    assert_eq!(dialog_field_cycle(dialog_field_cycle(2, true), false), 2);
    assert_eq!(dialog_field_direction(0, Action::Up), 0);
    assert_eq!(dialog_field_direction(4, Action::Down), 4);
    assert_eq!(dialog_field_direction(2, Action::Right), 3);
}

#[test]
fn language_selectors_cycle_through_any_german_english() {
    assert_eq!(next_language(None, Action::Right), Some(Language::German));
    assert_eq!(next_language(Some(Language::English), Action::Down), None);
    assert_eq!(next_language(None, Action::Left), Some(Language::English));
    assert_eq!(next_language(Some(Language::German), Action::Quit), Some(Language::German));
    for l in [None, Some(Language::German), Some(Language::English)] {
        assert_eq!(next_language(next_language(l, Action::Right), Action::Left), l);
    }
}

#[test]
fn history_moves_read_pages_at_the_ends() {
    let first = Some(Cursor { timestamp: 10, sequence: 1 });
    let last = Some(Cursor { timestamp: 5, sequence: 9 });
    assert_eq!(history_step(Action::Down, Some(0), 3, first, last), HistoryStep::Select(1));
    match history_step(Action::Down, Some(2), 3, first, last) {
        HistoryStep::Read(r) => {
            assert_eq!(r.cursor, last);
            assert!(!r.oldest);
            assert_eq!(r.selection, HistorySelection::First);
        }
        _ => panic!("expected a read"),
    }
    match history_step(Action::Up, Some(0), 3, first, last) {
        HistoryStep::Read(r) => {
            assert_eq!(r.cursor, first);
            assert!(r.oldest);
            assert_eq!(r.selection, HistorySelection::Last);
        }
        _ => panic!("expected a read"),
    }
    match history_step(Action::End, None, 0, None, None) {
        HistoryStep::Read(r) => {
            assert_eq!(r.cursor, None);
            assert!(r.oldest);
        }
        _ => panic!("expected a read"),
    }
    assert_eq!(history_step(Action::Down, None, 0, None, None), HistoryStep::Stay);
    let refresh = refresh_read(Some(Cursor { timestamp: 3, sequence: i64::MAX }));
    assert_eq!(refresh.cursor, Some(Cursor { timestamp: 3, sequence: i64::MAX }));
    assert_eq!(refresh.selection, HistorySelection::Preserve);
    assert_eq!(
        refresh_read(Some(Cursor { timestamp: 3, sequence: 4 })).cursor,
        Some(Cursor { timestamp: 3, sequence: 5 })
    );
}

#[test]
fn new_pages_keep_or_place_the_selection() {
    assert_eq!(page_selection(HistorySelection::Preserve, Some(2), 5), Some(2));
    assert_eq!(page_selection(HistorySelection::Last, None, 5), Some(4));
    assert_eq!(page_selection(HistorySelection::First, None, 5), Some(0));
    assert_eq!(page_selection(HistorySelection::First, None, 0), None);
    assert!(!page_replaces(HistorySelection::First, true, false));
    assert!(page_replaces(HistorySelection::Preserve, true, false));
    assert!(page_replaces(HistorySelection::First, true, true));
}

#[test]
fn suggestions_select_and_clear_at_the_ends() {
    assert_eq!(suggestion_step(true, None, 3), Some(0));
    assert_eq!(suggestion_step(true, Some(2), 3), None);
    assert_eq!(suggestion_step(false, None, 3), Some(2));
    assert_eq!(suggestion_step(false, Some(0), 3), None);
    assert_eq!(suggestion_step(false, Some(2), 3), Some(1));
}

#[test]
fn actions_route_to_inputs_tabs_and_panes() {
    assert_eq!(
        route_action(Action::Edit, Tab::Lookup, Focus::Input, true),
        ActionRoute::Input { clear_preview: true }
    );
    assert_eq!(
        route_action(Action::Left, Tab::Lookup, Focus::Input, true),
        ActionRoute::Input { clear_preview: false }
    );
    assert_eq!(route_action(Action::Left, Tab::Lookup, Focus::Source, false), ActionRoute::Navigate);
    assert_eq!(
        route_action(Action::NextTab, Tab::Lookup, Focus::Input, false),
        ActionRoute::SwitchTab { tab: Tab::History, focus: Focus::History, read: true }
    );
    assert_eq!(
        route_action(Action::PreviousTab, Tab::History, Focus::History, false),
        ActionRoute::SwitchTab { tab: Tab::Lookup, focus: Focus::Input, read: false }
    );
    assert_eq!(route_action(Action::Submit, Tab::Lookup, Focus::Source, false), ActionRoute::Submit);
    assert_eq!(
        route_action(Action::Submit, Tab::History, Focus::History, false),
        ActionRoute::FocusDetails
    );
    assert_eq!(
        route_action(Action::CopyValue, Tab::Lookup, Focus::Details, false),
        ActionRoute::Copy(CopyKind::Value)
    );
    assert_eq!(route_action(Action::Quit, Tab::Lookup, Focus::Input, true), ActionRoute::Quit);
    assert_eq!(key_context(Some(InputMode::Visual), Tab::Lookup), Context::Visual);
    assert_eq!(key_context(Some(InputMode::Normal), Tab::Lookup), Context::Input);
    assert_eq!(key_context(None, Tab::History), Context::History);
    assert_eq!(key_context(None, Tab::Lookup), Context::Lookup);
}

#[test]
fn details_view_follows_directional_margins() {
    let heights = vec![2usize; 20];
    // Moving down keeps the view still until the selection passes the lower margin.
    let (line, scroll) = align_details(&heights, 3, 0, 0, 10, Some(Action::Down));
    assert_eq!((line, scroll), (0, 0));
    let (_, scroll) = align_details(&heights, 5, 0, 0, 10, Some(Action::Down));
    assert_eq!(scroll, 4);
    // Moving up keeps it still until the upper margin.
    let (_, scroll) = align_details(&heights, 5, 0, 4, 10, Some(Action::Up));
    assert_eq!(scroll, 4);
    let (_, scroll) = align_details(&heights, 2, 0, 4, 10, Some(Action::Up));
    assert_eq!(scroll, 2);
    // Home and End reach the ends; the view never passes the end.
    assert_eq!(align_details(&heights, 0, 0, 7, 10, Some(Action::Home)).1, 0);
    assert_eq!(align_details(&heights, 19, 0, 0, 10, Some(Action::End)).1, 30);
    assert_eq!(align_details(&heights, 19, 0, 99, 10, None).1, 30);
    assert_eq!(align_details(&heights, 50, 3, 7, 10, None), (0, 0));
}

#[test]
fn tall_candidates_are_read_line_by_line() {
    let heights = vec![1usize, 30, 1];
    assert_eq!(details_move(&heights, 0, 0, 10, Action::Down), Some((1, 0)));
    assert_eq!(details_move(&heights, 1, 0, 10, Action::Down), Some((1, 1)));
    assert_eq!(details_move(&heights, 1, 0, 10, Action::PageDown), Some((1, 5)));
    assert_eq!(details_move(&heights, 1, 29, 10, Action::Down), Some((2, 0)));
    assert_eq!(details_move(&heights, 2, 0, 10, Action::Up), Some((1, 29)));
    assert_eq!(details_move(&heights, 1, 3, 10, Action::Up), Some((1, 2)));
    assert_eq!(details_move(&heights, 2, 0, 10, Action::Down), Some((2, 0)));
    assert_eq!(details_move(&heights, 1, 3, 10, Action::Home), Some((0, 0)));
    assert_eq!(details_move(&heights, 0, 0, 10, Action::End), Some((2, 0)));
    assert_eq!(details_move(&heights, 0, 0, 10, Action::Quit), None);
    assert_eq!(details_move(&vec![], 0, 0, 10, Action::Down), None);
    let (line, scroll) = align_details(&heights, 1, 29, 0, 10, Some(Action::Down));
    assert_eq!(line, 29);
    assert!(scroll <= 1 + 29 && 1 + 29 < scroll + 10);
}

#[test]
fn footer_hints_follow_mode_and_keymap() {
    let b = Keybindings::builtin().unwrap();
    let pane = FooterState {
        pane_mode: true,
        input_mode: None,
        has_suggestions: false,
        suggestion_selected: false,
    };
    let text = footer(&b, &pane, "Copied\u{1b}[2J");
    assert!(text.starts_with("PANE · Left/h left / Right/l right · Up/k up / Down/j down\n"));
    assert!(text.ends_with("\nCopied[2J"));
    let insert = FooterState { pane_mode: false, input_mode: Some(InputMode::Insert), ..pane };
    let text = footer(&b, &insert, "");
    assert!(text.starts_with("INSERT · "));
    assert!(text.contains(" submits · Esc normal\nCtrl-Left/Right word · "));
    let suggestions = FooterState { has_suggestions: true, suggestion_selected: true, ..insert };
    assert!(footer(&b, &suggestions, "").contains("opens saved result · Esc dismiss"));
    let lists = FooterState { pane_mode: false, input_mode: None, ..pane };
    let text = footer(&b, &lists, "");
    assert!(text.starts_with("NORMAL · gt tab · "));
    assert!(text.contains(" all\n"));
}

#[test]
fn escape_leaves_the_innermost_state_first() {
    let (insert, normal) = (InputMode::Insert, InputMode::Normal);
    assert_eq!(escape_step(true, true, Some((0, insert)), true, insert), EscapeStep::LeavePaneMode);
    assert_eq!(escape_step(false, true, Some((0, insert)), true, insert), EscapeStep::ForgetSequence);
    assert_eq!(escape_step(false, false, Some((0, insert)), true, insert), EscapeStep::DialogToNormal);
    assert_eq!(escape_step(false, false, Some((0, normal)), true, insert), EscapeStep::CloseDialog);
    assert_eq!(escape_step(false, false, Some((2, insert)), true, insert), EscapeStep::CloseDialog);
    assert_eq!(escape_step(false, false, None, true, insert), EscapeStep::CancelLookup);
    assert_eq!(escape_step(false, false, None, false, insert), EscapeStep::InputToNormal);
    assert_eq!(escape_step(false, false, None, false, normal), EscapeStep::ClearPreview);
}

#[test]
fn dialog_controls_cycle_fields_and_apply_clear_or_close() {
    assert_eq!(dialog_control(0, Action::NextFocus), DialogStep::Focus(1));
    assert_eq!(dialog_control(0, Action::PreviousFocus), DialogStep::Focus(4));
    assert_eq!(dialog_control(4, Action::NextFocus), DialogStep::Focus(0));
    assert_eq!(dialog_control(1, Action::Left), DialogStep::ToggleToday);
    assert_eq!(dialog_control(2, Action::Left), DialogStep::Ignore);
    assert_eq!(dialog_control(0, Action::Submit), DialogStep::Apply);
    assert_eq!(dialog_control(2, Action::Submit), DialogStep::Apply);
    assert_eq!(dialog_control(3, Action::Submit), DialogStep::Clear);
    assert_eq!(dialog_control(4, Action::Submit), DialogStep::Close);
    assert_eq!(dialog_control(1, Action::Cancel), DialogStep::Escape);
    assert_eq!(dialog_control(1, Action::Pane), DialogStep::TogglePanes);
    assert_eq!(dialog_control(1, Action::Quit), DialogStep::Ignore);
}

#[test]
fn keys_go_to_pane_mode_insert_mode_the_dialog_or_the_focused_context() {
    let tab = Tab::Lookup;
    assert_eq!(key_route(true, true, true, true, None, false, tab), KeyRoute::Ignore);
    assert_eq!(key_route(false, true, true, true, None, false, tab), KeyRoute::Quit);
    assert_eq!(key_route(false, false, true, true, None, false, tab), KeyRoute::Escape);
    assert_eq!(key_route(false, false, false, true, Some(InputMode::Insert), true, tab), KeyRoute::Pane);
    assert_eq!(key_route(false, false, false, false, Some(InputMode::Insert), true, tab), KeyRoute::Insert);
    assert_eq!(key_route(false, false, false, false, Some(InputMode::Normal), true, tab), KeyRoute::Dialog);
    assert_eq!(
        key_route(false, false, false, false, Some(InputMode::Visual), false, tab),
        KeyRoute::Resolve(Context::Visual)
    );
    assert_eq!(
        key_route(false, false, false, false, None, false, Tab::History),
        KeyRoute::Resolve(Context::History)
    );
}

#[test]
fn pane_mode_moves_toggles_or_escapes() {
    assert_eq!(pane_step(Action::Pane), PaneStep::Toggle);
    assert_eq!(pane_step(Action::Cancel), PaneStep::Escape);
    assert_eq!(pane_step(Action::Up), PaneStep::Move(Action::Up));
    assert_eq!(pane_step(Action::CopyAll), PaneStep::Ignore);
}

#[test]
fn insert_commands_walk_suggestions_before_their_usual_meaning() {
    assert_eq!(insert_step(Action::Down, 3, None, false), InsertStep::Suggest(Some(0)));
    assert_eq!(insert_step(Action::Down, 3, Some(2), false), InsertStep::Suggest(None));
    assert_eq!(insert_step(Action::Up, 3, None, false), InsertStep::Suggest(Some(2)));
    assert_eq!(insert_step(Action::Submit, 3, Some(1), false), InsertStep::TakeSuggestion(1));
    assert_eq!(insert_step(Action::Submit, 3, None, false), InsertStep::Submit);
    assert_eq!(insert_step(Action::Submit, 0, None, true), InsertStep::Dialog(Action::Submit));
    assert_eq!(insert_step(Action::Up, 0, None, false), InsertStep::Ignore);
    assert_eq!(insert_step(Action::WordEnd, 0, None, true), InsertStep::WordMotion(Action::WordEnd));
    assert_eq!(insert_step(Action::NextFocus, 0, None, false), InsertStep::Focus(true));
    assert_eq!(insert_step(Action::Cancel, 2, Some(0), false), InsertStep::Escape);
}

#[test]
fn clicks_land_in_the_topmost_area() {
    let areas = vec![
        Area { x: 0, y: 0, width: 80, height: 24 },
        Area { x: 10, y: 5, width: 20, height: 3 },
        Area { x: 65530, y: 0, width: 20, height: 1 },
    ];
    assert_eq!(hit_area(&areas, 12, 6), Some(1));
    assert_eq!(hit_area(&areas, 30, 6), Some(0));
    assert_eq!(hit_area(&areas, 80, 6), None);
    assert_eq!(hit_area(&areas, 65534, 0), Some(2));
    assert_eq!(hit_area(&areas, 65535, 0), None);
    assert_eq!(hit_area(&vec![], 0, 0), None);
}

#[test]
fn list_moves_accept_a_position_past_the_end() {
    assert_eq!(next_index(Action::Up, 9, 3), 8);
    assert_eq!(next_index(Action::Down, 9, 3), 2);
    assert_eq!(next_index(Action::PageDown, 0, 3), 2);
    assert_eq!(next_index(Action::Home, 4, 0), 0);
    assert_eq!(next_index(Action::PageUp, 3, 0), 0);
}
