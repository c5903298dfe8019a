use voci::input::{
    check_paste, copied_notice, copy_range, input_window, visible_window, Window, input_command, word_classes, word_target, EditHistory,
    InputCommand, Restore, SelectionAction, UNDO_LIMIT,
};
use voci::keybindings::Action;
use voci::navigation::InputMode;

#[test]
fn word_classes_take_one_class_per_grapheme() {
    assert_eq!(word_classes("a e\u{301}_, 👩\u{200d}💻猫"), vec!['a', ' ', 'a', 'a', '.', ' ', '.', 'a']);
    assert!(word_classes("").is_empty());
}

#[test]
fn word_motions_move_over_punctuation_unicode_and_to_the_edges() {
    let text = "  Grüße_2,  e\u{301}lan 👩\u{200d}💻猫  ";
    let classes = word_classes(text);
    assert_eq!(classes.len(), 21);
    let mut cursor = 0;
    for expected in [8, 9, 15, 17, 18, 21] {
        cursor = word_target(&classes, cursor, false, true);
        assert_eq!(cursor, expected);
    }
    for expected in [18, 17, 12, 9, 2, 0, 0] {
        cursor = word_target(&classes, cursor, false, false);
        assert_eq!(cursor, expected);
    }
}

#[test]
fn word_end_in_insert_mode_stops_after_the_word() {
    let classes = word_classes("ab cd");
    assert_eq!(word_target(&classes, 0, true, true), 2);
    assert_eq!(word_target(&classes, 2, true, true), 5);
    assert_eq!(word_target(&classes, 1, false, true), 4);
    for text in ["", "   ", "e\u{301}", "👩\u{200d}💻", "a"] {
        let classes = word_classes(text);
        for insertion in [false, true] {
            for end in [false, true] {
                for cursor in 0..=classes.len() {
                    assert!(word_target(&classes, cursor, insertion, end) <= classes.len());
                }
            }
        }
    }
}

#[test]
fn insert_sessions_are_one_undo_step_and_edits_drop_redo() {
    let mut history = EditHistory::new();
    assert!(history.edited(true, true));
    assert!(!history.edited(true, true));
    assert_eq!(history.undo_available, 1);
    history.switch_mode(InputMode::Normal);
    assert!(history.edited(true, false));
    assert_eq!(history.restore(false), Some(Restore::Undo));
    assert_eq!(history.restore(false), Some(Restore::Undo));
    assert_eq!(history.restore(false), None);
    assert_eq!(history.restore(true), Some(Restore::Redo));
    assert!(history.edited(true, false));
    assert_eq!(history.redo_available, 0);
    assert_eq!(history.restore(true), None);
    assert!(!history.edited(false, true));
    assert_eq!(history.undo_available, 2);
}

#[test]
fn undo_steps_stay_bounded() {
    let mut history = EditHistory::new();
    for _ in 0..120 {
        history.edited(true, false);
    }
    assert_eq!(history.undo_available, UNDO_LIMIT);
    let mut undone = 0;
    while history.restore(false).is_some() {
        undone += 1;
    }
    assert_eq!(undone, 100);
    assert_eq!(history.redo_available, 100);
}

#[test]
fn actions_map_to_input_commands() {
    assert_eq!(input_command(Action::Edit, InputMode::Normal), InputCommand::SwitchMode(InputMode::Insert));
    assert_eq!(input_command(Action::Visual, InputMode::Visual), InputCommand::SwitchMode(InputMode::Normal));
    assert_eq!(input_command(Action::Visual, InputMode::Normal), InputCommand::SwitchMode(InputMode::Visual));
    assert_eq!(input_command(Action::DeleteSelection, InputMode::Normal), InputCommand::Copy(SelectionAction::Cut));
    assert_eq!(input_command(Action::Undo, InputMode::Normal), InputCommand::Restore(Restore::Undo));
    assert_eq!(input_command(Action::Quit, InputMode::Normal), InputCommand::Ignore);
}

#[test]
fn copies_need_a_nonempty_range() {
    assert_eq!(copy_range(SelectionAction::Yank, Some((1, 4)), 0, 1), Some((1, 4)));
    assert_eq!(copy_range(SelectionAction::Yank, None, 2, 1), None);
    assert_eq!(copy_range(SelectionAction::Cut, None, 2, 4), Some((2, 6)));
    assert_eq!(copy_range(SelectionAction::Cut, None, 2, 0), None);
    assert_eq!(copy_range(SelectionAction::Change, Some((3, 3)), 3, 1), None);
}

#[test]
fn pastes_refuse_control_characters() {
    assert!(check_paste("ice cream").is_ok());
    assert_eq!(
        check_paste("bad\npaste").unwrap_err(),
        "Paste must contain a single line without control characters."
    );
    assert!(check_paste("tab\there").is_err());
}

#[test]
fn selection_notices_say_what_happened() {
    assert_eq!(copied_notice(SelectionAction::Yank), "Selection copied to clipboard.");
    assert_eq!(copied_notice(SelectionAction::Cut), "Text cut to clipboard.");
    assert_eq!(copied_notice(SelectionAction::Change), "Selection cut to clipboard; insert mode.");
}

#[test]
fn input_windows_scroll_to_keep_the_cursor_visible() {
    assert_eq!(input_window("hello world", 11, 5), Window { start: 7, end: 11, column: 4 });
    assert_eq!(input_window("hello world", 0, 5), Window { start: 0, end: 5, column: 0 });
    assert_eq!(input_window("hello world", 99, 5), Window { start: 7, end: 11, column: 4 });
    assert_eq!(input_window("猫猫猫", 3, 4), Window { start: 2, end: 3, column: 2 });
    assert_eq!(input_window("e\u{301}e\u{301}", 2, 10), Window { start: 0, end: 2, column: 2 });
    assert_eq!(input_window("anything", 3, 0), Window { start: 0, end: 0, column: 0 });
    let graphemes: Vec<String> = vec!["a".into(), "猫".into(), "b".into()];
    assert_eq!(visible_window(&graphemes, 1, 2), Window { start: 0, end: 1, column: 1 });
    assert_eq!(visible_window(&graphemes, 2, 2), Window { start: 2, end: 3, column: 0 });
}
