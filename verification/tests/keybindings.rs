use voci::keybindings::{Action, Context, Key, KeyCode, Keybindings, Modifiers, Resolver};

const SECOND: u64 = 1_000_000_000;

fn key(c: char) -> Key {
    Key::new(KeyCode::Char(c), Modifiers::none())
}

fn ctrl(c: char) -> Key {
    Key::new(KeyCode::Char(c), Modifiers::control())
}

#[test]
fn neo_aliases_sequences_and_contexts() {
    // The NEO profile file is not part of this crate; its bindings are checked through the
    // built-in keymap and the same invalid profiles.
    assert!(Keybindings::parse("[navigation]\nhome=['g']").is_err());
    assert!(Keybindings::parse("[navigation]\nleft=['i']").is_err());
    assert!(Keybindings::parse("[navigation]\nleft=[]").is_err());
}

#[test]
fn insert_sequences_timeout_and_do_not_start_with_ordinary_letters() {
    let bindings = Keybindings::parse("[actions]\nsubmit=['Ctrl-x s','zz']").unwrap();
    let mut resolver = Resolver::new();
    let now = 5 * SECOND;
    let prefix = ctrl('x');
    assert_eq!(resolver.feed(&bindings, key('z'), Context::Insert, now), None);
    assert!(!resolver.pending(now));
    assert_eq!(resolver.feed(&bindings, prefix, Context::Insert, now), None);
    assert_eq!(resolver.feed(&bindings, key('s'), Context::Insert, now), Some(Action::Submit));
    resolver.feed(&bindings, prefix, Context::Insert, now);
    assert_eq!(resolver.feed(&bindings, key('s'), Context::Insert, now + SECOND), None);
    assert!(!resolver.pending(now + SECOND));
    resolver.feed(&bindings, prefix, Context::Insert, now + 2 * SECOND);
    assert_eq!(resolver.feed(&bindings, key('s'), Context::Dialog, now + 2 * SECOND), None);
}

#[test]
fn input_word_motions_shadow_navigation_only_in_text_contexts() {
    assert!(Keybindings::parse("[actions]\nword_begin=['b']\nword_end=['b']").is_err());
    let remapped =
        Keybindings::parse("[actions]\nword_begin=['Alt-b']\nword_end=['Alt-f']").unwrap();
    let mut resolver = Resolver::new();
    let now = SECOND;
    assert_eq!(
        resolver.feed(&remapped, Key::new(KeyCode::Char('f'), Modifiers::alt()), Context::Insert, now),
        Some(Action::WordEnd)
    );
    assert_eq!(resolver.feed(&remapped, key('b'), Context::Insert, now), None);
}

#[test]
fn builtin_sequences_resolve_in_their_contexts() {
    let bindings = Keybindings::builtin().unwrap();
    let mut r = Resolver::new();
    let now = SECOND;
    assert_eq!(r.feed(&bindings, key('g'), Context::History, now), None);
    assert!(r.pending(now));
    assert_eq!(r.feed(&bindings, key('g'), Context::History, now), Some(Action::Home));
    assert_eq!(r.feed(&bindings, key('G'), Context::History, now), Some(Action::End));
    assert_eq!(r.feed(&bindings, ctrl('w'), Context::History, now), Some(Action::Pane));
    // A sequence that waited too long is forgotten.
    r.feed(&bindings, key('g'), Context::History, now);
    assert!(!r.pending(now + SECOND));
    // Changing context forgets a started sequence.
    r.feed(&bindings, key('g'), Context::History, now);
    assert_eq!(r.feed(&bindings, key('g'), Context::Lookup, now), None);
}

#[test]
fn labels_join_the_keys_of_an_action() {
    let bindings = Keybindings::builtin().unwrap();
    assert_eq!(bindings.label(Action::Left), "Left/h");
    assert_eq!(bindings.label(Action::Home), "Home/gg");
    let changed = Keybindings::parse("[navigation]\nhome=['Home','b']").unwrap();
    assert_eq!(changed.label(Action::Home), "Home/b");
}

#[test]
fn invalid_profiles_are_rejected() {
    assert!(Keybindings::parse("not toml [").is_err());
    assert!(Keybindings::parse("[unknown]\nx=['a']").is_err());
    assert!(Keybindings::parse("[actions]\nno_such_action=['a']").is_err());
    assert!(Keybindings::parse("[actions]\nsubmit=['Ctrl-c']").is_err());
    assert!(Keybindings::parse("[actions]\nsubmit=['Bogus-key']").is_err());
    assert!(Keybindings::parse("").is_ok());
}

#[test]
fn reset_forgets_a_started_sequence() {
    let bindings = Keybindings::builtin().unwrap();
    let mut r = Resolver::new();
    r.feed(&bindings, key('g'), Context::History, SECOND);
    assert!(r.pending(SECOND));
    r.reset();
    assert!(!r.pending(SECOND));
}

#[test]
fn builtin_keymap_binds_every_action_without_ctrl_c() {
    let keys = Keybindings::builtin().unwrap();
    for action in [Action::Left, Action::Submit, Action::Pane, Action::Filter, Action::Quit, Action::Cancel, Action::CopyValue] {
        let label = keys.label(action);
        assert!(!label.is_empty());
        assert!(!label.to_lowercase().contains("ctrl-c"));
    }
}

#[test]
fn a_blank_key_label_conflicts_with_the_rest_of_the_keymap() {
    let refused = Keybindings::parse("[actions]\nfilter = [\"  \"]\n");
    assert!(refused.unwrap_err().starts_with("Conflicting bindings"));
}
