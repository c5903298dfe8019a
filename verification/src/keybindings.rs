//! Configurable key bindings: profile parsing, conflict detection and sequence resolution.
use vstd::prelude::*;
use crate::strings::{
    char_is_whitespace,
    chars_eq,
    chars_of,
    chars_start_with,
    concat,
    copy_string,
    is_whitespace,
    join,
    join_seq,
    seq_starts_with,
    str_eq,
    string_of,
    sub_chars,
    views,
};
use crate::text::{char_is_control, is_control};
use std::collections::BTreeMap;

verus! {

/// A key, as the terminal reports it.
#[derive(Clone, Copy, Debug, PartialEq, Eq, Structural)]
pub enum KeyCode {
    Char(char),
    Left,
    Right,
    Up,
    Down,
    Home,
    End,
    PageUp,
    PageDown,
    Enter,
    Tab,
    BackTab,
    Esc,
    Backspace,
    Delete,
    Insert,
    Function(u8),
    Other,
}

/// The modifier keys held with a key.
#[derive(Clone, Copy, Debug, PartialEq, Eq, Structural)]
pub struct Modifiers {
    pub shift: bool,
    pub control: bool,
    pub alt: bool,
    pub super_key: bool,
    pub hyper: bool,
    pub meta: bool,
}

impl Modifiers {
    pub fn none() -> (r: Modifiers)
        ensures
            r == no_modifiers(),
    {
        Modifiers {
            shift: false,
            control: false,
            alt: false,
            super_key: false,
            hyper: false,
            meta: false,
        }
    }

    pub fn control() -> (r: Modifiers)
        ensures
            r == (Modifiers { control: true, ..no_modifiers() }),
    {
        Modifiers { control: true, ..Modifiers::none() }
    }

    pub fn shift() -> (r: Modifiers)
        ensures
            r == (Modifiers { shift: true, ..no_modifiers() }),
    {
        Modifiers { shift: true, ..Modifiers::none() }
    }

    pub fn alt() -> (r: Modifiers)
        ensures
            r == (Modifiers { alt: true, ..no_modifiers() }),
    {
        Modifiers { alt: true, ..Modifiers::none() }
    }
}

pub open spec fn no_modifiers() -> Modifiers {
    Modifiers {
        shift: false,
        control: false,
        alt: false,
        super_key: false,
        hyper: false,
        meta: false,
    }
}

/// A key with its modifiers.
#[derive(Clone, Copy, Debug, PartialEq, Eq, Structural)]
pub struct Key {
    pub code: KeyCode,
    pub modifiers: Modifiers,
}

/// How a reported key is compared with bindings: Shift is part of a character already,
/// and Back-Tab is Shift-Tab.
pub open spec fn normalized(key: Key) -> Key {
    let modifiers = if key.code is Char {
        Modifiers { shift: false, ..key.modifiers }
    } else {
        key.modifiers
    };
    if key.code == KeyCode::BackTab {
        Key { code: KeyCode::Tab, modifiers: Modifiers { shift: true, ..modifiers } }
    } else {
        Key { code: key.code, modifiers }
    }
}

/// A key that cannot be typed text: not a character, or a character held with Ctrl or Alt.
pub open spec fn is_command(key: Key) -> bool {
    !(key.code is Char) || key.modifiers.control || key.modifiers.alt
}

impl Key {
    pub fn new(code: KeyCode, modifiers: Modifiers) -> (r: Key)
        ensures
            r == (Key { code, modifiers }),
    {
        Key { code, modifiers }
    }

    pub open spec fn char_spec(c: char) -> Key {
        Key { code: KeyCode::Char(c), modifiers: no_modifiers() }
    }

    /// A character typed without modifiers.
    pub fn char(c: char) -> (r: Key)
        ensures
            r == Key::char_spec(c),
    {
        Key { code: KeyCode::Char(c), modifiers: Modifiers::none() }
    }

    pub fn command(self) -> (b: bool)
        ensures
            b == is_command(self),
    {
        !matches!(self.code, KeyCode::Char(_)) || self.modifiers.control || self.modifiers.alt
    }

    /// The key as bindings compare it.
    pub fn event(self) -> (r: Key)
        ensures
            r == normalized(self),
    {
        let mut modifiers = self.modifiers;
        if matches!(self.code, KeyCode::Char(_)) {
            modifiers.shift = false;
        }
        if matches!(self.code, KeyCode::BackTab) {
            modifiers.shift = true;
            Key { code: KeyCode::Tab, modifiers }
        } else {
            Key { code: self.code, modifiers }
        }
    }
}

/// Everything a key binding can do.
#[derive(Clone, Copy, Debug, PartialEq, Eq, Structural)]
pub enum Action {
    Left,
    Right,
    Up,
    Down,
    Home,
    End,
    PageUp,
    PageDown,
    NextTab,
    PreviousTab,
    Pane,
    Edit,
    Append,
    Undo,
    Redo,
    Paste,
    WordBegin,
    WordEnd,
    Visual,
    YankSelection,
    DeleteSelection,
    ChangeSelection,
    Submit,
    NextFocus,
    PreviousFocus,
    Filter,
    CopyValue,
    CopyAll,
    CopyQuery,
    Refresh,
    Quit,
    Cancel,
}

/// Where keys are resolved; a binding is active in a set of contexts.
#[derive(Clone, Copy, Debug, PartialEq, Eq, Structural)]
pub enum Context {
    Lookup,
    History,
    Input,
    Visual,
    Pane,
    Insert,
    Dialog,
}

/// The bit of a context in a binding's context set.
pub open spec fn context_bit(context: Context) -> u8 {
    match context {
        Context::Lookup => 1,
        Context::History => 2,
        Context::Input => 4,
        Context::Visual => 8,
        Context::Pane => 16,
        Context::Insert => 32,
        Context::Dialog => 64,
    }
}

impl Context {
    pub fn bit(self) -> (r: u8)
        ensures
            r == context_bit(self),
    {
        match self {
            Context::Lookup => 1,
            Context::History => 2,
            Context::Input => 4,
            Context::Visual => 8,
            Context::Pane => 16,
            Context::Insert => 32,
            Context::Dialog => 64,
        }
    }
}

/// The contexts in which an action is bound by default.
pub open spec fn action_contexts(action: Action) -> u8 {
    match action {
        Action::Left | Action::Right | Action::Up | Action::Down | Action::Pane
        | Action::Cancel => 31,
        Action::Filter | Action::Refresh => 2,
        Action::Edit => 13,
        Action::Append | Action::Undo | Action::Redo => 4,
        Action::Paste | Action::Visual | Action::WordBegin | Action::WordEnd
        | Action::DeleteSelection => 12,
        Action::YankSelection | Action::ChangeSelection => 8,
        Action::CopyValue | Action::CopyAll | Action::CopyQuery => 7,
        _ => 15,
    }
}

impl Action {
    pub fn contexts(self) -> (r: u8)
        ensures
            r == action_contexts(self),
    {
        match self {
            Action::Left | Action::Right | Action::Up | Action::Down | Action::Pane
            | Action::Cancel => 31,
            Action::Filter | Action::Refresh => 2,
            Action::Edit => 13,
            Action::Append | Action::Undo | Action::Redo => 4,
            Action::Paste | Action::Visual | Action::WordBegin | Action::WordEnd
            | Action::DeleteSelection => 12,
            Action::YankSelection | Action::ChangeSelection => 8,
            Action::CopyValue | Action::CopyAll | Action::CopyQuery => 7,
            _ => 15,
        }
    }
}

/// Actions that also work in insert mode when their first key cannot be typed text.
pub open spec fn insert_capable(action: Action) -> bool {
    action == Action::Submit || action == Action::NextFocus || action == Action::PreviousFocus
        || action == Action::Pane || action == Action::Cancel || action == Action::WordBegin
        || action == Action::WordEnd
}

/// Actions that also control the history filter dialog.
pub open spec fn dialog_capable(action: Action) -> bool {
    action == Action::Submit || action == Action::NextFocus || action == Action::PreviousFocus
        || action == Action::Pane || action == Action::Cancel || action == Action::Left
        || action == Action::Right
}

/// List navigation, which input word motions shadow in text contexts.
pub open spec fn is_navigation(action: Action) -> bool {
    action == Action::Left || action == Action::Right || action == Action::Up || action
        == Action::Down || action == Action::Home || action == Action::End || action
        == Action::PageUp || action == Action::PageDown
}

pub open spec fn is_word_motion(action: Action) -> bool {
    action == Action::WordBegin || action == Action::WordEnd
}

/// The contexts of a freshly parsed binding.
pub open spec fn initial_contexts(action: Action, keys: Seq<Key>) -> u8 {
    let c = action_contexts(action);
    let c = if insert_capable(action) && keys.len() > 0 && is_command(keys[0]) {
        c | 32u8
    } else {
        c
    };
    if dialog_capable(action) {
        c | 64u8
    } else {
        c
    }
}

/// One key sequence bound to an action.
#[derive(Clone, Debug)]
pub struct Binding {
    pub action: Action,
    pub keys: Vec<Key>,
    pub label: String,
    pub contexts: u8,
}

/// The value of a binding.
pub struct BindingView {
    pub action: Action,
    pub keys: Seq<Key>,
    pub label: Seq<char>,
    pub contexts: u8,
}

impl View for Binding {
    type V = BindingView;

    open spec fn view(&self) -> BindingView {
        BindingView {
            action: self.action,
            keys: self.keys@,
            label: self.label@,
            contexts: self.contexts,
        }
    }
}

pub open spec fn binding_views(bs: Seq<Binding>) -> Seq<BindingView> {
    bs.map_values(|b: Binding| b@)
}

/// Whether `p` is a prefix of `s`.
pub open spec fn is_prefix<T>(p: Seq<T>, s: Seq<T>) -> bool {
    p.len() <= s.len() && s.take(p.len() as int) == p
}

/// Two sequences one of which is a prefix of the other.
pub open spec fn prefix_related<T>(a: Seq<T>, b: Seq<T>) -> bool {
    is_prefix(a, b) || is_prefix(b, a)
}

/// Two bindings conflict when they share a context and one's keys begin the other's.
pub open spec fn conflicting(a: BindingView, b: BindingView) -> bool {
    a.contexts & b.contexts != 0 && prefix_related(a.keys, b.keys)
}

/// No two bindings conflict.
pub open spec fn conflict_free(bs: Seq<BindingView>) -> bool {
    forall|i: int, j: int|
        0 <= i < j < bs.len() ==> !conflicting(#[trigger] bs[i], #[trigger] bs[j])
}

/// `(i, j)` is the first conflicting pair in the order in which bindings are checked.
pub open spec fn is_first_conflict(bs: Seq<BindingView>, i: int, j: int) -> bool {
    &&& 0 <= i < j < bs.len()
    &&& conflicting(bs[i], bs[j])
    &&& forall|a: int, b: int|
        0 <= a < b < bs.len() && (a < i || (a == i && b < j)) ==> !conflicting(
            #[trigger] bs[a],
            #[trigger] bs[b],
        )
}

/// The bindings of a keymap.
#[derive(Clone, Debug)]
pub struct Keybindings {
    bindings: Vec<Binding>,
}

impl Keybindings {
    pub closed spec fn spec_bindings(&self) -> Seq<BindingView> {
        binding_views(self.bindings@)
    }

    /// No two bindings conflict: none that share a context has keys that start the other's.
    pub open spec fn wf(&self) -> bool {
        conflict_free(self.spec_bindings())
    }
}

/// ASCII letters 'a' to 'z' in upper case; every other character unchanged.
pub open spec fn ascii_upper(c: char) -> char {
    if 'a' <= c && c <= 'z' {
        ((c as int) - 32) as char
    } else {
        c
    }
}

fn char_to_upper(c: char) -> (r: char)
    ensures
        r == ascii_upper(c),
{
    if 'a' <= c && c <= 'z' {
        ((c as u8) - 32) as char
    } else {
        c
    }
}

/// The key that a key name denotes.
pub open spec fn named_code(name: Seq<char>) -> Option<KeyCode> {
    if name == "Left"@ {
        Some(KeyCode::Left)
    } else if name == "Right"@ {
        Some(KeyCode::Right)
    } else if name == "Up"@ {
        Some(KeyCode::Up)
    } else if name == "Down"@ {
        Some(KeyCode::Down)
    } else if name == "Home"@ {
        Some(KeyCode::Home)
    } else if name == "End"@ {
        Some(KeyCode::End)
    } else if name == "PageUp"@ {
        Some(KeyCode::PageUp)
    } else if name == "PageDown"@ {
        Some(KeyCode::PageDown)
    } else if name == "Enter"@ {
        Some(KeyCode::Enter)
    } else if name == "Tab"@ {
        Some(KeyCode::Tab)
    } else if name == "Esc"@ || name == "Escape"@ {
        Some(KeyCode::Esc)
    } else if name == "Space"@ {
        Some(KeyCode::Char(' '))
    } else if name.len() == 1 {
        Some(KeyCode::Char(name[0]))
    } else {
        None
    }
}

/// The modifier that a token names, and the rest of the token.
pub open spec fn token_parts(token: Seq<char>) -> (Modifiers, Seq<char>) {
    if seq_starts_with(token, "Ctrl-"@) {
        (Modifiers { control: true, ..no_modifiers() }, token.skip(5))
    } else if seq_starts_with(token, "Shift-"@) {
        (Modifiers { shift: true, ..no_modifiers() }, token.skip(6))
    } else if seq_starts_with(token, "Alt-"@) {
        (Modifiers { alt: true, ..no_modifiers() }, token.skip(4))
    } else {
        (no_modifiers(), token)
    }
}

/// The key of a single token such as `Ctrl-w`, `Shift-Tab`, `PageUp` or `q`.
pub open spec fn named_key(token: Seq<char>) -> Option<Key> {
    let (modifiers, name) = token_parts(token);
    match named_code(name) {
        None => None,
        Some(code) => {
            let code = match code {
                KeyCode::Char(c) => if modifiers.shift {
                    KeyCode::Char(ascii_upper(c))
                } else {
                    code
                },
                _ => code,
            };
            Some(normalized(Key { code, modifiers }))
        },
    }
}

fn name_is(name: &Vec<char>, literal: &str) -> (b: bool)
    ensures
        b == (name@ == literal@),
{
    chars_eq(name, &chars_of(literal))
}

fn named_code_of(name: &Vec<char>) -> (r: Option<KeyCode>)
    ensures
        r == named_code(name@),
{
    if name_is(name, "Left") {
        Some(KeyCode::Left)
    } else if name_is(name, "Right") {
        Some(KeyCode::Right)
    } else if name_is(name, "Up") {
        Some(KeyCode::Up)
    } else if name_is(name, "Down") {
        Some(KeyCode::Down)
    } else if name_is(name, "Home") {
        Some(KeyCode::Home)
    } else if name_is(name, "End") {
        Some(KeyCode::End)
    } else if name_is(name, "PageUp") {
        Some(KeyCode::PageUp)
    } else if name_is(name, "PageDown") {
        Some(KeyCode::PageDown)
    } else if name_is(name, "Enter") {
        Some(KeyCode::Enter)
    } else if name_is(name, "Tab") {
        Some(KeyCode::Tab)
    } else if name_is(name, "Esc") || name_is(name, "Escape") {
        Some(KeyCode::Esc)
    } else if name_is(name, "Space") {
        Some(KeyCode::Char(' '))
    } else if name.len() == 1 {
        Some(KeyCode::Char(name[0]))
    } else {
        None
    }
}

fn strip(token: &Vec<char>, prefix: &str) -> (r: Option<Vec<char>>)
    ensures
        match r {
            Some(rest) => seq_starts_with(token@, prefix@) && rest@ == token@.skip(prefix@.len() as int),
            None => !seq_starts_with(token@, prefix@),
        },
{
    let p = chars_of(prefix);
    if chars_start_with(token, &p) {
        let rest = sub_chars(token, p.len(), token.len());
        assert(rest@ =~= token@.skip(prefix@.len() as int));
        Some(rest)
    } else {
        None
    }
}

fn named_key_of(token: &Vec<char>) -> (r: Option<Key>)
    ensures
        r == named_key(token@),
{
    let (modifiers, name) = match strip(token, "Ctrl-") {
        Some(rest) => (Modifiers::control(), rest),
        None => match strip(token, "Shift-") {
            Some(rest) => (Modifiers::shift(), rest),
            None => match strip(token, "Alt-") {
                Some(rest) => (Modifiers::alt(), rest),
                None => (Modifiers::none(), token.clone()),
            },
        },
    };
    proof {
        reveal_strlit("Ctrl-");
        reveal_strlit("Shift-");
        reveal_strlit("Alt-");
    }
    assert(token_parts(token@) == (modifiers, name@));
    match named_code_of(&name) {
        None => None,
        Some(code) => {
            let code = match code {
                KeyCode::Char(c) => if modifiers.shift {
                    KeyCode::Char(char_to_upper(c))
                } else {
                    code
                },
                _ => code,
            };
            Some(Key { code, modifiers }.event())
        },
    }
}

/// The word-splitting state after reading `s`: the finished words and the word being read.
pub open spec fn split_state(s: Seq<char>) -> (Seq<Seq<char>>, Seq<char>)
    decreases s.len(),
{
    if s.len() == 0 {
        (Seq::empty(), Seq::empty())
    } else {
        let (words, current) = split_state(s.drop_last());
        let c = s.last();
        if is_whitespace(c) {
            if current.len() > 0 {
                (words.push(current), Seq::empty())
            } else {
                (words, current)
            }
        } else {
            (words, current.push(c))
        }
    }
}

/// The whitespace-separated words of `s`, as `str::split_whitespace` gives them.
pub open spec fn split_whitespace_seq(s: Seq<char>) -> Seq<Seq<char>> {
    let (words, current) = split_state(s);
    if current.len() > 0 {
        words.push(current)
    } else {
        words
    }
}

/// The whitespace-separated words of `v`.
pub fn split_whitespace(v: &Vec<char>) -> (r: Vec<Vec<char>>)
    ensures
        r@.len() == split_whitespace_seq(v@).len(),
        forall|i: int| 0 <= i < r@.len() ==> #[trigger] r@[i]@ == split_whitespace_seq(v@)[i],
{
    let mut words: Vec<Vec<char>> = Vec::new();
    let mut current: Vec<char> = Vec::new();
    let mut i: usize = 0;
    while i < v.len()
        invariant
            i <= v.len(),
            words@.len() == split_state(v@.take(i as int)).0.len(),
            forall|k: int|
                0 <= k < words@.len() ==> #[trigger] words@[k]@ == split_state(
                    v@.take(i as int),
                ).0[k],
            current@ == split_state(v@.take(i as int)).1,
        decreases v.len() - i,
    {
        assert(v@.take(i as int + 1).drop_last() =~= v@.take(i as int));
        let c = v[i];
        if char_is_whitespace(c) {
            if current.len() > 0 {
                words.push(current);
                current = Vec::new();
            }
        } else {
            current.push(c);
        }
        i = i + 1;
    }
    assert(v@.take(v.len() as int) =~= v@);
    if current.len() > 0 {
        words.push(current);
    }
    words
}

/// Keys of whitespace-separated tokens, or the message about the first unknown token.
pub open spec fn keys_of_tokens(tokens: Seq<Seq<char>>) -> Result<Seq<Key>, Seq<char>>
    decreases tokens.len(),
{
    if tokens.len() == 0 {
        Ok(Seq::empty())
    } else {
        match keys_of_tokens(tokens.drop_last()) {
            Err(m) => Err(m),
            Ok(keys) => match named_key(tokens.last()) {
                Some(k) => Ok(keys.push(k)),
                None => Err("Unknown key token '"@ + tokens.last() + "'."@),
            },
        }
    }
}

/// Characters typed one after another without modifiers.
pub open spec fn plain_keys(s: Seq<char>) -> Seq<Key> {
    s.map_values(|c: char| Key::char_spec(c))
}

/// The keys of a binding label, or why the label is refused.
pub open spec fn parse_sequence_spec(value: Seq<char>) -> Result<Seq<Key>, Seq<char>> {
    if value.len() == 0 || exists|i: int| 0 <= i < value.len() && is_control(#[trigger] value[i]) {
        Err("Keybinding cannot be empty or contain control characters."@)
    } else {
        match named_key(value) {
            Some(k) => Ok(seq![k]),
            None => if value.contains('-') || value.contains(' ') {
                keys_of_tokens(split_whitespace_seq(value))
            } else if value.len() > 8 {
                Err("Key sequences are limited to eight characters."@)
            } else {
                Ok(plain_keys(value))
            },
        }
    }
}

fn contains_char(v: &Vec<char>, c: char) -> (b: bool)
    ensures
        b == v@.contains(c),
{
    let mut i: usize = 0;
    while i < v.len()
        invariant
            i <= v.len(),
            forall|k: int| 0 <= k < i ==> v@[k] != c,
        decreases v.len() - i,
    {
        if v[i] == c {
            return true;
        }
        i = i + 1;
    }
    false
}

/// Parse a binding label: a key name with an optional modifier, several such names
/// separated by spaces, or up to eight plain characters.
pub fn parse_sequence(value: &str) -> (r: Result<Vec<Key>, String>)
    ensures
        match (r, parse_sequence_spec(value@)) {
            (Ok(keys), Ok(spec_keys)) => keys@ == spec_keys,
            (Err(m), Err(spec_m)) => m@ == spec_m,
            _ => false,
        },
{
    let v = chars_of(value);
    let mut i: usize = 0;
    while i < v.len()
        invariant
            i <= v.len(),
            v@ == value@,
            forall|k: int| 0 <= k < i ==> !is_control(#[trigger] v@[k]),
        decreases v.len() - i,
    {
        if char_is_control(v[i]) {
            return Err(copy_string("Keybinding cannot be empty or contain control characters."));
        }
        i = i + 1;
    }
    if v.len() == 0 {
        return Err(copy_string("Keybinding cannot be empty or contain control characters."));
    }
    assert(!(exists|k: int| 0 <= k < value@.len() && is_control(#[trigger] value@[k])));
    if let Some(key) = named_key_of(&v) {
        let mut keys = Vec::new();
        keys.push(key);
        assert(keys@ =~= seq![key]);
        return Ok(keys);
    }
    if contains_char(&v, '-') || contains_char(&v, ' ') {
        let tokens = split_whitespace(&v);
        let ghost spec_tokens = split_whitespace_seq(v@);
        assert(parse_sequence_spec(value@) == keys_of_tokens(spec_tokens));
        let mut keys: Vec<Key> = Vec::new();
        let mut t: usize = 0;
        while t < tokens.len()
            invariant
                t <= tokens@.len() == spec_tokens.len(),
                forall|k: int| 0 <= k < tokens@.len() ==> #[trigger] tokens@[k]@ == spec_tokens[k],
                keys_of_tokens(spec_tokens.take(t as int)) == Ok::<Seq<Key>, Seq<char>>(keys@),
                parse_sequence_spec(value@) == keys_of_tokens(spec_tokens),
            decreases tokens.len() - t,
        {
            assert(spec_tokens.take(t as int + 1).drop_last() =~= spec_tokens.take(t as int));
            assert(spec_tokens.take(t as int + 1).last() == tokens@[t as int]@);
            match named_key_of(&tokens[t]) {
                Some(k) => keys.push(k),
                None => {
                    let word = string_of(&tokens[t]);
                    assert(word@ == spec_tokens[t as int]);
                    let m = concat("Unknown key token '", word.as_str());
                    let m = concat(m.as_str(), "'.");
                    proof {
                        lemma_tokens_error(spec_tokens, t as int);
                    }
                    return Err(m);
                },
            }
            t = t + 1;
        }
        assert(spec_tokens.take(t as int) =~= spec_tokens);
        return Ok(keys);
    }
    if v.len() > 8 {
        return Err(copy_string("Key sequences are limited to eight characters."));
    }
    let mut keys: Vec<Key> = Vec::new();
    let mut k: usize = 0;
    assert(keys@ =~= plain_keys(v@.take(0)));
    while k < v.len()
        invariant
            k <= v.len(),
            keys@ == plain_keys(v@.take(k as int)),
        decreases v.len() - k,
    {
        let ghost prev = keys@;
        keys.push(Key::char(v[k]));
        assert(plain_keys(v@.take(k as int + 1)) =~= plain_keys(v@.take(k as int)).push(
            Key::char_spec(v@[k as int]),
        ));
        k = k + 1;
    }
    assert(v@.take(k as int) =~= v@);
    Ok(keys)
}

/// An unknown token stops the parse with its own message, whatever follows it.
pub proof fn lemma_tokens_error(tokens: Seq<Seq<char>>, t: int)
    requires
        0 <= t < tokens.len(),
        keys_of_tokens(tokens.take(t)) is Ok,
        named_key(tokens[t]) is None,
    ensures
        keys_of_tokens(tokens) == Err::<Seq<Key>, Seq<char>>(
            "Unknown key token '"@ + tokens[t] + "'."@,
        ),
    decreases tokens.len() - t,
{
    if t + 1 == tokens.len() {
        assert(tokens.take(t) =~= tokens.drop_last());
    } else {
        assert(tokens.drop_last().take(t) =~= tokens.take(t));
        lemma_tokens_error(tokens.drop_last(), t);
    }
}

/// The names of the bindings, in the order in which they are built; the first eight are
/// navigation, the rest actions.
pub open spec fn default_names() -> Seq<Seq<char>> {
    seq![
        "left"@,
        "right"@,
        "up"@,
        "down"@,
        "home"@,
        "end"@,
        "page_up"@,
        "page_down"@,
        "next_tab"@,
        "previous_tab"@,
        "pane_prefix"@,
        "edit"@,
        "append"@,
        "undo"@,
        "redo"@,
        "paste"@,
        "word_begin"@,
        "word_end"@,
        "visual"@,
        "yank_selection"@,
        "delete_selection"@,
        "change_selection"@,
        "submit"@,
        "next_focus"@,
        "previous_focus"@,
        "filter"@,
        "copy_value"@,
        "copy_all"@,
        "copy_query"@,
        "refresh"@,
        "quit"@,
        "cancel"@
    ]
}

/// The action of each binding name.
pub open spec fn default_actions() -> Seq<Action> {
    seq![
        Action::Left,
        Action::Right,
        Action::Up,
        Action::Down,
        Action::Home,
        Action::End,
        Action::PageUp,
        Action::PageDown,
        Action::NextTab,
        Action::PreviousTab,
        Action::Pane,
        Action::Edit,
        Action::Append,
        Action::Undo,
        Action::Redo,
        Action::Paste,
        Action::WordBegin,
        Action::WordEnd,
        Action::Visual,
        Action::YankSelection,
        Action::DeleteSelection,
        Action::ChangeSelection,
        Action::Submit,
        Action::NextFocus,
        Action::PreviousFocus,
        Action::Filter,
        Action::CopyValue,
        Action::CopyAll,
        Action::CopyQuery,
        Action::Refresh,
        Action::Quit,
        Action::Cancel
    ]
}

/// The keys of each binding when a profile does not name it.
pub open spec fn default_labels() -> Seq<Seq<Seq<char>>> {
    seq![
        seq!["Left"@, "h"@],
        seq!["Right"@, "l"@],
        seq!["Up"@, "k"@],
        seq!["Down"@, "j"@],
        seq!["Home"@, "gg"@],
        seq!["End"@, "G"@],
        seq!["PageUp"@],
        seq!["PageDown"@],
        seq!["gt"@],
        seq!["gT"@],
        seq!["Ctrl-w"@],
        seq!["i"@],
        seq!["a"@],
        seq!["u"@],
        seq!["Ctrl-r"@],
        seq!["p"@],
        seq!["Ctrl-Left"@, "b"@],
        seq!["Ctrl-Right"@, "e"@],
        seq!["v"@],
        seq!["y"@],
        seq!["d"@, "x"@],
        seq!["c"@],
        seq!["Enter"@],
        seq!["Tab"@],
        seq!["Shift-Tab"@],
        seq!["/"@],
        seq!["yy"@],
        seq!["ya"@],
        seq!["yq"@],
        seq!["Ctrl-r"@],
        seq!["q"@],
        seq!["Esc"@]
    ]
}

/// The views of string slices.
pub open spec fn str_views(v: Seq<&str>) -> Seq<Seq<char>> {
    v.map_values(|l: &str| l@)
}

/// A built-in binding: its name, action and labels.
pub struct DefaultBinding {
    pub name: &'static str,
    pub action: Action,
    pub labels: Vec<String>,
}

fn default_entry(name: &'static str, action: Action, labels: &[&'static str]) -> (r: DefaultBinding)
    ensures
        r.name@ == name@,
        r.action == action,
        views(r.labels@) == str_views(labels@),
{
    let mut v: Vec<String> = Vec::new();
    let mut i: usize = 0;
    while i < labels.len()
        invariant
            i <= labels@.len(),
            views(v@) == str_views(labels@.take(i as int)),
        decreases labels.len() - i,
    {
        let l = copy_string(labels[i]);
        let ghost prev = v@;
        v.push(l);
        assert(views(v@) =~= views(prev).push(l@));
        assert(str_views(labels@.take(i as int + 1)) =~= str_views(labels@.take(i as int)).push(
            labels@[i as int]@,
        ));
        i = i + 1;
    }
    assert(labels@.take(i as int) =~= labels@);
    DefaultBinding { name, action, labels: v }
}

/// The built-in bindings, in order.
pub fn defaults() -> (r: Vec<DefaultBinding>)
    ensures
        r@.len() == 32,
        forall|i: int| 0 <= i < 32 ==> #[trigger] r@[i].name@ == default_names()[i],
        forall|i: int| 0 <= i < 32 ==> #[trigger] r@[i].action == default_actions()[i],
        forall|i: int| 0 <= i < 32 ==> views(#[trigger] r@[i].labels@) == default_labels()[i],
{
    let mut r: Vec<DefaultBinding> = Vec::new();
    r.push(default_entry("left", Action::Left, &["Left", "h"]));
    r.push(default_entry("right", Action::Right, &["Right", "l"]));
    r.push(default_entry("up", Action::Up, &["Up", "k"]));
    r.push(default_entry("down", Action::Down, &["Down", "j"]));
    r.push(default_entry("home", Action::Home, &["Home", "gg"]));
    r.push(default_entry("end", Action::End, &["End", "G"]));
    r.push(default_entry("page_up", Action::PageUp, &["PageUp"]));
    r.push(default_entry("page_down", Action::PageDown, &["PageDown"]));
    r.push(default_entry("next_tab", Action::NextTab, &["gt"]));
    r.push(default_entry("previous_tab", Action::PreviousTab, &["gT"]));
    r.push(default_entry("pane_prefix", Action::Pane, &["Ctrl-w"]));
    r.push(default_entry("edit", Action::Edit, &["i"]));
    r.push(default_entry("append", Action::Append, &["a"]));
    r.push(default_entry("undo", Action::Undo, &["u"]));
    r.push(default_entry("redo", Action::Redo, &["Ctrl-r"]));
    r.push(default_entry("paste", Action::Paste, &["p"]));
    r.push(default_entry("word_begin", Action::WordBegin, &["Ctrl-Left", "b"]));
    r.push(default_entry("word_end", Action::WordEnd, &["Ctrl-Right", "e"]));
    r.push(default_entry("visual", Action::Visual, &["v"]));
    r.push(default_entry("yank_selection", Action::YankSelection, &["y"]));
    r.push(default_entry("delete_selection", Action::DeleteSelection, &["d", "x"]));
    r.push(default_entry("change_selection", Action::ChangeSelection, &["c"]));
    r.push(default_entry("submit", Action::Submit, &["Enter"]));
    r.push(default_entry("next_focus", Action::NextFocus, &["Tab"]));
    r.push(default_entry("previous_focus", Action::PreviousFocus, &["Shift-Tab"]));
    r.push(default_entry("filter", Action::Filter, &["/"]));
    r.push(default_entry("copy_value", Action::CopyValue, &["yy"]));
    r.push(default_entry("copy_all", Action::CopyAll, &["ya"]));
    r.push(default_entry("copy_query", Action::CopyQuery, &["yq"]));
    r.push(default_entry("refresh", Action::Refresh, &["Ctrl-r"]));
    r.push(default_entry("quit", Action::Quit, &["q"]));
    r.push(default_entry("cancel", Action::Cancel, &["Esc"]));
    assert forall|i: int| 0 <= i < 32 implies views(#[trigger] r@[i].labels@)
        == default_labels()[i] by {
        assert(views(r@[i].labels@) =~= default_labels()[i]);
    }
    r
}

/// The value of the first entry whose name is `name`.
pub open spec fn lookup_key<V>(entries: Seq<(Seq<char>, V)>, name: Seq<char>) -> Option<V>
    decreases entries.len(),
{
    if entries.len() == 0 {
        None
    } else if entries[0].0 == name {
        Some(entries[0].1)
    } else {
        lookup_key(entries.drop_first(), name)
    }
}

/// Entries before the first one named `name` do not change what a lookup finds.
pub proof fn lemma_lookup_key<V>(entries: Seq<(Seq<char>, V)>, name: Seq<char>, i: int)
    requires
        0 <= i <= entries.len(),
        forall|k: int| 0 <= k < i ==> (#[trigger] entries[k]).0 != name,
    ensures
        lookup_key(entries, name) == lookup_key(entries.skip(i), name),
    decreases i,
{
    if i > 0 {
        let t = entries.drop_first();
        assert forall|k: int| 0 <= k < i - 1 implies (#[trigger] t[k]).0 != name by {
            assert(t[k] == entries[k + 1]);
        }
        lemma_lookup_key(t, name, i - 1);
        assert(t.skip(i - 1) =~= entries.skip(i));
        assert(entries[0].0 != name);
    } else {
        assert(entries.skip(0) =~= entries);
    }
}

/// The views of named string lists.
pub open spec fn entries_view(v: Seq<(String, Vec<String>)>) -> Seq<(Seq<char>, Seq<Seq<char>>)> {
    v.map_values(|e: (String, Vec<String>)| (e.0@, views(e.1@)))
}

/// The index of the first entry named `name`.
pub fn find_key<V>(entries: &Vec<(String, V)>, name: &str) -> (r: Option<usize>)
    ensures
        match r {
            Some(i) => i < entries@.len() && entries@[i as int].0@ == name@ && forall|k: int|
                0 <= k < i ==> (#[trigger] entries@[k]).0@ != name@,
            None => forall|k: int| 0 <= k < entries@.len() ==> (#[trigger] entries@[k]).0@ != name@,
        },
{
    let mut i: usize = 0;
    while i < entries.len()
        invariant
            i <= entries@.len(),
            forall|k: int| 0 <= k < i ==> (#[trigger] entries@[k]).0@ != name@,
        decreases entries.len() - i,
    {
        if str_eq(entries[i].0.as_str(), name) {
            return Some(i);
        }
        i = i + 1;
    }
    None
}

/// What a search for the first entry named `name` found is what `lookup_key` finds.
pub proof fn lemma_find_entry(entries: Seq<(String, Vec<String>)>, name: Seq<char>, r: Option<usize>)
    requires
        match r {
            Some(i) => i < entries.len() && entries[i as int].0@ == name && forall|k: int|
                0 <= k < i ==> (#[trigger] entries[k]).0@ != name,
            None => forall|k: int| 0 <= k < entries.len() ==> (#[trigger] entries[k]).0@ != name,
        },
    ensures
        lookup_key(entries_view(entries), name) == match r {
            Some(i) => Some(views(entries[i as int].1@)),
            None => None::<Seq<Seq<char>>>,
        },
{
    let ev = entries_view(entries);
    let n: int = match r {
        Some(i) => i as int,
        None => entries.len() as int,
    };
    assert forall|k: int| 0 <= k < n implies (#[trigger] ev[k]).0 != name by {
        assert(ev[k].0 == entries[k].0@);
    }
    lemma_lookup_key(ev, name, n);
    if n < entries.len() {
        assert(ev.skip(n)[0] == ev[n]);
    } else {
        assert(ev.skip(n).len() == 0);
    }
}

/// The labels of the binding at index `i` of the defaults: the profile's, else the default.
pub open spec fn labels_for(
    nav: Seq<(Seq<char>, Seq<Seq<char>>)>,
    act: Seq<(Seq<char>, Seq<Seq<char>>)>,
    i: int,
) -> Seq<Seq<char>> {
    let section = if i < 8 {
        nav
    } else {
        act
    };
    match lookup_key(section, default_names()[i]) {
        Some(labels) => labels,
        None => default_labels()[i],
    }
}

/// Whether a key sequence uses Ctrl-c, which is reserved.
pub open spec fn uses_ctrl_c(keys: Seq<Key>) -> bool {
    exists|k: int|
        0 <= k < keys.len() && ((#[trigger] keys[k]).code == KeyCode::Char('c') || keys[k].code
            == KeyCode::Char('C')) && keys[k].modifiers.control
}

/// The binding of one label, or why the label is refused.
pub open spec fn binding_of_label(action: Action, label: Seq<char>) -> Result<BindingView, Seq<char>> {
    match parse_sequence_spec(label) {
        Err(m) => Err(m),
        Ok(keys) => if uses_ctrl_c(keys) {
            Err("Ctrl-c is reserved for emergency exit."@)
        } else {
            Ok(BindingView { action, keys, label, contexts: initial_contexts(action, keys) })
        },
    }
}

/// The bindings of all labels of an action, or the refusal of the first bad label.
pub open spec fn bindings_of_labels(action: Action, labels: Seq<Seq<char>>) -> Result<
    Seq<BindingView>,
    Seq<char>,
>
    decreases labels.len(),
{
    if labels.len() == 0 {
        Ok(Seq::empty())
    } else {
        match bindings_of_labels(action, labels.drop_last()) {
            Err(m) => Err(m),
            Ok(bs) => match binding_of_label(action, labels.last()) {
                Err(m) => Err(m),
                Ok(b) => Ok(bs.push(b)),
            },
        }
    }
}

/// The bindings of the first `n` defaults under a profile, or the first refusal.
pub open spec fn build_bindings(
    nav: Seq<(Seq<char>, Seq<Seq<char>>)>,
    act: Seq<(Seq<char>, Seq<Seq<char>>)>,
    n: int,
) -> Result<Seq<BindingView>, Seq<char>>
    decreases n,
{
    if n <= 0 {
        Ok(Seq::empty())
    } else {
        match build_bindings(nav, act, n - 1) {
            Err(m) => Err(m),
            Ok(prior) => {
                let labels = labels_for(nav, act, n - 1);
                if labels.len() == 0 {
                    Err("Binding "@ + default_names()[n - 1] + " must have at least one key."@)
                } else {
                    match bindings_of_labels(default_actions()[n - 1], labels) {
                        Err(m) => Err(m),
                        Ok(bs) => Ok(prior + bs),
                    }
                }
            },
        }
    }
}

/// A profile entry that names no binding of its section.
pub open spec fn has_unknown_entry(
    nav: Seq<(Seq<char>, Seq<Seq<char>>)>,
    act: Seq<(Seq<char>, Seq<Seq<char>>)>,
) -> bool {
    (exists|k: int| 0 <= k < nav.len() && !default_names().take(8).contains(#[trigger] nav[k].0))
        || (exists|k: int|
        0 <= k < act.len() && !default_names().skip(8).contains(#[trigger] act[k].0))
}

/// Navigation whose keys collide with a word motion's leaves the text contexts to the motion.
pub open spec fn shadowed_by_word_motion(bs: Seq<BindingView>, b: BindingView) -> bool {
    is_navigation(b.action) && exists|j: int|
        0 <= j < bs.len() && is_word_motion(#[trigger] bs[j].action) && prefix_related(
            bs[j].keys,
            b.keys,
        )
}

/// The bindings after word motions took the text contexts from colliding navigation.
pub open spec fn shadow_word_motions(bs: Seq<BindingView>) -> Seq<BindingView> {
    Seq::new(
        bs.len(),
        |i: int|
            if shadowed_by_word_motion(bs, bs[i]) {
                BindingView { contexts: bs[i].contexts & 243u8, ..bs[i] }
            } else {
                bs[i]
            },
    )
}

/// The message about two conflicting labels.
pub open spec fn conflict_message(a: Seq<char>, b: Seq<char>) -> Seq<char> {
    "Conflicting bindings '"@ + a + "' and '"@ + b + "'."@
}

pub open spec fn unknown_action_message() -> Seq<char> {
    "Unknown keybinding action; check [navigation] and [actions] names."@
}

pub open spec fn invalid_profile_message() -> Seq<char> {
    "Invalid keybinding TOML; expected [navigation] and [actions] arrays."@
}

/// What building a keymap from a profile's two sections gives: the bindings, or the first
/// refusal (a bad label, an unknown entry, then the first conflicting pair).
pub open spec fn sections_outcome(
    nav: Seq<(Seq<char>, Seq<Seq<char>>)>,
    act: Seq<(Seq<char>, Seq<Seq<char>>)>,
    r: Result<Seq<BindingView>, Seq<char>>,
) -> bool {
    match build_bindings(nav, act, 32) {
        Err(m) => r == Err::<Seq<BindingView>, Seq<char>>(m),
        Ok(bs) => if has_unknown_entry(nav, act) {
            r == Err::<Seq<BindingView>, Seq<char>>(unknown_action_message())
        } else {
            let s = shadow_word_motions(bs);
            if conflict_free(s) {
                r == Ok::<Seq<BindingView>, Seq<char>>(s)
            } else {
                exists|i: int, j: int|
                    is_first_conflict(s, i, j) && r == Err::<Seq<BindingView>, Seq<char>>(
                        conflict_message(s[i].label, s[j].label),
                    )
            }
        },
    }
}

fn keys_prefix(p: &Vec<Key>, s: &Vec<Key>) -> (b: bool)
    ensures
        b == is_prefix(p@, s@),
{
    if p.len() > s.len() {
        return false;
    }
    let mut i: usize = 0;
    while i < p.len()
        invariant
            p.len() <= s.len(),
            i <= p.len(),
            forall|k: int| 0 <= k < i ==> s@[k] == p@[k],
        decreases p.len() - i,
    {
        if s[i] != p[i] {
            assert(s@.take(p.len() as int)[i as int] != p@[i as int]);
            return false;
        }
        i = i + 1;
    }
    assert(s@.take(p.len() as int) =~= p@);
    true
}

fn keys_related(a: &Vec<Key>, b: &Vec<Key>) -> (r: bool)
    ensures
        r == prefix_related(a@, b@),
{
    keys_prefix(a, b) || keys_prefix(b, a)
}

fn binding_for_label(action: Action, label: &String) -> (r: Result<Binding, String>)
    ensures
        match (r, binding_of_label(action, label@)) {
            (Ok(b), Ok(v)) => b@ == v,
            (Err(m), Err(v)) => m@ == v,
            _ => false,
        },
{
    let keys = match parse_sequence(label.as_str()) {
        Ok(keys) => keys,
        Err(m) => return Err(m),
    };
    let mut k: usize = 0;
    while k < keys.len()
        invariant
            k <= keys@.len(),
            parse_sequence_spec(label@) == Ok::<Seq<Key>, Seq<char>>(keys@),
            forall|j: int|
                0 <= j < k ==> !(((#[trigger] keys@[j]).code == KeyCode::Char('c') || keys@[j].code
                    == KeyCode::Char('C')) && keys@[j].modifiers.control),
        decreases keys.len() - k,
    {
        let key = keys[k];
        if (key.code == KeyCode::Char('c') || key.code == KeyCode::Char('C'))
            && key.modifiers.control {
            assert(keys@[k as int] == key);
            assert(uses_ctrl_c(keys@));
            return Err(copy_string("Ctrl-c is reserved for emergency exit."));
        }
        k = k + 1;
    }
    let mut contexts = action.contexts();
    let insert = matches!(
        action,
        Action::Submit | Action::NextFocus | Action::PreviousFocus | Action::Pane | Action::Cancel
            | Action::WordBegin | Action::WordEnd
    );
    if insert && keys.len() > 0 && keys[0].command() {
        contexts = contexts | 32u8;
    }
    if matches!(
        action,
        Action::Submit | Action::NextFocus | Action::PreviousFocus | Action::Pane | Action::Cancel
            | Action::Left | Action::Right
    ) {
        contexts = contexts | 64u8;
    }
    Ok(Binding { action, keys, label: label.clone(), contexts })
}

fn push_label_bindings(action: Action, labels: &Vec<String>, out: &mut Vec<Binding>) -> (r: Result<
    (),
    String,
>)
    ensures
        match (r, bindings_of_labels(action, views(labels@))) {
            (Ok(_), Ok(v)) => binding_views(final(out)@) == binding_views(old(out)@) + v,
            (Err(m), Err(v)) => m@ == v,
            _ => false,
        },
{
    let ghost start = binding_views(out@);
    let mut j: usize = 0;
    while j < labels.len()
        invariant
            j <= labels@.len(),
            bindings_of_labels(action, views(labels@).take(j as int)) matches Ok(v) && binding_views(out@)
                == start + v,
        decreases labels.len() - j,
    {
        proof {
            assert(views(labels@).take(j as int + 1).drop_last() =~= views(labels@).take(j as int));
            assert(views(labels@).take(j as int + 1).last() == labels@[j as int]@);
        }
        let b = binding_for_label(action, &labels[j]);
        match b {
            Ok(b) => {
                let ghost prev = out@;
                out.push(b);
                assert(binding_views(out@) =~= binding_views(prev).push(b@));
            },
            Err(m) => {
                proof {
                    lemma_labels_error(action, views(labels@), j as int);
                }
                return Err(m);
            },
        }
        j = j + 1;
    }
    assert(views(labels@).take(j as int) =~= views(labels@));
    Ok(())
}

/// The first label that does not parse decides the error of all the labels.
pub proof fn lemma_labels_error(action: Action, labels: Seq<Seq<char>>, j: int)
    requires
        0 <= j < labels.len(),
        bindings_of_labels(action, labels.take(j)) is Ok,
        binding_of_label(action, labels[j]) is Err,
    ensures
        bindings_of_labels(action, labels) == Err::<Seq<BindingView>, Seq<char>>(
            binding_of_label(action, labels[j])->Err_0,
        ),
    decreases labels.len() - j,
{
    if j + 1 == labels.len() {
        assert(labels.take(j) =~= labels.drop_last());
    } else {
        assert(labels.drop_last().take(j) =~= labels.take(j));
        lemma_labels_error(action, labels.drop_last(), j);
    }
}

/// Whether `name` is one of the default names from `start` to `end`.
fn known_name(defaults: &Vec<DefaultBinding>, start: usize, end: usize, name: &String) -> (b: bool)
    requires
        defaults@.len() == 32,
        forall|i: int| 0 <= i < 32 ==> #[trigger] defaults@[i].name@ == default_names()[i],
        start <= end <= 32,
    ensures
        b == default_names().subrange(start as int, end as int).contains(name@),
{
    let mut i = start;
    while i < end
        invariant
            start <= i <= end <= 32,
            defaults@.len() == 32,
            forall|i: int| 0 <= i < 32 ==> #[trigger] defaults@[i].name@ == default_names()[i],
            forall|k: int| start <= k < i ==> default_names()[k] != name@,
        decreases end - i,
    {
        if str_eq(defaults[i].name, name.as_str()) {
            assert(default_names().subrange(start as int, end as int)[i - start] == name@);
            return true;
        }
        i = i + 1;
    }
    assert forall|k: int| 0 <= k < end - start implies default_names().subrange(
        start as int,
        end as int,
    )[k] != name@ by {
        assert(default_names()[k + start] != name@);
    }
    false
}

fn unknown_entry(
    defaults: &Vec<DefaultBinding>,
    entries: &Vec<(String, Vec<String>)>,
    start: usize,
    end: usize,
) -> (b: bool)
    requires
        defaults@.len() == 32,
        forall|i: int| 0 <= i < 32 ==> #[trigger] defaults@[i].name@ == default_names()[i],
        start <= end <= 32,
    ensures
        b == exists|k: int|
            0 <= k < entries@.len() && !default_names().subrange(start as int, end as int).contains(
                #[trigger] entries_view(entries@)[k].0,
            ),
{
    let mut i: usize = 0;
    while i < entries.len()
        invariant
            i <= entries@.len(),
            defaults@.len() == 32,
            forall|i: int| 0 <= i < 32 ==> #[trigger] defaults@[i].name@ == default_names()[i],
            start <= end <= 32,
            forall|k: int|
                0 <= k < i ==> default_names().subrange(start as int, end as int).contains(
                    #[trigger] entries_view(entries@)[k].0,
                ),
        decreases entries.len() - i,
    {
        if !known_name(defaults, start, end, &entries[i].0) {
            assert(entries_view(entries@)[i as int].0 == entries@[i as int].0@);
            return true;
        }
        assert(entries_view(entries@)[i as int].0 == entries@[i as int].0@);
        i = i + 1;
    }
    false
}

fn copy_keys(keys: &Vec<Key>) -> (r: Vec<Key>)
    ensures
        r@ == keys@,
{
    let mut r: Vec<Key> = Vec::new();
    let mut i: usize = 0;
    while i < keys.len()
        invariant
            i <= keys@.len(),
            r@ == keys@.take(i as int),
        decreases keys.len() - i,
    {
        r.push(keys[i]);
        i = i + 1;
        assert(r@ =~= keys@.take(i as int));
    }
    assert(keys@.take(i as int) =~= keys@);
    r
}

fn copy_binding(b: &Binding) -> (r: Binding)
    ensures
        r@ == b@,
{
    Binding { action: b.action, keys: copy_keys(&b.keys), label: b.label.clone(), contexts: b.contexts }
}

/// Take the text contexts from navigation whose keys collide with a word motion's.
fn shadow_bindings(bindings: &Vec<Binding>) -> (r: Vec<Binding>)
    ensures
        binding_views(r@) == shadow_word_motions(binding_views(bindings@)),
{
    let ghost bs = binding_views(bindings@);
    let mut out: Vec<Binding> = Vec::new();
    let mut i: usize = 0;
    while i < bindings.len()
        invariant
            i <= bindings@.len(),
            bs == binding_views(bindings@),
            binding_views(out@) == shadow_word_motions(bs).take(i as int),
        decreases bindings.len() - i,
    {
        let mut b = copy_binding(&bindings[i]);
        let mut shadowed = false;
        if matches!(
            b.action,
            Action::Left | Action::Right | Action::Up | Action::Down | Action::Home | Action::End
                | Action::PageUp | Action::PageDown
        ) {
            let mut j: usize = 0;
            while j < bindings.len()
                invariant
                    j <= bindings@.len(),
                    i < bindings@.len(),
                    bs == binding_views(bindings@),
                    b@ == bs[i as int],
                    is_navigation(b.action),
                    shadowed == exists|m: int|
                        0 <= m < j && is_word_motion(#[trigger] bs[m].action) && prefix_related(
                            bs[m].keys,
                            b.keys@,
                        ),
                decreases bindings.len() - j,
            {
                proof {
                    assert(bs[j as int] == bindings@[j as int]@);
                }
                let hit = matches!(bindings[j].action, Action::WordBegin | Action::WordEnd)
                    && keys_related(&bindings[j].keys, &b.keys);
                assert(hit == (is_word_motion(bs[j as int].action) && prefix_related(
                    bs[j as int].keys,
                    b.keys@,
                )));
                if hit {
                    shadowed = true;
                }
                j = j + 1;
            }
        }
        assert(shadowed == shadowed_by_word_motion(bs, bs[i as int]));
        if shadowed {
            b.contexts = b.contexts & 243u8;
        }
        let ghost prev = out@;
        out.push(b);
        proof {
            assert(binding_views(out@) =~= binding_views(prev).push(b@));
            assert(shadow_word_motions(bs).take(i as int + 1) =~= shadow_word_motions(bs).take(
                i as int,
            ).push(shadow_word_motions(bs)[i as int]));
        }
        i = i + 1;
    }
    assert(shadow_word_motions(bs).take(i as int) =~= shadow_word_motions(bs));
    out
}

/// Once building fails, it fails with the same message however many more defaults follow.
pub proof fn lemma_build_error(
    nav: Seq<(Seq<char>, Seq<Seq<char>>)>,
    act: Seq<(Seq<char>, Seq<Seq<char>>)>,
    n: int,
    k: int,
    m: Seq<char>,
)
    requires
        n <= k,
        build_bindings(nav, act, n) == Err::<Seq<BindingView>, Seq<char>>(m),
    ensures
        build_bindings(nav, act, k) == Err::<Seq<BindingView>, Seq<char>>(m),
    decreases k - n,
{
    if n < k {
        lemma_build_error(nav, act, n, k - 1, m);
    }
}

proof fn lemma_label_bindings(action: Action, labels: Seq<Seq<char>>, bs: Seq<BindingView>)
    requires
        bindings_of_labels(action, labels) == Ok::<Seq<BindingView>, Seq<char>>(bs),
    ensures
        bs.len() == labels.len(),
        forall|i: int| 0 <= i < bs.len() ==> (#[trigger] bs[i]).action == action && !uses_ctrl_c(bs[i].keys)
            && bs[i].contexts == initial_contexts(bs[i].action, bs[i].keys),
    decreases labels.len(),
{
    if labels.len() > 0 {
        match bindings_of_labels(action, labels.drop_last()) {
            Ok(prior) => lemma_label_bindings(action, labels.drop_last(), prior),
            Err(_) => {},
        }
    }
}

proof fn lemma_built_bindings(
    nav: Seq<(Seq<char>, Seq<Seq<char>>)>,
    act: Seq<(Seq<char>, Seq<Seq<char>>)>,
    n: int,
    bs: Seq<BindingView>,
)
    requires
        0 <= n,
        build_bindings(nav, act, n) == Ok::<Seq<BindingView>, Seq<char>>(bs),
    ensures
        forall|i: int| 0 <= i < bs.len() ==> !uses_ctrl_c(#[trigger] bs[i].keys),
        forall|i: int| 0 <= i < bs.len() ==> (#[trigger] bs[i]).contexts == initial_contexts(bs[i].action, bs[i].keys),
        forall|d: int|
            #![trigger default_actions()[d]]
            0 <= d < n ==> exists|i: int|
                0 <= i < bs.len() && (#[trigger] bs[i]).action == default_actions()[d],
    decreases n,
{
    if n > 0 {
        match build_bindings(nav, act, n - 1) {
            Ok(prior) => {
                lemma_built_bindings(nav, act, n - 1, prior);
                let labels = labels_for(nav, act, n - 1);
                match bindings_of_labels(default_actions()[n - 1], labels) {
                    Ok(new) => {
                        lemma_label_bindings(default_actions()[n - 1], labels, new);
                        assert(bs == prior + new);
                        assert forall|i: int| 0 <= i < bs.len() implies !uses_ctrl_c(
                            #[trigger] bs[i].keys,
                        ) && bs[i].contexts == initial_contexts(bs[i].action, bs[i].keys) by {
                            if i >= prior.len() {
                                assert(bs[i] == new[i - prior.len()]);
                            } else {
                                assert(bs[i] == prior[i]);
                            }
                        }
                        assert forall|d: int| #![trigger default_actions()[d]] 0 <= d < n implies exists|i: int|
                            0 <= i < bs.len() && (#[trigger] bs[i]).action == default_actions()[d] by {
                            if d == n - 1 {
                                assert(bs[prior.len() as int] == new[0]);
                            } else {
                                let i = choose|i: int|
                                    0 <= i < prior.len() && (#[trigger] prior[i]).action
                                        == default_actions()[d];
                                assert(bs[i] == prior[i]);
                            }
                        }
                    },
                    Err(_) => {},
                }
            },
            Err(_) => {},
        }
    }
}

/// The contexts that every binding of an action keeps, whatever its keys and whether word
/// motions shadow it: the history list for the actions bound there, else text input, else
/// visual selection.
proof fn lemma_kept_context(a: Action, keys: Seq<Key>, shadowed: bool)
    ensures
        ({
            let c0 = initial_contexts(a, keys);
            let c = if shadowed {
                c0 & 243u8
            } else {
                c0
            };
            let base = action_contexts(a);
            &&& (base == 31 || base == 2 || base == 7 || base == 15) ==> c & 2u8 != 0
            &&& (!shadowed && (base == 13 || base == 4 || base == 12)) ==> c & 4u8 != 0
            &&& (!shadowed && base == 8) ==> c & 8u8 != 0
        }),
{
    let base = action_contexts(a);
    assert((base == 31 || base == 2 || base == 7 || base == 15) ==> (base & 2u8 != 0 && (base
        | 32u8) & 2u8 != 0 && (base | 64u8) & 2u8 != 0 && ((base | 32u8) | 64u8) & 2u8 != 0
        && (base & 243u8) & 2u8 != 0 && ((base | 32u8) & 243u8) & 2u8 != 0 && ((base | 64u8)
        & 243u8) & 2u8 != 0 && (((base | 32u8) | 64u8) & 243u8) & 2u8 != 0)) by (bit_vector);
    assert((base == 13 || base == 4 || base == 12) ==> (base & 4u8 != 0 && (base | 32u8) & 4u8
        != 0 && (base | 64u8) & 4u8 != 0 && ((base | 32u8) | 64u8) & 4u8 != 0)) by (bit_vector);
    assert(base == 8 ==> (base & 8u8 != 0 && (base | 32u8) & 8u8 != 0 && (base | 64u8) & 8u8
        != 0 && ((base | 32u8) | 64u8) & 8u8 != 0)) by (bit_vector);
}

/// A keymap built from a profile's sections binds no empty key sequence: an empty sequence
/// begins every other, and every binding shares a context with a binding of another action,
/// so the conflict check refuses it.
pub proof fn lemma_sections_keys_nonempty(
    nav: Seq<(Seq<char>, Seq<Seq<char>>)>,
    act: Seq<(Seq<char>, Seq<Seq<char>>)>,
    s: Seq<BindingView>,
)
    requires
        sections_outcome(nav, act, Ok::<Seq<BindingView>, Seq<char>>(s)),
    ensures
        forall|i: int| 0 <= i < s.len() ==> (#[trigger] s[i]).keys.len() > 0,
{
    match build_bindings(nav, act, 32) {
        Ok(bs) => {
            lemma_built_bindings(nav, act, 32, bs);
            assert(s == shadow_word_motions(bs));
            assert(conflict_free(s));
            assert forall|i: int| 0 <= i < s.len() implies (#[trigger] s[i]).keys.len() > 0 by {
                if s[i].keys.len() == 0 {
                    let a = s[i].action;
                    let base = action_contexts(a);
                    let shadowed = shadowed_by_word_motion(bs, bs[i]);
                    lemma_kept_context(a, bs[i].keys, shadowed);
                    assert(s[i].contexts == if shadowed {
                        bs[i].contexts & 243u8
                    } else {
                        bs[i].contexts
                    });
                    assert(shadowed ==> is_navigation(a));
                    let (other, bit, d) = if base == 31 || base == 2 || base == 7 || base == 15 {
                        if a == Action::Filter {
                            (Action::Refresh, Context::History, 29int)
                        } else {
                            (Action::Filter, Context::History, 25int)
                        }
                    } else if base == 13 || base == 4 || base == 12 {
                        if a == Action::Append {
                            (Action::Undo, Context::Input, 13int)
                        } else {
                            (Action::Append, Context::Input, 12int)
                        }
                    } else {
                        if a == Action::YankSelection {
                            (Action::ChangeSelection, Context::Visual, 21int)
                        } else {
                            (Action::YankSelection, Context::Visual, 19int)
                        }
                    };
                    assert(default_actions()[d] == other);
                    let j = choose|j: int| 0 <= j < bs.len() && (#[trigger] bs[j]).action == default_actions()[d];
                    assert(s[j].action == other);
                    assert(!is_navigation(other));
                    assert(!shadowed_by_word_motion(bs, bs[j]));
                    assert(s[j] == bs[j]);
                    lemma_kept_context(other, bs[j].keys, false);
                    assert(s[i].contexts & context_bit(bit) != 0);
                    assert(s[j].contexts & context_bit(bit) != 0);
                    lemma_shared_context(s[i].contexts, s[j].contexts, bit);
                    lemma_shared_context(s[j].contexts, s[i].contexts, bit);
                    assert(s[j].keys.take(0) =~= s[i].keys);
                    assert(prefix_related(s[i].keys, s[j].keys));
                    assert(i != j);
                    if i < j {
                        assert(conflicting(s[i], s[j]));
                    } else {
                        assert(conflicting(s[j], s[i]));
                    }
                }
            }
        },
        Err(_) => {},
    }
}

/// A keymap built from a profile's sections keeps every binding of the defaults' table: each
/// of its actions has at least one key sequence, no sequence is empty, and none uses Ctrl-c,
/// which stays reserved for leaving the program.
pub proof fn lemma_sections_keymap_complete(
    nav: Seq<(Seq<char>, Seq<Seq<char>>)>,
    act: Seq<(Seq<char>, Seq<Seq<char>>)>,
    s: Seq<BindingView>,
)
    requires
        sections_outcome(nav, act, Ok::<Seq<BindingView>, Seq<char>>(s)),
    ensures
        forall|i: int| 0 <= i < s.len() ==> !uses_ctrl_c(#[trigger] s[i].keys),
        forall|i: int| 0 <= i < s.len() ==> (#[trigger] s[i]).keys.len() > 0,
        forall|d: int|
            #![trigger default_actions()[d]]
            0 <= d < 32 ==> exists|i: int|
                0 <= i < s.len() && (#[trigger] s[i]).action == default_actions()[d],
{
    lemma_sections_keys_nonempty(nav, act, s);
    match build_bindings(nav, act, 32) {
        Ok(bs) => {
            lemma_built_bindings(nav, act, 32, bs);
            assert(s == shadow_word_motions(bs));
            assert forall|i: int| 0 <= i < s.len() implies !uses_ctrl_c(#[trigger] s[i].keys) by {
                assert(s[i].keys == bs[i].keys);
            }
            assert forall|d: int| #![trigger default_actions()[d]] 0 <= d < 32 implies exists|i: int|
                0 <= i < s.len() && (#[trigger] s[i]).action == default_actions()[d] by {
                let i = choose|i: int|
                    0 <= i < bs.len() && (#[trigger] bs[i]).action == default_actions()[d];
                assert(s[i].action == bs[i].action);
            }
        },
        Err(_) => {},
    }
}

/// The first conflicting pair, in the order `(0, 1), (0, 2), …, (1, 2), …`.
fn first_conflict(bindings: &Vec<Binding>) -> (r: Option<(usize, usize)>)
    ensures
        match r {
            Some((i, j)) => is_first_conflict(binding_views(bindings@), i as int, j as int),
            None => conflict_free(binding_views(bindings@)),
        },
{
    let ghost bs = binding_views(bindings@);
    let n = bindings.len();
    let mut i: usize = 0;
    while i < n
        invariant
            n == bindings@.len() == bs.len(),
            bs == binding_views(bindings@),
            i <= n,
            forall|a: int, b: int| 0 <= a < b < n && a < i ==> !conflicting(#[trigger] bs[a], #[trigger] bs[b]),
        decreases n - i,
    {
        let mut j: usize = i + 1;
        while j < n
            invariant
                n == bindings@.len() == bs.len(),
                bs == binding_views(bindings@),
                i < n,
                i + 1 <= j <= n,
                forall|a: int, b: int| 0 <= a < b < n && a < i ==> !conflicting(#[trigger] bs[a], #[trigger] bs[b]),
                forall|b: int| i < b < j ==> !conflicting(bs[i as int], #[trigger] bs[b]),
            decreases n - j,
        {
            let a = &bindings[i];
            let b = &bindings[j];
            assert(bs[i as int] == a@ && bs[j as int] == b@);
            if a.contexts & b.contexts != 0 && keys_related(&a.keys, &b.keys) {
                assert(is_first_conflict(bs, i as int, j as int));
                return Some((i, j));
            }
            j = j + 1;
        }
        i = i + 1;
    }
    None
}

impl Keybindings {
    /// Build the keymap of a profile's `[navigation]` and `[actions]` sections.
    pub fn from_sections(
        navigation: &Vec<(String, Vec<String>)>,
        actions: &Vec<(String, Vec<String>)>,
    ) -> (r: Result<Keybindings, String>)
        ensures
            sections_outcome(
                entries_view(navigation@),
                entries_view(actions@),
                match r {
                    Ok(k) => Ok(k.spec_bindings()),
                    Err(m) => Err(m@),
                },
            ),
            r matches Ok(k) ==> k.wf(),
    {
        let ghost nav = entries_view(navigation@);
        let ghost act = entries_view(actions@);
        let table = defaults();
        let mut bindings: Vec<Binding> = Vec::new();
        let mut i: usize = 0;
        assert(binding_views(bindings@) =~= Seq::<BindingView>::empty());
        while i < 32
            invariant
                i <= 32,
                nav == entries_view(navigation@),
                act == entries_view(actions@),
                table@.len() == 32,
                forall|d: int| 0 <= d < 32 ==> #[trigger] table@[d].name@ == default_names()[d],
                forall|d: int| 0 <= d < 32 ==> #[trigger] table@[d].action == default_actions()[d],
                forall|d: int|
                    0 <= d < 32 ==> views(#[trigger] table@[d].labels@) == default_labels()[d],
                build_bindings(nav, act, i as int) == Ok::<Seq<BindingView>, Seq<char>>(
                    binding_views(bindings@),
                ),
            decreases 32 - i,
        {
            let entry = &table[i];
            let section = if i < 8 {
                navigation
            } else {
                actions
            };
            let found = find_key(section, entry.name);
            proof {
                lemma_find_entry(section@, entry.name@, found);
            }
            let labels = match found {
                Some(k) => &section[k].1,
                None => &entry.labels,
            };
            assert(views(labels@) == labels_for(nav, act, i as int));
            if labels.len() == 0 {
                let m = concat("Binding ", entry.name);
                let m = concat(m.as_str(), " must have at least one key.");
                proof {
                    lemma_build_error(nav, act, i as int + 1, 32, m@);
                }
                return Err(m);
            }
            let ghost before = binding_views(bindings@);
            match push_label_bindings(entry.action, labels, &mut bindings) {
                Ok(()) => {},
                Err(m) => {
                    proof {
                        lemma_build_error(nav, act, i as int + 1, 32, m@);
                    }
                    return Err(m);
                },
            }
            i = i + 1;
        }
        if unknown_entry(&table, navigation, 0, 8) || unknown_entry(&table, actions, 8, 32) {
            proof {
                assert(default_names().take(8) =~= default_names().subrange(0, 8));
                assert(default_names().skip(8) =~= default_names().subrange(8, 32));
            }
            return Err(
                copy_string("Unknown keybinding action; check [navigation] and [actions] names."),
            );
        }
        proof {
            assert(default_names().take(8) =~= default_names().subrange(0, 8));
            assert(default_names().skip(8) =~= default_names().subrange(8, 32));
        }
        let shadowed = shadow_bindings(&bindings);
        match first_conflict(&shadowed) {
            Some((a, b)) => {
                let m = concat("Conflicting bindings '", shadowed[a].label.as_str());
                let m = concat(m.as_str(), "' and '");
                let m = concat(m.as_str(), shadowed[b].label.as_str());
                Err(concat(m.as_str(), "'."))
            },
            None => Ok(Keybindings { bindings: shadowed }),
        }
    }
}

/// The tables of a TOML document whose tables map names to lists of strings.
pub uninterp spec fn toml_tables(text: Seq<char>) -> Option<
    Seq<(Seq<char>, Seq<(Seq<char>, Seq<Seq<char>>)>)>,
>;

/// The views of parsed tables.
pub open spec fn tables_view(tables: Seq<(String, Vec<(String, Vec<String>)>)>) -> Seq<
    (Seq<char>, Seq<(Seq<char>, Seq<Seq<char>>)>),
> {
    tables.map_values(|t: (String, Vec<(String, Vec<String>)>)| (t.0@, entries_view(t.1@)))
}

/// Calls `toml::from_str` to read a document made of tables of string lists, such as
/// `[navigation]\nhome = ['Home', 'b']`. The contract names the result: `None` when the text
/// is not such a document, else its tables with their entries, each table and entry in the
/// order in which the map of the document yields them.
#[verifier::external_body]
fn parse_tables(text: &str) -> (r: Option<Vec<(String, Vec<(String, Vec<String>)>)>>)
    ensures
        match r {
            Some(t) => toml_tables(text@) == Some(tables_view(t@)),
            None => toml_tables(text@) is None,
        },
{
    toml::from_str::<BTreeMap<String, BTreeMap<String, Vec<String>>>>(text).ok().map(
        |tables| tables.into_iter().map(|(name, table)| (name, table.into_iter().collect())).collect(),
    )
}

/// The two sections of a keybinding profile, or `None` when it has any other table.
pub open spec fn profile_sections(tables: Seq<(Seq<char>, Seq<(Seq<char>, Seq<Seq<char>>)>)>) -> Option<
    (Seq<(Seq<char>, Seq<Seq<char>>)>, Seq<(Seq<char>, Seq<Seq<char>>)>),
> {
    if exists|k: int|
        0 <= k < tables.len() && (#[trigger] tables[k]).0 != "navigation"@ && tables[k].0
            != "actions"@ {
        None
    } else {
        Some(
            (
                match lookup_key(tables, "navigation"@) {
                    Some(t) => t,
                    None => Seq::empty(),
                },
                match lookup_key(tables, "actions"@) {
                    Some(t) => t,
                    None => Seq::empty(),
                },
            ),
        )
    }
}

/// The view of a parse result: the bindings, or the message.
pub open spec fn keymap_view(r: Result<Keybindings, String>) -> Result<Seq<BindingView>, Seq<char>> {
    match r {
        Ok(k) => Ok(k.spec_bindings()),
        Err(m) => Err(m@),
    }
}

/// What parsing a keybinding profile gives.
pub open spec fn parse_outcome(text: Seq<char>, r: Result<Keybindings, String>) -> bool {
    match toml_tables(text) {
        None => keymap_view(r) == Err::<Seq<BindingView>, Seq<char>>(invalid_profile_message()),
        Some(tables) => match profile_sections(tables) {
            None => keymap_view(r) == Err::<Seq<BindingView>, Seq<char>>(invalid_profile_message()),
            Some((nav, act)) => sections_outcome(nav, act, keymap_view(r)),
        },
    }
}

fn table_entries<'a>(
    tables: &'a Vec<(String, Vec<(String, Vec<String>)>)>,
    name: &str,
    empty: &'a Vec<(String, Vec<String>)>,
) -> (r: &'a Vec<(String, Vec<String>)>)
    requires
        empty@.len() == 0,
    ensures
        entries_view(r@) == match lookup_key(tables_view(tables@), name@) {
            Some(t) => t,
            None => Seq::empty(),
        },
{
    let found = find_key(tables, name);
    let ghost tv = tables_view(tables@);
    let n: usize = match found {
        Some(i) => i,
        None => tables.len(),
    };
    proof {
        assert forall|k: int| 0 <= k < n implies (#[trigger] tv[k]).0 != name@ by {
            assert(tv[k].0 == tables@[k].0@);
        }
        lemma_lookup_key(tv, name@, n as int);
        if n < tables.len() {
            assert(tv.skip(n as int)[0] == tv[n as int]);
        } else {
            assert(tv.skip(n as int).len() == 0);
            assert(entries_view(empty@) =~= Seq::empty());
        }
    }
    match found {
        Some(i) => &tables[i].1,
        None => empty,
    }
}

impl Keybindings {
    /// Parse a keybinding profile: `[navigation]` and `[actions]` tables that map binding
    /// names to lists of key labels; absent names keep their default keys.
    pub fn parse(text: &str) -> (r: Result<Keybindings, String>)
        ensures
            parse_outcome(text@, r),
            r matches Ok(k) ==> k.wf(),
    {
        let tables = match parse_tables(text) {
            Some(t) => t,
            None => return Err(
                copy_string("Invalid keybinding TOML; expected [navigation] and [actions] arrays."),
            ),
        };
        let ghost tv = tables_view(tables@);
        let mut k: usize = 0;
        while k < tables.len()
            invariant
                k <= tables@.len(),
                tv == tables_view(tables@),
                toml_tables(text@) == Some(tv),
                forall|j: int|
                    0 <= j < k ==> (#[trigger] tv[j]).0 == "navigation"@ || tv[j].0 == "actions"@,
            decreases tables.len() - k,
        {
            assert(tv[k as int].0 == tables@[k as int].0@);
            if !str_eq(tables[k].0.as_str(), "navigation") && !str_eq(tables[k].0.as_str(), "actions") {
                assert(profile_sections(tv) is None);
                return Err(
                    copy_string("Invalid keybinding TOML; expected [navigation] and [actions] arrays."),
                );
            }
            k = k + 1;
        }
        let empty: Vec<(String, Vec<String>)> = Vec::new();
        let navigation = table_entries(&tables, "navigation", &empty);
        let actions = table_entries(&tables, "actions", &empty);
        Keybindings::from_sections(navigation, actions)
    }

    /// The built-in keymap, which a profile changes.
    pub fn builtin() -> (r: Result<Keybindings, String>)
        ensures
            sections_outcome(Seq::empty(), Seq::empty(), keymap_view(r)),
            r matches Ok(k) ==> k.wf(),
    {
        let empty: Vec<(String, Vec<String>)> = Vec::new();
        assert(entries_view(empty@) =~= Seq::empty());
        Keybindings::from_sections(&empty, &empty)
    }
}

/// A keymap that a profile parses to is complete: every action of the defaults' table keeps
/// at least one key sequence, no sequence is empty, and none uses Ctrl-c.
pub proof fn lemma_parsed_keymap_complete(text: Seq<char>, k: Keybindings)
    requires
        parse_outcome(text, Ok::<Keybindings, String>(k)),
    ensures
        forall|i: int|
            0 <= i < k.spec_bindings().len() ==> !uses_ctrl_c(#[trigger] k.spec_bindings()[i].keys),
        forall|i: int|
            0 <= i < k.spec_bindings().len() ==> (#[trigger] k.spec_bindings()[i]).keys.len() > 0,
        forall|d: int|
            #![trigger default_actions()[d]]
            0 <= d < 32 ==> exists|i: int|
                0 <= i < k.spec_bindings().len() && (#[trigger] k.spec_bindings()[i]).action
                    == default_actions()[d],
{
    match toml_tables(text) {
        Some(tables) => match profile_sections(tables) {
            Some((nav, act)) => lemma_sections_keymap_complete(nav, act, k.spec_bindings()),
            None => {},
        },
        None => {},
    }
}

/// The labels of an action's bindings, in order.
pub open spec fn labels_of_action(bs: Seq<BindingView>, action: Action) -> Seq<Seq<char>>
    decreases bs.len(),
{
    if bs.len() == 0 {
        Seq::empty()
    } else if bs.last().action == action {
        labels_of_action(bs.drop_last(), action).push(bs.last().label)
    } else {
        labels_of_action(bs.drop_last(), action)
    }
}

impl Keybindings {
    /// The labels of an action's keys, joined by `/`, as hints show them.
    pub fn label(&self, action: Action) -> (r: String)
        ensures
            r@ == join_seq(labels_of_action(self.spec_bindings(), action), "/"@),
    {
        let mut labels: Vec<String> = Vec::new();
        let ghost bs = self.spec_bindings();
        let mut i: usize = 0;
        while i < self.bindings.len()
            invariant
                i <= self.bindings@.len(),
                bs == binding_views(self.bindings@),
                views(labels@) == labels_of_action(bs.take(i as int), action),
            decreases self.bindings.len() - i,
        {
            assert(bs.take(i as int + 1).drop_last() =~= bs.take(i as int));
            assert(bs.take(i as int + 1).last() == self.bindings@[i as int]@);
            if self.bindings[i].action == action {
                let l = self.bindings[i].label.clone();
                let ghost prev = labels@;
                labels.push(l);
                assert(views(labels@) =~= views(prev).push(l@));
            }
            i = i + 1;
        }
        assert(bs.take(i as int) =~= bs);
        join(&labels, "/")
    }
}

/// How long a started key sequence waits for its next key: 750 ms, in nanoseconds.
pub const SEQUENCE_TIMEOUT_NANOS: u64 = 750_000_000;

/// Resolves key events into actions, keeping the keys of a sequence that is still pending.
/// Times are nanoseconds of a monotonic clock.
#[derive(Debug)]
pub struct Resolver {
    pending: Vec<Key>,
    last: Option<u64>,
    context: u8,
}

/// The state of a resolver.
pub struct ResolverView {
    pub pending: Seq<Key>,
    pub last: Option<u64>,
    pub context: u8,
}

impl View for Resolver {
    type V = ResolverView;

    closed spec fn view(&self) -> ResolverView {
        ResolverView { pending: self.pending@, last: self.last, context: self.context }
    }
}

/// Whether a binding is active in a context bit.
pub open spec fn active_in(b: BindingView, context: u8) -> bool {
    b.contexts & context != 0
}

/// Some active binding begins with `keys`.
pub open spec fn has_candidates(bs: Seq<BindingView>, keys: Seq<Key>, context: u8) -> bool {
    exists|i: int| 0 <= i < bs.len() && active_in(#[trigger] bs[i], context) && is_prefix(keys, bs[i].keys)
}

/// The action of the first active binding whose keys are exactly `keys`.
pub open spec fn exact_action(bs: Seq<BindingView>, keys: Seq<Key>, context: u8) -> Option<Action>
    decreases bs.len(),
{
    if bs.len() == 0 {
        None
    } else if active_in(bs[0], context) && bs[0].keys == keys {
        Some(bs[0].action)
    } else {
        exact_action(bs.drop_first(), keys, context)
    }
}

/// The time since `last` has reached the sequence timeout; a clock that went back counts as
/// no time.
pub open spec fn timed_out(last: Option<u64>, now: u64) -> bool {
    match last {
        Some(t) => now >= t && now - t >= SEQUENCE_TIMEOUT_NANOS,
        None => false,
    }
}

/// The next state of a resolver and the action it resolves for one key.
pub open spec fn feed_spec(
    s: ResolverView,
    bs: Seq<BindingView>,
    key: Key,
    context: u8,
    now: u64,
) -> (ResolverView, Option<Action>) {
    let base = if s.context != context || timed_out(s.last, now) {
        Seq::empty()
    } else {
        s.pending
    };
    let k = normalized(key);
    let extended = base.push(k);
    let pending = if has_candidates(bs, extended, context) {
        extended
    } else {
        seq![k]
    };
    match exact_action(bs, pending, context) {
        Some(a) => (ResolverView { pending: Seq::empty(), last: Some(now), context }, Some(a)),
        None => if has_candidates(bs, pending, context) {
            (ResolverView { pending, last: Some(now), context }, None)
        } else {
            (ResolverView { pending: Seq::empty(), last: None, context }, None)
        },
    }
}

/// A sequence has been started and its next key is still awaited.
pub open spec fn pending_spec(s: ResolverView, now: u64) -> bool {
    s.pending.len() > 0 && match s.last {
        Some(t) => !(now >= t && now - t >= SEQUENCE_TIMEOUT_NANOS),
        None => false,
    }
}

fn any_candidate(bindings: &Vec<Binding>, keys: &Vec<Key>, context: u8) -> (r: bool)
    ensures
        r == has_candidates(binding_views(bindings@), keys@, context),
{
    let ghost bs = binding_views(bindings@);
    let mut i: usize = 0;
    while i < bindings.len()
        invariant
            i <= bindings@.len(),
            bs == binding_views(bindings@),
            forall|j: int|
                0 <= j < i ==> !(active_in(#[trigger] bs[j], context) && is_prefix(keys@, bs[j].keys)),
        decreases bindings.len() - i,
    {
        assert(bs[i as int] == bindings@[i as int]@);
        if bindings[i].contexts & context != 0 && keys_prefix(keys, &bindings[i].keys) {
            return true;
        }
        i = i + 1;
    }
    false
}

/// Bindings before the first active one with exactly these keys do not change the action
/// that the keys resolve to.
pub proof fn lemma_exact_action(bs: Seq<BindingView>, keys: Seq<Key>, context: u8, i: int)
    requires
        0 <= i <= bs.len(),
        forall|j: int| 0 <= j < i ==> !(active_in(#[trigger] bs[j], context) && bs[j].keys == keys),
    ensures
        exact_action(bs, keys, context) == exact_action(bs.skip(i), keys, context),
    decreases i,
{
    if i > 0 {
        let t = bs.drop_first();
        assert forall|j: int| 0 <= j < i - 1 implies !(active_in(#[trigger] t[j], context) && t[j].keys
            == keys) by {
            assert(t[j] == bs[j + 1]);
        }
        lemma_exact_action(t, keys, context, i - 1);
        assert(t.skip(i - 1) =~= bs.skip(i));
        assert(!(active_in(bs[0], context) && bs[0].keys == keys));
    } else {
        assert(bs.skip(0) =~= bs);
    }
}

fn find_exact(bindings: &Vec<Binding>, keys: &Vec<Key>, context: u8) -> (r: Option<Action>)
    ensures
        r == exact_action(binding_views(bindings@), keys@, context),
{
    let ghost bs = binding_views(bindings@);
    let mut i: usize = 0;
    while i < bindings.len()
        invariant
            i <= bindings@.len(),
            bs == binding_views(bindings@),
            forall|j: int| 0 <= j < i ==> !(active_in(#[trigger] bs[j], context) && bs[j].keys == keys@),
        decreases bindings.len() - i,
    {
        assert(bs[i as int] == bindings@[i as int]@);
        if bindings[i].contexts & context != 0 && keys_prefix(keys, &bindings[i].keys)
            && bindings[i].keys.len() == keys.len() {
            proof {
                assert(bs[i as int].keys =~= keys@);
                lemma_exact_action(bs, keys@, context, i as int);
                assert(bs.skip(i as int)[0] == bs[i as int]);
            }
            return Some(bindings[i].action);
        }
        proof {
            if active_in(bs[i as int], context) && bs[i as int].keys == keys@ {
                assert(bindings@[i as int].keys@.take(keys@.len() as int) =~= keys@);
            }
        }
        i = i + 1;
    }
    proof {
        lemma_exact_action(bs, keys@, context, i as int);
    }
    None
}

impl Resolver {
    pub fn new() -> (r: Resolver)
        ensures
            r@.pending.len() == 0,
            r@.last is None,
            r@.context == 0,
    {
        Resolver { pending: Vec::new(), last: None, context: 0 }
    }

    /// Forget a started sequence.
    pub fn reset(&mut self)
        ensures
            final(self)@.pending.len() == 0,
            final(self)@.last is None,
            final(self)@.context == old(self)@.context,
    {
        self.pending.clear();
        self.last = None;
    }

    /// Whether a started sequence still awaits its next key at time `now`.
    pub fn pending(&self, now: u64) -> (b: bool)
        ensures
            b == pending_spec(self@, now),
    {
        self.pending.len() > 0 && match self.last {
            Some(t) => !(now >= t && now - t >= SEQUENCE_TIMEOUT_NANOS),
            None => false,
        }
    }

    /// Resolve one key event in a context at time `now`: the action of a completed sequence,
    /// or `None` while a sequence is pending or when the key is bound to nothing.
    pub fn feed(&mut self, bindings: &Keybindings, event: Key, context: Context, now: u64) -> (r:
        Option<Action>)
        ensures
            (final(self)@, r) == feed_spec(
                old(self)@,
                bindings.spec_bindings(),
                event,
                context_bit(context),
                now,
            ),
    {
        let context = context.bit();
        let expired = match self.last {
            Some(t) => now >= t && now - t >= SEQUENCE_TIMEOUT_NANOS,
            None => false,
        };
        if self.context != context || expired {
            self.pending.clear();
            self.last = None;
        }
        self.context = context;
        self.last = Some(now);
        let key = event.event();
        self.pending.push(key);
        if !any_candidate(&bindings.bindings, &self.pending, context) {
            let mut single = Vec::new();
            single.push(key);
            assert(single@ =~= seq![key]);
            self.pending = single;
        }
        match find_exact(&bindings.bindings, &self.pending, context) {
            Some(action) => {
                self.pending.clear();
                return Some(action);
            },
            None => {},
        }
        if !any_candidate(&bindings.bindings, &self.pending, context) {
            self.pending.clear();
            self.last = None;
        }
        None
    }
}

impl Default for Resolver {
    fn default() -> (r: Resolver)
        ensures
            r@.pending.len() == 0,
            r@.last is None,
            r@.context == 0,
    {
        Resolver::new()
    }
}

/// The states and resolved actions of feeding `events` one by one at `times`.
pub open spec fn feed_all(
    s: ResolverView,
    bs: Seq<BindingView>,
    events: Seq<Key>,
    context: u8,
    times: Seq<u64>,
) -> (ResolverView, Seq<Option<Action>>)
    decreases events.len(),
{
    if events.len() == 0 {
        (s, Seq::empty())
    } else {
        let (before, actions) = feed_all(s, bs, events.drop_last(), context, times.drop_last());
        let (after, action) = feed_spec(before, bs, events.last(), context, times.last());
        (after, actions.push(action))
    }
}

/// Two bindings active in the same context share a context bit.
pub proof fn lemma_shared_context(a: u8, b: u8, context: Context)
    requires
        a & context_bit(context) != 0,
        b & context_bit(context) != 0,
    ensures
        a & b != 0,
{
    let c = context_bit(context);
    assert((a & c != 0 && b & c != 0 && (c == 1 || c == 2 || c == 4 || c == 8 || c == 16 || c
        == 32 || c == 64)) ==> a & b != 0) by (bit_vector);
}

/// In a conflict-free keymap, the keys of an active binding, or a proper prefix of them,
/// resolve to that binding alone.
pub proof fn lemma_unique_exact(bs: Seq<BindingView>, i: int, context: Context, t: int)
    requires
        conflict_free(bs),
        0 <= i < bs.len(),
        active_in(bs[i], context_bit(context)),
        1 <= t <= bs[i].keys.len(),
    ensures
        has_candidates(bs, bs[i].keys.take(t), context_bit(context)),
        exact_action(bs, bs[i].keys.take(t), context_bit(context)) == if t == bs[i].keys.len() {
            Some(bs[i].action)
        } else {
            None::<Action>
        },
{
    let c = context_bit(context);
    let p = bs[i].keys.take(t);
    assert(is_prefix(p, bs[i].keys));
    assert forall|j: int| 0 <= j < bs.len() && j != i implies !(active_in(#[trigger] bs[j], c)
        && bs[j].keys == p) by {
        if active_in(bs[j], c) && bs[j].keys == p {
            lemma_shared_context(bs[i].contexts, bs[j].contexts, context);
            lemma_shared_context(bs[j].contexts, bs[i].contexts, context);
            assert(prefix_related(bs[j].keys, bs[i].keys));
            assert(prefix_related(bs[i].keys, bs[j].keys));
            if j < i {
                assert(conflicting(bs[j], bs[i]));
            } else {
                assert(conflicting(bs[i], bs[j]));
            }
        }
    }
    if t == bs[i].keys.len() {
        assert(p =~= bs[i].keys);
        lemma_exact_action(bs, p, c, i);
        assert(bs.skip(i)[0] == bs[i]);
    } else {
        assert(bs[i].keys != p);
        lemma_exact_action(bs, p, c, bs.len() as int);
        assert(bs.skip(bs.len() as int).len() == 0);
    }
}

/// Typing the keys of an active binding one after another, each within the sequence
/// timeout of the one before, into a resolver with nothing pending: the last key resolves
/// the binding's action, the keys before it resolve nothing.
pub proof fn lemma_typed_prefix(
    s: ResolverView,
    bs: Seq<BindingView>,
    i: int,
    context: Context,
    events: Seq<Key>,
    times: Seq<u64>,
    t: int,
)
    requires
        conflict_free(bs),
        0 <= i < bs.len(),
        active_in(bs[i], context_bit(context)),
        s.pending.len() == 0,
        events.len() == bs[i].keys.len(),
        times.len() == events.len(),
        forall|k: int| 0 <= k < events.len() ==> normalized(#[trigger] events[k]) == bs[i].keys[k],
        forall|k: int|
            0 < k < times.len() ==> times[k - 1] <= #[trigger] times[k] && times[k] - times[k - 1]
                < SEQUENCE_TIMEOUT_NANOS,
        1 <= t <= events.len(),
    ensures
        ({
            let (state, actions) = feed_all(
                s,
                bs,
                events.take(t),
                context_bit(context),
                times.take(t),
            );
            &&& actions.len() == t
            &&& forall|k: int| 0 <= k < t - 1 ==> #[trigger] actions[k] is None
            &&& if t < events.len() {
                &&& actions[t - 1] is None
                &&& state.pending == bs[i].keys.take(t)
                &&& state.last == Some(times[t - 1])
                &&& state.context == context_bit(context)
            } else {
                &&& actions[t - 1] == Some(bs[i].action)
                &&& state.pending.len() == 0
            }
        }),
    decreases t,
{
    let c = context_bit(context);
    let keys = bs[i].keys;
    let ev = events.take(t);
    let tm = times.take(t);
    assert(ev.drop_last() =~= events.take(t - 1));
    assert(tm.drop_last() =~= times.take(t - 1));
    assert(ev.last() == events[t - 1]);
    assert(tm.last() == times[t - 1]);
    let (before, actions) = feed_all(s, bs, events.take(t - 1), c, times.take(t - 1));
    let base = if before.context != c || timed_out(before.last, times[t - 1]) {
        Seq::empty()
    } else {
        before.pending
    };
    if t == 1 {
        assert(events.take(0).len() == 0);
        assert(before == s);
        assert(base.len() == 0);
    } else {
        lemma_typed_prefix(s, bs, i, context, events, times, t - 1);
        assert(!timed_out(before.last, times[t - 1]));
        assert(base == keys.take(t - 1));
    }
    assert(base.push(normalized(events[t - 1])) =~= keys.take(t));
    lemma_unique_exact(bs, i, context, t);
}

/// A bound key sequence typed in time triggers its action: in a keymap without conflicts,
/// feeding the keys of a binding active in the context, each within 750 ms of the one
/// before, to a resolver with nothing pending resolves nothing until the last key, which
/// resolves the binding's action.
pub proof fn lemma_typed_sequence_resolves(
    s: ResolverView,
    bs: Seq<BindingView>,
    i: int,
    context: Context,
    events: Seq<Key>,
    times: Seq<u64>,
)
    requires
        conflict_free(bs),
        0 <= i < bs.len(),
        bs[i].keys.len() > 0,
        active_in(bs[i], context_bit(context)),
        s.pending.len() == 0,
        events.len() == bs[i].keys.len(),
        times.len() == events.len(),
        forall|k: int| 0 <= k < events.len() ==> normalized(#[trigger] events[k]) == bs[i].keys[k],
        forall|k: int|
            0 < k < times.len() ==> times[k - 1] <= #[trigger] times[k] && times[k] - times[k - 1]
                < SEQUENCE_TIMEOUT_NANOS,
    ensures
        ({
            let (state, actions) = feed_all(s, bs, events, context_bit(context), times);
            &&& actions.len() == events.len()
            &&& forall|k: int| 0 <= k < events.len() - 1 ==> #[trigger] actions[k] is None
            &&& actions.last() == Some(bs[i].action)
            &&& state.pending.len() == 0
        }),
{
    lemma_typed_prefix(s, bs, i, context, events, times, events.len() as int);
    assert(events.take(events.len() as int) =~= events);
    assert(times.take(times.len() as int) =~= times);
}

/// A started sequence expires: once the timeout has passed since the last key, or the
/// context changed, the next key resolves as if nothing were pending.
pub proof fn lemma_expired_sequence_is_forgotten(
    s: ResolverView,
    bs: Seq<BindingView>,
    key: Key,
    context: u8,
    now: u64,
)
    requires
        s.context != context || timed_out(s.last, now),
    ensures
        feed_spec(s, bs, key, context, now) == feed_spec(
            ResolverView { pending: Seq::empty(), last: None, context },
            bs,
            key,
            context,
            now,
        ),
{
}

} // verus!
