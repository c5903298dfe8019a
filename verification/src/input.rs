//! The single-line text inputs of the lookup query and the history filter: which edits can be
//! undone, what an action asks of the input, and where word motions go. The buffer itself is
//! edtui's; word motions run edtui's motions on one character class per grapheme.
use vstd::prelude::*;
use edtui::{actions, EditorMode, EditorState, Lines};
use unicode_segmentation::UnicodeSegmentation;
use unicode_width::UnicodeWidthStr;
use crate::keybindings::Action;
use crate::navigation::InputMode;
use crate::strings::is_whitespace;
use crate::text::{char_is_control, is_control};

verus! {

/// How many edits an input can undo.
pub const UNDO_LIMIT: usize = 100;

/// What an input can undo and redo, and whether typing continues the last edit.
///
/// edtui keeps the snapshots; these counts decide when a snapshot is taken and which of
/// edtui's undo and redo steps may be replayed.
pub struct EditHistory {
    /// Whether the last edit began an insert session that later typing joins.
    pub insert_group: bool,
    /// How many edits can be undone.
    pub undo_available: usize,
    /// How many undone edits can be redone.
    pub redo_available: usize,
}

/// Which stored step to replay.
#[derive(Clone, Copy, Debug, PartialEq, Eq, Structural)]
pub enum Restore {
    Undo,
    Redo,
}

/// Never more steps than the undo limit, undone and not undone together.
pub open spec fn history_wf(h: EditHistory) -> bool {
    h.undo_available + h.redo_available <= UNDO_LIMIT
}

/// The history after an edit: a changed text outside an insert session is one more undo
/// step (up to the limit); any change forgets what could be redone, and the session
/// continues exactly when the input stays in insert mode.
pub open spec fn after_edit(h: EditHistory, changed: bool, insert_after: bool) -> EditHistory {
    if !changed {
        h
    } else {
        EditHistory {
            insert_group: insert_after,
            undo_available: if h.insert_group {
                h.undo_available
            } else if h.undo_available < UNDO_LIMIT {
                (h.undo_available + 1) as usize
            } else {
                UNDO_LIMIT
            },
            redo_available: 0,
        }
    }
}

/// The step that undo (or, with `redo`, redo) replays, if one is available.
pub open spec fn restore_step(h: EditHistory, redo: bool) -> Option<Restore> {
    if redo && h.redo_available > 0 {
        Some(Restore::Redo)
    } else if !redo && h.undo_available > 0 {
        Some(Restore::Undo)
    } else {
        None
    }
}

/// The history after undo or redo: one step moves from one side to the other, and the
/// input leaves insert mode.
pub open spec fn after_restore(h: EditHistory, redo: bool) -> EditHistory {
    match restore_step(h, redo) {
        Some(Restore::Redo) => EditHistory {
            insert_group: false,
            undo_available: (h.undo_available + 1) as usize,
            redo_available: (h.redo_available - 1) as usize,
        },
        Some(Restore::Undo) => EditHistory {
            insert_group: false,
            undo_available: (h.undo_available - 1) as usize,
            redo_available: (h.redo_available + 1) as usize,
        },
        None => EditHistory { insert_group: false, ..h },
    }
}

impl EditHistory {
    /// A fresh input: nothing to undo or redo.
    pub fn new() -> (r: EditHistory)
        ensures
            history_wf(r),
            !r.insert_group,
            r.undo_available == 0,
            r.redo_available == 0,
    {
        EditHistory { insert_group: false, undo_available: 0, redo_available: 0 }
    }

    /// Record an edit. `changed` says whether the text changed and `insert_after` whether the
    /// input is in insert mode afterwards. Where the result is true the edit is a new undo
    /// step, and the caller takes a snapshot of the text before it.
    pub fn edited(&mut self, changed: bool, insert_after: bool) -> (checkpoint: bool)
        requires
            history_wf(*old(self)),
        ensures
            history_wf(*final(self)),
            *final(self) == after_edit(*old(self), changed, insert_after),
            checkpoint == (changed && !old(self).insert_group),
    {
        if !changed {
            return false;
        }
        let checkpoint = !self.insert_group;
        if checkpoint {
            self.undo_available = if self.undo_available < UNDO_LIMIT {
                self.undo_available + 1
            } else {
                UNDO_LIMIT
            };
        }
        self.insert_group = insert_after;
        self.redo_available = 0;
        checkpoint
    }

    /// Undo (or, with `redo`, redo) one edit where one is available, then leave insert mode.
    /// The result is the step the caller replays, if any.
    pub fn restore(&mut self, redo: bool) -> (r: Option<Restore>)
        requires
            history_wf(*old(self)),
        ensures
            history_wf(*final(self)),
            r == restore_step(*old(self), redo),
            *final(self) == after_restore(*old(self), redo),
    {
        let r = if redo && self.redo_available > 0 {
            self.redo_available = self.redo_available - 1;
            self.undo_available = self.undo_available + 1;
            Some(Restore::Redo)
        } else if !redo && self.undo_available > 0 {
            self.undo_available = self.undo_available - 1;
            self.redo_available = self.redo_available + 1;
            Some(Restore::Undo)
        } else {
            None
        };
        self.insert_group = false;
        r
    }

    /// Switch the input's mode: leaving insert mode ends the insert session. Mode changes
    /// take no snapshot.
    pub fn switch_mode(&mut self, mode: InputMode)
        requires
            history_wf(*old(self)),
        ensures
            history_wf(*final(self)),
            final(self).undo_available == old(self).undo_available,
            final(self).redo_available == old(self).redo_available,
            final(self).insert_group == (old(self).insert_group && mode == InputMode::Insert),
    {
        match mode {
            InputMode::Insert => {},
            _ => {
                self.insert_group = false;
            },
        }
    }
}

/// An edit forgets every undone edit: afterwards redo replays nothing, so an abandoned
/// branch is never replayed.
pub proof fn lemma_edit_abandons_redo(h: EditHistory, insert_after: bool)
    requires
        history_wf(h),
    ensures
        restore_step(after_edit(h, true, insert_after), true) is None,
{
}

/// Undoing an edit and then redoing it leaves the same steps available, and redo replays
/// the step that undo stepped back over.
pub proof fn lemma_undo_redo_round_trip(h: EditHistory)
    requires
        history_wf(h),
        h.undo_available > 0,
    ensures
        restore_step(h, false) == Some(Restore::Undo),
        restore_step(after_restore(h, false), true) == Some(Restore::Redo),
        after_restore(after_restore(h, false), true).undo_available == h.undo_available,
        after_restore(after_restore(h, false), true).redo_available == h.redo_available,
{
}

/// Typing on in an insert session adds no undo step: the session is undone as a whole.
pub proof fn lemma_insert_session_is_one_step(h: EditHistory)
    requires
        history_wf(h),
    ensures
        after_edit(after_edit(h, true, true), true, true).undo_available == after_edit(
            h,
            true,
            true,
        ).undo_available,
{
}

/// However many edits and undos there are, the steps stay within the undo limit.
pub proof fn lemma_history_bounded(h: EditHistory, changed: bool, insert_after: bool, redo: bool)
    requires
        history_wf(h),
    ensures
        history_wf(after_edit(h, changed, insert_after)),
        history_wf(after_restore(h, redo)),
{
}

} // verus!

verus! {

/// What a selection action does with the copied text: keep it, cut it, or cut it and type
/// in its place.
#[derive(Clone, Copy, Debug, PartialEq, Eq, Structural)]
pub enum SelectionAction {
    Yank,
    Cut,
    Change,
}

/// What an action asks of a text input.
#[derive(Clone, Copy, Debug, PartialEq, Eq, Structural)]
pub enum InputCommand {
    /// Switch to a mode.
    SwitchMode(InputMode),
    /// Move past the grapheme under the cursor, then insert.
    Append,
    /// Replay an undo or redo step.
    Restore(Restore),
    Left,
    Right,
    WordBegin,
    WordEnd,
    Home,
    End,
    /// Read the clipboard and paste it.
    Paste,
    /// Copy the selection (or, for a cut, the grapheme under the cursor) to the clipboard,
    /// then act on it.
    Copy(SelectionAction),
    /// The input does not take the action.
    Ignore,
}

/// What an action asks of an input in a mode: editing and submitting enter insert mode,
/// the visual action toggles visual mode, and the selection actions copy first.
pub open spec fn command_of(action: Action, mode: InputMode) -> InputCommand {
    match action {
        Action::Edit | Action::Submit => InputCommand::SwitchMode(InputMode::Insert),
        Action::Append => InputCommand::Append,
        Action::Undo => InputCommand::Restore(Restore::Undo),
        Action::Redo => InputCommand::Restore(Restore::Redo),
        Action::Left => InputCommand::Left,
        Action::Right => InputCommand::Right,
        Action::WordBegin => InputCommand::WordBegin,
        Action::WordEnd => InputCommand::WordEnd,
        Action::Home => InputCommand::Home,
        Action::End => InputCommand::End,
        Action::Paste => InputCommand::Paste,
        Action::Visual => InputCommand::SwitchMode(
            if mode == InputMode::Visual {
                InputMode::Normal
            } else {
                InputMode::Visual
            },
        ),
        Action::YankSelection => InputCommand::Copy(SelectionAction::Yank),
        Action::DeleteSelection => InputCommand::Copy(SelectionAction::Cut),
        Action::ChangeSelection => InputCommand::Copy(SelectionAction::Change),
        _ => InputCommand::Ignore,
    }
}

/// Decide what an action asks of an input in `mode`.
pub fn input_command(action: Action, mode: InputMode) -> (r: InputCommand)
    ensures
        r == command_of(action, mode),
{
    match action {
        Action::Edit | Action::Submit => InputCommand::SwitchMode(InputMode::Insert),
        Action::Append => InputCommand::Append,
        Action::Undo => InputCommand::Restore(Restore::Undo),
        Action::Redo => InputCommand::Restore(Restore::Redo),
        Action::Left => InputCommand::Left,
        Action::Right => InputCommand::Right,
        Action::WordBegin => InputCommand::WordBegin,
        Action::WordEnd => InputCommand::WordEnd,
        Action::Home => InputCommand::Home,
        Action::End => InputCommand::End,
        Action::Paste => InputCommand::Paste,
        Action::Visual => InputCommand::SwitchMode(
            match mode {
                InputMode::Visual => InputMode::Normal,
                _ => InputMode::Visual,
            },
        ),
        Action::YankSelection => InputCommand::Copy(SelectionAction::Yank),
        Action::DeleteSelection => InputCommand::Copy(SelectionAction::Cut),
        Action::ChangeSelection => InputCommand::Copy(SelectionAction::Change),
        _ => InputCommand::Ignore,
    }
}

/// The range that a selection action copies: the selection where there is one; for a cut
/// without one, the grapheme under the cursor (`next_len` long). An empty range copies
/// nothing.
pub open spec fn copy_range_spec(
    action: SelectionAction,
    selection: Option<(usize, usize)>,
    cursor: usize,
    next_len: usize,
) -> Option<(int, int)> {
    let range: Option<(int, int)> = match selection {
        Some((s, e)) => Some((s as int, e as int)),
        None => if action == SelectionAction::Cut {
            Some((cursor as int, cursor + next_len))
        } else {
            None
        },
    };
    match range {
        Some((s, e)) => if s < e {
            Some((s, e))
        } else {
            None
        },
        None => None,
    }
}

/// The range that a selection action copies, or none.
pub fn copy_range(
    action: SelectionAction,
    selection: Option<(usize, usize)>,
    cursor: usize,
    next_len: usize,
) -> (r: Option<(usize, usize)>)
    requires
        cursor + next_len <= usize::MAX,
    ensures
        match copy_range_spec(action, selection, cursor, next_len) {
            Some((s, e)) => r == Some((s as usize, e as usize)),
            None => r is None,
        },
{
    let range = match selection {
        Some(range) => Some(range),
        None => match action {
            SelectionAction::Cut => Some((cursor, cursor + next_len)),
            _ => None,
        },
    };
    match range {
        Some((s, e)) => if s < e {
            Some((s, e))
        } else {
            None
        },
        None => None,
    }
}

/// Why a paste is refused.
pub open spec fn paste_refusal() -> Seq<char> {
    "Paste must contain a single line without control characters."@
}

/// Check pasted text: it must hold no control character, so no line break either.
pub fn check_paste(text: &str) -> (r: Result<(), String>)
    ensures
        r is Ok <==> (forall|i: int| 0 <= i < text@.len() ==> !is_control(#[trigger] text@[i])),
        r matches Err(m) ==> m@ == paste_refusal(),
{
    let n = text.unicode_len();
    let mut i: usize = 0;
    while i < n
        invariant
            n == text@.len(),
            i <= n,
            forall|j: int| 0 <= j < i ==> !is_control(#[trigger] text@[j]),
        decreases n - i,
    {
        if char_is_control(text.get_char(i)) {
            return Err(String::from_str("Paste must contain a single line without control characters."));
        }
        i = i + 1;
    }
    Ok(())
}

/// The extended grapheme clusters of a text, as unicode-segmentation splits it.
pub uninterp spec fn graphemes_of(text: Seq<char>) -> Seq<Seq<char>>;

/// Calls `UnicodeSegmentation::graphemes` of unicode-segmentation (extended clusters) and
/// collects the pieces. The contract only names the result: the clusters of the text given.
#[verifier::external_body]
fn graphemes(text: &str) -> (r: Vec<String>)
    ensures
        r@.map_values(|g: String| g@) == graphemes_of(text@),
{
    text.graphemes(true).map(str::to_owned).collect()
}

/// Whether `char::is_alphanumeric` holds of a character: Unicode Alphabetic or Numeric.
pub uninterp spec fn alphanumeric(c: char) -> bool;

/// Calls `char::is_alphanumeric`. The contract only names the result.
#[verifier::external_body]
fn char_is_alphanumeric(c: char) -> (b: bool)
    ensures
        b == alphanumeric(c),
{
    c.is_alphanumeric()
}

/// The character class of a grapheme for word motions: `' '` where it is all whitespace,
/// `'a'` where it holds a letter, digit or underscore, else `'.'` (punctuation and symbols).
pub open spec fn class_of(g: Seq<char>) -> char {
    if forall|i: int| 0 <= i < g.len() ==> is_whitespace(#[trigger] g[i]) {
        ' '
    } else if exists|i: int| 0 <= i < g.len() && (alphanumeric(#[trigger] g[i]) || g[i] == '_') {
        'a'
    } else {
        '.'
    }
}

/// The class of a grapheme.
pub fn grapheme_class(g: &str) -> (r: char)
    ensures
        r == class_of(g@),
{
    let n = g.unicode_len();
    let mut all_space = true;
    let mut word = false;
    let mut i: usize = 0;
    while i < n
        invariant
            n == g@.len(),
            i <= n,
            all_space == (forall|j: int| 0 <= j < i ==> is_whitespace(#[trigger] g@[j])),
            word == (exists|j: int| 0 <= j < i && (alphanumeric(#[trigger] g@[j]) || g@[j] == '_')),
        decreases n - i,
    {
        let c = g.get_char(i);
        if !crate::strings::char_is_whitespace(c) {
            all_space = false;
        }
        if char_is_alphanumeric(c) || c == '_' {
            word = true;
        }
        proof {
            if word && !(exists|j: int| 0 <= j < i && (alphanumeric(#[trigger] g@[j]) || g@[j] == '_')) {
                assert(alphanumeric(g@[i as int]) || g@[i as int] == '_');
            }
            if !all_space {
                if forall|j: int| 0 <= j < i ==> is_whitespace(#[trigger] g@[j]) {
                    assert(!is_whitespace(g@[i as int]));
                }
            }
        }
        i = i + 1;
    }
    if all_space {
        ' '
    } else if word {
        'a'
    } else {
        '.'
    }
}

/// The classes of a text's graphemes, one per grapheme.
pub open spec fn classes_of(text: Seq<char>) -> Seq<char> {
    graphemes_of(text).map_values(|g: Seq<char>| class_of(g))
}

/// The word-motion classes of a text: one class per grapheme, so that combining marks and
/// joined emoji move as one.
pub fn word_classes(text: &str) -> (r: Vec<char>)
    ensures
        r@ == classes_of(text@),
{
    let pieces = graphemes(text);
    let ghost views = pieces@.map_values(|g: String| g@);
    let mut r: Vec<char> = Vec::new();
    let mut i: usize = 0;
    while i < pieces.len()
        invariant
            i <= pieces@.len(),
            views == pieces@.map_values(|g: String| g@),
            r@ == views.take(i as int).map_values(|g: Seq<char>| class_of(g)),
        decreases pieces.len() - i,
    {
        r.push(grapheme_class(pieces[i].as_str()));
        assert(views.take(i + 1) =~= views.take(i as int).push(views[i as int]));
        assert(r@ =~= views.take(i + 1).map_values(|g: Seq<char>| class_of(g)));
        i = i + 1;
    }
    assert(views.take(i as int) =~= views);
    r
}

/// The column that edtui's `MoveWordForwardToEndOfWord(1)` reaches in insert mode on a
/// one-line text from column `col`.
pub uninterp spec fn edtui_word_end(line: Seq<char>, col: nat) -> nat;

/// The column that edtui's `MoveWordBackward(1)` reaches in insert mode on a one-line text
/// from column `col`.
pub uninterp spec fn edtui_word_back(line: Seq<char>, col: nat) -> nat;

/// Runs edtui's `MoveWordForwardToEndOfWord(1)` on an insert-mode editor that holds `line`
/// with the cursor at `col`, and reads the cursor's column. The contract names the result
/// and states that the cursor stays within the line, as the motion only moves onto its
/// characters.
#[verifier::external_body]
fn word_end_column(line: &Vec<char>, col: usize) -> (r: usize)
    requires
        col <= line@.len(),
    ensures
        r == edtui_word_end(line@, col as nat),
        r <= line@.len(),
{
    let text: String = line.iter().collect();
    let mut state = EditorState::new(Lines::from(text.as_str()));
    state.mode = EditorMode::Insert;
    state.cursor.col = col;
    state.execute(actions::MoveWordForwardToEndOfWord(1));
    state.cursor.col
}

/// Runs edtui's `MoveWordBackward(1)` on an insert-mode editor that holds `line` with the
/// cursor at `col`, and reads the cursor's column. The contract names the result and states
/// that the cursor stays within the line, as the motion only moves back.
#[verifier::external_body]
fn word_back_column(line: &Vec<char>, col: usize) -> (r: usize)
    requires
        col <= line@.len(),
    ensures
        r == edtui_word_back(line@, col as nat),
        r <= line@.len(),
{
    let text: String = line.iter().collect();
    let mut state = EditorState::new(Lines::from(text.as_str()));
    state.mode = EditorMode::Insert;
    state.cursor.col = col;
    state.execute(actions::MoveWordBackward(1));
    state.cursor.col
}

/// Whether every class from `from` on is whitespace.
pub open spec fn blank_from(classes: Seq<char>, from: int) -> bool {
    forall|i: int| from <= i < classes.len() ==> is_whitespace(#[trigger] classes[i])
}

/// Whether the cursor is on the last grapheme of a word: on a non-blank class that the next
/// grapheme (if any) does not share.
pub open spec fn at_word_end(classes: Seq<char>, cursor: int) -> bool {
    &&& cursor < classes.len()
    &&& classes[cursor] != ' '
    &&& (cursor + 1 == classes.len() || classes[cursor] != classes[cursor + 1])
}

/// The grapheme a word motion reaches from grapheme `cursor`, given the column `moved` that
/// edtui's motion reaches on the classes (its word-end motion when `end`, else its
/// word-back motion); the number of graphemes means the end of the text. Moving back goes
/// where edtui's motion goes. Moving to a word's end stops after the word in insert mode and
/// on its last grapheme otherwise; where only blanks follow, it goes to the end of the text.
pub open spec fn word_target_with(
    classes: Seq<char>,
    cursor: int,
    insertion: bool,
    end: bool,
    moved: int,
) -> int {
    let n = classes.len() as int;
    let reached = if !end {
        moved
    } else if blank_from(classes, cursor) {
        n
    } else if !insertion && at_word_end(classes, cursor) && cursor + 1 < n && blank_from(
        classes,
        cursor + 1,
    ) {
        n
    } else {
        let stop = if !insertion || !at_word_end(classes, cursor) {
            moved
        } else {
            cursor
        };
        if insertion {
            stop + 1
        } else {
            stop
        }
    };
    if reached < n {
        reached
    } else {
        n
    }
}

/// The grapheme a word motion reaches, with edtui's motion run on the classes.
pub open spec fn word_target_spec(classes: Seq<char>, cursor: int, insertion: bool, end: bool) -> int {
    word_target_with(
        classes,
        cursor,
        insertion,
        end,
        if end {
            edtui_word_end(classes, cursor as nat) as int
        } else {
            edtui_word_back(classes, cursor as nat) as int
        },
    )
}

/// Whether every class from `from` on is whitespace.
fn blank_after(classes: &Vec<char>, from: usize) -> (b: bool)
    requires
        from <= classes@.len(),
    ensures
        b == blank_from(classes@, from as int),
{
    let mut i = from;
    while i < classes.len()
        invariant
            from <= i <= classes@.len(),
            forall|j: int| from <= j < i ==> is_whitespace(#[trigger] classes@[j]),
        decreases classes.len() - i,
    {
        if !crate::strings::char_is_whitespace(classes[i]) {
            return false;
        }
        i = i + 1;
    }
    true
}

/// Where a word motion goes from grapheme `cursor` among graphemes of the given classes,
/// given the column `moved` that edtui's motion reached on them (see `word_target_with`).
pub fn word_target_after(
    classes: &Vec<char>,
    cursor: usize,
    insertion: bool,
    end: bool,
    moved: usize,
) -> (r: usize)
    requires
        cursor <= classes@.len(),
    ensures
        r as int == word_target_with(classes@, cursor as int, insertion, end, moved as int),
        r <= classes@.len(),
{
    let n = classes.len();
    let reached = if !end {
        moved
    } else if blank_after(classes, cursor) {
        n
    } else {
        let at_end = cursor < n && classes[cursor] != ' ' && (cursor + 1 == n
            || classes[cursor] != classes[cursor + 1]);
        if !insertion && at_end && cursor + 1 < n && blank_after(classes, cursor + 1) {
            n
        } else {
            let stop = if !insertion || !at_end {
                moved
            } else {
                cursor
            };
            if insertion && stop < n {
                stop + 1
            } else if insertion {
                n
            } else {
                stop
            }
        }
    };
    if reached < n {
        reached
    } else {
        n
    }
}

/// Where a word motion goes from grapheme `cursor` among graphemes of the given classes:
/// back to a word's beginning, or on to a word's end (`end`). `insertion` says whether the
/// input is in insert mode. The result is a grapheme index, or the number of graphemes for
/// the end of the text.
pub fn word_target(classes: &Vec<char>, cursor: usize, insertion: bool, end: bool) -> (r: usize)
    requires
        cursor <= classes@.len(),
    ensures
        r as int == word_target_spec(classes@, cursor as int, insertion, end),
        r <= classes@.len(),
{
    let moved = if end {
        word_end_column(classes, cursor)
    } else {
        word_back_column(classes, cursor)
    };
    word_target_after(classes, cursor, insertion, end, moved)
}

/// The notice after a selection action's text reached the clipboard.
pub open spec fn selection_notice(action: SelectionAction) -> Seq<char> {
    match action {
        SelectionAction::Yank => "Selection copied to clipboard."@,
        SelectionAction::Cut => "Text cut to clipboard."@,
        SelectionAction::Change => "Selection cut to clipboard; insert mode."@,
    }
}

/// The notice after a selection action's text reached the clipboard.
pub fn copied_notice(action: SelectionAction) -> (r: &'static str)
    ensures
        r@ == selection_notice(action),
{
    match action {
        SelectionAction::Yank => "Selection copied to clipboard.",
        SelectionAction::Cut => "Text cut to clipboard.",
        SelectionAction::Change => "Selection cut to clipboard; insert mode.",
    }
}

/// The columns that a text takes on a terminal, as unicode-width measures it.
pub uninterp spec fn display_width_of(text: Seq<char>) -> nat;

/// Calls `UnicodeWidthStr::width` of unicode-width. The contract only names the result: the
/// displayed width of the text given.
#[verifier::external_body]
fn display_width(text: &str) -> (r: usize)
    ensures
        r == display_width_of(text@),
{
    text.width()
}

/// The text of graphemes `a` up to (not including) `b`.
pub open spec fn span(gs: Seq<Seq<char>>, a: int, b: int) -> Seq<char>
    decreases b - a,
{
    if b <= a {
        Seq::empty()
    } else {
        span(gs, a, b - 1) + gs[b - 1]
    }
}

/// The first grapheme from which the text up to the cursor fits in `width` columns,
/// searching from `s` on; the cursor itself where none does.
pub open spec fn first_start(gs: Seq<Seq<char>>, cursor: int, width: nat, s: int) -> int
    decreases cursor - s,
{
    if s >= cursor || display_width_of(span(gs, s, cursor)) < width {
        s
    } else {
        first_start(gs, cursor, width, s + 1)
    }
}

/// The grapheme after the last one that fits in `width` columns, taking graphemes from `i`
/// on with `used` columns already taken.
pub open spec fn window_end(gs: Seq<Seq<char>>, width: nat, i: int, used: nat) -> int
    decreases gs.len() - i,
{
    if i < gs.len() && used + display_width_of(gs[i]) <= width {
        window_end(gs, width, i + 1, used + display_width_of(gs[i]))
    } else {
        i
    }
}

/// What an input shows in a box `width` columns wide: the graphemes `start` up to `end`,
/// with the cursor `column` columns from the left.
#[derive(Clone, Copy, Debug, PartialEq, Eq, Structural)]
pub struct Window {
    pub start: usize,
    pub end: usize,
    pub column: usize,
}

/// The window of an input: it scrolls just far enough that the text before the cursor fits,
/// then shows every grapheme that fits from there. A box without columns shows nothing.
pub open spec fn window_spec(gs: Seq<Seq<char>>, cursor: int, width: nat) -> Window {
    if width == 0 {
        Window { start: 0, end: 0, column: 0 }
    } else {
        let start = first_start(gs, cursor, width, 0);
        Window {
            start: start as usize,
            end: window_end(gs, width, start, 0) as usize,
            column: display_width_of(span(gs, start, cursor)) as usize,
        }
    }
}

proof fn lemma_first_start_bounds(gs: Seq<Seq<char>>, cursor: int, width: nat, s: int)
    requires
        0 <= s <= cursor,
    ensures
        s <= first_start(gs, cursor, width, s) <= cursor,
        first_start(gs, cursor, width, s) == cursor || display_width_of(
            span(gs, first_start(gs, cursor, width, s), cursor),
        ) < width,
    decreases cursor - s,
{
    if s < cursor && display_width_of(span(gs, s, cursor)) >= width {
        lemma_first_start_bounds(gs, cursor, width, s + 1);
    }
}

proof fn lemma_window_end_bounds(gs: Seq<Seq<char>>, width: nat, i: int, used: nat)
    requires
        0 <= i <= gs.len(),
    ensures
        i <= window_end(gs, width, i, used) <= gs.len(),
    decreases gs.len() - i,
{
    if i < gs.len() && used + display_width_of(gs[i]) <= width {
        lemma_window_end_bounds(gs, width, i + 1, used + display_width_of(gs[i]));
    }
}

/// The text of graphemes `a` up to `b`.
fn span_text(gs: &Vec<String>, a: usize, b: usize) -> (r: String)
    requires
        a <= b <= gs@.len(),
    ensures
        r@ == span(gs@.map_values(|g: String| g@), a as int, b as int),
{
    let ghost views = gs@.map_values(|g: String| g@);
    let mut r = String::new();
    let mut i = a;
    while i < b
        invariant
            a <= i <= b <= gs@.len(),
            views == gs@.map_values(|g: String| g@),
            r@ == span(views, a as int, i as int),
        decreases b - i,
    {
        let next = crate::strings::concat(r.as_str(), gs[i].as_str());
        r = next;
        i = i + 1;
    }
    r
}

/// Lay an input out in a box `width` columns wide, given its graphemes and the cursor's
/// grapheme index.
pub fn visible_window(graphemes: &Vec<String>, cursor: usize, width: usize) -> (r: Window)
    requires
        cursor <= graphemes@.len(),
    ensures
        r == window_spec(graphemes@.map_values(|g: String| g@), cursor as int, width as nat),
        width > 0 ==> r.start <= cursor && r.start <= r.end <= graphemes@.len(),
        width > 0 ==> r.column < width || r.start == cursor,
{
    let ghost gs = graphemes@.map_values(|g: String| g@);
    if width == 0 {
        return Window { start: 0, end: 0, column: 0 };
    }
    proof {
        lemma_first_start_bounds(gs, cursor as int, width as nat, 0);
    }
    let mut start: usize = 0;
    while start < cursor && display_width(span_text(graphemes, start, cursor).as_str()) >= width
        invariant
            start <= cursor <= graphemes@.len(),
            gs == graphemes@.map_values(|g: String| g@),
            width > 0,
            first_start(gs, cursor as int, width as nat, 0) == first_start(
                gs,
                cursor as int,
                width as nat,
                start as int,
            ),
        decreases cursor - start,
    {
        start = start + 1;
    }
    let column = display_width(span_text(graphemes, start, cursor).as_str());
    proof {
        lemma_window_end_bounds(gs, width as nat, start as int, 0);
    }
    let mut end = start;
    let mut used: usize = 0;
    while end < graphemes.len() && display_width(graphemes[end].as_str()) <= width - used
        invariant
            start <= end <= graphemes@.len(),
            used <= width,
            gs == graphemes@.map_values(|g: String| g@),
            window_end(gs, width as nat, start as int, 0) == window_end(
                gs,
                width as nat,
                end as int,
                used as nat,
            ),
        decreases graphemes.len() - end,
    {
        assert(gs[end as int] == graphemes@[end as int]@);
        used = used + display_width(graphemes[end].as_str());
        end = end + 1;
    }
    proof {
        if end < graphemes.len() {
            assert(gs[end as int] == graphemes@[end as int]@);
        }
    }
    Window { start, end, column }
}

/// Lay out a text input in a box `width` columns wide with the cursor before grapheme
/// `cursor` (a cursor past the end stands at the end).
pub fn input_window(text: &str, cursor: usize, width: usize) -> (r: Window)
    ensures
        ({
            let gs = graphemes_of(text@);
            let at: int = if cursor < gs.len() {
                cursor as int
            } else {
                gs.len() as int
            };
            r == window_spec(gs, at, width as nat)
        }),
{
    let pieces = graphemes(text);
    let at = if cursor < pieces.len() {
        cursor
    } else {
        pieces.len()
    };
    visible_window(&pieces, at, width)
}

} // verus!

