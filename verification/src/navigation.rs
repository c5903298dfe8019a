//! The terminal interface's navigation decisions: tabs and panes, focus movement, list
//! selection, language selectors, the history filter dialog, and how an action is routed.
//! Drawing, editing and reading history are left to the caller.
use vstd::prelude::*;
use crate::domain::Language;
use crate::history::Cursor;
use crate::keybindings::{Action, BindingView, Context, Keybindings, labels_of_action};
use crate::strings::{concat, copy_string, join_seq, views};
use crate::text::{safe_seq, safe_text};

verus! {

/// The two tabs.
#[derive(Clone, Copy, Debug, PartialEq, Eq, Structural)]
pub enum Tab {
    Lookup,
    History,
}

/// The panes that can hold focus.
#[derive(Clone, Copy, Debug, PartialEq, Eq, Structural)]
pub enum Focus {
    Input,
    Source,
    Target,
    Details,
    Recent,
    History,
}

/// The panes of a tab, in their numbered order.
pub open spec fn tab_panes(tab: Tab) -> Seq<Focus> {
    match tab {
        Tab::Lookup => seq![Focus::Input, Focus::Source, Focus::Target, Focus::Details, Focus::Recent],
        Tab::History => seq![Focus::History, Focus::Details],
    }
}

impl Tab {
    /// The panes of the tab, in their numbered order.
    pub fn panes(self) -> (r: Vec<Focus>)
        ensures
            r@ == tab_panes(self),
    {
        let mut r: Vec<Focus> = Vec::new();
        match self {
            Tab::Lookup => {
                r.push(Focus::Input);
                r.push(Focus::Source);
                r.push(Focus::Target);
                r.push(Focus::Details);
                r.push(Focus::Recent);
            },
            Tab::History => {
                r.push(Focus::History);
                r.push(Focus::Details);
            },
        }
        assert(r@ =~= tab_panes(self));
        r
    }
}

/// The editing modes of a text input.
#[derive(Clone, Copy, Debug, PartialEq, Eq, Structural)]
pub enum InputMode {
    Normal,
    Insert,
    Visual,
}

impl Default for InputMode {
    fn default() -> (r: Self)
        ensures
            r == InputMode::Insert,
    {
        InputMode::Insert
    }
}

/// The label shown for a mode.
pub open spec fn mode_label(mode: InputMode) -> Seq<char> {
    match mode {
        InputMode::Normal => "NORMAL"@,
        InputMode::Insert => "INSERT"@,
        InputMode::Visual => "VISUAL"@,
    }
}

impl InputMode {
    /// The label shown for the mode.
    pub fn label(self) -> (r: &'static str)
        ensures
            r@ == mode_label(self),
    {
        match self {
            InputMode::Normal => "NORMAL",
            InputMode::Insert => "INSERT",
            InputMode::Visual => "VISUAL",
        }
    }
}

/// The index that a list movement selects in a list of `count` entries: one step, a page
/// of five, or an end; other actions keep the index.
pub open spec fn next_index_spec(action: Action, current: int, count: int) -> int {
    match action {
        Action::Up => if current >= 1 {
            current - 1
        } else {
            0
        },
        Action::Down => if current + 1 <= count - 1 {
            current + 1
        } else {
            count - 1
        },
        Action::PageUp => if current >= 5 {
            current - 5
        } else {
            0
        },
        Action::PageDown => if current + 5 <= count - 1 {
            current + 5
        } else {
            count - 1
        },
        Action::Home => 0,
        Action::End => count - 1,
        _ => current,
    }
}

/// The index that a list movement selects in a list of `count` entries. Moving down or to
/// the end needs an entry to move to.
pub fn next_index(action: Action, current: usize, count: usize) -> (r: usize)
    requires
        (action == Action::Down || action == Action::PageDown || action == Action::End) ==> count
            > 0,
    ensures
        r == next_index_spec(action, current as int, count as int),
        current < count ==> r < count,
{
    match action {
        Action::Up => if current >= 1 {
            current - 1
        } else {
            0
        },
        Action::Down => if current < count - 1 {
            current + 1
        } else {
            count - 1
        },
        Action::PageUp => if current >= 5 {
            current - 5
        } else {
            0
        },
        Action::PageDown => if count > 5 && current <= count - 6 {
            current + 5
        } else {
            count - 1
        },
        Action::Home => 0,
        Action::End => count - 1,
        _ => current,
    }
}

/// The position of `focus` among a tab's panes, or the first where it is not one of them.
pub open spec fn pane_position(tab: Tab, focus: Focus) -> int {
    match tab {
        Tab::Lookup => match focus {
            Focus::Input => 0,
            Focus::Source => 1,
            Focus::Target => 2,
            Focus::Details => 3,
            Focus::Recent => 4,
            Focus::History => 0,
        },
        Tab::History => match focus {
            Focus::Details => 1,
            _ => 0,
        },
    }
}

/// The pane one step forward or back from the focused one, wrapping around the tab's panes.
pub open spec fn moved_focus(tab: Tab, focus: Focus, forward: bool) -> Focus {
    let p = pane_position(tab, focus);
    match tab {
        Tab::Lookup => tab_panes(tab)[(p + if forward {
            1int
        } else {
            4int
        }) % 5],
        Tab::History => tab_panes(tab)[(p + 1) % 2],
    }
}

/// The index of `focus` among the panes, or the first where it is not one of them.
fn position_of(panes: &Vec<Focus>, focus: Focus) -> (r: usize)
    requires
        panes@.len() > 0,
    ensures
        r < panes@.len(),
        (exists|i: int| 0 <= i < panes@.len() && panes@[i] == focus) ==> panes@[r as int] == focus
            && forall|k: int| 0 <= k < r ==> panes@[k] != focus,
        !(exists|i: int| 0 <= i < panes@.len() && panes@[i] == focus) ==> r == 0,
{
    let mut i: usize = 0;
    while i < panes.len()
        invariant
            i <= panes@.len(),
            forall|k: int| 0 <= k < i ==> panes@[k] != focus,
        decreases panes.len() - i,
    {
        if panes[i] == focus {
            return i;
        }
        i = i + 1;
    }
    0
}

/// The pane one step forward or back from the focused one, wrapping around.
pub fn move_focus(tab: Tab, focus: Focus, forward: bool) -> (r: Focus)
    ensures
        r == moved_focus(tab, focus, forward),
{
    let panes = tab.panes();
    let n = panes.len();
    let i = position_of(&panes, focus);
    assert(i as int == pane_position(tab, focus)) by {
        if tab == Tab::Lookup {
            assert(tab_panes(tab)[pane_position(tab, focus)] == focus || focus == Focus::History);
        } else {
            assert(tab_panes(tab)[pane_position(tab, focus)] == focus || (focus != Focus::History
                && focus != Focus::Details));
        }
    }
    let k = (i + if forward {
        1
    } else {
        n - 1
    }) % n;
    panes[k]
}

/// The pane that a pane number selects on a tab, where the tab has that many panes.
pub fn focus_pane(tab: Tab, number: u8) -> (r: Option<Focus>)
    ensures
        1 <= number <= tab_panes(tab).len() ==> r == Some(tab_panes(tab)[number - 1]),
        !(1 <= number <= tab_panes(tab).len()) ==> r is None,
{
    let panes = tab.panes();
    if number >= 1 && (number as usize) <= panes.len() {
        Some(panes[(number - 1) as usize])
    } else {
        None
    }
}

/// The pane that a direction moves to in pane mode: on the History tab left and up reach
/// the list and the other directions the details; on the Lookup tab the panes follow the
/// layout, without wrapping.
pub open spec fn pane_direction(tab: Tab, focus: Focus, action: Action) -> Focus {
    if tab == Tab::History {
        if action == Action::Left || action == Action::Up {
            Focus::History
        } else {
            Focus::Details
        }
    } else {
        match (focus, action) {
            (Focus::Source, Action::Right) => Focus::Target,
            (Focus::Target, Action::Left) => Focus::Source,
            (Focus::Input, Action::Down) => Focus::Source,
            (Focus::Source, Action::Up) => Focus::Input,
            (Focus::Target, Action::Up) => Focus::Input,
            (Focus::Source, Action::Down) => Focus::Details,
            (Focus::Target, Action::Down) => Focus::Details,
            (Focus::Details, Action::Up) => Focus::Source,
            (Focus::Details, Action::Down) => Focus::Recent,
            (Focus::Recent, Action::Up) => Focus::Details,
            _ => focus,
        }
    }
}

/// The pane that a direction moves to in pane mode.
pub fn move_pane(tab: Tab, focus: Focus, action: Action) -> (r: Focus)
    ensures
        r == pane_direction(tab, focus, action),
{
    if tab == Tab::History {
        return if action == Action::Left || action == Action::Up {
            Focus::History
        } else {
            Focus::Details
        };
    }
    match (focus, action) {
        (Focus::Source, Action::Right) => Focus::Target,
        (Focus::Target, Action::Left) => Focus::Source,
        (Focus::Input, Action::Down) => Focus::Source,
        (Focus::Source, Action::Up) => Focus::Input,
        (Focus::Target, Action::Up) => Focus::Input,
        (Focus::Source, Action::Down) => Focus::Details,
        (Focus::Target, Action::Down) => Focus::Details,
        (Focus::Details, Action::Up) => Focus::Source,
        (Focus::Details, Action::Down) => Focus::Recent,
        (Focus::Recent, Action::Up) => Focus::Details,
        _ => focus,
    }
}

/// The number of fields of the history filter dialog: text, today, apply, clear, close.
pub const DIALOG_FIELDS: usize = 5;

/// The dialog field that a direction moves to in pane mode, without wrapping.
pub fn dialog_field_direction(field: usize, action: Action) -> (r: usize)
    ensures
        (action == Action::Left || action == Action::Up) ==> r == (if field >= 1 {
            field - 1
        } else {
            0
        }),
        !(action == Action::Left || action == Action::Up) ==> r == (if field + 1 <= 4 {
            field + 1
        } else {
            4
        }),
{
    if action == Action::Left || action == Action::Up {
        if field >= 1 {
            field - 1
        } else {
            0
        }
    } else if field < 4 {
        field + 1
    } else {
        4
    }
}

/// The dialog field after moving focus forward or back, wrapping around the fields.
pub fn dialog_field_cycle(field: usize, forward: bool) -> (r: usize)
    requires
        field < 5,
    ensures
        r == (field + if forward {
            1int
        } else {
            4int
        }) % 5,
        r < 5,
{
    (field + if forward {
        1
    } else {
        4
    }) % 5
}

/// Moving dialog focus forward and then back returns to the same field.
pub proof fn lemma_dialog_cycle_round_trip(field: int)
    requires
        0 <= field < 5,
    ensures
        ((field + 1) % 5 + 4) % 5 == field,
        ((field + 4) % 5 + 1) % 5 == field,
{
}

/// What a control action does in the history filter dialog.
#[derive(Clone, Copy, Debug, PartialEq, Eq, Structural)]
pub enum DialogStep {
    /// Toggle pane mode.
    TogglePanes,
    /// Do what Escape does.
    Escape,
    /// Put the text field in normal mode and focus this field.
    Focus(usize),
    /// Flip the "today" switch.
    ToggleToday,
    /// Empty the text and switch "today" off, keeping the dialog open.
    Clear,
    /// Close the dialog without applying it.
    Close,
    /// Apply the text and switch as the history filter, close the dialog, and read history
    /// anew from the start.
    Apply,
    /// Nothing.
    Ignore,
}

/// What a control action does with the dialog's `field` focused: the fields are the text,
/// the "today" switch, apply, clear and close.
pub open spec fn dialog_spec(field: usize, action: Action) -> DialogStep {
    match action {
        Action::Pane => DialogStep::TogglePanes,
        Action::Cancel => DialogStep::Escape,
        Action::NextFocus => DialogStep::Focus(((field + 1) % 5) as usize),
        Action::PreviousFocus => DialogStep::Focus(((field + 4) % 5) as usize),
        Action::Left | Action::Right => if field == 1 {
            DialogStep::ToggleToday
        } else {
            DialogStep::Ignore
        },
        Action::Submit => if field == 3 {
            DialogStep::Clear
        } else if field == 4 {
            DialogStep::Close
        } else {
            DialogStep::Apply
        },
        _ => DialogStep::Ignore,
    }
}

/// Decide what a control action does in the filter dialog.
pub fn dialog_control(field: usize, action: Action) -> (r: DialogStep)
    requires
        field < DIALOG_FIELDS,
    ensures
        r == dialog_spec(field, action),
{
    match action {
        Action::Pane => DialogStep::TogglePanes,
        Action::Cancel => DialogStep::Escape,
        Action::NextFocus => DialogStep::Focus(dialog_field_cycle(field, true)),
        Action::PreviousFocus => DialogStep::Focus(dialog_field_cycle(field, false)),
        Action::Left | Action::Right => if field == 1 {
            DialogStep::ToggleToday
        } else {
            DialogStep::Ignore
        },
        Action::Submit => if field == 3 {
            DialogStep::Clear
        } else if field == 4 {
            DialogStep::Close
        } else {
            DialogStep::Apply
        },
        _ => DialogStep::Ignore,
    }
}

/// The position of a language choice among "any", German and English.
pub open spec fn language_slot(language: Option<Language>) -> int {
    match language {
        None => 0,
        Some(Language::German) => 1,
        Some(Language::English) => 2,
    }
}

/// The language choice at a position among "any", German and English.
pub open spec fn slot_language(slot: int) -> Option<Language> {
    if slot == 1 {
        Some(Language::German)
    } else if slot == 2 {
        Some(Language::English)
    } else {
        None
    }
}

/// The language that a selector shows after an action: right and down move forward, left
/// and up back, wrapping around "any", German and English.
pub open spec fn next_language_spec(current: Option<Language>, action: Action) -> Option<Language> {
    let delta: int = if action == Action::Right || action == Action::Down {
        1
    } else if action == Action::Left || action == Action::Up {
        2
    } else {
        0
    };
    slot_language((language_slot(current) + delta) % 3)
}

/// Step a language selector.
pub fn next_language(current: Option<Language>, action: Action) -> (r: Option<Language>)
    ensures
        r == next_language_spec(current, action),
{
    let slot: usize = match current {
        None => 0,
        Some(Language::German) => 1,
        Some(Language::English) => 2,
    };
    let delta: usize = if action == Action::Right || action == Action::Down {
        1
    } else if action == Action::Left || action == Action::Up {
        2
    } else {
        0
    };
    let next = (slot + delta) % 3;
    if next == 1 {
        Some(Language::German)
    } else if next == 2 {
        Some(Language::English)
    } else {
        None
    }
}

/// Stepping a language selector forward and then back shows the language it showed.
pub proof fn lemma_language_round_trip(current: Option<Language>)
    ensures
        next_language_spec(next_language_spec(current, Action::Right), Action::Left) == current,
        next_language_spec(next_language_spec(current, Action::Down), Action::Up) == current,
{
}

/// Where a history read starts and what it selects afterwards.
#[derive(Clone, Copy, Debug, PartialEq, Eq, Structural)]
pub enum HistorySelection {
    First,
    Last,
    Preserve,
}

/// A read of history: from where, in which direction, and what to select.
#[derive(Clone, Copy, Debug, PartialEq, Eq, Structural)]
pub struct HistoryRead {
    pub cursor: Option<Cursor>,
    pub oldest: bool,
    pub selection: HistorySelection,
}

/// What moving through the history list does.
#[derive(Clone, Copy, Debug, PartialEq, Eq, Structural)]
pub enum HistoryStep {
    /// Nothing: the list is empty.
    Stay,
    /// Select another entry of the page.
    Select(usize),
    /// Read another page.
    Read(HistoryRead),
}

/// What a movement through a page of `count` entries does: the ends of history are read
/// anew; moving past the page's last or first entry reads the next or previous page;
/// other moves select within the page.
pub open spec fn history_step_spec(
    action: Action,
    selected: int,
    count: int,
    first: Option<Cursor>,
    last: Option<Cursor>,
) -> HistoryStep {
    if action == Action::Home || action == Action::End {
        HistoryStep::Read(
            HistoryRead {
                cursor: None,
                oldest: action == Action::End,
                selection: if action == Action::End {
                    HistorySelection::Last
                } else {
                    HistorySelection::First
                },
            },
        )
    } else if count == 0 {
        HistoryStep::Stay
    } else if (action == Action::Down || action == Action::PageDown) && selected + 1 >= count {
        HistoryStep::Read(HistoryRead { cursor: last, oldest: false, selection: HistorySelection::First })
    } else if (action == Action::Up || action == Action::PageUp) && selected == 0 {
        HistoryStep::Read(HistoryRead { cursor: first, oldest: true, selection: HistorySelection::Last })
    } else {
        HistoryStep::Select(next_index_spec(action, selected, count) as usize)
    }
}

/// Decide what a movement through the history list does. `first` and `last` are the
/// cursors of the page's first and last entries.
pub fn history_step(
    action: Action,
    selected: Option<usize>,
    count: usize,
    first: Option<Cursor>,
    last: Option<Cursor>,
) -> (r: HistoryStep)
    requires
        selected matches Some(s) ==> s < count,
    ensures
        r == history_step_spec(
            action,
            match selected {
                Some(s) => s as int,
                None => 0,
            },
            count as int,
            first,
            last,
        ),
{
    if action == Action::Home || action == Action::End {
        let end = action == Action::End;
        return HistoryStep::Read(
            HistoryRead {
                cursor: None,
                oldest: end,
                selection: if end {
                    HistorySelection::Last
                } else {
                    HistorySelection::First
                },
            },
        );
    }
    if count == 0 {
        return HistoryStep::Stay;
    }
    let index = match selected {
        Some(s) => s,
        None => 0,
    };
    if (action == Action::Down || action == Action::PageDown) && index + 1 >= count {
        return HistoryStep::Read(
            HistoryRead { cursor: last, oldest: false, selection: HistorySelection::First },
        );
    }
    if (action == Action::Up || action == Action::PageUp) && index == 0 {
        return HistoryStep::Read(
            HistoryRead { cursor: first, oldest: true, selection: HistorySelection::Last },
        );
    }
    HistoryStep::Select(next_index(action, index, count))
}

/// The read that refreshes the history list: from just after the selected entry, keeping
/// the selection.
pub fn refresh_read(selected: Option<Cursor>) -> (r: HistoryRead)
    ensures
        r.oldest == false,
        r.selection == HistorySelection::Preserve,
        match selected {
            Some(c) => r.cursor == Some(
                Cursor {
                    timestamp: c.timestamp,
                    sequence: if c.sequence < i64::MAX {
                        (c.sequence + 1) as i64
                    } else {
                        i64::MAX
                    },
                },
            ),
            None => r.cursor is None,
        },
{
    let cursor = match selected {
        Some(c) => Some(
            Cursor {
                timestamp: c.timestamp,
                sequence: if c.sequence < i64::MAX {
                    c.sequence + 1
                } else {
                    i64::MAX
                },
            },
        ),
        None => None,
    };
    HistoryRead { cursor, oldest: false, selection: HistorySelection::Preserve }
}

/// The entry to select on a new page of `count` entries: the entry that was selected where
/// the selection is kept and it is still there, else the last entry where the read asked
/// for it, else the first; none on an empty page.
pub open spec fn page_selection_spec(
    selection: HistorySelection,
    kept_at: Option<int>,
    count: int,
) -> Option<int> {
    if count == 0 {
        None
    } else {
        match kept_at {
            Some(i) => Some(i),
            None => if selection == HistorySelection::Last {
                Some(count - 1)
            } else {
                Some(0)
            },
        }
    }
}

/// The entry to select on a new page. `kept_at` is the new position of the entry that was
/// selected, where the read keeps the selection and the entry is still there.
pub fn page_selection(selection: HistorySelection, kept_at: Option<usize>, count: usize) -> (r:
    Option<usize>)
    requires
        kept_at matches Some(i) ==> i < count,
    ensures
        match (r, page_selection_spec(
            selection,
            match kept_at {
                Some(i) => Some(i as int),
                None => None,
            },
            count as int,
        )) {
            (Some(a), Some(b)) => a == b && a < count,
            (None, None) => true,
            _ => false,
        },
{
    if count == 0 {
        return None;
    }
    match kept_at {
        Some(i) => Some(i),
        None => if selection == HistorySelection::Last {
            Some(count - 1)
        } else {
            Some(0)
        },
    }
}

/// Whether a page from a read replaces the list: an empty page only replaces an empty list,
/// unless the read keeps the selection.
pub fn page_replaces(selection: HistorySelection, page_empty: bool, list_empty: bool) -> (r: bool)
    ensures
        r == !(page_empty && !list_empty && selection != HistorySelection::Preserve),
{
    !(page_empty && !list_empty && selection != HistorySelection::Preserve)
}

/// The suggestion selected after moving up or down through `count` suggestions: down from
/// none selects the first and up from none the last; moving past either end clears it.
pub open spec fn suggestion_step_spec(down: bool, selected: Option<int>, count: int) -> Option<int> {
    match (down, selected) {
        (true, None) => Some(0),
        (true, Some(i)) => if i + 1 < count {
            Some(i + 1)
        } else {
            None
        },
        (false, Some(i)) => if i > 0 {
            Some(i - 1)
        } else {
            None
        },
        (false, None) => Some(count - 1),
    }
}

/// Move through the history suggestions shown under the query.
pub fn suggestion_step(down: bool, selected: Option<usize>, count: usize) -> (r: Option<usize>)
    requires
        count > 0,
    ensures
        match (r, suggestion_step_spec(
            down,
            match selected {
                Some(i) => Some(i as int),
                None => None,
            },
            count as int,
        )) {
            (Some(a), Some(b)) => a == b,
            (None, None) => true,
            _ => false,
        },
{
    match (down, selected) {
        (true, None) => Some(0),
        (true, Some(i)) => if i < count - 1 {
            Some(i + 1)
        } else {
            None
        },
        (false, Some(i)) => if i > 0 {
            Some(i - 1)
        } else {
            None
        },
        (false, None) => Some(count - 1),
    }
}

/// The context in which a key is resolved outside pane mode, insert mode and the dialog:
/// the focused input's mode, else the tab.
pub fn key_context(input_mode: Option<InputMode>, tab: Tab) -> (r: Context)
    ensures
        r == match input_mode {
            Some(InputMode::Visual) => Context::Visual,
            Some(_) => Context::Input,
            None => if tab == Tab::History {
                Context::History
            } else {
                Context::Lookup
            },
        },
{
    match input_mode {
        Some(InputMode::Visual) => Context::Visual,
        Some(_) => Context::Input,
        None => if tab == Tab::History {
            Context::History
        } else {
            Context::Lookup
        },
    }
}

/// What Escape does, first match first: it leaves pane mode, else forgets a half-typed key
/// sequence, else returns the filter dialog's text field to normal mode or closes the dialog,
/// else cancels a running lookup, else returns the query to normal mode, else clears a
/// previewed history result.
#[derive(Clone, Copy, Debug, PartialEq, Eq, Structural)]
pub enum EscapeStep {
    LeavePaneMode,
    ForgetSequence,
    DialogToNormal,
    CloseDialog,
    CancelLookup,
    InputToNormal,
    ClearPreview,
}

/// What Escape does. `dialog` is the focused field of the open filter dialog and the mode of
/// its text field, where the dialog is open; `input_mode` is the query's mode.
pub open spec fn escape_spec(
    pane_mode: bool,
    pending: bool,
    dialog: Option<(usize, InputMode)>,
    loading: bool,
    input_mode: InputMode,
) -> EscapeStep {
    if pane_mode {
        EscapeStep::LeavePaneMode
    } else if pending {
        EscapeStep::ForgetSequence
    } else if let Some((field, mode)) = dialog {
        if field == 0 && mode != InputMode::Normal {
            EscapeStep::DialogToNormal
        } else {
            EscapeStep::CloseDialog
        }
    } else if loading {
        EscapeStep::CancelLookup
    } else if input_mode != InputMode::Normal {
        EscapeStep::InputToNormal
    } else {
        EscapeStep::ClearPreview
    }
}

/// Decide what Escape does.
pub fn escape_step(
    pane_mode: bool,
    pending: bool,
    dialog: Option<(usize, InputMode)>,
    loading: bool,
    input_mode: InputMode,
) -> (r: EscapeStep)
    ensures
        r == escape_spec(pane_mode, pending, dialog, loading, input_mode),
{
    if pane_mode {
        EscapeStep::LeavePaneMode
    } else if pending {
        EscapeStep::ForgetSequence
    } else if let Some((field, mode)) = dialog {
        if field == 0 && mode != InputMode::Normal {
            EscapeStep::DialogToNormal
        } else {
            EscapeStep::CloseDialog
        }
    } else if loading {
        EscapeStep::CancelLookup
    } else if input_mode != InputMode::Normal {
        EscapeStep::InputToNormal
    } else {
        EscapeStep::ClearPreview
    }
}

/// Where a key event goes.
#[derive(Clone, Copy, Debug, PartialEq, Eq, Structural)]
pub enum KeyRoute {
    /// Key releases are ignored.
    Ignore,
    /// Ctrl-C quits from anywhere.
    Quit,
    /// Escape, handled as `escape_step` says.
    Escape,
    /// Resolved in the pane context; Enter leaves pane mode.
    Pane,
    /// Resolved in the insert context; keys that start no binding are typed.
    Insert,
    /// Handled by the filter dialog.
    Dialog,
    /// Resolved in this context.
    Resolve(Context),
}

/// Where a key goes: releases are ignored and Ctrl-C quits; Escape is always itself; then
/// pane mode, a focused input in insert mode, and the filter dialog take keys in turn; other
/// keys are resolved in the context of the focused input's mode, else of the tab.
pub open spec fn key_route_spec(
    release: bool,
    ctrl_c: bool,
    escape: bool,
    pane_mode: bool,
    input_mode: Option<InputMode>,
    dialog_open: bool,
    tab: Tab,
) -> KeyRoute {
    if release {
        KeyRoute::Ignore
    } else if ctrl_c {
        KeyRoute::Quit
    } else if escape {
        KeyRoute::Escape
    } else if pane_mode {
        KeyRoute::Pane
    } else if input_mode == Some(InputMode::Insert) {
        KeyRoute::Insert
    } else if dialog_open {
        KeyRoute::Dialog
    } else {
        KeyRoute::Resolve(
            match input_mode {
                Some(InputMode::Visual) => Context::Visual,
                Some(_) => Context::Input,
                None => if tab == Tab::History {
                    Context::History
                } else {
                    Context::Lookup
                },
            },
        )
    }
}

/// Route a key event. `input_mode` is the mode of the focused text input, if one is focused.
pub fn key_route(
    release: bool,
    ctrl_c: bool,
    escape: bool,
    pane_mode: bool,
    input_mode: Option<InputMode>,
    dialog_open: bool,
    tab: Tab,
) -> (r: KeyRoute)
    ensures
        r == key_route_spec(release, ctrl_c, escape, pane_mode, input_mode, dialog_open, tab),
{
    if release {
        KeyRoute::Ignore
    } else if ctrl_c {
        KeyRoute::Quit
    } else if escape {
        KeyRoute::Escape
    } else if pane_mode {
        KeyRoute::Pane
    } else if input_mode == Some(InputMode::Insert) {
        KeyRoute::Insert
    } else if dialog_open {
        KeyRoute::Dialog
    } else {
        KeyRoute::Resolve(key_context(input_mode, tab))
    }
}

/// What an action does in pane mode.
#[derive(Clone, Copy, Debug, PartialEq, Eq, Structural)]
pub enum PaneStep {
    /// Leave pane mode.
    Toggle,
    /// Do what Escape does.
    Escape,
    /// Move focus in a direction.
    Move(Action),
    /// Nothing.
    Ignore,
}

/// What an action does in pane mode: the pane action leaves it, cancel escapes, and the
/// four directions move focus.
pub open spec fn pane_spec(action: Action) -> PaneStep {
    match action {
        Action::Pane => PaneStep::Toggle,
        Action::Cancel => PaneStep::Escape,
        Action::Left | Action::Right | Action::Up | Action::Down => PaneStep::Move(action),
        _ => PaneStep::Ignore,
    }
}

/// Decide what an action does in pane mode.
pub fn pane_step(action: Action) -> (r: PaneStep)
    ensures
        r == pane_spec(action),
{
    match action {
        Action::Pane => PaneStep::Toggle,
        Action::Cancel => PaneStep::Escape,
        Action::Left | Action::Right | Action::Up | Action::Down => PaneStep::Move(action),
        _ => PaneStep::Ignore,
    }
}

/// What a command does while a text input is in insert mode.
#[derive(Clone, Copy, Debug, PartialEq, Eq, Structural)]
pub enum InsertStep {
    /// Select this suggestion, or none.
    Suggest(Option<usize>),
    /// Take the selected suggestion: show its saved result and focus the details.
    TakeSuggestion(usize),
    /// Toggle pane mode.
    TogglePanes,
    /// Do what Escape does.
    Escape,
    /// Let the input move by words.
    WordMotion(Action),
    /// Hand the action to the filter dialog.
    Dialog(Action),
    /// Look the query up.
    Submit,
    /// Move focus forward or back.
    Focus(bool),
    /// Nothing.
    Ignore,
}

/// What a command does in insert mode, with `count` suggestions shown (`selected` among them)
/// and the filter dialog open or not. Up and down move through suggestions and submit takes
/// the selected one; otherwise commands keep their usual meaning, and the dialog takes the
/// rest of its own.
pub open spec fn insert_spec(
    action: Action,
    count: usize,
    selected: Option<usize>,
    dialog_open: bool,
) -> InsertStep {
    if count > 0 && (action == Action::Up || action == Action::Down) {
        InsertStep::Suggest(
            match (action == Action::Down, selected) {
                (true, None) => Some(0),
                (true, Some(i)) => if i + 1 < count {
                    Some((i + 1) as usize)
                } else {
                    None
                },
                (false, Some(i)) => if i > 0 {
                    Some((i - 1) as usize)
                } else {
                    None
                },
                (false, None) => Some((count - 1) as usize),
            },
        )
    } else if count > 0 && action == Action::Submit && selected is Some && selected->0 < count {
        InsertStep::TakeSuggestion(selected->0)
    } else {
        match action {
            Action::Pane => InsertStep::TogglePanes,
            Action::Cancel => InsertStep::Escape,
            Action::WordBegin | Action::WordEnd => InsertStep::WordMotion(action),
            _ => if dialog_open {
                InsertStep::Dialog(action)
            } else {
                match action {
                    Action::Submit => InsertStep::Submit,
                    Action::NextFocus => InsertStep::Focus(true),
                    Action::PreviousFocus => InsertStep::Focus(false),
                    _ => InsertStep::Ignore,
                }
            },
        }
    }
}

/// Decide what a command does in insert mode.
pub fn insert_step(action: Action, count: usize, selected: Option<usize>, dialog_open: bool) -> (r:
    InsertStep)
    ensures
        r == insert_spec(action, count, selected, dialog_open),
{
    if count > 0 && (action == Action::Up || action == Action::Down) {
        return InsertStep::Suggest(suggestion_step(action == Action::Down, selected, count));
    }
    if count > 0 && action == Action::Submit {
        if let Some(i) = selected {
            if i < count {
                return InsertStep::TakeSuggestion(i);
            }
        }
    }
    match action {
        Action::Pane => InsertStep::TogglePanes,
        Action::Cancel => InsertStep::Escape,
        Action::WordBegin | Action::WordEnd => InsertStep::WordMotion(action),
        _ => if dialog_open {
            InsertStep::Dialog(action)
        } else {
            match action {
                Action::Submit => InsertStep::Submit,
                Action::NextFocus => InsertStep::Focus(true),
                Action::PreviousFocus => InsertStep::Focus(false),
                _ => InsertStep::Ignore,
            }
        },
    }
}

/// A screen area: its left column, top row, width and height.
#[derive(Clone, Copy, Debug, PartialEq, Eq, Structural)]
pub struct Area {
    pub x: u16,
    pub y: u16,
    pub width: u16,
    pub height: u16,
}

/// `a + b`, or the largest `u16` where that overflows.
pub open spec fn sat_add(a: u16, b: u16) -> int {
    if a + b > u16::MAX {
        u16::MAX as int
    } else {
        a + b
    }
}

/// Whether an area holds a cell, as ratatui's `Rect::contains` decides: from its left and
/// top edges up to (not including) its right and bottom edges, which saturate at the screen's
/// largest coordinate.
pub open spec fn area_contains(a: Area, column: u16, row: u16) -> bool {
    a.x <= column && column < sat_add(a.x, a.width) && a.y <= row && row < sat_add(a.y, a.height)
}

fn contains(a: Area, column: u16, row: u16) -> (b: bool)
    ensures
        b == area_contains(a, column, row),
{
    let right = a.x.saturating_add(a.width);
    let bottom = a.y.saturating_add(a.height);
    a.x <= column && column < right && a.y <= row && row < bottom
}

/// The index of the topmost of the drawn areas (later ones lie on top) that holds a cell.
pub open spec fn hit_spec(areas: Seq<Area>, column: u16, row: u16) -> Option<int>
    decreases areas.len(),
{
    if areas.len() == 0 {
        None
    } else if area_contains(areas.last(), column, row) {
        Some(areas.len() - 1)
    } else {
        hit_spec(areas.drop_last(), column, row)
    }
}

/// Find which drawn area a click landed in: the last drawn one that holds the cell.
pub fn hit_area(areas: &Vec<Area>, column: u16, row: u16) -> (r: Option<usize>)
    ensures
        match hit_spec(areas@, column, row) {
            Some(i) => r == Some(i as usize),
            None => r is None,
        },
{
    let mut k: usize = areas.len();
    assert(areas@.take(k as int) =~= areas@);
    while k > 0
        invariant
            k <= areas@.len(),
            hit_spec(areas@, column, row) == hit_spec(areas@.take(k as int), column, row),
        decreases k,
    {
        assert(areas@.take(k as int).last() == areas@[k - 1]);
        assert(areas@.take(k as int).drop_last() =~= areas@.take(k - 1));
        if contains(areas[k - 1], column, row) {
            return Some(k - 1);
        }
        k = k - 1;
    }
    None
}

/// Whether a focused text input takes an action itself.
pub open spec fn input_action(action: Action) -> bool {
    match action {
        Action::Edit | Action::Append | Action::Undo | Action::Redo | Action::Submit | Action::Left
        | Action::Right | Action::Home | Action::End | Action::Paste | Action::WordBegin
        | Action::WordEnd | Action::Visual | Action::YankSelection | Action::DeleteSelection
        | Action::ChangeSelection => true,
        _ => false,
    }
}

/// Which value a copy action copies.
#[derive(Clone, Copy, Debug, PartialEq, Eq, Structural)]
pub enum CopyKind {
    /// The query of the selected entry, else of the result.
    Query,
    /// Every candidate of the result.
    All,
    /// The selected candidate, only with the details focused.
    Value,
}

/// Where an action goes.
#[derive(Clone, Copy, Debug, PartialEq, Eq, Structural)]
pub enum ActionRoute {
    /// To the focused text input; the saved preview is dropped after editing and submitting.
    Input { clear_preview: bool },
    /// Toggle pane mode.
    TogglePanes,
    /// Leave the innermost state.
    Escape,
    /// Quit.
    Quit,
    /// Switch to the other tab, focusing its first pane; the History tab is read anew.
    SwitchTab { tab: Tab, focus: Focus, read: bool },
    /// Focus the query in insert mode.
    EditQuery,
    /// Look up the query.
    Submit,
    /// Focus the details.
    FocusDetails,
    /// Move focus by one pane, forward or back.
    MoveFocus { forward: bool },
    /// Open the history filter dialog.
    OpenFilter,
    /// Read history anew.
    Refresh,
    /// Copy a value.
    Copy(CopyKind),
    /// Move within the focused pane.
    Navigate,
}

/// Where an action goes, given the tab, the focus and whether a text input is focused.
pub open spec fn action_route_spec(action: Action, tab: Tab, focus: Focus, input_focused: bool) -> ActionRoute {
    if input_focused && input_action(action) {
        ActionRoute::Input {
            clear_preview: action == Action::Edit || action == Action::Append || action
                == Action::Submit || action == Action::Undo || action == Action::Redo,
        }
    } else {
        match action {
            Action::Pane => ActionRoute::TogglePanes,
            Action::Cancel => ActionRoute::Escape,
            Action::Quit => ActionRoute::Quit,
            Action::NextTab | Action::PreviousTab => if tab == Tab::Lookup {
                ActionRoute::SwitchTab { tab: Tab::History, focus: Focus::History, read: true }
            } else {
                ActionRoute::SwitchTab { tab: Tab::Lookup, focus: Focus::Input, read: false }
            },
            Action::Edit => ActionRoute::EditQuery,
            Action::Submit => if tab == Tab::Lookup && (focus == Focus::Input || focus
                == Focus::Source || focus == Focus::Target) {
                ActionRoute::Submit
            } else {
                ActionRoute::FocusDetails
            },
            Action::NextFocus => ActionRoute::MoveFocus { forward: true },
            Action::PreviousFocus => ActionRoute::MoveFocus { forward: false },
            Action::Filter => ActionRoute::OpenFilter,
            Action::Refresh => ActionRoute::Refresh,
            Action::CopyQuery => ActionRoute::Copy(CopyKind::Query),
            Action::CopyAll => ActionRoute::Copy(CopyKind::All),
            Action::CopyValue => ActionRoute::Copy(CopyKind::Value),
            _ => ActionRoute::Navigate,
        }
    }
}

/// Route an action outside pane mode and the dialog.
pub fn route_action(action: Action, tab: Tab, focus: Focus, input_focused: bool) -> (r: ActionRoute)
    ensures
        r == action_route_spec(action, tab, focus, input_focused),
{
    let to_input = match action {
        Action::Edit | Action::Append | Action::Undo | Action::Redo | Action::Submit | Action::Left
        | Action::Right | Action::Home | Action::End | Action::Paste | Action::WordBegin
        | Action::WordEnd | Action::Visual | Action::YankSelection | Action::DeleteSelection
        | Action::ChangeSelection => true,
        _ => false,
    };
    if input_focused && to_input {
        return ActionRoute::Input {
            clear_preview: action == Action::Edit || action == Action::Append || action
                == Action::Submit || action == Action::Undo || action == Action::Redo,
        };
    }
    match action {
        Action::Pane => ActionRoute::TogglePanes,
        Action::Cancel => ActionRoute::Escape,
        Action::Quit => ActionRoute::Quit,
        Action::NextTab | Action::PreviousTab => if tab == Tab::Lookup {
            ActionRoute::SwitchTab { tab: Tab::History, focus: Focus::History, read: true }
        } else {
            ActionRoute::SwitchTab { tab: Tab::Lookup, focus: Focus::Input, read: false }
        },
        Action::Edit => ActionRoute::EditQuery,
        Action::Submit => if tab == Tab::Lookup && (focus == Focus::Input || focus == Focus::Source
            || focus == Focus::Target) {
            ActionRoute::Submit
        } else {
            ActionRoute::FocusDetails
        },
        Action::NextFocus => ActionRoute::MoveFocus { forward: true },
        Action::PreviousFocus => ActionRoute::MoveFocus { forward: false },
        Action::Filter => ActionRoute::OpenFilter,
        Action::Refresh => ActionRoute::Refresh,
        Action::CopyQuery => ActionRoute::Copy(CopyKind::Query),
        Action::CopyAll => ActionRoute::Copy(CopyKind::All),
        Action::CopyValue => ActionRoute::Copy(CopyKind::Value),
        _ => ActionRoute::Navigate,
    }
}

/// Switching tabs twice returns to the tab one started on.
pub proof fn lemma_switch_tab_round_trip(tab: Tab, focus: Focus)
    ensures
        ({
            let first = action_route_spec(Action::NextTab, tab, focus, false);
            first matches ActionRoute::SwitchTab { tab: t, focus: f, .. } && (action_route_spec(
                Action::NextTab,
                t,
                f,
                false,
            ) matches ActionRoute::SwitchTab { tab: back, .. } && back == tab)
        }),
{
}

/// Moving focus forward and then back returns to the focused pane.
pub proof fn lemma_focus_round_trip(tab: Tab, focus: Focus)
    requires
        tab_panes(tab).contains(focus),
    ensures
        moved_focus(tab, moved_focus(tab, focus, true), false) == focus,
        moved_focus(tab, moved_focus(tab, focus, false), true) == focus,
{
    let k = choose|k: int| 0 <= k < tab_panes(tab).len() && tab_panes(tab)[k] == focus;
    assert(tab_panes(tab)[k] == focus);
    assert forall|j: int| 0 <= j < tab_panes(tab).len() implies pane_position(
        tab,
        #[trigger] tab_panes(tab)[j],
    ) == j by {
        if tab == Tab::Lookup {
            assert(j == 0 || j == 1 || j == 2 || j == 3 || j == 4);
        } else {
            assert(j == 0 || j == 1);
        }
    }
    assert(pane_position(tab, focus) == k);
}

/// The sum of line counts.
pub open spec fn total(h: Seq<usize>) -> int
    decreases h.len(),
{
    if h.len() == 0 {
        0
    } else {
        total(h.drop_last()) + h.last()
    }
}

pub proof fn lemma_total_prefix(h: Seq<usize>, i: int)
    requires
        0 <= i <= h.len(),
    ensures
        total(h.take(i)) <= total(h),
        0 <= total(h.take(i)),
    decreases h.len() - i,
{
    if i < h.len() {
        lemma_total_prefix(h, i + 1);
        assert(h.take(i + 1).drop_last() =~= h.take(i));
    } else {
        assert(h.take(i) =~= h);
    }
    lemma_total_nonnegative(h.take(i));
}

proof fn lemma_total_nonnegative(h: Seq<usize>)
    ensures
        total(h) >= 0,
    decreases h.len(),
{
    if h.len() > 0 {
        lemma_total_nonnegative(h.drop_last());
    }
}

/// `a - b`, or zero where `b` is larger.
pub open spec fn saturating_sub(a: int, b: int) -> int {
    if a >= b {
        a - b
    } else {
        0
    }
}

/// The details viewport after aligning it: the reading line within the selected candidate
/// and the scroll offset. Each candidate takes `h[i]` lines of a viewport `height` lines
/// high. The view stays still until the reading position crosses the margin in the
/// direction of travel, keeps the reading position visible, and never scrolls past the end.
pub open spec fn align_spec(
    h: Seq<usize>,
    selected: int,
    line: int,
    scroll: int,
    height: int,
    action: Option<Action>,
) -> (int, int) {
    if selected >= h.len() {
        (0, 0)
    } else {
        let lines = h[selected] as int;
        let line2 = if lines > height {
            if line < lines - 1 {
                line
            } else {
                lines - 1
            }
        } else {
            0
        };
        (line2, scroll_spec(total(h.take(selected)), lines, line2, total(h), scroll, height, action))
    }
}

/// The scroll offset after aligning, for a selected candidate `lines` long that starts
/// `start` lines down, read at `line`, among `total` lines in a viewport `height` high.
pub open spec fn scroll_spec(
    start: int,
    lines: int,
    line: int,
    total: int,
    scroll: int,
    height: int,
    action: Option<Action>,
) -> int {
    let cursor = start + line;
    let max_scroll = saturating_sub(total, height);
    let lower = (height - 1) * 7 / 10;
    let upper = (height - 1) * 3 / 10;
    let s1 = match action {
        Some(Action::Down) | Some(Action::PageDown) => {
            let t = saturating_sub(cursor, lower);
            if scroll >= t {
                scroll
            } else {
                t
            }
        },
        Some(Action::Up) | Some(Action::PageUp) => {
            let t = saturating_sub(cursor, upper);
            if scroll <= t {
                scroll
            } else {
                t
            }
        },
        Some(Action::Home) => 0,
        Some(Action::End) => max_scroll,
        _ => scroll,
    };
    let s2 = if s1 <= cursor {
        s1
    } else {
        cursor
    };
    let visible_end = if lines <= height {
        start + lines
    } else {
        cursor + 1
    };
    let s3 = if s2 >= saturating_sub(visible_end, height) {
        s2
    } else {
        saturating_sub(visible_end, height)
    };
    if s3 <= max_scroll {
        s3
    } else {
        max_scroll
    }
}

/// The lines before the selected candidate and the lines of all candidates.
fn prefix_and_total(heights: &Vec<usize>, selected: usize) -> (r: (usize, usize))
    requires
        selected < heights@.len(),
        total(heights@) <= usize::MAX,
    ensures
        r.0 == total(heights@.take(selected as int)),
        r.1 == total(heights@),
        r.0 + heights@[selected as int] <= r.1,
{
    let mut start: usize = 0;
    let mut sum: usize = 0;
    let mut i: usize = 0;
    proof {
        lemma_total_prefix(heights@, 0);
        assert(heights@.take(0) =~= Seq::<usize>::empty());
    }
    while i < heights.len()
        invariant
            i <= heights@.len(),
            selected < heights@.len(),
            total(heights@) <= usize::MAX,
            sum == total(heights@.take(i as int)),
            i <= selected ==> start == sum,
            i > selected ==> start == total(heights@.take(selected as int)),
        decreases heights.len() - i,
    {
        proof {
            lemma_total_prefix(heights@, i as int + 1);
            assert(heights@.take(i as int + 1).drop_last() =~= heights@.take(i as int));
        }
        sum = sum + heights[i];
        i = i + 1;
        if i <= selected {
            start = sum;
        }
    }
    assert(heights@.take(i as int) =~= heights@);
    proof {
        lemma_total_prefix(heights@, selected as int + 1);
        assert(heights@.take(selected as int + 1).drop_last() =~= heights@.take(selected as int));
    }
    (start, sum)
}

/// Align the details viewport to the selected candidate after a move or a resize.
pub fn align_details(
    heights: &Vec<usize>,
    selected: usize,
    line: usize,
    scroll: usize,
    viewport_height: u16,
    action: Option<Action>,
) -> (r: (usize, usize))
    requires
        total(heights@) <= usize::MAX,
    ensures
        r.0 == align_spec(
            heights@,
            selected as int,
            line as int,
            scroll as int,
            if viewport_height >= 1 {
                viewport_height as int
            } else {
                1
            },
            action,
        ).0,
        r.1 == align_spec(
            heights@,
            selected as int,
            line as int,
            scroll as int,
            if viewport_height >= 1 {
                viewport_height as int
            } else {
                1
            },
            action,
        ).1,
{
    if selected >= heights.len() {
        return (0, 0);
    }
    let height: usize = if viewport_height >= 1 {
        viewport_height as usize
    } else {
        1
    };
    let lines = heights[selected];
    let line2 = if lines > height {
        if line < lines - 1 {
            line
        } else {
            lines - 1
        }
    } else {
        0
    };
    let (start, sum) = prefix_and_total(heights, selected);
    (line2, align_scroll(start, lines, line2, sum, scroll, height, action))
}

/// The scroll offset after aligning.
fn align_scroll(
    start: usize,
    lines: usize,
    line: usize,
    sum: usize,
    scroll: usize,
    height: usize,
    action: Option<Action>,
) -> (r: usize)
    requires
        1 <= height <= 65535,
        start + lines <= sum,
        lines > height ==> line < lines,
        lines <= height ==> line == 0,
    ensures
        r == scroll_spec(
            start as int,
            lines as int,
            line as int,
            sum as int,
            scroll as int,
            height as int,
            action,
        ),
{
    let cursor = start + line;
    let max_scroll = if sum >= height {
        sum - height
    } else {
        0
    };
    let lower = (height - 1) * 7 / 10;
    let upper = (height - 1) * 3 / 10;
    let s1 = match action {
        Some(Action::Down) | Some(Action::PageDown) => {
            let t = if cursor >= lower {
                cursor - lower
            } else {
                0
            };
            if scroll >= t {
                scroll
            } else {
                t
            }
        },
        Some(Action::Up) | Some(Action::PageUp) => {
            let t = if cursor >= upper {
                cursor - upper
            } else {
                0
            };
            if scroll <= t {
                scroll
            } else {
                t
            }
        },
        Some(Action::Home) => 0,
        Some(Action::End) => max_scroll,
        _ => scroll,
    };
    let s2 = if s1 <= cursor {
        s1
    } else {
        cursor
    };
    let visible_end = if lines <= height {
        start + lines
    } else {
        cursor + 1
    };
    let floor = if visible_end >= height {
        visible_end - height
    } else {
        0
    };
    let s3 = if s2 >= floor {
        s2
    } else {
        floor
    };
    let s4 = if s3 <= max_scroll {
        s3
    } else {
        max_scroll
    };
    s4
}

/// After aligning, the reading position of the selected candidate is on screen and the
/// view does not scroll past the end.
pub proof fn lemma_align_keeps_selection_visible(
    h: Seq<usize>,
    selected: int,
    line: int,
    scroll: int,
    height: int,
    action: Option<Action>,
)
    requires
        0 <= selected < h.len(),
        h[selected] >= 1,
        height >= 1,
        scroll >= 0,
        line >= 0,
    ensures
        ({
            let (line2, s) = align_spec(h, selected, line, scroll, height, action);
            let cursor = total(h.take(selected)) + line2;
            &&& 0 <= s <= cursor
            &&& cursor < s + height
            &&& s <= saturating_sub(total(h), height)
        }),
{
    lemma_total_prefix(h, selected);
    lemma_total_prefix(h, selected + 1);
    assert(h.take(selected + 1).drop_last() =~= h.take(selected));
    assert(h.take(selected + 1).last() == h[selected]);
    assert(total(h.take(selected)) + h[selected] <= total(h));
}

/// The last reading line of a candidate `lines` long in a viewport `height` lines high:
/// zero where the candidate fits.
pub open spec fn max_line_spec(lines: int, height: int) -> int {
    if lines > height {
        lines - 1
    } else {
        0
    }
}

/// Where moving through the details goes: the selected candidate and the reading line.
/// Within a candidate taller than the viewport, moves first walk its lines; past them
/// they select the next or previous candidate, whose reading line starts at its top going
/// down and at its bottom going up.
pub open spec fn details_move_spec(
    h: Seq<usize>,
    selected: int,
    line: int,
    height: int,
    action: Action,
) -> Option<(int, int)> {
    let count = h.len() as int;
    let sel = if selected < count - 1 {
        selected
    } else {
        count - 1
    };
    let max = max_line_spec(h[sel] as int, height);
    let step: int = if action == Action::PageUp || action == Action::PageDown {
        5
    } else {
        1
    };
    if count == 0 {
        None
    } else if (action == Action::Down || action == Action::PageDown) && line < max {
        Some((sel, if line + step <= max { line + step } else { max }))
    } else if (action == Action::Up || action == Action::PageUp) && line > 0 {
        Some((sel, if line >= step { line - step } else { 0 }))
    } else if action == Action::Down || action == Action::PageDown {
        let next = if sel + step <= count - 1 { sel + step } else { count - 1 };
        if next != sel {
            Some((next, 0))
        } else {
            Some((sel, line))
        }
    } else if action == Action::Up || action == Action::PageUp {
        let previous = if sel >= step { sel - step } else { 0 };
        if previous != sel {
            Some((previous, max_line_spec(h[previous] as int, height)))
        } else {
            Some((sel, line))
        }
    } else if action == Action::Home {
        Some((0, 0))
    } else if action == Action::End {
        Some((count - 1, max_line_spec(h[count - 1] as int, height)))
    } else {
        None
    }
}

/// Move through the details. `None` means the action does not move them.
pub fn details_move(
    heights: &Vec<usize>,
    selected: usize,
    line: usize,
    viewport_height: u16,
    action: Action,
) -> (r: Option<(usize, usize)>)
    ensures
        match (r, details_move_spec(
            heights@,
            selected as int,
            line as int,
            if viewport_height >= 1 {
                viewport_height as int
            } else {
                1
            },
            action,
        )) {
            (Some(a), Some(b)) => a.0 == b.0 && a.1 == b.1,
            (None, None) => true,
            _ => false,
        },
{
    let count = heights.len();
    if count == 0 {
        return None;
    }
    let height: usize = if viewport_height >= 1 {
        viewport_height as usize
    } else {
        1
    };
    let sel = if selected < count - 1 {
        selected
    } else {
        count - 1
    };
    let max = if heights[sel] > height {
        heights[sel] - 1
    } else {
        0
    };
    let step: usize = if action == Action::PageUp || action == Action::PageDown {
        5
    } else {
        1
    };
    let down = action == Action::Down || action == Action::PageDown;
    let up = action == Action::Up || action == Action::PageUp;
    if down && line < max {
        Some((sel, if max >= step && line <= max - step {
            line + step
        } else {
            max
        }))
    } else if up && line > 0 {
        Some((sel, if line >= step {
            line - step
        } else {
            0
        }))
    } else if down {
        let next = if count - 1 - sel >= step {
            sel + step
        } else {
            count - 1
        };
        if next != sel {
            Some((next, 0))
        } else {
            Some((sel, line))
        }
    } else if up {
        let previous = if sel >= step {
            sel - step
        } else {
            0
        };
        if previous != sel {
            let m = if heights[previous] > height {
                heights[previous] - 1
            } else {
                0
            };
            Some((previous, m))
        } else {
            Some((sel, line))
        }
    } else if action == Action::Home {
        Some((0, 0))
    } else if action == Action::End {
        let m = if heights[count - 1] > height {
            heights[count - 1] - 1
        } else {
            0
        };
        Some((count - 1, m))
    } else {
        None
    }
}

} // verus!

verus! {

/// The hint for an action: its key labels joined by `/`.
pub open spec fn hint(bs: Seq<BindingView>, action: Action) -> Seq<char> {
    join_seq(labels_of_action(bs, action), "/"@)
}

/// What the footer depends on besides the keymap.
pub struct FooterState {
    /// Whether pane mode is on.
    pub pane_mode: bool,
    /// The mode of the focused text input, where one is focused.
    pub input_mode: Option<InputMode>,
    /// Whether history suggestions are shown under the query.
    pub has_suggestions: bool,
    /// Whether one of them is selected.
    pub suggestion_selected: bool,
}

/// The pane-mode hints: the direction keys and the keys that finish pane mode.
pub open spec fn pane_hints(bs: Seq<BindingView>) -> Seq<char> {
    "PANE · "@ + hint(bs, Action::Left) + " left / "@ + hint(bs, Action::Right) + " right · "@
        + hint(bs, Action::Up) + " up / "@ + hint(bs, Action::Down)
        + " down\nTitle shortcuts focus · Enter, Esc or "@ + hint(bs, Action::Pane) + " finishes"@
}

/// What a text input's keys do in its mode.
pub open spec fn input_actions(bs: Seq<BindingView>, mode: InputMode, s: FooterState) -> Seq<char> {
    match mode {
        InputMode::Insert => if s.has_suggestions {
            "↑/↓ history · "@ + hint(bs, Action::Submit) + " "@ + (if s.suggestion_selected {
                "opens saved result"@
            } else {
                "new lookup"@
            }) + " · Esc dismiss"@
        } else {
            hint(bs, Action::Submit) + " submits · Esc normal"@
        },
        InputMode::Normal => hint(bs, Action::Submit) + "/"@ + hint(bs, Action::Edit) + " insert · "@
            + hint(bs, Action::Append) + " append · "@ + hint(bs, Action::Paste) + " paste · "@
            + hint(bs, Action::Visual) + " select"@,
        InputMode::Visual => hint(bs, Action::YankSelection) + " copy · "@ + hint(
            bs,
            Action::DeleteSelection,
        ) + " cut · "@ + hint(bs, Action::ChangeSelection) + " change · "@ + hint(bs, Action::Paste)
            + " replace · Esc normal"@,
    }
}

/// The motion keys of a text input in its mode.
pub open spec fn input_motions(bs: Seq<BindingView>, mode: InputMode) -> Seq<char> {
    match mode {
        InputMode::Insert => "Ctrl-Left/Right word · "@ + hint(bs, Action::Pane) + " panes · "@
            + hint(bs, Action::NextFocus) + " field"@,
        InputMode::Normal => hint(bs, Action::WordBegin) + " word ← · "@ + hint(bs, Action::WordEnd)
            + " word → · "@ + hint(bs, Action::Undo) + " undo · "@ + hint(bs, Action::Redo)
            + " redo · "@ + hint(bs, Action::Pane) + " panes"@,
        InputMode::Visual => hint(bs, Action::WordBegin) + " word ← · "@ + hint(bs, Action::WordEnd)
            + " word → · "@ + hint(bs, Action::Pane) + " panes"@,
    }
}

/// The hints outside text inputs: tabs, panes and fields, then filtering and copying.
pub open spec fn pane_list_hints(bs: Seq<BindingView>) -> Seq<char> {
    "NORMAL · "@ + hint(bs, Action::NextTab) + " tab · "@ + hint(bs, Action::Pane)
        + " pane selection · "@ + hint(bs, Action::NextFocus) + " next field\n"@ + hint(
        bs,
        Action::Filter,
    ) + " filter · "@ + hint(bs, Action::CopyQuery) + " query · "@ + hint(bs, Action::CopyValue)
        + " value · "@ + hint(bs, Action::CopyAll) + " all"@
}

/// The footer's first two lines: the mode, then what the keys do in it.
pub open spec fn footer_hints(bs: Seq<BindingView>, s: FooterState) -> Seq<char> {
    if s.pane_mode {
        pane_hints(bs)
    } else {
        match s.input_mode {
            Some(mode) => mode_label(mode) + " · "@ + input_actions(bs, mode, s) + "\n"@
                + input_motions(bs, mode),
            None => pane_list_hints(bs),
        }
    }
}

/// `text` followed by the hint for `action`.
fn with_hint(bindings: &Keybindings, text: String, action: Action) -> (r: String)
    ensures
        r@ == text@ + hint(bindings.spec_bindings(), action),
{
    concat(text.as_str(), bindings.label(action).as_str())
}

/// `text` followed by `more`.
fn with(text: String, more: &str) -> (r: String)
    ensures
        r@ == text@ + more@,
{
    concat(text.as_str(), more)
}

fn pane_hints_text(b: &Keybindings) -> (r: String)
    ensures
        r@ == pane_hints(b.spec_bindings()),
{
    let t = with_hint(b, copy_string("PANE · "), Action::Left);
    let t = with_hint(b, with(t, " left / "), Action::Right);
    let t = with_hint(b, with(t, " right · "), Action::Up);
    let t = with_hint(b, with(t, " up / "), Action::Down);
    let t = with_hint(b, with(t, " down\nTitle shortcuts focus · Enter, Esc or "), Action::Pane);
    with(t, " finishes")
}

fn input_actions_text(b: &Keybindings, mode: InputMode, s: &FooterState) -> (r: String)
    ensures
        r@ == input_actions(b.spec_bindings(), mode, *s),
{
    match mode {
        InputMode::Insert => if s.has_suggestions {
            let t = with_hint(b, copy_string("↑/↓ history · "), Action::Submit);
            let t = with(t, " ");
            let t = with(
                t,
                if s.suggestion_selected {
                    "opens saved result"
                } else {
                    "new lookup"
                },
            );
            with(t, " · Esc dismiss")
        } else {
            with(b.label(Action::Submit), " submits · Esc normal")
        },
        InputMode::Normal => {
            let t = with_hint(b, with(b.label(Action::Submit), "/"), Action::Edit);
            let t = with_hint(b, with(t, " insert · "), Action::Append);
            let t = with_hint(b, with(t, " append · "), Action::Paste);
            let t = with_hint(b, with(t, " paste · "), Action::Visual);
            with(t, " select")
        },
        InputMode::Visual => {
            let t = with_hint(b, with(b.label(Action::YankSelection), " copy · "), Action::DeleteSelection);
            let t = with_hint(b, with(t, " cut · "), Action::ChangeSelection);
            let t = with_hint(b, with(t, " change · "), Action::Paste);
            with(t, " replace · Esc normal")
        },
    }
}

fn input_motions_text(b: &Keybindings, mode: InputMode) -> (r: String)
    ensures
        r@ == input_motions(b.spec_bindings(), mode),
{
    match mode {
        InputMode::Insert => {
            let t = with_hint(b, copy_string("Ctrl-Left/Right word · "), Action::Pane);
            let t = with_hint(b, with(t, " panes · "), Action::NextFocus);
            with(t, " field")
        },
        InputMode::Normal => {
            let t = with_hint(b, with(b.label(Action::WordBegin), " word ← · "), Action::WordEnd);
            let t = with_hint(b, with(t, " word → · "), Action::Undo);
            let t = with_hint(b, with(t, " undo · "), Action::Redo);
            let t = with_hint(b, with(t, " redo · "), Action::Pane);
            with(t, " panes")
        },
        InputMode::Visual => {
            let t = with_hint(b, with(b.label(Action::WordBegin), " word ← · "), Action::WordEnd);
            let t = with_hint(b, with(t, " word → · "), Action::Pane);
            with(t, " panes")
        },
    }
}

fn pane_list_hints_text(b: &Keybindings) -> (r: String)
    ensures
        r@ == pane_list_hints(b.spec_bindings()),
{
    let t = with_hint(b, copy_string("NORMAL · "), Action::NextTab);
    let t = with_hint(b, with(t, " tab · "), Action::Pane);
    let t = with_hint(b, with(t, " pane selection · "), Action::NextFocus);
    let t = with_hint(b, with(t, " next field\n"), Action::Filter);
    let t = with_hint(b, with(t, " filter · "), Action::CopyQuery);
    let t = with_hint(b, with(t, " query · "), Action::CopyValue);
    let t = with_hint(b, with(t, " value · "), Action::CopyAll);
    with(t, " all")
}

/// The footer: the key hints for the current mode, then the notice, made safe to show.
pub fn footer(bindings: &Keybindings, state: &FooterState, notice: &str) -> (r: String)
    ensures
        r@ == footer_hints(bindings.spec_bindings(), *state) + "\n"@ + safe_seq(notice@),
{
    let hints = if state.pane_mode {
        pane_hints_text(bindings)
    } else {
        match state.input_mode {
            Some(mode) => {
                let t = with(copy_string(mode.label()), " · ");
                let t = concat(t.as_str(), input_actions_text(bindings, mode, state).as_str());
                let t = with(t, "\n");
                concat(t.as_str(), input_motions_text(bindings, mode).as_str())
            },
            None => pane_list_hints_text(bindings),
        }
    };
    let t = with(hints, "\n");
    concat(t.as_str(), safe_text(notice).as_str())
}

} // verus!
