//! What the terminal interface shows: how a screen is divided among the panes, and the text
//! of each pane. Times are shown as the caller formats them.
use vstd::prelude::*;
use crate::domain::{Language, LookupResult, language_code, pair_text};
use crate::history::{HistoryEntry, HistoryFilter, entry_result, entry_status};
use crate::keybindings::{Action, Keybindings};
use crate::navigation::{
    Area, Focus, Tab, align_details, align_spec, details_move, details_move_spec, hint, pane_position,
    tab_panes, total,
};
use crate::presentation::{candidate_line, detail_lines, detail_width, wrapped_of};
use crate::strings::{concat, copy_string, trim, trim_seq, views};
use crate::text::{is_safe_char, safe_seq, safe_text};

verus! {

/// A screen narrower than 24 columns or lower than 12 rows shows only a request to resize.
pub fn too_small(width: u16, height: u16) -> (r: bool)
    ensures
        r == (width < 24 || height < 12),
{
    width < 24 || height < 12
}

/// What a screen that is too small shows.
pub fn resize_message() -> (r: &'static str)
    ensures
        r@ == "Resize terminal (24×12 minimum). Ctrl-C exits."@,
{
    "Resize terminal (24×12 minimum). Ctrl-C exits."
}

/// The tab line, which marks the open tab.
pub open spec fn tab_line(tab: Tab) -> Seq<char> {
    match tab {
        Tab::Lookup => "[ lookup ]    history"@,
        Tab::History => "lookup    [ history ]"@,
    }
}

pub fn tab_header(tab: Tab) -> (r: &'static str)
    ensures
        r@ == tab_line(tab),
{
    match tab {
        Tab::Lookup => "[ lookup ]    history",
        Tab::History => "lookup    [ history ]",
    }
}

/// The height of the recent lookups under the lookup tab's details, in a tab `height` rows
/// high: seven rows from 17 rows on, four from 13, none below.
pub open spec fn recent_rows(height: u16) -> u16 {
    if height >= 17 {
        7
    } else if height >= 13 {
        4
    } else {
        0
    }
}

pub fn recent_height(height: u16) -> (r: u16)
    ensures
        r == recent_rows(height),
{
    if height >= 17 {
        7
    } else if height >= 13 {
        4
    } else {
        0
    }
}

/// The lookup tab from top to bottom: the query (3 rows), the languages (3 rows), the
/// details (at least 2 rows) and the recent lookups.
pub fn lookup_layout(height: u16) -> (r: (u16, u16, u16, u16))
    ensures
        r == (3u16, 3u16, 2u16, recent_rows(height)),
{
    (3, 3, 2, recent_height(height))
}

/// What a language selector shows: the language's code, or what an unset one means.
pub open spec fn language_text(language: Option<Language>, unset: Seq<char>) -> Seq<char> {
    match language {
        Some(l) => language_code(l),
        None => unset,
    }
}

/// The source selector: `Auto` when the source is detected.
pub fn source_label(language: Option<Language>) -> (r: &'static str)
    ensures
        r@ == language_text(language, "Auto"@),
{
    match language {
        Some(l) => l.code(),
        None => "Auto",
    }
}

/// The target selector: `Default` when the target follows from the source.
pub fn target_label(language: Option<Language>) -> (r: &'static str)
    ensures
        r@ == language_text(language, "Default"@),
{
    match language {
        Some(l) => l.code(),
        None => "Default",
    }
}

/// A recent lookup: the query, when it started and its status.
pub open spec fn recent_text(entry: HistoryEntry, started: Seq<char>) -> Seq<char> {
    safe_seq(entry.query@) + " · "@ + started + " · "@ + entry_status(entry)
}

pub fn recent_item(entry: &HistoryEntry, started: &str) -> (r: String)
    ensures
        r@ == recent_text(*entry, started@),
{
    let r = concat(safe_text(entry.query.as_str()).as_str(), " · ");
    let r = concat(r.as_str(), started);
    let r = concat(r.as_str(), " · ");
    concat(r.as_str(), entry.status())
}

/// What the recent lookups show while there are none: why the last read failed, or that
/// nothing was saved yet.
pub fn recent_placeholder(error: &Option<String>) -> (r: String)
    ensures
        r@ == match error {
            Some(e) => e@,
            None => "No saved lookups yet."@,
        },
{
    match error {
        Some(e) => copy_string(e.as_str()),
        None => copy_string("No saved lookups yet."),
    }
}

/// A saved lookup suggested under the query: the query, the direction of its saved result
/// and that result's first translation, each empty where there is none.
pub open spec fn suggestion_text(entry: HistoryEntry) -> Seq<char> {
    let (pair, first) = match entry_result(entry) {
        Some(r) => (
            pair_text(r.pair),
            if r.candidates@.len() > 0 {
                safe_seq(r.candidates@[0].text@)
            } else {
                Seq::empty()
            },
        ),
        None => (Seq::empty(), Seq::empty()),
    };
    safe_seq(entry.query@) + " · "@ + pair + " · "@ + first
}

pub fn suggestion_item(entry: &HistoryEntry) -> (r: String)
    ensures
        r@ == suggestion_text(*entry),
{
    let (pair, first) = match entry.result() {
        Some(r) => (
            r.pair.to_text(),
            if r.candidates.len() > 0 {
                safe_text(r.candidates[0].text.as_str())
            } else {
                String::new()
            },
        ),
        None => (String::new(), String::new()),
    };
    let s = concat(safe_text(entry.query.as_str()).as_str(), " · ");
    let s = concat(s.as_str(), pair.as_str());
    let s = concat(s.as_str(), " · ");
    concat(s.as_str(), first.as_str())
}

/// The height of the suggestions under the query: one row each and the border, no more
/// than the tab leaves below the query.
pub open spec fn popup_rows(count: int, height: u16) -> int {
    let wanted = count + 2;
    let room: int = if height >= 3 {
        height - 3
    } else {
        0
    };
    if wanted <= room {
        wanted
    } else {
        room
    }
}

pub fn popup_height(count: usize, height: u16) -> (r: u16)
    requires
        count <= 65533,
    ensures
        r == popup_rows(count as int, height),
{
    let wanted: u16 = count as u16 + 2;
    let room: u16 = if height >= 3 {
        height - 3
    } else {
        0
    };
    if wanted <= room {
        wanted
    } else {
        room
    }
}

/// The filter line above the history list.
pub open spec fn filter_text(filter: HistoryFilter) -> Seq<char> {
    "Filter: "@ + (if filter.text@.len() == 0 {
        "all text"@
    } else {
        filter.text@
    }) + " · "@ + (if filter.today {
        "today"@
    } else {
        "all history"@
    })
}

pub fn filter_line(filter: &HistoryFilter) -> (r: String)
    ensures
        r@ == filter_text(*filter),
{
    let text: &str = if filter.text.as_str().unicode_len() == 0 {
        "all text"
    } else {
        filter.text.as_str()
    };
    let r = concat("Filter: ", text);
    let r = concat(r.as_str(), " · ");
    concat(
        r.as_str(),
        if filter.today {
            "today"
        } else {
            "all history"
        },
    )
}

/// The first two translations of a saved result, joined by `, `.
pub open spec fn first_values(entry: HistoryEntry) -> Seq<char> {
    match entry_result(entry) {
        Some(r) => if r.candidates@.len() == 0 {
            Seq::empty()
        } else if r.candidates@.len() == 1 {
            safe_seq(r.candidates@[0].text@)
        } else {
            safe_seq(r.candidates@[0].text@) + ", "@ + safe_seq(r.candidates@[1].text@)
        },
        None => Seq::empty(),
    }
}

/// A language of a saved entry, `?` where it was not chosen.
pub open spec fn code_or_unknown(language: Option<Language>) -> Seq<char> {
    language_text(language, "?"@)
}

/// A history list entry, three lines: the query and its status; the direction, provider and
/// start; the first translations.
pub open spec fn history_text(entry: HistoryEntry, started: Seq<char>) -> Seq<char> {
    safe_seq(entry.query@) + " · "@ + entry_status(entry) + "\n"@ + code_or_unknown(entry.from)
        + " → "@ + code_or_unknown(entry.to) + " · "@ + safe_seq(
        match entry.provider {
            Some(p) => p@,
            None => "unknown provider"@,
        },
    ) + " · "@ + started + "\n"@ + first_values(entry)
}

fn code_label(language: Option<Language>) -> (r: &'static str)
    ensures
        r@ == code_or_unknown(language),
{
    match language {
        Some(l) => l.code(),
        None => "?",
    }
}

fn first_two(entry: &HistoryEntry) -> (r: String)
    ensures
        r@ == first_values(*entry),
{
    match entry.result() {
        Some(r) => if r.candidates.len() == 0 {
            String::new()
        } else if r.candidates.len() == 1 {
            safe_text(r.candidates[0].text.as_str())
        } else {
            let s = concat(safe_text(r.candidates[0].text.as_str()).as_str(), ", ");
            concat(s.as_str(), safe_text(r.candidates[1].text.as_str()).as_str())
        },
        None => String::new(),
    }
}

pub fn history_item(entry: &HistoryEntry, started: &str) -> (r: String)
    ensures
        r@ == history_text(*entry, started@),
{
    let provider = match &entry.provider {
        Some(p) => safe_text(p.as_str()),
        None => safe_text("unknown provider"),
    };
    let s = concat(safe_text(entry.query.as_str()).as_str(), " · ");
    let s = concat(s.as_str(), entry.status());
    let s = concat(s.as_str(), "\n");
    let s = concat(s.as_str(), code_label(entry.from));
    let s = concat(s.as_str(), " → ");
    let s = concat(s.as_str(), code_label(entry.to));
    let s = concat(s.as_str(), " · ");
    let s = concat(s.as_str(), provider.as_str());
    let s = concat(s.as_str(), " · ");
    let s = concat(s.as_str(), started);
    let s = concat(s.as_str(), "\n");
    concat(s.as_str(), first_two(entry).as_str())
}

/// What the history list shows while it is empty: why the last read failed; else that
/// nothing was saved, without a filter; else that nothing matches it.
pub open spec fn history_empty_text(error: Option<String>, filter: HistoryFilter) -> Seq<char> {
    match error {
        Some(e) => e@,
        None => if filter.text@.len() == 0 && !filter.today {
            "No saved lookups yet."@
        } else {
            "No matches. Open filters to adjust or clear them."@
        },
    }
}

pub fn history_placeholder(error: &Option<String>, filter: &HistoryFilter) -> (r: String)
    ensures
        r@ == history_empty_text(*error, *filter),
{
    match error {
        Some(e) => copy_string(e.as_str()),
        None => if filter.text.as_str().unicode_len() == 0 && !filter.today {
            copy_string("No saved lookups yet.")
        } else {
            copy_string("No matches. Open filters to adjust or clear them.")
        },
    }
}

/// How the history tab shares its space between the list and the details.
#[derive(Clone, Copy, Debug, PartialEq, Eq, Structural)]
pub enum HistoryLayout {
    /// Side by side, half each.
    Columns,
    /// The list above (45%) and the details below (55%).
    Rows,
    /// One of them at a time: the one that has the focus.
    Single,
}

pub open spec fn history_layout_of(width: u16, height: u16) -> HistoryLayout {
    if width >= 100 {
        HistoryLayout::Columns
    } else if height >= 20 {
        HistoryLayout::Rows
    } else {
        HistoryLayout::Single
    }
}

/// The history tab's layout in an area `width` by `height`: columns from 100 columns on, else
/// rows from 20 rows on, else one pane.
pub fn history_layout(width: u16, height: u16) -> (r: HistoryLayout)
    ensures
        r == history_layout_of(width, height),
{
    if width >= 100 {
        HistoryLayout::Columns
    } else if height >= 20 {
        HistoryLayout::Rows
    } else {
        HistoryLayout::Single
    }
}

/// Which of the history tab's panes are drawn: the list and the details. A single pane shows
/// the details while they have the focus, else the list.
pub fn history_panes(layout: HistoryLayout, focus: Focus) -> (r: (bool, bool))
    ensures
        r == (if layout == HistoryLayout::Single {
            (focus == Focus::History, focus == Focus::Details)
        } else {
            (true, true)
        }),
{
    if layout == HistoryLayout::Single {
        (focus == Focus::History, focus == Focus::Details)
    } else {
        (true, true)
    }
}

/// The number of a pane or a dialog field, which its title shows.
pub open spec fn number_text(n: int) -> Seq<char> {
    if n == 1 {
        "1"@
    } else if n == 2 {
        "2"@
    } else if n == 3 {
        "3"@
    } else if n == 4 {
        "4"@
    } else {
        "5"@
    }
}

fn number_label(n: u8) -> (r: &'static str)
    ensures
        r@ == number_text(n as int),
{
    if n == 1 {
        "1"
    } else if n == 2 {
        "2"
    } else if n == 3 {
        "3"
    } else if n == 4 {
        "4"
    } else {
        "5"
    }
}

/// A pane's title: its number in its tab, then its name.
pub open spec fn pane_title_text(tab: Tab, focus: Focus, title: Seq<char>) -> Seq<char> {
    " ["@ + number_text(pane_position(tab, focus) + 1) + "] "@ + trim_seq(title) + " "@
}

pub fn pane_title(tab: Tab, focus: Focus, title: &str) -> (r: String)
    requires
        tab_panes(tab).contains(focus),
    ensures
        r@ == pane_title_text(tab, focus, title@),
{
    let i: u8 = match tab {
        Tab::Lookup => match focus {
            Focus::Input => 0,
            Focus::Source => 1,
            Focus::Target => 2,
            Focus::Details => 3,
            Focus::Recent => 4,
            Focus::History => 0,
        },
        Tab::History => match focus {
            Focus::Details => 1,
            _ => 0,
        },
    };
    let s = concat(" [", number_label(i + 1));
    let s = concat(s.as_str(), "] ");
    let s = concat(s.as_str(), trim(title).as_str());
    concat(s.as_str(), " ")
}

/// A field of the history filter: its number, then its name.
pub open spec fn field_title_text(field: int, title: Seq<char>) -> Seq<char> {
    " ["@ + number_text(field + 1) + "] "@ + trim_seq(title)
}

pub fn field_title(field: usize, title: &str) -> (r: String)
    requires
        field < 5,
    ensures
        r@ == field_title_text(field as int, title@),
{
    let s = concat(" [", number_label((field + 1) as u8));
    let s = concat(s.as_str(), "] ");
    concat(s.as_str(), trim(title).as_str())
}

/// The filter dialog: at most 68 columns by 14 rows, centred in `area`.
pub open spec fn dialog_area_of(area: Area) -> Area {
    let width: u16 = if area.width <= 68 {
        area.width
    } else {
        68
    };
    let height: u16 = if area.height <= 14 {
        area.height
    } else {
        14
    };
    Area {
        x: (area.x + (area.width - width) / 2) as u16,
        y: (area.y + (area.height - height) / 2) as u16,
        width,
        height,
    }
}

pub fn dialog_area(area: Area) -> (r: Area)
    requires
        area.x + area.width <= u16::MAX,
        area.y + area.height <= u16::MAX,
    ensures
        r == dialog_area_of(area),
{
    let width: u16 = if area.width <= 68 {
        area.width
    } else {
        68
    };
    let height: u16 = if area.height <= 14 {
        area.height
    } else {
        14
    };
    Area {
        x: area.x + (area.width - width) / 2,
        y: area.y + (area.height - height) / 2,
        width,
        height,
    }
}

/// The date field of the filter dialog.
pub fn date_label(today: bool) -> (r: &'static str)
    ensures
        r@ == (if today {
            "Today"@
        } else {
            "All history"@
        }),
{
    if today {
        "Today"
    } else {
        "All history"
    }
}

/// The buttons of the filter dialog, fields 2 to 4.
pub fn button_label(field: usize) -> (r: &'static str)
    requires
        2 <= field < 5,
    ensures
        r@ == (if field == 2 {
            "Apply"@
        } else if field == 3 {
            "Clear"@
        } else {
            "Cancel"@
        }),
{
    if field == 2 {
        "Apply"
    } else if field == 3 {
        "Clear"
    } else {
        "Cancel"
    }
}

/// The help under the filter dialog's fields.
pub open spec fn dialog_help_text(bindings: Keybindings, pane_mode: bool) -> Seq<char> {
    if pane_mode {
        "Enter / Esc / "@ + hint(bindings.spec_bindings(), Action::Pane) + " finish"@
    } else {
        hint(bindings.spec_bindings(), Action::NextFocus)
            + " field · Enter edit/apply\nSpace date · Esc normal/cancel"@
    }
}

pub fn dialog_help(bindings: &Keybindings, pane_mode: bool) -> (r: String)
    ensures
        r@ == dialog_help_text(*bindings, pane_mode),
{
    if pane_mode {
        let s = concat("Enter / Esc / ", bindings.label(Action::Pane).as_str());
        concat(s.as_str(), " finish")
    } else {
        concat(
            bindings.label(Action::NextFocus).as_str(),
            " field · Enter edit/apply\nSpace date · Esc normal/cancel",
        )
    }
}

/// What the details show while a lookup runs.
pub fn loading_message() -> (r: &'static str)
    ensures
        r@ == "Looking up… Esc cancels."@,
{
    "Looking up… Esc cancels."
}

/// What the details show with nothing to show.
pub fn prompt_message() -> (r: &'static str)
    ensures
        r@ == "Enter a word to look up."@,
{
    "Enter a word to look up."
}

/// `text` line by line, each line made safe to show: the line breaks stay, a final line
/// break ends the last line and adds no empty one.
pub open spec fn safe_lines_seq(text: Seq<char>) -> Seq<char> {
    let body = if text.len() > 0 && text.last() == '\n' {
        text.drop_last()
    } else {
        text
    };
    body.filter(|c: char| is_safe_char(c) || c == '\n')
}

pub fn safe_lines(text: &str) -> (r: String)
    ensures
        r@ == safe_lines_seq(text@),
{
    let v = crate::strings::chars_of(text);
    let n: usize = if v.len() > 0 && v[v.len() - 1] == '\n' {
        v.len() - 1
    } else {
        v.len()
    };
    let ghost body = v@.take(n as int);
    assert(body =~= (if text@.len() > 0 && text@.last() == '\n' {
        text@.drop_last()
    } else {
        text@
    }));
    let mut out: Vec<char> = Vec::new();
    let mut i: usize = 0;
    while i < n
        invariant
            n <= v@.len(),
            body == v@.take(n as int),
            i <= n,
            out@ == v@.take(i as int).filter(|c: char| is_safe_char(c) || c == '\n'),
        decreases n - i,
    {
        let c = v[i];
        proof {
            assert(v@.take(i as int + 1).drop_last() =~= v@.take(i as int));
            reveal(Seq::filter);
        }
        if crate::text::char_is_safe(c) || c == '\n' {
            out.push(c);
        }
        i = i + 1;
    }
    assert(v@.take(n as int) =~= body);
    crate::strings::string_of(&out)
}

/// An entry without a saved result: its query, status, start and message, one per line.
pub open spec fn summary_text(entry: HistoryEntry, started: Seq<char>) -> Seq<char> {
    safe_lines_seq(
        entry.query@ + "\n"@ + entry_status(entry) + "\nStarted "@ + started + "\n"@ + match entry.finished {
            Some(f) => match f.message {
                Some(m) => m@,
                None => Seq::empty(),
            },
            None => Seq::empty(),
        },
    )
}

pub fn entry_summary(entry: &HistoryEntry, started: &str) -> (r: String)
    ensures
        r@ == summary_text(*entry, started@),
{
    let s = concat(entry.query.as_str(), "\n");
    let s = concat(s.as_str(), entry.status());
    let s = concat(s.as_str(), "\nStarted ");
    let s = concat(s.as_str(), started);
    let s = concat(s.as_str(), "\n");
    let message: &str = match &entry.finished {
        Some(f) => match &f.message {
            Some(m) => m.as_str(),
            None => "",
        },
        None => "",
    };
    proof {
        reveal_strlit("");
    }
    let s = concat(s.as_str(), message);
    safe_lines(s.as_str())
}

/// The message that the details show in place of a result's translations, if any. The
/// lookup tab shows the running lookup, else the latest lookup's problem, else a prompt
/// where there is no result. A saved encounter without a result shows its summary; with no
/// encounter selected, the prompt.
pub open spec fn details_message_text(
    saved: bool,
    loading: bool,
    problem: Option<Seq<char>>,
    entry: Option<HistoryEntry>,
    started: Seq<char>,
    has_result: bool,
) -> Option<Seq<char>> {
    if !saved {
        if loading {
            Some("Looking up… Esc cancels."@)
        } else if problem is Some {
            Some(safe_seq(problem->0))
        } else if !has_result {
            Some("Enter a word to look up."@)
        } else {
            None
        }
    } else if has_result {
        None
    } else {
        match entry {
            Some(e) => Some(summary_text(e, started)),
            None => Some("Enter a word to look up."@),
        }
    }
}

pub fn details_message(
    saved: bool,
    loading: bool,
    problem: Option<&str>,
    entry: Option<&HistoryEntry>,
    started: &str,
    has_result: bool,
) -> (r: Option<String>)
    ensures
        (match r {
            Some(t) => Some(t@),
            None => None,
        }) == details_message_text(
            saved,
            loading,
            match problem {
                Some(p) => Some(p@),
                None => None,
            },
            match entry {
                Some(e) => Some(*e),
                None => None,
            },
            started@,
            has_result,
        ),
{
    if !saved {
        if loading {
            Some(copy_string(loading_message()))
        } else if let Some(p) = problem {
            Some(safe_text(p))
        } else if !has_result {
            Some(copy_string(prompt_message()))
        } else {
            None
        }
    } else if has_result {
        None
    } else {
        match entry {
            Some(e) => Some(entry_summary(e, started)),
            None => Some(copy_string(prompt_message())),
        }
    }
}

/// The head of the details: headword, direction and provider; under it, for a saved
/// encounter, when it was saved and when it finished.
pub open spec fn header_text(result: LookupResult, started: Option<Seq<char>>, finished: Option<Seq<char>>) -> Seq<char> {
    safe_seq(result.headword@) + " · "@ + pair_text(result.pair) + " · "@ + safe_seq(
        result.provider@,
    ) + "\n"@ + match started {
        Some(s) => "Saved "@ + s + " · finished "@ + match finished {
            Some(f) => f,
            None => "unknown"@,
        },
        None => Seq::empty(),
    }
}

pub fn details_header(result: &LookupResult, started: Option<&str>, finished: Option<&str>) -> (r: String)
    ensures
        r@ == header_text(
            *result,
            match started {
                Some(s) => Some(s@),
                None => None,
            },
            match finished {
                Some(f) => Some(f@),
                None => None,
            },
        ),
{
    let s = concat(safe_text(result.headword.as_str()).as_str(), " · ");
    let s = concat(s.as_str(), result.pair.to_text().as_str());
    let s = concat(s.as_str(), " · ");
    let s = concat(s.as_str(), safe_text(result.provider.as_str()).as_str());
    let s = concat(s.as_str(), "\n");
    match started {
        Some(t) => {
            let s = concat(s.as_str(), "Saved ");
            let s = concat(s.as_str(), t);
            let s = concat(s.as_str(), " · finished ");
            concat(
                s.as_str(),
                match finished {
                    Some(f) => f,
                    None => "unknown",
                },
            )
        },
        None => s,
    }
}

/// The rows of the details above the translations (three for a saved encounter, else one)
/// and below them (two for the attribution where the pane is more than five rows high).
pub fn details_layout(saved: bool, inner_height: u16) -> (r: (u16, u16))
    ensures
        r == ((if saved {
            3u16
        } else {
            1u16
        }), (if inner_height > 5 {
            2u16
        } else {
            0u16
        })),
{
    (if saved {
        3
    } else {
        1
    }, if inner_height > 5 {
        2
    } else {
        0
    })
}

/// The attribution under the translations, empty where the provider gives none.
pub fn attribution_text(result: &LookupResult) -> (r: String)
    ensures
        r@ == safe_seq(
            match result.attribution {
                Some(a) => a@,
                None => Seq::empty(),
            },
        ),
{
    match &result.attribution {
        Some(a) => safe_text(a.as_str()),
        None => {
            proof {
                reveal_strlit("");
            }
            safe_text("")
        },
    }
}

/// One row of the translations in the details, and whether it belongs to the selected
/// translation (which is highlighted).
pub struct DetailRow {
    pub text: String,
    pub selected: bool,
}

/// The text of each row and whether it is highlighted.
pub open spec fn row_views(rows: Seq<DetailRow>) -> Seq<(Seq<char>, bool)> {
    rows.map_values(|r: DetailRow| (r.text@, r.selected))
}

/// The wrapped lines of each translation.
pub open spec fn block_views(blocks: Seq<Vec<String>>) -> Seq<Seq<Seq<char>>> {
    Seq::new(blocks.len(), |i: int| views(blocks[i]@))
}

/// How many rows each translation takes.
pub open spec fn block_heights(blocks: Seq<Vec<String>>) -> Seq<usize> {
    Seq::new(blocks.len(), |i: int| blocks[i]@.len() as usize)
}

/// The marker in front of a row: `> ` at the reading position, else two spaces.
pub open spec fn row_marker(reading: bool) -> Seq<char> {
    if reading {
        "> "@
    } else {
        "  "@
    }
}

/// The rows of translation `i`: each line behind its marker.
pub open spec fn block_rows(blocks: Seq<Seq<Seq<char>>>, selected: int, line: int, i: int) -> Seq<(Seq<char>, bool)> {
    Seq::new(
        blocks[i].len(),
        |l: int| (row_marker(i == selected && l == line) + blocks[i][l], i == selected),
    )
}

/// The rows of the first `n` translations, one after another.
pub open spec fn rows_of(blocks: Seq<Seq<Seq<char>>>, selected: int, line: int, n: int) -> Seq<(Seq<char>, bool)>
    decreases n,
{
    if n <= 0 {
        Seq::empty()
    } else {
        rows_of(blocks, selected, line, n - 1) + block_rows(blocks, selected, line, n - 1)
    }
}

/// The rows that a viewport `height` rows high shows from row `scroll` on.
pub open spec fn window<T>(rows: Seq<T>, scroll: int, height: int) -> Seq<T> {
    if scroll >= rows.len() {
        Seq::empty()
    } else if scroll + height >= rows.len() {
        rows.subrange(scroll, rows.len() as int)
    } else {
        rows.subrange(scroll, scroll + height)
    }
}

/// The translations' rows that the details show: every wrapped line of every translation
/// behind its marker, from row `scroll` on, as many as `height` rows hold.
pub fn detail_rows(blocks: &Vec<Vec<String>>, selected: usize, line: usize, scroll: usize, height: u16) -> (r: Vec<DetailRow>)
    ensures
        row_views(r@) == window(
            rows_of(block_views(blocks@), selected as int, line as int, blocks@.len() as int),
            scroll as int,
            height as int,
        ),
{
    let ghost bv = block_views(blocks@);
    let mut all: Vec<DetailRow> = Vec::new();
    let mut i: usize = 0;
    assert(row_views(all@) =~= rows_of(bv, selected as int, line as int, 0));
    while i < blocks.len()
        invariant
            bv == block_views(blocks@),
            i <= blocks@.len(),
            row_views(all@) == rows_of(bv, selected as int, line as int, i as int),
        decreases blocks.len() - i,
    {
        let block = &blocks[i];
        let ghost before = row_views(all@);
        let mut j: usize = 0;
        while j < block.len()
            invariant
                bv == block_views(blocks@),
                i < blocks@.len(),
                *block == blocks@[i as int],
                j <= block@.len(),
                row_views(all@) == before + block_rows(bv, selected as int, line as int, i as int).take(j as int),
            decreases block.len() - j,
        {
            let reading = i == selected && j == line;
            let marker: &str = if reading {
                "> "
            } else {
                "  "
            };
            let text = concat(marker, block[j].as_str());
            let ghost prior = row_views(all@);
            all.push(DetailRow { text, selected: i == selected });
            proof {
                assert(bv[i as int] == views(blocks@[i as int]@));
                assert(bv[i as int][j as int] == block@[j as int]@);
                assert(marker@ == row_marker(reading));
                let br = block_rows(bv, selected as int, line as int, i as int);
                assert(br[j as int] == (row_marker(reading) + bv[i as int][j as int], i == selected));
                assert(row_views(all@) =~= prior.push((text@, i == selected)));
                assert(br.take(j as int + 1) =~= br.take(j as int).push(br[j as int]));
                assert(row_views(all@) =~= before + br.take(j as int + 1));
            }
            j = j + 1;
        }
        proof {
            assert(block_rows(bv, selected as int, line as int, i as int).take(j as int) =~= block_rows(bv, selected as int, line as int, i as int));
        }
        i = i + 1;
    }
    let ghost rows = rows_of(bv, selected as int, line as int, blocks@.len() as int);
    let count = all.len();
    let mut out: Vec<DetailRow> = Vec::new();
    if scroll >= count {
        assert(row_views(out@) =~= Seq::<(Seq<char>, bool)>::empty());
        return out;
    }
    let end: usize = if height as usize >= count - scroll {
        count
    } else {
        scroll + height as usize
    };
    let mut k: usize = scroll;
    assert(row_views(out@) =~= rows.subrange(scroll as int, scroll as int));
    while k < end
        invariant
            row_views(all@) == rows,
            count == all@.len(),
            scroll <= k <= end,
            end <= count,
            row_views(out@) == rows.subrange(scroll as int, k as int),
        decreases end - k,
    {
        let row = &all[k];
        let ghost prior = row_views(out@);
        out.push(DetailRow { text: copy_string(row.text.as_str()), selected: row.selected });
        proof {
            assert(rows[k as int] == (row.text@, row.selected));
            assert(row_views(out@) =~= prior.push((row.text@, row.selected)));
            assert(row_views(out@) =~= rows.subrange(scroll as int, k as int + 1));
        }
        k = k + 1;
    }
    out
}

/// The wrapped lines of every translation of a result in a viewport `width` columns wide.
pub fn candidate_blocks(result: &LookupResult, width: u16) -> (r: Vec<Vec<String>>)
    ensures
        r@.len() == result.candidates@.len(),
        forall|i: int|
            0 <= i < r@.len() ==> views(#[trigger] r@[i]@) == wrapped_of(
                candidate_line(i as nat, result@.candidates[i]),
                detail_width(width),
            ),
{
    let mut r: Vec<Vec<String>> = Vec::new();
    let mut i: usize = 0;
    while i < result.candidates.len()
        invariant
            i <= result.candidates@.len(),
            r@.len() == i,
            forall|k: int|
                0 <= k < i ==> views(#[trigger] r@[k]@) == wrapped_of(
                    candidate_line(k as nat, result@.candidates[k]),
                    detail_width(width),
                ),
        decreases result.candidates.len() - i,
    {
        r.push(detail_lines(result, i, width));
        i = i + 1;
    }
    r
}

fn heights_of(blocks: &Vec<Vec<String>>) -> (r: Vec<usize>)
    ensures
        r@ == block_heights(blocks@),
{
    let mut r: Vec<usize> = Vec::new();
    let mut i: usize = 0;
    while i < blocks.len()
        invariant
            i <= blocks@.len(),
            r@ == block_heights(blocks@).take(i as int),
        decreases blocks.len() - i,
    {
        r.push(blocks[i].len());
        proof {
            assert(r@ =~= block_heights(blocks@).take(i as int + 1));
        }
        i = i + 1;
    }
    assert(block_heights(blocks@).take(i as int) =~= block_heights(blocks@));
    r
}

/// Whether the translations' rows can be counted in a `usize`.
pub fn rows_fit(blocks: &Vec<Vec<String>>) -> (r: bool)
    ensures
        r == (total(block_heights(blocks@)) <= usize::MAX),
{
    let h = heights_of(blocks);
    let mut sum: usize = 0;
    let mut i: usize = 0;
    assert(h@.take(0) =~= Seq::<usize>::empty());
    while i < h.len()
        invariant
            h@ == block_heights(blocks@),
            i <= h@.len(),
            sum == total(h@.take(i as int)),
        decreases h.len() - i,
    {
        assert(h@.take(i as int + 1).drop_last() =~= h@.take(i as int));
        if sum > usize::MAX - h[i] {
            proof {
                crate::navigation::lemma_total_prefix(h@, i as int + 1);
            }
            return false;
        }
        sum = sum + h[i];
        i = i + 1;
    }
    assert(h@.take(i as int) =~= h@);
    true
}

/// The translations' viewport in the details: the selected translation, the reading line
/// within it, the first row shown, and the viewport's size.
pub struct DetailsPane {
    pub selected: Option<usize>,
    pub line: usize,
    pub scroll: usize,
    pub width: u16,
    pub height: u16,
}

/// The selected translation that a selection means in a list of `count`: the first where
/// none is selected, the last where the selection is past the end.
pub open spec fn shown_selection(selected: Option<usize>, count: int) -> int {
    let s = match selected {
        Some(s) => s as int,
        None => 0,
    };
    if s < count - 1 {
        s
    } else if count >= 1 {
        count - 1
    } else {
        0
    }
}

impl DetailsPane {
    /// Nothing selected, at the top, in a one-cell viewport until the first drawing.
    pub fn new() -> (r: DetailsPane)
        ensures
            r == (DetailsPane { selected: None, line: 0, scroll: 0, width: 1, height: 1 }),
    {
        DetailsPane { selected: None, line: 0, scroll: 0, width: 1, height: 1 }
    }

    /// Select a translation and read it from the top.
    pub fn select_candidate(&mut self, selected: Option<usize>)
        ensures
            *final(self) == (DetailsPane { selected, line: 0, scroll: 0, ..*old(self) }),
    {
        self.selected = selected;
        self.line = 0;
        self.scroll = 0;
    }

    /// Move through the translations, whose wrapped lines are `blocks` at the viewport's
    /// width. An action that does not move them changes nothing. Moves within a translation
    /// keep the selection; Home and End select the first or last translation; otherwise the
    /// selection changes where the move reaches another translation. The viewport then
    /// follows the reading position in the direction of the move.
    pub fn navigate(&mut self, blocks: &Vec<Vec<String>>, action: Action)
        requires
            total(block_heights(blocks@)) <= usize::MAX,
        ensures
            ({
                let h = block_heights(blocks@);
                let height = if old(self).height >= 1 {
                    old(self).height as int
                } else {
                    1
                };
                let at = match old(self).selected {
                    Some(s) => s as int,
                    None => 0,
                };
                match details_move_spec(h, at, old(self).line as int, height, action) {
                    None => *final(self) == *old(self),
                    Some((s, l)) => {
                        let chosen = if action == Action::Home || action == Action::End || s
                            != shown_selection(old(self).selected, h.len() as int) {
                            Some(s as usize)
                        } else {
                            old(self).selected
                        };
                        let a = align_spec(
                            h,
                            match chosen {
                                Some(c) => c as int,
                                None => 0,
                            },
                            l,
                            old(self).scroll as int,
                            height,
                            Some(action),
                        );
                        &&& final(self).selected == chosen
                        &&& final(self).line == a.0
                        &&& final(self).scroll == a.1
                        &&& final(self).width == old(self).width
                        &&& final(self).height == old(self).height
                    },
                }
            }),
    {
        let heights = heights_of(blocks);
        let at: usize = match self.selected {
            Some(s) => s,
            None => 0,
        };
        let count = heights.len();
        let moved = details_move(&heights, at, self.line, self.height, action);
        match moved {
            None => {},
            Some((s, l)) => {
                let shown: usize = if count >= 1 && at < count - 1 {
                    at
                } else if count >= 1 {
                    count - 1
                } else {
                    0
                };
                if action == Action::Home || action == Action::End || s != shown {
                    self.selected = Some(s);
                }
                let chosen: usize = match self.selected {
                    Some(c) => c,
                    None => 0,
                };
                let (line, scroll) = align_details(&heights, chosen, l, self.scroll, self.height, Some(action));
                self.line = line;
                self.scroll = scroll;
            },
        }
    }

    /// Draw the translations in a viewport `width` by `height`: remember the viewport, keep
    /// the selection on a translation that exists (reading it from the top where that
    /// changes the selection), align the viewport to the reading position, and give the rows
    /// shown.
    pub fn render(&mut self, blocks: &Vec<Vec<String>>, width: u16, height: u16) -> (r: Vec<DetailRow>)
        requires
            total(block_heights(blocks@)) <= usize::MAX,
        ensures
            ({
                let h = block_heights(blocks@);
                let sel = shown_selection(old(self).selected, h.len() as int);
                let reset = old(self).selected != Some(sel as usize);
                let a = align_spec(
                    h,
                    sel,
                    if reset {
                        0
                    } else {
                        old(self).line as int
                    },
                    if reset {
                        0
                    } else {
                        old(self).scroll as int
                    },
                    if height >= 1 {
                        height as int
                    } else {
                        1
                    },
                    None,
                );
                &&& final(self).selected == Some(sel as usize)
                &&& final(self).line == a.0
                &&& final(self).scroll == a.1
                &&& final(self).width == width
                &&& final(self).height == height
                &&& row_views(r@) == window(
                    rows_of(block_views(blocks@), sel, a.0, blocks@.len() as int),
                    a.1,
                    height as int,
                )
            }),
    {
        self.width = width;
        self.height = height;
        let heights = heights_of(blocks);
        let count = heights.len();
        let at: usize = match self.selected {
            Some(s) => s,
            None => 0,
        };
        let sel: usize = if count >= 1 && at < count - 1 {
            at
        } else if count >= 1 {
            count - 1
        } else {
            0
        };
        if self.selected != Some(sel) {
            self.select_candidate(Some(sel));
        }
        let (line, scroll) = align_details(&heights, sel, self.line, self.scroll, height, None);
        self.line = line;
        self.scroll = scroll;
        detail_rows(blocks, sel, line, scroll, height)
    }
}

} // verus!
