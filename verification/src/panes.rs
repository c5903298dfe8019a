//! The state of the terminal interface's lists and lookups as answers arrive. Every read and
//! lookup carries the generation it was started in; an answer from an older generation is
//! outdated and changes nothing.
use vstd::prelude::*;
use crate::domain::{Language, LookupRequest, LookupResult};
use crate::history::{Cursor, HistoryEntry, HistoryPage};
use crate::lookup::LookupError;
use crate::navigation::HistorySelection;
use crate::presentation::{lookup_error_text, lookup_error_text_spec};
use crate::session::Completion;
use crate::strings::{copy_string, join, join_seq, str_eq, trim, trim_seq, views};

verus! {

/// The first position of an entry with identifier `id`.
pub open spec fn position_of_id(entries: Seq<HistoryEntry>, id: Seq<char>) -> Option<int>
    decreases entries.len(),
{
    if entries.len() == 0 {
        None
    } else if entries[0].id@ == id {
        Some(0)
    } else {
        match position_of_id(entries.drop_first(), id) {
            Some(i) => Some(i + 1),
            None => None,
        }
    }
}

proof fn lemma_position_bounds(entries: Seq<HistoryEntry>, id: Seq<char>)
    ensures
        position_of_id(entries, id) matches Some(i) ==> 0 <= i < entries.len(),
    decreases entries.len(),
{
    if entries.len() > 0 {
        lemma_position_bounds(entries.drop_first(), id);
    }
}

/// The first position of an entry with identifier `id`.
fn find_id(entries: &Vec<HistoryEntry>, id: &str) -> (r: Option<usize>)
    ensures
        match position_of_id(entries@, id@) {
            Some(i) => r == Some(i as usize),
            None => r is None,
        },
{
    let mut i: usize = 0;
    assert(entries@.skip(0) =~= entries@);
    while i < entries.len()
        invariant
            i <= entries@.len(),
            position_of_id(entries@, id@) == match position_of_id(entries@.skip(i as int), id@) {
                Some(k) => Some(k + i),
                None => None::<int>,
            },
        decreases entries.len() - i,
    {
        assert(entries@.skip(i as int).drop_first() =~= entries@.skip(i + 1));
        if str_eq(entries[i].id.as_str(), id) {
            return Some(i);
        }
        i = i + 1;
    }
    proof {
        lemma_position_bounds(entries@, id@);
    }
    None
}

/// The saved encounters that the history tab lists.
pub struct HistoryList {
    pub entries: Vec<HistoryEntry>,
    pub selected: Option<usize>,
    /// The generation of the latest read; answers to earlier reads are outdated.
    pub generation: u64,
    /// The message of the last failed read, while it is shown.
    pub error: Option<String>,
}

/// The entry that a page selects: the entry that was selected, where the read keeps the
/// selection and the entry is on the page; else the last entry where the read asked for it;
/// else the first.
pub open spec fn page_index(
    selection: HistorySelection,
    kept: Option<Seq<char>>,
    entries: Seq<HistoryEntry>,
) -> int {
    let found = match kept {
        Some(id) => position_of_id(entries, id),
        None => None,
    };
    match found {
        Some(i) => i,
        None => if selection == HistorySelection::Last && entries.len() > 0 {
            entries.len() - 1
        } else {
            0
        },
    }
}

/// Whether the notice shows the message of an earlier failed read.
pub open spec fn error_shown(error: Option<String>, notice: Seq<char>) -> bool {
    match error {
        Some(m) => m@ == notice,
        None => false,
    }
}

/// The identifier of the selected entry, where the read keeps the selection.
pub open spec fn kept_id(list: HistoryList, selection: HistorySelection) -> Option<Seq<char>> {
    if selection == HistorySelection::Preserve {
        match list.selected {
            Some(i) => if i < list.entries@.len() {
                Some(list.entries@[i as int].id@)
            } else {
                None
            },
            None => None,
        }
    } else {
        None
    }
}

/// What taking the answer to a history read does to the list and the notice, as
/// `HistoryList::apply` states it.
pub open spec fn history_applied(
    old: HistoryList,
    new: HistoryList,
    generation: u64,
    selection: HistorySelection,
    result: Result<HistoryPage, String>,
    old_notice: Seq<char>,
    new_notice: Seq<char>,
    replaced: bool,
) -> bool {
    &&& generation != old.generation ==> !replaced && new.entries@ == old.entries@ && new.selected == old.selected && new.error == old.error && new_notice == old_notice
    &&& new.generation == old.generation
    &&& generation == old.generation ==> match result {
        Err(e) => !replaced && new.error == Some(e) && new_notice == e@
            && new.entries@.len() == 0 && new.selected is None,
        Ok(page) => {
            &&& new.error is None
            &&& new_notice == (if error_shown(old.error, old_notice) {
                Seq::<char>::empty()
            } else {
                old_notice
            })
            &&& if page.entries@.len() == 0 && old.entries@.len() > 0 && selection
                != HistorySelection::Preserve {
                !replaced && new.entries@ == old.entries@ && new.selected == old.selected
            } else {
                &&& replaced
                &&& new.entries@ == page.entries@
                &&& new.selected == (if page.entries@.len() == 0 {
                    None
                } else {
                    Some(page_index(selection, kept_id(old, selection), page.entries@) as usize)
                })
            }
        },
    }
}

impl HistoryList {
    /// Take the answer to a history read started in `generation`. A failed read empties the
    /// list and shows its message; a page replaces the list, except that an empty page leaves
    /// a nonempty list alone unless the read keeps the selection; a successful read clears the
    /// message of an earlier failure. The result says whether the list was replaced, so that
    /// the details selection starts over.
    pub fn apply(
        &mut self,
        generation: u64,
        selection: HistorySelection,
        result: Result<HistoryPage, String>,
        notice: &mut String,
    ) -> (replaced: bool)
        ensures
            history_applied(*old(self), *final(self), generation, selection, result, old(notice)@, final(notice)@, replaced),
    {
        if generation != self.generation {
            return false;
        }
        match result {
            Ok(page) => {
                let clear = match &self.error {
                    Some(m) => str_eq(m.as_str(), notice.as_str()),
                    None => false,
                };
                if clear {
                    *notice = String::new();
                }
                self.error = None;
                let preserve = selection == HistorySelection::Preserve;
                if page.entries.len() == 0 && self.entries.len() > 0 && !preserve {
                    return false;
                }
                let kept: Option<String> = if preserve {
                    match self.selected {
                        Some(i) => if i < self.entries.len() {
                            Some(self.entries[i].id.clone())
                        } else {
                            None
                        },
                        None => None,
                    }
                } else {
                    None
                };
                let found = match &kept {
                    Some(id) => find_id(&page.entries, id.as_str()),
                    None => None,
                };
                let count = page.entries.len();
                let index = match found {
                    Some(i) => i,
                    None => if selection == HistorySelection::Last && count > 0 {
                        count - 1
                    } else {
                        0
                    },
                };
                self.entries = page.entries;
                self.selected = if count == 0 {
                    None
                } else {
                    Some(index)
                };
                true
            },
            Err(e) => {
                *notice = e.clone();
                self.error = Some(e);
                self.entries = Vec::new();
                self.selected = None;
                false
            },
        }
    }
}

/// The lookup that the lookup tab shows: the live result or the problem of the latest
/// lookup, and the saved result previewed instead of it.
pub struct LookupRun {
    /// The generation of the latest lookup; completions of earlier lookups are outdated.
    pub generation: u64,
    pub loading: bool,
    pub live: Option<LookupResult>,
    pub problem: Option<String>,
    pub preview: Option<HistoryEntry>,
}

/// What taking the completion of lookup `id` does, as `LookupRun::complete` states it: an
/// outdated completion changes nothing and gives nothing; the latest one stops loading and
/// shows its result or its problem, and gives its warnings joined by ` · `.
pub open spec fn lookup_completed(
    old: LookupRun,
    new: LookupRun,
    id: u64,
    completion: Completion,
    r: Option<String>,
) -> bool {
    &&& id != old.generation ==> r is None && new.loading == old.loading && new.live == old.live
        && new.problem == old.problem
    &&& new.generation == old.generation
    &&& new.preview == old.preview
    &&& id == old.generation ==> {
        &&& !new.loading
        &&& r matches Some(w) && w@ == join_seq(views(completion.warnings@), " · "@)
        &&& match completion.result {
            Ok(res) => new.live == Some(res) && new.problem is None,
            Err(e) => new.live is None && (new.problem matches Some(p) && p@
                == lookup_error_text_spec(e)),
        }
    }
}

impl LookupRun {
    /// Start a lookup of the draft in the chosen languages: a new generation, loading, with
    /// no preview and no problem shown. The result is the generation and the request.
    pub fn begin(&mut self, query: String, from: Option<Language>, to: Option<Language>) -> (r: (
        u64,
        LookupRequest,
    ))
        requires
            old(self).generation < u64::MAX,
        ensures
            final(self).generation == old(self).generation + 1,
            final(self).loading,
            final(self).preview is None,
            final(self).problem is None,
            final(self).live == old(self).live,
            r.0 == final(self).generation,
            r.1.query@ == query@ && r.1.from == from && r.1.to == to,
    {
        self.generation = self.generation + 1;
        self.loading = true;
        self.preview = None;
        self.problem = None;
        (self.generation, LookupRequest { query, from, to })
    }

    /// Cancel the running lookup: its completion becomes outdated, loading stops, and the
    /// details say that it was cancelled.
    pub fn cancel(&mut self)
        requires
            old(self).generation < u64::MAX,
        ensures
            final(self).generation == old(self).generation + 1,
            !final(self).loading,
            final(self).problem matches Some(p) && p@ == "Lookup cancelled."@,
            final(self).live == old(self).live,
            final(self).preview == old(self).preview,
    {
        self.generation = self.generation + 1;
        self.loading = false;
        self.problem = Some(copy_string("Lookup cancelled."));
    }

    /// Take the completion of lookup `id`. An outdated completion changes nothing and gives
    /// nothing; the latest one stops loading and shows its result or its problem, and gives
    /// its warnings joined by ` · ` for the notice.
    pub fn complete(&mut self, id: u64, completion: Completion) -> (r: Option<String>)
        ensures
            lookup_completed(*old(self), *final(self), id, completion, r),
    {
        if id != self.generation {
            return None;
        }
        self.loading = false;
        match completion.result {
            Ok(result) => {
                self.live = Some(result);
                self.problem = None;
            },
            Err(error) => {
                self.live = None;
                self.problem = Some(lookup_error_text(&error));
            },
        }
        Some(join(&completion.warnings, " · "))
    }
}

/// What the suggestions under the query are read for: the draft and its languages.
pub struct SuggestionQuery {
    pub text: String,
    pub from: Option<Language>,
    pub to: Option<Language>,
}

/// The saved lookups suggested while the query is typed.
pub struct Suggestions {
    pub query: Option<SuggestionQuery>,
    /// The generation of the latest query; pages read for earlier ones are outdated.
    pub generation: u64,
    pub entries: Vec<HistoryEntry>,
    pub selected: Option<usize>,
}

/// Whether two suggestion queries are the same.
pub open spec fn same_query(a: Option<SuggestionQuery>, b: Option<SuggestionQuery>) -> bool {
    match (a, b) {
        (None, None) => true,
        (Some(x), Some(y)) => x.text@ == y.text@ && x.from == y.from && x.to == y.to,
        _ => false,
    }
}

/// What taking suggestions read in `generation` does, as `Suggestions::apply` states it:
/// outdated pages, and pages that arrive when nothing is suggested any more, change nothing;
/// a failed read shows its message.
pub open spec fn suggestions_applied(
    old: Suggestions,
    new: Suggestions,
    generation: u64,
    result: Result<HistoryPage, String>,
    old_notice: Seq<char>,
    new_notice: Seq<char>,
) -> bool {
    &&& new.generation == old.generation
    &&& new.query == old.query
    &&& new.selected == old.selected
    &&& generation != old.generation || old.query is None ==> new.entries@ == old.entries@
        && new_notice == old_notice
    &&& generation == old.generation && old.query is Some ==> match result {
        Ok(page) => new.entries@ == page.entries@ && new_notice == old_notice,
        Err(e) => new.entries@ == old.entries@ && new_notice == e@,
    }
}

impl Suggestions {
    /// Follow the draft: suggestions are read while the query pane is active and in insert
    /// mode, no lookup runs, and the draft is not blank. Where that changes what is read
    /// for, the old suggestions go and a new generation starts; the result says whether the
    /// caller reads anew.
    pub fn update(
        &mut self,
        active: bool,
        inserting: bool,
        loading: bool,
        text: String,
        from: Option<Language>,
        to: Option<Language>,
    ) -> (changed: bool)
        requires
            old(self).generation < u64::MAX,
        ensures
            ({
                let wanted = active && inserting && !loading && trim_seq(text@).len() > 0;
                let query = if wanted {
                    Some(SuggestionQuery { text, from, to })
                } else {
                    None
                };
                if same_query(query, old(self).query) {
                    !changed && final(self).query == old(self).query && final(self).generation
                        == old(self).generation && final(self).entries@ == old(self).entries@
                        && final(self).selected == old(self).selected
                } else {
                    changed && same_query(final(self).query, query) && final(self).generation
                        == old(self).generation + 1 && final(self).entries@.len() == 0 && final(self).selected is None
                }
            }),
    {
        let wanted = active && inserting && !loading && trim(text.as_str()).as_str().unicode_len()
            > 0;
        let same = match &self.query {
            None => !wanted,
            Some(q) => wanted && str_eq(q.text.as_str(), text.as_str()) && q.from == from && q.to
                == to,
        };
        if same {
            return false;
        }
        self.query = if wanted {
            Some(SuggestionQuery { text, from, to })
        } else {
            None
        };
        self.generation = self.generation + 1;
        self.entries = Vec::new();
        self.selected = None;
        true
    }

    /// Take the suggestions read in `generation`: outdated pages, and pages that arrive when
    /// nothing is suggested any more, change nothing; a failed read shows its message.
    pub fn apply(&mut self, generation: u64, result: Result<HistoryPage, String>, notice: &mut String)
        ensures
            suggestions_applied(*old(self), *final(self), generation, result, old(notice)@, final(notice)@),
    {
        if generation != self.generation || self.query.is_none() {
            return;
        }
        match result {
            Ok(page) => {
                self.entries = page.entries;
            },
            Err(e) => {
                *notice = e;
            },
        }
    }
}

/// Which list a history read fills.
#[derive(Clone, Copy, Debug, PartialEq, Eq, Structural)]
pub enum HistoryTarget {
    /// The recent lookups under the query.
    Recent,
    /// The history tab's list.
    History,
}

/// How many entries a read for a list asks for: five recent lookups, fifty history entries.
pub fn read_limit(target: HistoryTarget) -> (r: usize)
    ensures
        r == (if target == HistoryTarget::Recent {
            5usize
        } else {
            50usize
        }),
{
    match target {
        HistoryTarget::Recent => 5,
        HistoryTarget::History => 50,
    }
}

/// Whether a read that came back empty is made again from the newest entry: a refresh that
/// keeps the selection and read from a cursor finds nothing when the entries after the cursor
/// are gone, and then reads the first page instead.
pub fn reread_from_start(selection: HistorySelection, cursor: Option<Cursor>, page_empty: bool) -> (r:
    bool)
    ensures
        r == (selection == HistorySelection::Preserve && cursor is Some && page_empty),
{
    selection == HistorySelection::Preserve && cursor.is_some() && page_empty
}

} // verus!

