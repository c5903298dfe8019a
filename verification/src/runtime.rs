//! The run loop of the terminal interface, as decisions. The loop owns the terminal, the
//! background jobs and their cancellation; everything it decides is here: what an answer
//! from a job changes, and what the loop does for a request that a key made.
use vstd::prelude::*;
use crate::domain::{Language, LookupRequest, LookupResult};
use crate::history::{Cursor, Finished, HistoryEntry, HistoryFilter, HistoryPage};
use crate::navigation::{HistoryRead, HistorySelection, Tab, refresh_read};
use crate::panes::{
    HistoryList, HistoryTarget, LookupRun, Suggestions, error_shown, history_applied,
    lookup_completed, position_of_id, suggestions_applied,
};
use crate::screen::DetailsPane;
use crate::session::Completion;
use crate::strings::{concat, copy_string, join, join_seq, views};
use crate::text::{safe_seq, safe_text};

verus! {

/// The views of an optional result.
pub open spec fn same_result(a: Option<LookupResult>, b: Option<LookupResult>) -> bool {
    match (a, b) {
        (Some(x), Some(y)) => x@ == y@,
        (None, None) => true,
        _ => false,
    }
}

/// The views of an optional string.
pub open spec fn same_text(a: Option<String>, b: Option<String>) -> bool {
    match (a, b) {
        (Some(x), Some(y)) => x@ == y@,
        (None, None) => true,
        _ => false,
    }
}

/// Two entries that hold the same values.
pub open spec fn same_entry(a: HistoryEntry, b: HistoryEntry) -> bool {
    &&& a.id@ == b.id@
    &&& a.sequence == b.sequence
    &&& a.query@ == b.query@
    &&& a.from == b.from
    &&& a.to == b.to
    &&& same_text(a.provider, b.provider)
    &&& a.started_at == b.started_at
    &&& a.finished_at == b.finished_at
    &&& match (a.finished, b.finished) {
        (Some(f), Some(g)) => f.outcome == g.outcome && same_result(f.result, g.result)
            && f.resolved_pair == g.resolved_pair && same_text(f.error_code, g.error_code)
            && same_text(f.message, g.message),
        (None, None) => true,
        _ => false,
    }
}

fn copy_text(value: &Option<String>) -> (r: Option<String>)
    ensures
        same_text(r, *value),
{
    match value {
        Some(s) => Some(copy_string(s.as_str())),
        None => None,
    }
}

/// A copy of an entry.
pub fn copy_entry(entry: &HistoryEntry) -> (r: HistoryEntry)
    ensures
        same_entry(r, *entry),
{
    let finished = match &entry.finished {
        Some(f) => Some(
            Finished {
                outcome: f.outcome,
                result: match &f.result {
                    Some(x) => Some(x.clone()),
                    None => None,
                },
                resolved_pair: f.resolved_pair,
                error_code: copy_text(&f.error_code),
                message: copy_text(&f.message),
            },
        ),
        None => None,
    };
    HistoryEntry {
        id: copy_string(entry.id.as_str()),
        sequence: entry.sequence,
        query: copy_string(entry.query.as_str()),
        from: entry.from,
        to: entry.to,
        provider: copy_text(&entry.provider),
        started_at: entry.started_at,
        finished_at: entry.finished_at,
        finished,
    }
}

/// The recent lookups under the query.
pub struct RecentList {
    pub entries: Vec<HistoryEntry>,
    pub selected: Option<usize>,
    /// The generation of the latest read; answers to earlier reads are outdated.
    pub generation: u64,
    /// The message of the last failed read, while it is shown.
    pub error: Option<String>,
}

/// The identifier of the selected recent lookup.
pub open spec fn selected_id(list: RecentList) -> Option<Seq<char>> {
    match list.selected {
        Some(i) => if i < list.entries@.len() {
            Some(list.entries@[i as int].id@)
        } else {
            None
        },
        None => None,
    }
}

/// What taking the answer to a read of recent lookups does, as `RecentList::apply` states
/// it. An outdated answer changes nothing. A failed read shows its message and keeps the
/// list. A page replaces the list, keeps the selected lookup selected where it is still
/// there, refreshes the previewed lookup from the page where it is there, and clears the
/// message of an earlier failure.
pub open spec fn recent_applied(
    old: RecentList,
    new: RecentList,
    generation: u64,
    result: Result<HistoryPage, String>,
    old_notice: Seq<char>,
    new_notice: Seq<char>,
    old_preview: Option<HistoryEntry>,
    new_preview: Option<HistoryEntry>,
) -> bool {
    &&& new.generation == old.generation
    &&& generation != old.generation ==> new.entries@ == old.entries@ && new.selected
        == old.selected && new.error == old.error && new_notice == old_notice && new_preview
        == old_preview
    &&& generation == old.generation ==> match result {
        Err(e) => new.error == Some(e) && new_notice == e@ && new.entries@ == old.entries@
            && new.selected == old.selected && new_preview == old_preview,
        Ok(page) => {
            &&& new.error is None
            &&& new_notice == (if error_shown(old.error, old_notice) {
                Seq::<char>::empty()
            } else {
                old_notice
            })
            &&& new.entries@ == page.entries@
            &&& new.selected == match selected_id(old) {
                Some(id) => match position_of_id(page.entries@, id) {
                    Some(k) => Some(k as usize),
                    None => None,
                },
                None => None,
            }
            &&& match old_preview {
                Some(p) => match position_of_id(page.entries@, p.id@) {
                    Some(k) => new_preview matches Some(q) && same_entry(q, page.entries@[k]),
                    None => new_preview == old_preview,
                },
                None => new_preview is None,
            }
        },
    }
}

proof fn lemma_position_in_bounds(entries: Seq<HistoryEntry>, id: Seq<char>)
    ensures
        position_of_id(entries, id) matches Some(i) ==> 0 <= i < entries.len() && entries[i].id@
            == id,
    decreases entries.len(),
{
    if entries.len() > 0 {
        lemma_position_in_bounds(entries.drop_first(), id);
    }
}

fn find_entry(entries: &Vec<HistoryEntry>, id: &str) -> (r: Option<usize>)
    ensures
        match position_of_id(entries@, id@) {
            Some(i) => r == Some(i as usize),
            None => r is None,
        },
{
    let mut i: usize = 0;
    assert(entries@.skip(0) =~= entries@);
    while i < entries.len()
        invariant
            i <= entries@.len(),
            position_of_id(entries@, id@) == match position_of_id(entries@.skip(i as int), id@) {
                Some(k) => Some(k + i),
                None => None::<int>,
            },
        decreases entries.len() - i,
    {
        assert(entries@.skip(i as int).drop_first() =~= entries@.skip(i + 1));
        if crate::strings::str_eq(entries[i].id.as_str(), id) {
            return Some(i);
        }
        i = i + 1;
    }
    proof {
        lemma_position_in_bounds(entries@, id@);
    }
    None
}

impl RecentList {
    /// Nothing read yet.
    pub fn new() -> (r: RecentList)
        ensures
            r.entries@.len() == 0,
            r.selected is None,
            r.generation == 0,
            r.error is None,
    {
        RecentList { entries: Vec::new(), selected: None, generation: 0, error: None }
    }

    /// Take the answer to a read of recent lookups made in `generation`.
    pub fn apply(
        &mut self,
        generation: u64,
        result: Result<HistoryPage, String>,
        notice: &mut String,
        preview: &mut Option<HistoryEntry>,
    )
        ensures
            recent_applied(
                *old(self),
                *final(self),
                generation,
                result,
                old(notice)@,
                final(notice)@,
                *old(preview),
                *final(preview),
            ),
    {
        if generation != self.generation {
            return;
        }
        match result {
            Ok(page) => {
                let clear = match &self.error {
                    Some(m) => crate::strings::str_eq(m.as_str(), notice.as_str()),
                    None => false,
                };
                if clear {
                    *notice = String::new();
                }
                self.error = None;
                let kept: Option<String> = match self.selected {
                    Some(i) => if i < self.entries.len() {
                        Some(copy_string(self.entries[i].id.as_str()))
                    } else {
                        None
                    },
                    None => None,
                };
                self.selected = match &kept {
                    Some(id) => find_entry(&page.entries, id.as_str()),
                    None => None,
                };
                let ghost shown = *preview;
                let ghost entries = page.entries@;
                let page_len = page.entries.len();
                let current: &Option<HistoryEntry> = preview;
                let found: Option<usize> = match current {
                    Some(p) => find_entry(&page.entries, p.id.as_str()),
                    None => None,
                };
                if let Some(k) = found {
                    proof {
                        lemma_position_in_bounds(page.entries@, shown->0.id@);
                    }
                    let copy = copy_entry(&page.entries[k]);
                    assert(same_entry(copy, page.entries@[k as int]));
                    *preview = Some(copy);
                    assert(*preview matches Some(q) && same_entry(q, entries[k as int]));
                }
                self.entries = page.entries;
                assert(self.entries@ == entries);
                proof {
                    match shown {
                        Some(p) => match position_of_id(entries, p.id@) {
                            Some(k) => {
                                lemma_position_in_bounds(entries, p.id@);
                                assert(k < page_len);
                                assert(found == Some(k as usize));
                                assert(*preview matches Some(q) && same_entry(q, entries[k]));
                            },
                            None => {
                                assert(*preview == shown);
                            },
                        },
                        None => {
                            assert(*preview is None);
                        },
                    }
                }
            },
            Err(e) => {
                *notice = e.clone();
                self.error = Some(e);
            },
        }
    }
}

/// An answer that reaches the loop from a background job.
pub enum Job {
    /// Lookup `id` finished.
    Lookup(u64, Completion),
    /// A history read finished.
    History {
        generation: u64,
        target: HistoryTarget,
        selection: HistorySelection,
        result: Result<HistoryPage, String>,
    },
    /// A read of suggestions finished.
    Suggestions(u64, Result<HistoryPage, String>),
    /// A running lookup reports its progress.
    Progress(String),
    /// A job failed without being cancelled; the text says why.
    Failed(String),
}

/// What a key asked the loop for.
pub enum Request {
    /// Look up the draft.
    Submit(String),
    /// Stop the running lookups.
    Cancel,
    /// Leave.
    Quit,
    /// Read history for the history tab.
    Read(HistoryRead),
}

/// What the loop does next.
pub enum Command {
    /// Tell these lookups to stop.
    Cancel(Vec<u64>),
    /// Start lookup `id`.
    Lookup(u64, LookupRequest),
    /// Read history for one of the lists.
    Read { filter: HistoryFilter, read: HistoryRead, generation: u64, target: HistoryTarget },
    /// Leave the loop.
    Quit,
}

/// The state that the loop's decisions read and change.
pub struct Runtime {
    pub tab: Tab,
    pub notice: String,
    pub source: Option<Language>,
    pub target: Option<Language>,
    pub lookup: LookupRun,
    pub recent: RecentList,
    pub history: HistoryList,
    pub filter: HistoryFilter,
    pub suggestions: Suggestions,
    pub details: DetailsPane,
    /// The lookups that can still be told to stop.
    pub running: Vec<u64>,
}

/// The first read: the newest page of every lookup, selecting the first.
pub open spec fn first_read() -> HistoryRead {
    HistoryRead { cursor: None, oldest: false, selection: HistorySelection::First }
}

/// `ids` without `id`.
pub open spec fn without(ids: Seq<u64>, id: u64) -> Seq<u64> {
    ids.filter(|x: u64| x != id)
}

/// A read command's parts.
pub open spec fn is_read(c: Command, filter_text: Seq<char>, today: bool, read: HistoryRead, generation: u64, target: HistoryTarget) -> bool {
    c matches Command::Read { filter, read: r, generation: g, target: t } && filter.text@
        == filter_text && filter.today == today && r == read && g == generation && t == target
}

/// The cursor of the selected history entry.
pub open spec fn selected_cursor(list: HistoryList) -> Option<Cursor> {
    match list.selected {
        Some(i) => if i < list.entries@.len() {
            Some(
                Cursor {
                    timestamp: list.entries@[i as int].started_at,
                    sequence: list.entries@[i as int].sequence,
                },
            )
        } else {
            None
        },
        None => None,
    }
}

/// The read that refreshes the history list, as `refresh_read` gives it for the selection.
pub open spec fn refresh_of(list: HistoryList) -> HistoryRead {
    HistoryRead {
        cursor: match selected_cursor(list) {
            Some(c) => Some(
                Cursor {
                    timestamp: c.timestamp,
                    sequence: if c.sequence < i64::MAX {
                        (c.sequence + 1) as i64
                    } else {
                        i64::MAX
                    },
                },
            ),
            None => None,
        },
        oldest: false,
        selection: HistorySelection::Preserve,
    }
}

fn filter_copy(filter: &HistoryFilter) -> (r: HistoryFilter)
    ensures
        r.text@ == filter.text@,
        r.today == filter.today,
{
    HistoryFilter { text: copy_string(filter.text.as_str()), today: filter.today }
}

fn copy_ids(ids: &Vec<u64>) -> (r: Vec<u64>)
    ensures
        r@ == ids@,
{
    let mut r: Vec<u64> = Vec::new();
    let mut i: usize = 0;
    while i < ids.len()
        invariant
            i <= ids@.len(),
            r@ == ids@.take(i as int),
        decreases ids.len() - i,
    {
        r.push(ids[i]);
        assert(r@ =~= ids@.take(i as int + 1));
        i = i + 1;
    }
    assert(ids@.take(i as int) =~= ids@);
    r
}

fn remove_id(ids: &Vec<u64>, id: u64) -> (r: Vec<u64>)
    ensures
        r@ == without(ids@, id),
{
    let mut r: Vec<u64> = Vec::new();
    let mut i: usize = 0;
    while i < ids.len()
        invariant
            i <= ids@.len(),
            r@ == without(ids@.take(i as int), id),
        decreases ids.len() - i,
    {
        proof {
            assert(ids@.take(i as int + 1).drop_last() =~= ids@.take(i as int));
            reveal(Seq::filter);
        }
        if ids[i] != id {
            r.push(ids[i]);
        }
        i = i + 1;
    }
    assert(ids@.take(i as int) =~= ids@);
    r
}

impl Runtime {
    /// The state when the interface opens on the lookup tab with the chosen languages, the
    /// warnings of starting up in the notice (joined by ` · `), and the first command: read
    /// the recent lookups.
    pub fn new(from: Option<Language>, to: Option<Language>, warnings: &Vec<String>) -> (r: (
        Runtime,
        Command,
    ))
        ensures
            r.0.tab == Tab::Lookup,
            r.0.notice@ == join_seq(views(warnings@), " · "@),
            r.0.source == from && r.0.target == to,
            r.0.lookup.generation == 0 && !r.0.lookup.loading && r.0.lookup.live is None
                && r.0.lookup.problem is None && r.0.lookup.preview is None,
            r.0.recent.entries@.len() == 0 && r.0.recent.generation == 0 && r.0.recent.selected is None
                && r.0.recent.error is None,
            r.0.history.entries@.len() == 0 && r.0.history.generation == 0
                && r.0.history.selected is None && r.0.history.error is None,
            r.0.filter.text@.len() == 0 && !r.0.filter.today,
            r.0.suggestions.query is None && r.0.suggestions.generation == 0
                && r.0.suggestions.entries@.len() == 0 && r.0.suggestions.selected is None,
            r.0.details == (DetailsPane { selected: None, line: 0, scroll: 0, width: 1, height: 1 }),
            r.0.running@.len() == 0,
            is_read(r.1, Seq::empty(), false, first_read(), 0, HistoryTarget::Recent),
    {
        let runtime = Runtime {
            tab: Tab::Lookup,
            notice: join(warnings, " · "),
            source: from,
            target: to,
            lookup: LookupRun { generation: 0, loading: false, live: None, problem: None, preview: None },
            recent: RecentList::new(),
            history: HistoryList { entries: Vec::new(), selected: None, generation: 0, error: None },
            filter: HistoryFilter::all(),
            suggestions: Suggestions { query: None, generation: 0, entries: Vec::new(), selected: None },
            details: DetailsPane::new(),
            running: Vec::new(),
        };
        let read = HistoryRead { cursor: None, oldest: false, selection: HistorySelection::First };
        let all = HistoryFilter::all();
        assert(all.text@ =~= Seq::<char>::empty());
        let command = Command::Read {
            filter: all,
            read,
            generation: 0,
            target: HistoryTarget::Recent,
        };
        (runtime, command)
    }

    /// Read history for the history tab: a read from the newest entry first empties the
    /// list; every read starts a new generation, so that answers to earlier reads are
    /// outdated; the read uses the current filter.
    pub fn read(&mut self, read: HistoryRead) -> (c: Command)
        requires
            old(self).history.generation < u64::MAX,
        ensures
            final(self).history.generation == old(self).history.generation + 1,
            read.cursor is None ==> final(self).history.entries@.len() == 0 && final(self).history.selected is None,
            read.cursor is Some ==> final(self).history.entries@ == old(self).history.entries@
                && final(self).history.selected == old(self).history.selected,
            final(self).history.error == old(self).history.error,
            is_read(c, old(self).filter.text@, old(self).filter.today, read, final(self).history.generation, HistoryTarget::History),
            final(self).tab == old(self).tab && final(self).notice == old(self).notice
                && final(self).lookup == old(self).lookup && final(self).recent == old(self).recent
                && final(self).filter == old(self).filter && final(self).suggestions == old(self).suggestions
                && final(self).details == old(self).details && final(self).running == old(self).running
                && final(self).source == old(self).source && final(self).target == old(self).target,
    {
        if read.cursor.is_none() {
            self.history.entries = Vec::new();
            self.history.selected = None;
        }
        self.history.generation = self.history.generation + 1;
        Command::Read {
            filter: filter_copy(&self.filter),
            read,
            generation: self.history.generation,
            target: HistoryTarget::History,
        }
    }

    /// Apply the filter dialog: the history list starts over under the new filter, from the
    /// newest entry, with no translation selected.
    pub fn apply_filter(&mut self, filter: HistoryFilter) -> (c: Command)
        requires
            old(self).history.generation < u64::MAX,
        ensures
            final(self).filter.text@ == filter.text@ && final(self).filter.today == filter.today,
            final(self).history.entries@.len() == 0 && final(self).history.selected is None,
            final(self).history.generation == old(self).history.generation + 1,
            final(self).details == (DetailsPane { selected: None, line: 0, scroll: 0, ..old(self).details }),
            is_read(c, filter.text@, filter.today, first_read(), final(self).history.generation, HistoryTarget::History),
            final(self).tab == old(self).tab && final(self).notice == old(self).notice
                && final(self).lookup == old(self).lookup && final(self).recent == old(self).recent
                && final(self).suggestions == old(self).suggestions && final(self).running == old(self).running,
    {
        self.filter = filter;
        self.details.select_candidate(None);
        self.read(HistoryRead { cursor: None, oldest: false, selection: HistorySelection::First })
    }

    /// The read that refreshes the history list: from just after the selected entry, keeping
    /// the selection.
    pub fn refresh(&self) -> (r: HistoryRead)
        ensures
            r == refresh_of(self.history),
    {
        let selected = match self.history.selected {
            Some(i) => if i < self.history.entries.len() {
                Some(self.history.entries[i].cursor())
            } else {
                None
            },
            None => None,
        };
        refresh_read(selected)
    }

    /// Do what a key asked for. A new lookup tells every running lookup to stop, then starts
    /// in a new generation with the draft and the chosen languages; cancelling tells every
    /// running lookup to stop; a read goes to `read`.
    pub fn request(&mut self, request: Request) -> (r: Vec<Command>)
        requires
            old(self).lookup.generation < u64::MAX,
            old(self).history.generation < u64::MAX,
        ensures
            match request {
                Request::Submit(query) => {
                    &&& final(self).lookup.generation == old(self).lookup.generation + 1
                    &&& final(self).lookup.loading
                    &&& final(self).lookup.preview is None
                    &&& final(self).lookup.problem is None
                    &&& final(self).lookup.live == old(self).lookup.live
                    &&& final(self).running@ == old(self).running@.push(final(self).lookup.generation)
                    &&& r@.len() == 2
                    &&& r@[0] matches Command::Cancel(ids) && ids@ == old(self).running@
                    &&& r@[1] matches Command::Lookup(id, req) && id == final(self).lookup.generation
                        && req.query@ == query@ && req.from == old(self).source && req.to == old(self).target
                    &&& final(self).history == old(self).history
                },
                Request::Cancel => {
                    &&& r@.len() == 1
                    &&& r@[0] matches Command::Cancel(ids) && ids@ == old(self).running@
                    &&& final(self).lookup == old(self).lookup && final(self).running == old(self).running
                    &&& final(self).history == old(self).history
                },
                Request::Quit => {
                    &&& r@.len() == 1
                    &&& r@[0] is Quit
                    &&& final(self).lookup == old(self).lookup && final(self).running == old(self).running
                    &&& final(self).history == old(self).history
                },
                Request::Read(read) => {
                    &&& r@.len() == 1
                    &&& final(self).history.generation == old(self).history.generation + 1
                    &&& read.cursor is None ==> final(self).history.entries@.len() == 0
                        && final(self).history.selected is None
                    &&& read.cursor is Some ==> final(self).history.entries@ == old(self).history.entries@
                        && final(self).history.selected == old(self).history.selected
                    &&& is_read(r@[0], old(self).filter.text@, old(self).filter.today, read, final(self).history.generation, HistoryTarget::History)
                    &&& final(self).lookup == old(self).lookup && final(self).running == old(self).running
                },
            },
            final(self).tab == old(self).tab && final(self).notice == old(self).notice
                && final(self).recent == old(self).recent && final(self).filter == old(self).filter
                && final(self).suggestions == old(self).suggestions && final(self).details == old(self).details
                && final(self).source == old(self).source && final(self).target == old(self).target,
    {
        let mut commands: Vec<Command> = Vec::new();
        match request {
            Request::Submit(query) => {
                let stop = copy_ids(&self.running);
                commands.push(Command::Cancel(stop));
                let (id, req) = self.lookup.begin(query, self.source, self.target);
                self.running.push(id);
                commands.push(Command::Lookup(id, req));
            },
            Request::Cancel => {
                commands.push(Command::Cancel(copy_ids(&self.running)));
            },
            Request::Quit => {
                commands.push(Command::Quit);
            },
            Request::Read(read) => {
                let c = self.read(read);
                commands.push(c);
            },
        }
        commands
    }

    /// Take an answer from a background job.
    ///
    /// A finished lookup can no longer be stopped. The latest lookup shows its outcome, with
    /// its warnings (joined by ` · `) as the notice, and a result starts with its first
    /// translation selected; an outdated one only shows its warnings, where it has any.
    /// Either way the recent lookups are read anew, and the history list is refreshed while
    /// its tab is open. History pages, suggestions, progress and failures go where they
    /// belong; a history page that replaces the list selects its entry's first translation.
    pub fn job(&mut self, job: Job) -> (r: Vec<Command>)
        requires
            old(self).recent.generation < u64::MAX,
            old(self).history.generation < u64::MAX,
        ensures
            final(self).tab == old(self).tab,
            final(self).filter == old(self).filter,
            final(self).source == old(self).source && final(self).target == old(self).target,
            match job {
                Job::Lookup(id, completion) => {
                    let latest = id == old(self).lookup.generation;
                    &&& final(self).running@ == without(old(self).running@, id)
                    &&& latest ==> (exists|w: Option<String>|
                        lookup_completed(old(self).lookup, final(self).lookup, id, completion, w)
                            && (w matches Some(t) && final(self).notice@ == t@))
                    &&& latest ==> final(self).details == (if final(self).lookup.live is Some {
                        DetailsPane { selected: Some(0), line: 0, scroll: 0, ..old(self).details }
                    } else {
                        old(self).details
                    })
                    &&& !latest ==> final(self).lookup == old(self).lookup && final(self).details == old(self).details
                        && final(self).notice@ == (if completion.warnings@.len() > 0 {
                            join_seq(views(completion.warnings@), " · "@)
                        } else {
                            old(self).notice@
                        })
                    &&& final(self).recent.generation == old(self).recent.generation + 1
                    &&& final(self).recent.entries == old(self).recent.entries
                    &&& final(self).suggestions == old(self).suggestions
                    &&& is_read(r@[0], Seq::empty(), false, first_read(), final(self).recent.generation, HistoryTarget::Recent)
                    &&& old(self).tab == Tab::History ==> {
                        &&& r@.len() == 2
                        &&& final(self).history.generation == old(self).history.generation + 1
                        &&& is_read(r@[1], old(self).filter.text@, old(self).filter.today, refresh_of(old(self).history), final(self).history.generation, HistoryTarget::History)
                    }
                    &&& old(self).tab != Tab::History ==> r@.len() == 1 && final(self).history == old(self).history
                },
                Job::History { generation, target, selection, result } => {
                    &&& r@.len() == 0
                    &&& final(self).running == old(self).running
                    &&& final(self).suggestions == old(self).suggestions
                    &&& target == HistoryTarget::Recent ==> {
                        &&& recent_applied(old(self).recent, final(self).recent, generation, result, old(self).notice@, final(self).notice@, old(self).lookup.preview, final(self).lookup.preview)
                        &&& final(self).history == old(self).history
                        &&& final(self).details == old(self).details
                        &&& final(self).lookup.generation == old(self).lookup.generation
                        &&& final(self).lookup.loading == old(self).lookup.loading
                        &&& final(self).lookup.live == old(self).lookup.live
                        &&& final(self).lookup.problem == old(self).lookup.problem
                    }
                    &&& target == HistoryTarget::History ==> exists|replaced: bool| {
                        &&& history_applied(old(self).history, final(self).history, generation, selection, result, old(self).notice@, final(self).notice@, replaced)
                        &&& final(self).details == (if replaced {
                            DetailsPane { selected: Some(0), line: 0, scroll: 0, ..old(self).details }
                        } else {
                            old(self).details
                        })
                        &&& final(self).recent == old(self).recent
                        &&& final(self).lookup == old(self).lookup
                    }
                },
                Job::Suggestions(generation, result) => {
                    &&& r@.len() == 0
                    &&& suggestions_applied(old(self).suggestions, final(self).suggestions, generation, result, old(self).notice@, final(self).notice@)
                    &&& final(self).lookup == old(self).lookup && final(self).recent == old(self).recent
                    &&& final(self).history == old(self).history && final(self).details == old(self).details
                    &&& final(self).running == old(self).running
                },
                Job::Progress(message) => {
                    &&& r@.len() == 0
                    &&& final(self).notice@ == safe_seq(message@)
                    &&& final(self).lookup == old(self).lookup && final(self).recent == old(self).recent
                    &&& final(self).history == old(self).history && final(self).details == old(self).details
                    &&& final(self).suggestions == old(self).suggestions && final(self).running == old(self).running
                },
                Job::Failed(reason) => {
                    &&& r@.len() == 0
                    &&& final(self).notice@ == "Background task failed: "@ + reason@
                    &&& final(self).lookup == old(self).lookup && final(self).recent == old(self).recent
                    &&& final(self).history == old(self).history && final(self).details == old(self).details
                    &&& final(self).suggestions == old(self).suggestions && final(self).running == old(self).running
                },
            },
    {
        let mut commands: Vec<Command> = Vec::new();
        match job {
            Job::Lookup(id, completion) => {
                self.running = remove_id(&self.running, id);
                if id == self.lookup.generation {
                    let ghost before = self.lookup;
                    let ghost done = completion;
                    let shown = self.lookup.complete(id, completion);
                    assert(lookup_completed(before, self.lookup, id, done, shown));
                    match shown {
                        Some(w) => {
                            self.notice = w;
                        },
                        None => {},
                    }
                    if self.lookup.live.is_some() {
                        self.details.select_candidate(Some(0));
                    }
                } else if completion.warnings.len() > 0 {
                    self.notice = join(&completion.warnings, " · ");
                }
                self.recent.generation = self.recent.generation + 1;
                let all = HistoryFilter::all();
                assert(all.text@ =~= Seq::<char>::empty());
                commands.push(
                    Command::Read {
                        filter: all,
                        read: HistoryRead { cursor: None, oldest: false, selection: HistorySelection::First },
                        generation: self.recent.generation,
                        target: HistoryTarget::Recent,
                    },
                );
                if self.tab == Tab::History {
                    let read = self.refresh();
                    let c = self.read(read);
                    commands.push(c);
                }
            },
            Job::History { generation, target, selection, result } => {
                match target {
                    HistoryTarget::Recent => {
                        self.recent.apply(generation, result, &mut self.notice, &mut self.lookup.preview);
                    },
                    HistoryTarget::History => {
                        let replaced = self.history.apply(generation, selection, result, &mut self.notice);
                        if replaced {
                            self.details.select_candidate(Some(0));
                        }
                    },
                }
            },
            Job::Suggestions(generation, result) => {
                self.suggestions.apply(generation, result, &mut self.notice);
            },
            Job::Progress(message) => {
                self.notice = safe_text(message.as_str());
            },
            Job::Failed(reason) => {
                self.notice = concat("Background task failed: ", reason.as_str());
            },
        }
        commands
    }

    /// When the loop ends: tell every running lookup to stop.
    pub fn finish(&self) -> (c: Command)
        ensures
            c matches Command::Cancel(ids) && ids@ == self.running@,
    {
        Command::Cancel(copy_ids(&self.running))
    }
}

} // verus!
