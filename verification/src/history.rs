//! Saved encounters, history query contracts and the parts of history storage that decide.
use vstd::prelude::*;
use crate::domain::{Language, LanguagePair, LookupRequest, LookupResult, option_view};
use crate::strings::{concat, copy_string, trim, trim_seq};

verus! {

/// How a recorded lookup attempt ended.
#[derive(Clone, Copy, Debug, PartialEq, Eq, Structural)]
pub enum AttemptOutcome {
    Success,
    NotFound,
    Ambiguous,
    Undetermined,
    Failure,
    Cancelled,
}

/// The outcome event of an attempt.
#[derive(Debug)]
pub struct Finished {
    pub outcome: AttemptOutcome,
    pub result: Option<LookupResult>,
    pub resolved_pair: Option<LanguagePair>,
    pub error_code: Option<String>,
    pub message: Option<String>,
}

/// The label of each outcome.
pub open spec fn outcome_label(outcome: AttemptOutcome) -> Seq<char> {
    match outcome {
        AttemptOutcome::Success => "success"@,
        AttemptOutcome::NotFound => "not found"@,
        AttemptOutcome::Ambiguous => "ambiguous"@,
        AttemptOutcome::Undetermined => "undetermined"@,
        AttemptOutcome::Failure => "failed"@,
        AttemptOutcome::Cancelled => "cancelled"@,
    }
}

impl Finished {
    pub fn label(&self) -> (r: &'static str)
        ensures
            r@ == outcome_label(self.outcome),
    {
        match self.outcome {
            AttemptOutcome::Success => "success",
            AttemptOutcome::NotFound => "not found",
            AttemptOutcome::Ambiguous => "ambiguous",
            AttemptOutcome::Undetermined => "undetermined",
            AttemptOutcome::Failure => "failed",
            AttemptOutcome::Cancelled => "cancelled",
        }
    }
}

/// The identifier of an attempt.
pub type AttemptId = String;

/// A saved encounter: the start of an attempt and, once recorded, its outcome.
#[derive(Debug)]
pub struct HistoryEntry {
    pub id: AttemptId,
    pub sequence: i64,
    pub query: String,
    pub from: Option<Language>,
    pub to: Option<Language>,
    pub provider: Option<String>,
    pub started_at: i64,
    pub finished_at: Option<i64>,
    pub finished: Option<Finished>,
}

/// The status shown for an entry whose outcome was never recorded.
pub open spec fn unfinished_status() -> Seq<char> {
    "unfinished · outcome not recorded"@
}

/// The status of an entry.
pub open spec fn entry_status(entry: HistoryEntry) -> Seq<char> {
    match entry.finished {
        Some(f) => outcome_label(f.outcome),
        None => unfinished_status(),
    }
}

/// The saved result of an entry, if it has one.
pub open spec fn entry_result(entry: HistoryEntry) -> Option<LookupResult> {
    match entry.finished {
        Some(f) => f.result,
        None => None,
    }
}

/// A position in the history order: start time, then event sequence.
#[derive(Clone, Copy, Debug, PartialEq, Eq, Structural)]
pub struct Cursor {
    pub timestamp: i64,
    pub sequence: i64,
}

impl HistoryEntry {
    pub fn result(&self) -> (r: Option<&LookupResult>)
        ensures
            match entry_result(*self) {
                Some(x) => r == Some(&x),
                None => r is None,
            },
    {
        match &self.finished {
            Some(f) => match &f.result {
                Some(result) => Some(result),
                None => None,
            },
            None => None,
        }
    }

    pub fn status(&self) -> (r: &'static str)
        ensures
            r@ == entry_status(*self),
    {
        match &self.finished {
            Some(f) => f.label(),
            None => "unfinished · outcome not recorded",
        }
    }

    pub fn cursor(&self) -> (r: Cursor)
        ensures
            r == (Cursor { timestamp: self.started_at, sequence: self.sequence }),
    {
        Cursor { timestamp: self.started_at, sequence: self.sequence }
    }
}

/// Which saved encounters a history read shows.
#[derive(Debug)]
pub struct HistoryFilter {
    pub text: String,
    pub today: bool,
}

impl HistoryFilter {
    /// No text and all days.
    pub fn all() -> (r: HistoryFilter)
        ensures
            r.text@.len() == 0,
            !r.today,
    {
        HistoryFilter { text: String::new(), today: false }
    }
}

/// One page of saved encounters, and whether more follow in the same direction.
#[derive(Debug)]
pub struct HistoryPage {
    pub entries: Vec<HistoryEntry>,
    pub has_more: bool,
}

/// The page that a read of at most `limit` entries makes of what the store returned
/// (up to one entry more than the limit), in the store's order.
pub open spec fn page_entries(rows: Seq<HistoryEntry>, limit: usize, oldest: bool) -> Seq<
    HistoryEntry,
> {
    let kept = if rows.len() > limit {
        rows.take(limit as int)
    } else {
        rows
    };
    if oldest {
        kept.reverse()
    } else {
        kept
    }
}

/// Cut the rows of a read to the limit, note whether more exist, and put pages read towards
/// the oldest entries back into newest-first order.
pub fn finish_page(rows: Vec<HistoryEntry>, limit: usize, oldest: bool) -> (r: HistoryPage)
    ensures
        r.has_more == (rows@.len() > limit),
        r.entries@ == page_entries(rows@, limit, oldest),
        r.entries@.len() <= limit,
{
    let mut rows = rows;
    let has_more = rows.len() > limit;
    if has_more {
        rows.truncate(limit);
    }
    if oldest {
        let mut reversed: Vec<HistoryEntry> = Vec::new();
        let ghost kept = rows@;
        while rows.len() > 0
            invariant
                kept.len() == rows@.len() + reversed@.len(),
                rows@ == kept.take(rows@.len() as int),
                reversed@ == kept.reverse().take(reversed@.len() as int),
            decreases rows.len(),
        {
            let ghost before = rows@;
            let entry = rows.pop().unwrap();
            proof {
                assert(entry == kept[before.len() - 1]);
                assert(kept.reverse()[reversed@.len() as int] == kept[kept.len() - 1
                    - reversed@.len()]);
            }
            reversed.push(entry);
            assert(rows@ =~= kept.take(rows@.len() as int));
            assert(reversed@ =~= kept.reverse().take(reversed@.len() as int));
        }
        assert(reversed@ =~= kept.reverse());
        HistoryPage { entries: reversed, has_more }
    } else {
        HistoryPage { entries: rows, has_more }
    }
}

/// A page holds the rows nearest the cursor and no others: the first `limit` rows the store
/// returned (all of them where there are no more), newest first. A read towards the newest
/// entries keeps their order; a read towards the oldest entries shows them reversed, so the
/// surplus row that only tells whether more exist is never shown.
pub proof fn lemma_page_keeps_the_nearest_rows(rows: Seq<HistoryEntry>, limit: usize, oldest: bool)
    ensures
        ({
            let page = page_entries(rows, limit, oldest);
            let n = if rows.len() > limit {
                limit as int
            } else {
                rows.len() as int
            };
            &&& page.len() == n
            &&& !oldest ==> forall|i: int| 0 <= i < n ==> #[trigger] page[i] == rows[i]
            &&& oldest ==> forall|i: int| 0 <= i < n ==> #[trigger] page[i] == rows[n - 1 - i]
        }),
{
}

/// The row limit of a read: one more than the page size, to learn whether more exist,
/// saturated to what SQLite takes.
pub open spec fn row_limit(limit: usize) -> i64 {
    if limit as int + 1 > i64::MAX as int {
        i64::MAX
    } else {
        (limit + 1) as i64
    }
}

pub fn page_row_limit(limit: usize) -> (r: i64)
    ensures
        r == row_limit(limit),
{
    if limit as u128 + 1 > i64::MAX as u128 {
        i64::MAX
    } else {
        (limit as i64) + 1
    }
}

/// The filter with which suggestions are read for a draft query: its trimmed text, on all
/// days. An empty draft reads nothing.
pub fn suggestion_filter(request: &LookupRequest) -> (r: Option<HistoryFilter>)
    ensures
        match r {
            Some(f) => trim_seq(request.query@).len() > 0 && f.text@ == trim_seq(
                request.query@,
            ) && !f.today,
            None => trim_seq(request.query@).len() == 0,
        },
{
    let text = trim(request.query.as_str());
    if text.as_str().unicode_len() == 0 {
        None
    } else {
        Some(HistoryFilter { text, today: false })
    }
}

/// The language pair and provider recorded with an outcome: the resolved pair, else the
/// result's; the result's provider, else the provider that was selected.
pub fn outcome_columns(outcome: &Finished, provider: Option<String>) -> (r: (
    Option<LanguagePair>,
    Option<String>,
))
    ensures
        r.0 == match outcome.resolved_pair {
            Some(p) => Some(p),
            None => match outcome.result {
                Some(res) => Some(res.pair),
                None => None,
            },
        },
        option_view(r.1) == match outcome.result {
            Some(res) => Some(res.provider@),
            None => option_view(provider),
        },
{
    let pair = match outcome.resolved_pair {
        Some(p) => Some(p),
        None => match &outcome.result {
            Some(res) => Some(res.pair),
            None => None,
        },
    };
    let provider = match &outcome.result {
        Some(res) => Some(res.provider.clone()),
        None => provider,
    };
    (pair, provider)
}

/// Where history is stored.
#[derive(Debug)]
pub struct HistoryStore {
    path: String,
}

/// A failed history read or write, with the store's path.
#[derive(Debug)]
pub struct HistoryError {
    pub path: String,
    pub reason: String,
}

/// The message of a history failure.
pub open spec fn history_error_text(path: Seq<char>, reason: Seq<char>) -> Seq<char> {
    "History unavailable at "@ + path + ": "@ + reason
        + ". Check the path, permissions, and database; existing data was not replaced."@
}

impl HistoryError {
    /// The message, as `Display` shows it.
    pub fn message(&self) -> (r: String)
        ensures
            r@ == history_error_text(self.path@, self.reason@),
    {
        let r = concat("History unavailable at ", self.path.as_str());
        let r = concat(r.as_str(), ": ");
        let r = concat(r.as_str(), self.reason.as_str());
        concat(
            r.as_str(),
            ". Check the path, permissions, and database; existing data was not replaced.",
        )
    }
}

impl HistoryStore {
    pub closed spec fn spec_path(&self) -> Seq<char> {
        self.path@
    }

    pub fn new(path: String) -> (r: Self)
        ensures
            r.spec_path() == path@,
    {
        HistoryStore { path }
    }

    pub fn path(&self) -> (r: &str)
        ensures
            r@ == self.spec_path(),
    {
        self.path.as_str()
    }

    /// A failure of this store, with the given reason.
    pub fn error(&self, reason: &str) -> (r: HistoryError)
        ensures
            r.path@ == self.spec_path(),
            r.reason@ == reason@,
    {
        HistoryError { path: self.path.clone(), reason: copy_string(reason) }
    }
}

impl Clone for HistoryStore {
    /// A copy of the store: the same path.
    fn clone(&self) -> (r: Self)
        ensures
            r.spec_path() == self.spec_path(),
    {
        HistoryStore { path: copy_string(self.path.as_str()) }
    }
}

} // verus!
