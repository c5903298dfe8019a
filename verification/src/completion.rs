//! What shell Tab completion offers for the words typed so far. Completing only reads;
//! it never prepares a provider.
use vstd::prelude::*;
use crate::domain::{Language, LookupRequest, language_of_code, option_view};
use crate::keybindings::str_views;
use crate::strings::{
    chars_eq,
    concat,
    chars_of,
    copy_string,
    seq_starts_with,
    starts_with,
    str_eq,
    string_of,
    sub_chars,
    views,
};
use crate::text::{safe_seq, safe_text};

verus! {

/// The shells with completion scripts.
#[derive(Clone, Copy, Debug, PartialEq, Eq, Structural)]
pub enum Shell {
    Bash,
    Nushell,
}

/// `values` that begin with `prefix`, in order.
pub open spec fn matching_spec(values: Seq<Seq<char>>, prefix: Seq<char>) -> Seq<Seq<char>>
    decreases values.len(),
{
    if values.len() == 0 {
        Seq::empty()
    } else if seq_starts_with(values.last(), prefix) {
        matching_spec(values.drop_last(), prefix).push(values.last())
    } else {
        matching_spec(values.drop_last(), prefix)
    }
}

/// The values that begin with `prefix`, in order.
pub fn matching(values: &[&str], prefix: &str) -> (r: Vec<String>)
    ensures
        views(r@) == matching_spec(str_views(values@), prefix@),
{
    let mut r: Vec<String> = Vec::new();
    let mut i: usize = 0;
    while i < values.len()
        invariant
            i <= values@.len(),
            views(r@) == matching_spec(str_views(values@).take(i as int), prefix@),
        decreases values.len() - i,
    {
        assert(str_views(values@).take(i as int + 1).drop_last() =~= str_views(values@).take(
            i as int,
        ));
        assert(str_views(values@).take(i as int + 1).last() == values@[i as int]@);
        if starts_with(values[i], prefix) {
            let v = copy_string(values[i]);
            let ghost prev = r@;
            r.push(v);
            assert(views(r@) =~= views(prev).push(v@));
        }
        i = i + 1;
    }
    assert(str_views(values@).take(i as int) =~= str_views(values@));
    r
}

/// Every flag of the command line.
pub open spec fn flags() -> Seq<Seq<char>> {
    seq![
        "--from"@,
        "--to"@,
        "--config"@,
        "--database"@,
        "--provider"@,
        "--json"@,
        "--fresh"@,
        "--help"@,
        "--version"@,
    ]
}

/// Every subcommand.
pub open spec fn commands() -> Seq<Seq<char>> {
    seq!["shell"@, "history"@, "search"@, "completions"@]
}

/// A flag that takes a value, inline after `=` or as the next word.
#[derive(Clone, Copy, Debug, PartialEq, Eq, Structural)]
pub enum ValueOption {
    From,
    To,
    Config,
    Database,
    Provider,
    Limit,
}

/// The value option that a word names.
pub open spec fn value_option(word: Seq<char>) -> Option<ValueOption> {
    if word == "--from"@ {
        Some(ValueOption::From)
    } else if word == "--to"@ {
        Some(ValueOption::To)
    } else if word == "--config"@ {
        Some(ValueOption::Config)
    } else if word == "--database"@ {
        Some(ValueOption::Database)
    } else if word == "--provider"@ {
        Some(ValueOption::Provider)
    } else if word == "--limit"@ {
        Some(ValueOption::Limit)
    } else {
        None
    }
}

/// A flag without a value.
pub open spec fn is_plain_flag(word: Seq<char>) -> bool {
    word == "--fresh"@ || word == "--json"@ || word == "--today"@ || word == "--all"@
}

/// What the words before the completed one have established.
pub struct CompletionState {
    pub from: Option<Language>,
    pub to: Option<Language>,
    pub config: Option<Seq<char>>,
    pub database: Option<Seq<char>>,
    pub expects: Option<ValueOption>,
    pub literal: bool,
    pub positional: Option<Seq<char>>,
    /// A word that makes completion offer nothing.
    pub refused: bool,
}

pub open spec fn initial_completion_state() -> CompletionState {
    CompletionState {
        from: None,
        to: None,
        config: None,
        database: None,
        expects: None,
        literal: false,
        positional: None,
        refused: false,
    }
}

/// The index of the first occurrence of `c` in `s`.
pub open spec fn index_of(s: Seq<char>, c: char) -> Option<int>
    decreases s.len(),
{
    if s.len() == 0 {
        None
    } else if s[0] == c {
        Some(0)
    } else {
        match index_of(s.drop_first(), c) {
            Some(i) => Some(i + 1),
            None => None,
        }
    }
}

/// A word split at its first `=`: the flag and its inline value.
pub open spec fn split_inline(word: Seq<char>) -> (Seq<char>, Option<Seq<char>>) {
    match index_of(word, '=') {
        Some(i) => (word.take(i), Some(word.skip(i + 1))),
        None => (word, None),
    }
}

/// The state after one more word.
pub open spec fn completion_step(s: CompletionState, word: Seq<char>) -> CompletionState {
    if s.refused {
        s
    } else if s.literal {
        CompletionState { positional: Some(word), ..s }
    } else {
        let (flag, inline) = split_inline(word);
        let (option, value) = match s.expects {
            Some(o) => (Some(o), Some(word)),
            None => (value_option(flag), inline),
        };
        let s = CompletionState { expects: None, ..s };
        match option {
            Some(o) => match value {
                None => CompletionState { expects: Some(o), ..s },
                Some(v) => match o {
                    ValueOption::From => match language_of_code(v) {
                        Some(l) => CompletionState { from: Some(l), ..s },
                        None => CompletionState { refused: true, ..s },
                    },
                    ValueOption::To => match language_of_code(v) {
                        Some(l) => CompletionState { to: Some(l), ..s },
                        None => CompletionState { refused: true, ..s },
                    },
                    ValueOption::Config => CompletionState { config: Some(v), ..s },
                    ValueOption::Database => CompletionState { database: Some(v), ..s },
                    _ => s,
                },
            },
            None => if flag == "--"@ {
                CompletionState { literal: true, ..s }
            } else if is_plain_flag(flag) {
                s
            } else if seq_starts_with(word, "-"@) {
                CompletionState { refused: true, ..s }
            } else {
                CompletionState { positional: Some(word), ..s }
            },
        }
    }
}

/// The state after the words before the completed one.
pub open spec fn completion_state(words: Seq<Seq<char>>) -> CompletionState
    decreases words.len(),
{
    if words.len() == 0 {
        initial_completion_state()
    } else {
        completion_step(completion_state(words.drop_last()), words.last())
    }
}

/// What completion offers.
pub enum CompletionPlan {
    /// Nothing.
    Nothing,
    /// These values.
    Values(Vec<String>),
    /// Paths that begin with the prefix.
    Paths(String),
    /// These values, then the saved successful queries that begin with the folded request
    /// query, read from the history that the config and database options select.
    Queries {
        values: Vec<String>,
        request: LookupRequest,
        config: Option<String>,
        database: Option<String>,
    },
}

/// What completion offers for `words`, the last of which is being completed.
pub open spec fn plan_matches(r: CompletionPlan, words: Seq<Seq<char>>) -> bool {
    if words.len() == 0 {
        r is Nothing
    } else {
        let prefix = words.last();
        let s = completion_state(words.drop_last());
        if s.refused {
            r is Nothing
        } else if s.expects is Some {
            match s.expects->0 {
                ValueOption::From | ValueOption::To => r matches CompletionPlan::Values(v) && views(v@)
                    == matching_spec(seq!["de"@, "en"@], prefix),
                ValueOption::Provider => r matches CompletionPlan::Values(v) && views(v@)
                    == matching_spec(seq!["wikdict"@, "microsoft"@], prefix),
                ValueOption::Config | ValueOption::Database => r matches CompletionPlan::Paths(p)
                    && p@ == prefix,
                ValueOption::Limit => r is Nothing,
            }
        } else if !s.literal && seq_starts_with(prefix, "-"@) {
            r matches CompletionPlan::Values(v) && views(v@) == matching_spec(flags(), prefix)
        } else if !s.literal && s.positional == Some("completions"@) {
            r matches CompletionPlan::Values(v) && views(v@) == matching_spec(
                seq!["bash"@, "nushell"@],
                prefix,
            )
        } else if s.positional is Some && (s.literal || s.positional != Some("search"@)) {
            r is Nothing
        } else {
            r matches CompletionPlan::Queries { values, request, config, database } && views(
                values@,
            ) == (if s.literal || s.positional is Some {
                Seq::empty()
            } else {
                matching_spec(commands(), prefix)
            }) && request.query@ == prefix && request.from == s.from && request.to == s.to
                && option_view(config) == s.config && option_view(database) == s.database
        }
    }
}

struct StepState {
    from: Option<Language>,
    to: Option<Language>,
    config: Option<String>,
    database: Option<String>,
    expects: Option<ValueOption>,
    literal: bool,
    positional: Option<String>,
    refused: bool,
}

impl StepState {
    spec fn view(&self) -> CompletionState {
        CompletionState {
            from: self.from,
            to: self.to,
            config: option_view(self.config),
            database: option_view(self.database),
            expects: self.expects,
            literal: self.literal,
            positional: option_view(self.positional),
            refused: self.refused,
        }
    }
}

/// The first `c` in `s` is at `i` when none comes before it and `s[i]` is one (or `s` has
/// none where `i` is its length).
pub proof fn lemma_index_of(s: Seq<char>, c: char, i: int)
    requires
        0 <= i <= s.len(),
        forall|k: int| 0 <= k < i ==> s[k] != c,
        i == s.len() || s[i] == c,
    ensures
        index_of(s, c) == if i == s.len() {
            None::<int>
        } else {
            Some(i)
        },
    decreases i,
{
    if i > 0 {
        lemma_index_of(s.drop_first(), c, i - 1);
    }
}

fn split_inline_of(word: &Vec<char>) -> (r: (Vec<char>, Option<Vec<char>>))
    ensures
        r.0@ == split_inline(word@).0,
        match (r.1, split_inline(word@).1) {
            (Some(a), Some(b)) => a@ == b,
            (None, None) => true,
            _ => false,
        },
{
    let mut i: usize = 0;
    while i < word.len() && word[i] != '='
        invariant
            i <= word@.len(),
            forall|k: int| 0 <= k < i ==> word@[k] != '=',
        decreases word.len() - i,
    {
        i = i + 1;
    }
    proof {
        lemma_index_of(word@, '=', i as int);
    }
    if i == word.len() {
        (word.clone(), None)
    } else {
        let flag = sub_chars(word, 0, i);
        let value = sub_chars(word, i + 1, word.len());
        assert(flag@ =~= word@.take(i as int));
        assert(value@ =~= word@.skip(i as int + 1));
        (flag, Some(value))
    }
}

fn value_option_of(word: &Vec<char>) -> (r: Option<ValueOption>)
    ensures
        r == value_option(word@),
{
    if chars_eq(word, &chars_of("--from")) {
        Some(ValueOption::From)
    } else if chars_eq(word, &chars_of("--to")) {
        Some(ValueOption::To)
    } else if chars_eq(word, &chars_of("--config")) {
        Some(ValueOption::Config)
    } else if chars_eq(word, &chars_of("--database")) {
        Some(ValueOption::Database)
    } else if chars_eq(word, &chars_of("--provider")) {
        Some(ValueOption::Provider)
    } else if chars_eq(word, &chars_of("--limit")) {
        Some(ValueOption::Limit)
    } else {
        None
    }
}

fn language_of(value: &Vec<char>) -> (r: Option<Language>)
    ensures
        r == language_of_code(value@),
{
    if chars_eq(value, &chars_of("de")) {
        Some(Language::German)
    } else if chars_eq(value, &chars_of("en")) {
        Some(Language::English)
    } else {
        None
    }
}

fn step(s: StepState, word: &String) -> (r: StepState)
    ensures
        r.view() == completion_step(s.view(), word@),
{
    if s.refused {
        return s;
    }
    if s.literal {
        return StepState { positional: Some(word.clone()), ..s };
    }
    let w = chars_of(word.as_str());
    let (flag, inline) = split_inline_of(&w);
    let (option, value) = match s.expects {
        Some(o) => (Some(o), Some(w.clone())),
        None => (value_option_of(&flag), inline),
    };
    let s = StepState { expects: None, ..s };
    match option {
        Some(o) => match value {
            None => StepState { expects: Some(o), ..s },
            Some(v) => match o {
                ValueOption::From => match language_of(&v) {
                    Some(l) => StepState { from: Some(l), ..s },
                    None => StepState { refused: true, ..s },
                },
                ValueOption::To => match language_of(&v) {
                    Some(l) => StepState { to: Some(l), ..s },
                    None => StepState { refused: true, ..s },
                },
                ValueOption::Config => StepState { config: Some(string_of(&v)), ..s },
                ValueOption::Database => StepState { database: Some(string_of(&v)), ..s },
                _ => s,
            },
        },
        None => {
            if chars_eq(&flag, &chars_of("--")) {
                StepState { literal: true, ..s }
            } else if chars_eq(&flag, &chars_of("--fresh")) || chars_eq(&flag, &chars_of("--json"))
                || chars_eq(&flag, &chars_of("--today")) || chars_eq(&flag, &chars_of("--all")) {
                s
            } else if starts_with(word.as_str(), "-") {
                StepState { refused: true, ..s }
            } else {
                StepState { positional: Some(word.clone()), ..s }
            }
        },
    }
}

fn option_is(value: &Option<String>, literal: &str) -> (b: bool)
    ensures
        b == (option_view(*value) == Some(literal@)),
{
    match value {
        Some(v) => str_eq(v.as_str(), literal),
        None => false,
    }
}

/// The language codes that begin with `prefix`.
fn offer_languages(prefix: &str) -> (r: Vec<String>)
    ensures
        views(r@) == matching_spec(seq!["de"@, "en"@], prefix@),
{
    let values: &[&str] = &["de", "en"];
    assert(str_views(values@) =~= seq!["de"@, "en"@]);
    matching(values, prefix)
}

/// The provider names that begin with `prefix`.
fn offer_providers(prefix: &str) -> (r: Vec<String>)
    ensures
        views(r@) == matching_spec(seq!["wikdict"@, "microsoft"@], prefix@),
{
    let values: &[&str] = &["wikdict", "microsoft"];
    assert(str_views(values@) =~= seq!["wikdict"@, "microsoft"@]);
    matching(values, prefix)
}

/// The shell names that begin with `prefix`.
fn offer_shells(prefix: &str) -> (r: Vec<String>)
    ensures
        views(r@) == matching_spec(seq!["bash"@, "nushell"@], prefix@),
{
    let values: &[&str] = &["bash", "nushell"];
    assert(str_views(values@) =~= seq!["bash"@, "nushell"@]);
    matching(values, prefix)
}

/// The flags that begin with `prefix`.
fn offer_flags(prefix: &str) -> (r: Vec<String>)
    ensures
        views(r@) == matching_spec(flags(), prefix@),
{
    let values: &[&str] = &[
        "--from",
        "--to",
        "--config",
        "--database",
        "--provider",
        "--json",
        "--fresh",
        "--help",
        "--version",
    ];
    assert(str_views(values@) =~= flags());
    matching(values, prefix)
}

/// The subcommands that begin with `prefix`.
fn offer_commands(prefix: &str) -> (r: Vec<String>)
    ensures
        views(r@) == matching_spec(commands(), prefix@),
{
    let values: &[&str] = &["shell", "history", "search", "completions"];
    assert(str_views(values@) =~= commands());
    matching(values, prefix)
}

/// Decide what to complete for `words`, the last of which is being typed.
pub fn plan(words: &Vec<String>) -> (r: CompletionPlan)
    ensures
        plan_matches(r, views(words@)),
{
    if words.len() == 0 {
        return CompletionPlan::Nothing;
    }
    let ghost ws = views(words@);
    let n = words.len() - 1;
    let prefix = &words[n];
    let mut s = StepState {
        from: None,
        to: None,
        config: None,
        database: None,
        expects: None,
        literal: false,
        positional: None,
        refused: false,
    };
    let mut i: usize = 0;
    while i < n
        invariant
            n + 1 == words@.len(),
            ws == views(words@),
            i <= n,
            s.view() == completion_state(ws.take(i as int)),
        decreases n - i,
    {
        assert(ws.take(i as int + 1).drop_last() =~= ws.take(i as int));
        assert(ws.take(i as int + 1).last() == words@[i as int]@);
        s = step(s, &words[i]);
        i = i + 1;
    }
    assert(ws.take(n as int) =~= ws.drop_last());
    assert(ws.last() == prefix@);
    if s.refused {
        return CompletionPlan::Nothing;
    }
    if let Some(option) = s.expects {
        return match option {
            ValueOption::From | ValueOption::To => CompletionPlan::Values(
                offer_languages(prefix.as_str()),
            ),
            ValueOption::Provider => CompletionPlan::Values(
                offer_providers(prefix.as_str()),
            ),
            ValueOption::Config | ValueOption::Database => CompletionPlan::Paths(prefix.clone()),
            ValueOption::Limit => CompletionPlan::Nothing,
        };
    }
    if !s.literal && starts_with(prefix.as_str(), "-") {
        return CompletionPlan::Values(
            offer_flags(prefix.as_str()),
        );
    }
    if !s.literal && option_is(&s.positional, "completions") {
        return CompletionPlan::Values(
            offer_shells(prefix.as_str()),
        );
    }
    if s.positional.is_some() && (s.literal || !option_is(&s.positional, "search")) {
        return CompletionPlan::Nothing;
    }
    let values = if s.literal || s.positional.is_some() {
        let none: Vec<String> = Vec::new();
        assert(views(none@) =~= Seq::empty());
        none
    } else {
        offer_commands(prefix.as_str())
    };
    CompletionPlan::Queries {
        values,
        request: LookupRequest { query: prefix.clone(), from: s.from, to: s.to },
        config: s.config,
        database: s.database,
    }
}

/// The values, then each saved query that is safe to print as is and not offered yet.
pub open spec fn merged_spec(values: Seq<Seq<char>>, queries: Seq<Seq<char>>) -> Seq<Seq<char>>
    decreases queries.len(),
{
    if queries.len() == 0 {
        values
    } else {
        let before = merged_spec(values, queries.drop_last());
        let q = queries.last();
        if safe_seq(q) == q && !before.contains(q) {
            before.push(q)
        } else {
            before
        }
    }
}

/// Completion offers each saved query at most once and only as printable text: merged into
/// values that do not repeat, the values come first, nothing repeats, and every added value
/// is a saved query that is safe to print as is.
pub proof fn lemma_merged_queries_unique_and_safe(values: Seq<Seq<char>>, queries: Seq<Seq<char>>)
    requires
        values.no_duplicates(),
    ensures
        ({
            let m = merged_spec(values, queries);
            &&& m.no_duplicates()
            &&& m.len() >= values.len()
            &&& m.take(values.len() as int) == values
            &&& forall|i: int|
                values.len() <= i < m.len() ==> safe_seq(#[trigger] m[i]) == m[i] && queries.contains(
                    m[i],
                )
        }),
    decreases queries.len(),
{
    if queries.len() > 0 {
        let before = merged_spec(values, queries.drop_last());
        lemma_merged_queries_unique_and_safe(values, queries.drop_last());
        let q = queries.last();
        let m = merged_spec(values, queries);
        assert forall|i: int| values.len() <= i < before.len() implies queries.contains(
            #[trigger] before[i],
        ) by {
            let k = choose|k: int| 0 <= k < queries.drop_last().len() && queries.drop_last()[k]
                == before[i];
            assert(queries[k] == before[i]);
        }
        if safe_seq(q) == q && !before.contains(q) {
            assert(m == before.push(q));
            assert forall|i: int, j: int| 0 <= i < m.len() && 0 <= j < m.len() && i != j implies m[i]
                != m[j] by {
                if i < before.len() && j < before.len() {
                } else if i == before.len() {
                    assert(before[j] == m[j]);
                } else {
                    assert(before[i] == m[i]);
                }
            }
            assert(m.take(values.len() as int) =~= before.take(values.len() as int));
            assert(queries[queries.len() - 1] == q);
        } else {
            assert(m == before);
        }
    } else {
        assert(merged_spec(values, queries).take(values.len() as int) =~= values);
    }
}

fn contains_string(values: &Vec<String>, value: &String) -> (b: bool)
    ensures
        b == views(values@).contains(value@),
{
    let mut i: usize = 0;
    while i < values.len()
        invariant
            i <= values@.len(),
            forall|k: int| 0 <= k < i ==> values@[k]@ != value@,
        decreases values.len() - i,
    {
        if values[i] == *value {
            assert(views(values@)[i as int] == value@);
            return true;
        }
        i = i + 1;
    }
    proof {
        if views(values@).contains(value@) {
            let k = choose|k: int| 0 <= k < views(values@).len() && views(values@)[k] == value@;
            assert(values@[k]@ == value@);
        }
    }
    false
}

/// Append saved queries to the completion values, skipping unsafe text and repeats.
pub fn merge_queries(values: Vec<String>, queries: Vec<String>) -> (r: Vec<String>)
    ensures
        views(r@) == merged_spec(views(values@), views(queries@)),
{
    let mut r = values;
    let ghost start = views(r@);
    let mut i: usize = 0;
    while i < queries.len()
        invariant
            i <= queries@.len(),
            views(r@) == merged_spec(start, views(queries@).take(i as int)),
        decreases queries.len() - i,
    {
        assert(views(queries@).take(i as int + 1).drop_last() =~= views(queries@).take(i as int));
        assert(views(queries@).take(i as int + 1).last() == queries@[i as int]@);
        let q = &queries[i];
        let safe = safe_text(q.as_str());
        if safe == *q && !contains_string(&r, q) {
            let ghost prev = r@;
            r.push(q.clone());
            assert(views(r@) =~= views(prev).push(q@));
        }
        i = i + 1;
    }
    assert(views(queries@).take(i as int) =~= views(queries@));
    r
}

} // verus!

verus! {

/// The value offered for a directory entry: the base, the name, and a separator after a
/// directory's name.
pub open spec fn entry_value(base: Seq<char>, name: Seq<char>, is_dir: bool, separator: char) -> Seq<char> {
    if is_dir {
        (base + name).push(separator)
    } else {
        base + name
    }
}

/// The paths offered for the entries of a directory: those whose names begin with `name`,
/// in order, where the offered value is safe to print as is.
pub open spec fn path_values_spec(
    base: Seq<char>,
    name: Seq<char>,
    entries: Seq<(Seq<char>, bool)>,
    separator: char,
) -> Seq<Seq<char>>
    decreases entries.len(),
{
    if entries.len() == 0 {
        Seq::empty()
    } else {
        let before = path_values_spec(base, name, entries.drop_last(), separator);
        let (file, is_dir) = entries.last();
        let value = entry_value(base, file, is_dir, separator);
        if seq_starts_with(file, name) && safe_seq(value) == value {
            before.push(value)
        } else {
            before
        }
    }
}

/// The views of directory entries.
pub open spec fn entry_views(v: Seq<(String, bool)>) -> Seq<(Seq<char>, bool)> {
    v.map_values(|e: (String, bool)| (e.0@, e.1))
}

/// Offer the paths under a directory that complete a prefix. `base` is the prefix up to its
/// last separator, `name` the rest, and `entries` the directory's entries with whether each
/// is a directory.
pub fn path_values(base: &str, name: &str, entries: &Vec<(String, bool)>, separator: char) -> (r:
    Vec<String>)
    ensures
        views(r@) == path_values_spec(base@, name@, entry_views(entries@), separator),
{
    let mut r: Vec<String> = Vec::new();
    let mut i: usize = 0;
    while i < entries.len()
        invariant
            i <= entries@.len(),
            views(r@) == path_values_spec(base@, name@, entry_views(entries@).take(i as int), separator),
        decreases entries.len() - i,
    {
        let ghost es = entry_views(entries@);
        assert(es.take(i as int + 1).drop_last() =~= es.take(i as int));
        assert(es.take(i as int + 1).last() == (entries@[i as int].0@, entries@[i as int].1));
        let file = &entries[i].0;
        let is_dir = entries[i].1;
        if starts_with(file.as_str(), name) {
            let mut value = concat(base, file.as_str());
            if is_dir {
                value.push(separator);
            }
            let safe = safe_text(value.as_str());
            if str_eq(safe.as_str(), value.as_str()) {
                let ghost prev = r@;
                r.push(value);
                assert(views(r@) =~= views(prev).push(r@.last()@));
            }
        }
        i = i + 1;
    }
    assert(entry_views(entries@).take(i as int) =~= entry_views(entries@));
    r
}

/// The position after the last separator of `s`, or 0 where it has none.
pub open spec fn after_last_separator(s: Seq<char>, windows: bool) -> int
    decreases s.len(),
{
    if s.len() == 0 {
        0
    } else if s.last() == '/' || (windows && s.last() == '\\') {
        s.len() as int
    } else {
        after_last_separator(s.drop_last(), windows)
    }
}

/// Split a path prefix after its last separator: the directory part and the name part.
pub fn split_path_prefix(prefix: &str, windows: bool) -> (r: (String, String))
    ensures
        ({
            let k = after_last_separator(prefix@, windows);
            0 <= k <= prefix@.len() && r.0@ == prefix@.take(k) && r.1@ == prefix@.skip(k)
        }),
{
    let v = chars_of(prefix);
    let mut k: usize = v.len();
    assert(v@.take(k as int) =~= v@);
    while k > 0 && !(v[k - 1] == '/' || (windows && v[k - 1] == '\\'))
        invariant
            k <= v@.len(),
            v@ == prefix@,
            after_last_separator(prefix@, windows) == after_last_separator(v@.take(k as int), windows),
        decreases k,
    {
        assert(v@.take(k as int).drop_last() =~= v@.take(k as int - 1));
        k = k - 1;
    }
    let base = string_of(&sub_chars(&v, 0, k));
    let name = string_of(&sub_chars(&v, k, v.len()));
    assert(base@ =~= prefix@.take(k as int));
    assert(name@ =~= prefix@.skip(k as int));
    (base, name)
}

} // verus!

verus! {

/// The Bash completion script: it asks `voci complete` for the words typed so far.
pub const BASH_SCRIPT: &'static str = "# voci completion for Bash\n_voci() {\n    local IFS=$'\\n'\n    COMPREPLY=($(voci __complete -- \"${COMP_WORDS[@]:1:COMP_CWORD}\" 2>/dev/null))\n}\ncomplete -o default -o nospace -F _voci voci\n";

/// The Nushell completion script: it asks `voci complete` for the words typed so far.
pub const NUSHELL_SCRIPT: &'static str = "# voci completion for Nushell\ndef \"nu-complete voci\" [context: string] {\n    let words = ($context | split row ' ' | skip 1)\n    ^voci __complete -- ...$words | lines\n}\n\nexport extern \"voci\" [\n    ...args: string@\"nu-complete voci\"\n]\n";

impl Shell {
    /// The completion script for the shell.
    pub fn script(self) -> (r: &'static str)
        ensures
            self == Shell::Bash ==> r@ == BASH_SCRIPT@,
            self == Shell::Nushell ==> r@ == NUSHELL_SCRIPT@,
    {
        match self {
            Shell::Bash => BASH_SCRIPT,
            Shell::Nushell => NUSHELL_SCRIPT,
        }
    }
}

} // verus!
