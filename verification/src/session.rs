//! The decisions of a lookup session: which requests are looked up at all, when a saved
//! result is reused, which provider is named in history, and the warnings that a lookup
//! carries when history could not be written. Running the lookup is left to the caller.
use vstd::prelude::*;
use crate::config::{ProviderName, provider_label, provider_name};
use crate::domain::{Language, LanguagePair, LookupRequest, LookupResult, language_of_code, option_view};
use crate::lookup::{LookupError, validate_query, validated_query};
use crate::strings::{concat, views};
use crate::history::Finished;
use crate::outcome::{history_outcome, outcome_matches};

verus! {

/// Whether a lookup may answer from history.
#[derive(Clone, Copy, Debug, PartialEq, Eq, Structural)]
pub enum LookupPolicy {
    /// Reuse an exact saved success where there is one.
    PreferSaved,
    /// Always look up anew.
    Fresh,
}

/// What a lookup produced, with the warnings about history that came up on the way.
pub struct Completion {
    pub result: Result<LookupResult, LookupError>,
    pub warnings: Vec<String>,
}

/// Check a request before anything is recorded or looked up.
pub fn validate_request(request: &LookupRequest) -> (r: Result<(), LookupError>)
    ensures
        match validated_query(request.query@) {
            Err(m) => r matches Err(LookupError::InvalidInput(msg)) && msg@ == m,
            Ok(_) => match (request.from, request.to) {
                (Some(from), Some(to)) => if from == to {
                    r matches Err(LookupError::UnsupportedPair(p)) && p == LanguagePair { from, to }
                } else {
                    r is Ok
                },
                _ => r is Ok,
            },
        },
{
    match validate_query(request.query.as_str()) {
        Err(e) => {
            return Err(e);
        },
        Ok(_) => {},
    }
    if let (Some(from), Some(to)) = (request.from, request.to) {
        if from == to {
            return Err(LookupError::UnsupportedPair(LanguagePair { from, to }));
        }
    }
    Ok(())
}

/// The language that an optional code selects, or the code where it names none.
pub open spec fn selected_language(code: Option<Seq<char>>) -> Result<Option<Language>, Seq<char>> {
    match code {
        None => Ok(None),
        Some(c) => match language_of_code(c) {
            Some(l) => Ok(Some(l)),
            None => Err(c),
        },
    }
}

/// Parse an optional language code.
fn parse_language(code: Option<String>) -> (r: Result<Option<Language>, LookupError>)
    ensures
        match selected_language(option_view(code)) {
            Ok(l) => r == Ok::<Option<Language>, LookupError>(l),
            Err(c) => r matches Err(LookupError::UnsupportedLanguage(m)) && m@ == c,
        },
{
    match code {
        None => Ok(None),
        Some(c) => match Language::from_code(c.as_str()) {
            Ok(l) => Ok(Some(l)),
            Err(e) => Err(LookupError::UnsupportedLanguage(e.0)),
        },
    }
}

/// The request that a lookup word and the `--from` and `--to` codes make, checked before
/// anything is loaded: an unsupported code first (the source before the target), then the
/// query and the pair as `validate_request` checks them.
pub fn command_request(word: String, from: Option<String>, to: Option<String>) -> (r: Result<
    LookupRequest,
    LookupError,
>)
    ensures
        match selected_language(option_view(from)) {
            Err(c) => r matches Err(LookupError::UnsupportedLanguage(code)) && code@ == c,
            Ok(f) => match selected_language(option_view(to)) {
                Err(c) => r matches Err(LookupError::UnsupportedLanguage(code)) && code@ == c,
                Ok(t) => match validated_query(word@) {
                    Err(m) => r matches Err(LookupError::InvalidInput(msg)) && msg@ == m,
                    Ok(_) => if f is Some && t is Some && f == t {
                        r matches Err(LookupError::UnsupportedPair(p)) && p == LanguagePair {
                            from: f->0,
                            to: t->0,
                        }
                    } else {
                        r matches Ok(req) && req.query@ == word@ && req.from == f && req.to == t
                    },
                },
            },
        },
{
    let from = match parse_language(from) {
        Ok(l) => l,
        Err(e) => {
            return Err(e);
        },
    };
    let to = match parse_language(to) {
        Ok(l) => l,
        Err(e) => {
            return Err(e);
        },
    };
    let request = LookupRequest { query: word, from, to };
    match validate_request(&request) {
        Ok(()) => Ok(request),
        Err(e) => Err(e),
    }
}

/// The provider named when an attempt starts: the override, else the configured one, else
/// the one a prepared session uses, where any is known.
pub fn initial_provider(
    provider_override: Option<ProviderName>,
    configured: Option<ProviderName>,
    prepared: Option<ProviderName>,
) -> (r: Option<String>)
    ensures
        match provider_override {
            Some(p) => r matches Some(s) && s@ == provider_label(p),
            None => match configured {
                Some(p) => r matches Some(s) && s@ == provider_label(p),
                None => match prepared {
                    Some(p) => r matches Some(s) && s@ == provider_label(p),
                    None => r is None,
                },
            },
        },
{
    let known = match provider_override {
        Some(p) => Some(p),
        None => match configured {
            Some(p) => Some(p),
            None => prepared,
        },
    };
    match known {
        Some(p) => Some(provider_name(p)),
        None => None,
    }
}

/// The provider that a lookup uses: the override, else the configured one.
pub fn selected_provider(provider_override: Option<ProviderName>, configured: ProviderName) -> (r:
    ProviderName)
    ensures
        r == match provider_override {
            Some(p) => p,
            None => configured,
        },
{
    match provider_override {
        Some(p) => p,
        None => configured,
    }
}

/// The warning for an attempt that history could not record.
pub fn unsaved_warning(error: &str) -> (r: String)
    ensures
        r@ == "History was not saved: "@ + error@,
{
    concat("History was not saved: ", error)
}

/// The warning for an outcome that history could not record.
pub fn unfinished_warning(error: &str) -> (r: String)
    ensures
        r@ == "History outcome was not saved; the attempt remains unfinished: "@ + error@,
{
    concat("History outcome was not saved; the attempt remains unfinished: ", error)
}

/// What reading a saved result decided.
pub enum SavedRead {
    /// Answer with the saved result.
    Reuse(LookupResult),
    /// Look up anew, carrying these warnings.
    LookUp(Vec<String>),
}

/// Decide from the saved result that history holds for a request (or the message of a
/// failed read) whether to reuse it. A failed read is a warning, never a failure.
pub fn after_saved_read(read: Result<Option<LookupResult>, String>) -> (r: SavedRead)
    ensures
        match read {
            Ok(Some(saved)) => r matches SavedRead::Reuse(res) && res@ == saved@,
            Ok(None) => r matches SavedRead::LookUp(w) && w@.len() == 0,
            Err(m) => r matches SavedRead::LookUp(w) && views(w@) == seq![m@],
        },
{
    match read {
        Ok(Some(saved)) => SavedRead::Reuse(saved),
        Ok(None) => SavedRead::LookUp(Vec::new()),
        Err(m) => {
            let mut w: Vec<String> = Vec::new();
            w.push(m);
            assert(views(w@) =~= seq![w@[0]@]);
            SavedRead::LookUp(w)
        },
    }
}

/// The completion of a lookup: the warnings from before it, then those it brought.
pub fn complete(
    result: Result<LookupResult, LookupError>,
    earlier: Vec<String>,
    later: Vec<String>,
) -> (r: Completion)
    ensures
        r.result == result,
        views(r.warnings@) == views(earlier@) + views(later@),
{
    let mut warnings = earlier;
    let mut rest = later;
    let ghost a = views(warnings@);
    let ghost b = views(rest@);
    warnings.append(&mut rest);
    assert(views(warnings@) =~= a + b);
    Completion { result, warnings }
}

/// A lookup refused before it started: its failure and no warnings.
pub fn refused(error: LookupError) -> (r: Completion)
    ensures
        r.result == Err::<LookupResult, LookupError>(error),
        r.warnings@.len() == 0,
{
    Completion { result: Err(error), warnings: Vec::new() }
}

/// Where a recorded lookup stands, between the steps that the caller carries out.
pub enum Recording {
    /// Waiting for the saved result that history holds for the request; the attempt, if
    /// one is started, names this provider.
    ReadingSaved { initial: Option<String> },
    /// Waiting for history to record the start of the attempt.
    Starting { warnings: Vec<String> },
    /// Waiting for the lookup's result; `attempt` is the recorded attempt, if any.
    LookingUp { warnings: Vec<String>, attempt: Option<String> },
    /// Waiting for history to record the attempt's outcome.
    Finishing { warnings: Vec<String>, result: Result<LookupResult, LookupError> },
    /// Nothing is left to do.
    Done,
}

/// What the caller does next.
pub enum RecordAction {
    /// Read the saved result for the request from history.
    ReadSaved,
    /// Record the start of an attempt for the request, naming this provider.
    StartAttempt(Option<String>),
    /// Load the settings, prepare the selected provider and look the request up, until the
    /// user cancels.
    LookUp,
    /// Record the outcome of the attempt with this identifier, naming this provider.
    FinishAttempt { id: String, outcome: Finished, provider: Option<String> },
    /// The lookup is complete.
    Complete(Completion),
}

/// What the caller reports after carrying out an action.
pub enum RecordEvent {
    /// The saved result for the request, or the message of a failed read.
    Saved(Result<Option<LookupResult>, String>),
    /// The identifier of the recorded start, or the message of a failed write.
    Started(Result<String, String>),
    /// The lookup's result, and the provider that the settings selected where they loaded.
    LookedUp { result: Result<LookupResult, LookupError>, selected: Option<ProviderName> },
    /// Whether the outcome was recorded, or the message of a failed write.
    Finished(Result<(), String>),
}

/// Whether an event answers the action that a state waits for.
pub open spec fn answers(state: Recording, event: RecordEvent) -> bool {
    match (state, event) {
        (Recording::ReadingSaved { .. }, RecordEvent::Saved(_)) => true,
        (Recording::Starting { .. }, RecordEvent::Started(_)) => true,
        (Recording::LookingUp { .. }, RecordEvent::LookedUp { .. }) => true,
        (Recording::Finishing { .. }, RecordEvent::Finished(_)) => true,
        _ => false,
    }
}

/// The views of an optional provider name.
pub open spec fn name_view(p: Option<ProviderName>) -> Option<Seq<char>> {
    match p {
        Some(n) => Some(provider_label(n)),
        None => None,
    }
}

/// Begin a lookup. An invalid request completes at once with its failure and is never
/// recorded. Otherwise, where history is available, a lookup that may reuse a saved result
/// reads it first, and any other starts an attempt naming the provider given on the command
/// line; where history is unavailable, the lookup runs unrecorded with a warning.
pub fn begin_recording(
    request: &LookupRequest,
    policy: LookupPolicy,
    history: Result<(), String>,
    provider_override: Option<ProviderName>,
) -> (r: (Recording, RecordAction))
    ensures
        match validated_query(request.query@) {
            Err(m) => r.0 is Done && (r.1 matches RecordAction::Complete(c) && c.warnings@.len()
                == 0 && (c.result matches Err(LookupError::InvalidInput(msg)) && msg@ == m)),
            Ok(_) => if request.from is Some && request.to is Some && request.from == request.to {
                r.0 is Done && (r.1 matches RecordAction::Complete(c) && c.warnings@.len() == 0
                    && (c.result matches Err(LookupError::UnsupportedPair(p)) && p
                    == LanguagePair { from: request.from->0, to: request.to->0 }))
            } else {
                match history {
                    Ok(()) => if policy == LookupPolicy::PreferSaved {
                        r.1 is ReadSaved && (r.0 matches Recording::ReadingSaved { initial }
                            && option_view(initial) == name_view(provider_override))
                    } else {
                        (r.0 matches Recording::Starting { warnings } && warnings@.len() == 0)
                            && (r.1 matches RecordAction::StartAttempt(p) && option_view(p)
                            == name_view(provider_override))
                    },
                    Err(m) => r.1 is LookUp && (r.0 matches Recording::LookingUp {
                        warnings,
                        attempt,
                    } && attempt is None && views(warnings@) == seq![
                        "History was not saved: "@ + m@,
                    ]),
                }
            },
        },
{
    match validate_request(request) {
        Err(e) => {
            return (Recording::Done, RecordAction::Complete(refused(e)));
        },
        Ok(()) => {},
    }
    match history {
        Ok(()) => {
            let initial = initial_provider(provider_override, None, None);
            if policy == LookupPolicy::PreferSaved {
                (Recording::ReadingSaved { initial }, RecordAction::ReadSaved)
            } else {
                (Recording::Starting { warnings: Vec::new() }, RecordAction::StartAttempt(initial))
            }
        },
        Err(m) => {
            let mut warnings: Vec<String> = Vec::new();
            warnings.push(unsaved_warning(m.as_str()));
            assert(views(warnings@) =~= seq!["History was not saved: "@ + m@]);
            (Recording::LookingUp { warnings, attempt: None }, RecordAction::LookUp)
        },
    }
}

/// Take the next event. A saved result is reused without recording anything; a failed
/// read, a failed start and a failed outcome write each add a warning and never change the
/// result; every recorded attempt gets the outcome of its lookup recorded, naming the
/// provider that the settings selected.
pub fn record_step(state: Recording, event: RecordEvent) -> (r: (Recording, RecordAction))
    requires
        answers(state, event),
    ensures
        match (state, event) {
            (Recording::ReadingSaved { initial }, RecordEvent::Saved(read)) => match read {
                Ok(Some(saved)) => r.0 is Done && (r.1 matches RecordAction::Complete(c)
                    && c.warnings@.len() == 0 && (c.result matches Ok(res) && res@ == saved@)),
                Ok(None) => (r.0 matches Recording::Starting { warnings } && warnings@.len()
                    == 0) && (r.1 matches RecordAction::StartAttempt(p) && option_view(p)
                    == option_view(initial)),
                Err(m) => (r.0 matches Recording::Starting { warnings } && views(warnings@)
                    == seq![m@]) && (r.1 matches RecordAction::StartAttempt(p) && option_view(p)
                    == option_view(initial)),
            },
            (Recording::Starting { warnings }, RecordEvent::Started(started)) => r.1 is LookUp
                && match started {
                Ok(id) => r.0 matches Recording::LookingUp { warnings: w, attempt } && views(w@)
                    == views(warnings@) && attempt == Some(id),
                Err(m) => r.0 matches Recording::LookingUp { warnings: w, attempt } && views(w@)
                    == views(warnings@).push("History was not saved: "@ + m@) && attempt is None,
            },
            (
                Recording::LookingUp { warnings, attempt },
                RecordEvent::LookedUp { result, selected },
            ) => match attempt {
                Some(id) => (r.0 matches Recording::Finishing { warnings: w, result: kept }
                    && views(w@) == views(warnings@) && kept == result) && (r.1 matches RecordAction::FinishAttempt {
                    id: i,
                    outcome,
                    provider,
                } && i == id && outcome_matches(outcome, result) && option_view(provider)
                    == name_view(selected)),
                None => r.0 is Done && (r.1 matches RecordAction::Complete(c) && c.result
                    == result && views(c.warnings@) == views(warnings@)),
            },
            (Recording::Finishing { warnings, result }, RecordEvent::Finished(written)) => r.0 is Done
                && (r.1 matches RecordAction::Complete(c) && c.result == result && views(
                c.warnings@,
            ) == match written {
                Ok(()) => views(warnings@),
                Err(m) => views(warnings@).push(
                    "History outcome was not saved; the attempt remains unfinished: "@ + m@,
                ),
            }),
            _ => false,
        },
{
    match (state, event) {
        (Recording::ReadingSaved { initial }, RecordEvent::Saved(read)) => {
            match after_saved_read(read) {
                SavedRead::Reuse(saved) => (
                    Recording::Done,
                    RecordAction::Complete(Completion { result: Ok(saved), warnings: Vec::new() }),
                ),
                SavedRead::LookUp(warnings) => (
                    Recording::Starting { warnings },
                    RecordAction::StartAttempt(initial),
                ),
            }
        },
        (Recording::Starting { warnings }, RecordEvent::Started(started)) => {
            match started {
                Ok(id) => (
                    Recording::LookingUp { warnings, attempt: Some(id) },
                    RecordAction::LookUp,
                ),
                Err(m) => {
                    let mut warnings = warnings;
                    let ghost before = views(warnings@);
                    warnings.push(unsaved_warning(m.as_str()));
                    assert(views(warnings@) =~= before.push("History was not saved: "@ + m@));
                    (Recording::LookingUp { warnings, attempt: None }, RecordAction::LookUp)
                },
            }
        },
        (Recording::LookingUp { warnings, attempt }, RecordEvent::LookedUp { result, selected }) => {
            match attempt {
                Some(id) => {
                    let outcome = history_outcome(&result);
                    let provider = match selected {
                        Some(p) => Some(provider_name(p)),
                        None => None,
                    };
                    (
                        Recording::Finishing { warnings, result },
                        RecordAction::FinishAttempt { id, outcome, provider },
                    )
                },
                None => (Recording::Done, RecordAction::Complete(Completion { result, warnings })),
            }
        },
        (Recording::Finishing { warnings, result }, RecordEvent::Finished(written)) => {
            match written {
                Ok(()) => (Recording::Done, RecordAction::Complete(Completion { result, warnings })),
                Err(m) => {
                    let mut warnings = warnings;
                    let ghost before = views(warnings@);
                    warnings.push(unfinished_warning(m.as_str()));
                    assert(views(warnings@) =~= before.push(
                        "History outcome was not saved; the attempt remains unfinished: "@ + m@,
                    ));
                    (Recording::Done, RecordAction::Complete(Completion { result, warnings }))
                },
            }
        },
        _ => (Recording::Done, RecordAction::ReadSaved),
    }
}

} // verus!
