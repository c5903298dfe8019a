//! Language resolution: which directions a lookup asks the provider for, and what their
//! answers mean. With a source language the lookup asks one direction; without one it asks
//! both, and the dictionaries' coverage decides the source. The caller runs the requests.
use vstd::prelude::*;
use crate::domain::{Language, LanguagePair, LookupRequest, LookupResult, other_language};
use crate::lookup::{LookupError, validate_query, validated_query};
use crate::strings::copy_string;

verus! {

/// Which requests a lookup makes.
#[derive(Debug)]
pub enum LookupPlan {
    /// One request in this direction, for the validated query.
    Explicit { query: String, pair: LanguagePair },
    /// Both directions, German → English first, for the validated query; `to` is the target
    /// that was asked for, if any.
    Automatic { query: String, to: Option<Language> },
}

/// The target of an explicit lookup: the one asked for, else the preferred target unless it
/// is the source, else the other language.
pub open spec fn explicit_target(from: Language, to: Option<Language>, preferred: Language) -> Language {
    match to {
        Some(t) => t,
        None => if preferred != from {
            preferred
        } else {
            other_language(from)
        },
    }
}

/// Plan a lookup: validate the request, then ask one direction where the source is given and
/// both where it is not.
pub fn plan_lookup(request: &LookupRequest, preferred: Language) -> (r: Result<LookupPlan, LookupError>)
    ensures
        match validated_query(request.query@) {
            Err(m) => r matches Err(LookupError::InvalidInput(msg)) && msg@ == m,
            Ok(q) => match request.from {
                Some(f) => if request.to == Some(f) {
                    r matches Err(LookupError::UnsupportedPair(p)) && p == LanguagePair { from: f, to: f }
                } else {
                    r matches Ok(LookupPlan::Explicit { query, pair }) && query@ == q && pair
                        == LanguagePair { from: f, to: explicit_target(f, request.to, preferred) }
                },
                None => r matches Ok(LookupPlan::Automatic { query, to }) && query@ == q && to
                    == request.to,
            },
        },
{
    let query = match validate_query(request.query.as_str()) {
        Ok(q) => q,
        Err(e) => {
            return Err(e);
        },
    };
    match request.from {
        Some(from) => {
            if request.to == Some(from) {
                return Err(LookupError::UnsupportedPair(LanguagePair { from, to: from }));
            }
            let to = match request.to {
                Some(t) => t,
                None => if preferred != from {
                    preferred
                } else {
                    match from {
                        Language::German => Language::English,
                        Language::English => Language::German,
                    }
                },
            };
            Ok(LookupPlan::Explicit { query, pair: LanguagePair { from, to } })
        },
        None => Ok(LookupPlan::Automatic { query, to: request.to }),
    }
}

/// Whether an answer found entries: a result with at least one candidate.
pub open spec fn found(answer: Result<LookupResult, LookupError>) -> bool {
    answer matches Ok(r) && r.candidates@.len() > 0
}

/// The outcome of an explicit lookup: its result where it found entries, a miss where it
/// found none, or its failure.
pub fn explicit_outcome(
    query: &str,
    pair: LanguagePair,
    answer: Result<LookupResult, LookupError>,
) -> (r: Result<LookupResult, LookupError>)
    ensures
        match answer {
            Ok(a) => if a.candidates@.len() > 0 {
                r matches Ok(res) && res@ == a@
            } else {
                r matches Err(LookupError::NotFound { query: q, pair: p }) && q@ == query@ && p
                    == pair
            },
            Err(e) => r == Err::<LookupResult, LookupError>(e),
        },
{
    match answer {
        Ok(a) => if a.candidates.len() > 0 {
            Ok(a)
        } else {
            Err(LookupError::NotFound { query: copy_string(query), pair })
        },
        Err(e) => Err(e),
    }
}

/// What the two answers of an automatic lookup decide.
pub enum Resolution {
    /// This answer is the outcome.
    Answer(Result<LookupResult, LookupError>),
    /// Both directions have entries.
    Ambiguous,
    /// Neither direction has entries.
    Undetermined,
    /// Only the direction from this language has entries, and the target asked for is this
    /// same language.
    SameLanguage(Language),
}

/// What the two answers of an automatic lookup decide, German → English first. A failed
/// request is never evidence of a language: any failure is the outcome. Entries in both
/// directions are ambiguous, entries in neither leave the source undetermined, and entries
/// in one direction decide the source; a target that was asked for is never changed.
pub open spec fn resolution(
    to: Option<Language>,
    german: Result<LookupResult, LookupError>,
    english: Result<LookupResult, LookupError>,
) -> Resolution {
    if german is Err {
        Resolution::Answer(german)
    } else if english is Err {
        Resolution::Answer(english)
    } else if found(german) && found(english) {
        Resolution::Ambiguous
    } else if !found(german) && !found(english) {
        Resolution::Undetermined
    } else if found(german) {
        if to == Some(Language::German) {
            Resolution::SameLanguage(Language::German)
        } else {
            Resolution::Answer(german)
        }
    } else {
        if to == Some(Language::English) {
            Resolution::SameLanguage(Language::English)
        } else {
            Resolution::Answer(english)
        }
    }
}

/// The outcome of an automatic lookup of `query` from its two answers, as its resolution
/// decides it.
pub open spec fn automatic_result(
    query: Seq<char>,
    to: Option<Language>,
    german: Result<LookupResult, LookupError>,
    english: Result<LookupResult, LookupError>,
    r: Result<LookupResult, LookupError>,
) -> bool {
    match resolution(to, german, english) {
        Resolution::Answer(a) => r == a,
        Resolution::Ambiguous => r matches Err(LookupError::Ambiguous(q)) && q@ == query,
        Resolution::Undetermined => r matches Err(LookupError::Undetermined(q)) && q@ == query,
        Resolution::SameLanguage(l) => r matches Err(LookupError::UnsupportedPair(p)) && p
            == LanguagePair { from: l, to: l },
    }
}

/// Decide an automatic lookup from its two answers.
pub fn automatic_outcome(
    query: &str,
    to: Option<Language>,
    german: Result<LookupResult, LookupError>,
    english: Result<LookupResult, LookupError>,
) -> (r: Result<LookupResult, LookupError>)
    ensures
        automatic_result(query@, to, german, english, r),
{
    let german_found = match &german {
        Ok(a) => a.candidates.len() > 0,
        Err(_) => {
            return german;
        },
    };
    let english_found = match &english {
        Ok(a) => a.candidates.len() > 0,
        Err(_) => {
            return english;
        },
    };
    if german_found && english_found {
        return Err(LookupError::Ambiguous(copy_string(query)));
    }
    if !german_found && !english_found {
        return Err(LookupError::Undetermined(copy_string(query)));
    }
    if german_found {
        if to == Some(Language::German) {
            return Err(
                LookupError::UnsupportedPair(
                    LanguagePair { from: Language::German, to: Language::German },
                ),
            );
        }
        german
    } else {
        if to == Some(Language::English) {
            return Err(
                LookupError::UnsupportedPair(
                    LanguagePair { from: Language::English, to: Language::English },
                ),
            );
        }
        english
    }
}

/// A failed request never counts as a miss: where either direction failed, an automatic
/// lookup's outcome is that failure (the German → English one where both failed).
pub proof fn lemma_failure_is_not_a_miss(
    to: Option<Language>,
    german: Result<LookupResult, LookupError>,
    english: Result<LookupResult, LookupError>,
)
    requires
        german is Err || english is Err,
    ensures
        resolution(to, german, english) == Resolution::Answer(
            if german is Err {
                german
            } else {
                english
            },
        ),
{
}

/// A target that was asked for is never changed by resolution: the outcome is an answer in
/// a direction that leads to it, or a refusal.
pub proof fn lemma_automatic_target_kept(
    to: Language,
    german: Result<LookupResult, LookupError>,
    english: Result<LookupResult, LookupError>,
)
    requires
        german matches Ok(g) ==> g.pair == (LanguagePair {
            from: Language::German,
            to: Language::English,
        }),
        english matches Ok(e) ==> e.pair == (LanguagePair {
            from: Language::English,
            to: Language::German,
        }),
    ensures
        resolution(Some(to), german, english) matches Resolution::Answer(Ok(r)) ==> (r.pair.to
            == to),
{
}

/// Entries in both directions never pick a source: where the German → English and the
/// English → German answers both succeed with at least one candidate, an automatic lookup
/// fails as ambiguous, naming the query, whatever target was asked for.
pub proof fn lemma_entries_both_ways_are_ambiguous(
    query: Seq<char>,
    to: Option<Language>,
    german: Result<LookupResult, LookupError>,
    english: Result<LookupResult, LookupError>,
    r: Result<LookupResult, LookupError>,
)
    requires
        german matches Ok(g) && g.candidates@.len() > 0,
        english matches Ok(e) && e.candidates@.len() > 0,
        automatic_result(query, to, german, english, r),
    ensures
        r matches Err(LookupError::Ambiguous(q)) && q@ == query,
{
}

/// Entries in exactly one direction decide the source: the outcome is that direction's
/// result, unless the target asked for is the source's own language.
pub proof fn lemma_entries_one_way_decide(
    query: Seq<char>,
    to: Option<Language>,
    german: Result<LookupResult, LookupError>,
    english: Result<LookupResult, LookupError>,
    r: Result<LookupResult, LookupError>,
)
    requires
        german matches Ok(g) && g.candidates@.len() > 0,
        english matches Ok(e) && e.candidates@.len() == 0,
        to != Some(Language::German),
        automatic_result(query, to, german, english, r),
    ensures
        r == german,
{
}

/// An explicitly selected target is never changed: an explicit lookup asks for exactly the
/// target given.
pub proof fn lemma_explicit_target_kept(from: Language, to: Language, preferred: Language)
    ensures
        explicit_target(from, Some(to), preferred) == to,
        explicit_target(from, None, preferred) != from,
{
}

} // verus!
