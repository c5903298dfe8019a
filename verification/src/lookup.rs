//! Lookup validation, provider capabilities and feature-specific failures.
use vstd::prelude::*;
use crate::domain::{
    LanguagePair,
    ParseLanguageError,
    initial_pair_list,
    initial_pairs,
    is_initial_pair,
    is_supported_pair,
    lemma_initial_pairs,
    pair_text,
    unsupported_language_text,
};
use crate::strings::{chars_of, concat, copy_string, string_of, trim_chars, trim_seq};
use crate::text::{char_is_control, is_control};

verus! {

/// Why a lookup did not produce a result.
#[derive(Debug)]
pub enum LookupError {
    Cancelled,
    InvalidInput(String),
    UnsupportedLanguage(String),
    UnsupportedPair(LanguagePair),
    Ambiguous(String),
    Undetermined(String),
    NotFound { query: String, pair: LanguagePair },
    Configuration(String),
    Dictionary(String),
    DictionaryDownload(String),
    Authentication,
    RateLimited,
    ProviderUnavailable,
    Network,
    Timeout,
    InvalidResponse,
    ProviderRejected,
}

/// The message of each failure, as `Display` shows it.
pub open spec fn error_message(error: LookupError) -> Seq<char> {
    match error {
        LookupError::Cancelled => "Lookup cancelled."@,
        LookupError::InvalidInput(m) => m@,
        LookupError::UnsupportedLanguage(code) => unsupported_language_text(code@),
        LookupError::UnsupportedPair(pair) => "Unsupported language pair "@ + pair_text(pair)
            + ". Supported directions: de → en, en → de."@,
        LookupError::Ambiguous(q) => "'"@ + q@ + "' has entries in both German and English."@,
        LookupError::Undetermined(q) => "Could not determine the source of '"@ + q@
            + "': neither dictionary returned an entry."@,
        LookupError::NotFound { query, pair } => "No entry found for '"@ + query@ + "' ("@
            + pair_text(pair) + "). Check spelling or change the source language."@,
        LookupError::Configuration(m) => "Configuration error: "@ + m@,
        LookupError::Dictionary(m) => "WikDict dictionary error: "@ + m@,
        LookupError::DictionaryDownload(m) => "WikDict download failed: "@ + m@
            + ". Check your network and retry; completed dictionaries remain available."@,
        LookupError::Authentication =>
            "Microsoft authentication failed. Check VOCI_MICROSOFT_KEY and the configured region."@,
        LookupError::RateLimited =>
            "Microsoft's request quota or rate limit was reached. Retry later and check your Azure quota."@,
        LookupError::ProviderUnavailable =>
            "Microsoft Dictionary Lookup is unavailable. Retry later."@,
        LookupError::Network =>
            "Cannot connect to Microsoft Dictionary Lookup. Check your network and retry."@,
        LookupError::Timeout => "Lookup timed out. Check your network and retry."@,
        LookupError::InvalidResponse =>
            "Microsoft returned an unexpected dictionary response. Retry later."@,
        LookupError::ProviderRejected =>
            "Microsoft rejected the lookup request. Check the query, languages, and provider setup."@,
    }
}

fn concat3(a: &str, b: &str, c: &str) -> (r: String)
    ensures
        r@ == a@ + b@ + c@,
{
    let ab = concat(a, b);
    concat(ab.as_str(), c)
}

impl LookupError {
    /// The message, as `Display` shows it.
    pub fn message(&self) -> (r: String)
        ensures
            r@ == error_message(*self),
    {
        match self {
            LookupError::Cancelled => copy_string("Lookup cancelled."),
            LookupError::InvalidInput(m) => m.clone(),
            LookupError::UnsupportedLanguage(code) => ParseLanguageError(code.clone()).message(),
            LookupError::UnsupportedPair(pair) => {
                let p = pair.to_text();
                concat3(
                    "Unsupported language pair ",
                    p.as_str(),
                    ". Supported directions: de → en, en → de.",
                )
            },
            LookupError::Ambiguous(q) => concat3(
                "'",
                q.as_str(),
                "' has entries in both German and English.",
            ),
            LookupError::Undetermined(q) => concat3(
                "Could not determine the source of '",
                q.as_str(),
                "': neither dictionary returned an entry.",
            ),
            LookupError::NotFound { query, pair } => {
                let head = concat3("No entry found for '", query.as_str(), "' (");
                let p = pair.to_text();
                concat3(
                    head.as_str(),
                    p.as_str(),
                    "). Check spelling or change the source language.",
                )
            },
            LookupError::Configuration(m) => concat("Configuration error: ", m.as_str()),
            LookupError::Dictionary(m) => concat("WikDict dictionary error: ", m.as_str()),
            LookupError::DictionaryDownload(m) => concat3(
                "WikDict download failed: ",
                m.as_str(),
                ". Check your network and retry; completed dictionaries remain available.",
            ),
            LookupError::Authentication => copy_string(
                "Microsoft authentication failed. Check VOCI_MICROSOFT_KEY and the configured region.",
            ),
            LookupError::RateLimited => copy_string(
                "Microsoft's request quota or rate limit was reached. Retry later and check your Azure quota.",
            ),
            LookupError::ProviderUnavailable => copy_string(
                "Microsoft Dictionary Lookup is unavailable. Retry later.",
            ),
            LookupError::Network => copy_string(
                "Cannot connect to Microsoft Dictionary Lookup. Check your network and retry.",
            ),
            LookupError::Timeout => copy_string("Lookup timed out. Check your network and retry."),
            LookupError::InvalidResponse => copy_string(
                "Microsoft returned an unexpected dictionary response. Retry later.",
            ),
            LookupError::ProviderRejected => copy_string(
                "Microsoft rejected the lookup request. Check the query, languages, and provider setup.",
            ),
        }
    }
}

impl vstd::std_specs::convert::FromSpecImpl<ParseLanguageError> for LookupError {
    open spec fn obeys_from_spec() -> bool {
        true
    }

    open spec fn from_spec(v: ParseLanguageError) -> LookupError {
        LookupError::UnsupportedLanguage(v.0)
    }
}

impl From<ParseLanguageError> for LookupError {
    fn from(error: ParseLanguageError) -> (r: LookupError) {
        LookupError::UnsupportedLanguage(error.0)
    }
}

/// The maximum number of characters in a query.
pub const MAX_QUERY_CHARS: usize = 100;

/// What validation makes of a query: the trimmed query, or the message of the refusal.
pub open spec fn validated_query(query: Seq<char>) -> Result<Seq<char>, Seq<char>> {
    if exists|i: int| 0 <= i < query.len() && is_control(#[trigger] query[i]) {
        Err("The query must not contain control characters."@)
    } else if trim_seq(query).len() == 0 {
        Err("Enter a word to look up."@)
    } else if trim_seq(query).len() > 100 {
        Err("The query must be at most 100 characters."@)
    } else {
        Ok(trim_seq(query))
    }
}

/// Whether a result of validation matches the specification above.
pub open spec fn validation_matches(r: Result<String, LookupError>, query: Seq<char>) -> bool {
    match validated_query(query) {
        Ok(q) => r matches Ok(s) && s@ == q,
        Err(m) => r matches Err(LookupError::InvalidInput(msg)) && msg@ == m,
    }
}

/// Accept a query only without control characters, nonempty after trimming, and at most
/// 100 characters long; the accepted query is trimmed.
pub fn validate_query(query: &str) -> (r: Result<String, LookupError>)
    ensures
        validation_matches(r, query@),
{
    // Validate before trimming so embedded/pasted terminal controls cannot be hidden.
    let v = chars_of(query);
    let mut i: usize = 0;
    while i < v.len()
        invariant
            i <= v.len(),
            v@ == query@,
            forall|k: int| 0 <= k < i ==> !is_control(#[trigger] v@[k]),
        decreases v.len() - i,
    {
        if char_is_control(v[i]) {
            return Err(
                LookupError::InvalidInput(
                    copy_string("The query must not contain control characters."),
                ),
            );
        }
        i = i + 1;
    }
    let t = trim_chars(&v);
    if t.len() == 0 {
        return Err(LookupError::InvalidInput(copy_string("Enter a word to look up.")));
    }
    if t.len() > MAX_QUERY_CHARS {
        return Err(
            LookupError::InvalidInput(copy_string("The query must be at most 100 characters.")),
        );
    }
    Ok(string_of(&t))
}

/// The directions a provider offers.
pub struct ProviderCapabilities {
    pub dictionary_pairs: Vec<LanguagePair>,
    pub translation_pairs: Vec<LanguagePair>,
}

/// A source of dictionary entries. Looking up is asynchronous and is done by the caller.
pub trait DictionaryProvider {
    /// The directions the provider offers.
    fn capabilities(&self) -> ProviderCapabilities;
}

/// Both dictionary providers offer the initial pairs and no machine translation.
pub fn dictionary_capabilities() -> (r: ProviderCapabilities)
    ensures
        r.dictionary_pairs@ == initial_pairs(),
        r.translation_pairs@.len() == 0,
{
    ProviderCapabilities { dictionary_pairs: initial_pair_list(), translation_pairs: Vec::new() }
}

/// What a provider checks before it looks anything up: a valid query and an initial pair.
pub open spec fn provider_check_matches(
    r: Result<String, LookupError>,
    query: Seq<char>,
    pair: LanguagePair,
) -> bool {
    match validated_query(query) {
        Err(_) => validation_matches(r, query),
        Ok(q) => if is_initial_pair(pair) {
            r matches Ok(s) && s@ == q
        } else {
            r matches Err(LookupError::UnsupportedPair(p)) && p == pair
        },
    }
}

/// Validate a provider lookup: the query first, then the direction.
pub fn check_provider_lookup(query: &str, pair: LanguagePair) -> (r: Result<String, LookupError>)
    ensures
        provider_check_matches(r, query@, pair),
{
    let query = validate_query(query)?;
    proof {
        lemma_initial_pairs(pair);
    }
    if !is_supported_pair(pair) {
        return Err(LookupError::UnsupportedPair(pair));
    }
    Ok(query)
}

} // verus!
