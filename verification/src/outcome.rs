//! Translate completed lookup attempts into the persisted history schema.
use vstd::prelude::*;
use crate::domain::LookupResult;
use crate::history::{AttemptOutcome, Finished};
use crate::lookup::LookupError;
use crate::presentation::{lookup_error_text, lookup_error_text_spec};
use crate::strings::copy_string;
use crate::text::{safe_seq, safe_text};

verus! {

/// The outcome and the stored error code of a failed lookup.
pub open spec fn failure_outcome(error: LookupError) -> (AttemptOutcome, Seq<char>) {
    match error {
        LookupError::NotFound { .. } => (AttemptOutcome::NotFound, "not_found"@),
        LookupError::Ambiguous(_) => (AttemptOutcome::Ambiguous, "ambiguous"@),
        LookupError::Undetermined(_) => (AttemptOutcome::Undetermined, "undetermined"@),
        LookupError::Cancelled => (AttemptOutcome::Cancelled, "cancelled"@),
        LookupError::Configuration(_) => (AttemptOutcome::Failure, "configuration"@),
        LookupError::Dictionary(_) => (AttemptOutcome::Failure, "dictionary"@),
        LookupError::DictionaryDownload(_) => (AttemptOutcome::Failure, "dictionary_download"@),
        LookupError::Authentication => (AttemptOutcome::Failure, "authentication"@),
        LookupError::RateLimited => (AttemptOutcome::Failure, "rate_limited"@),
        LookupError::Network => (AttemptOutcome::Failure, "network"@),
        LookupError::Timeout => (AttemptOutcome::Failure, "timeout"@),
        LookupError::InvalidResponse => (AttemptOutcome::Failure, "invalid_response"@),
        LookupError::ProviderRejected => (AttemptOutcome::Failure, "provider_rejected"@),
        LookupError::ProviderUnavailable => (AttemptOutcome::Failure, "provider_unavailable"@),
        _ => (AttemptOutcome::Failure, "invalid_request"@),
    }
}

/// What history records of a completed lookup.
pub open spec fn outcome_matches(f: Finished, result: Result<LookupResult, LookupError>) -> bool {
    match result {
        Ok(res) => {
            &&& f.outcome == AttemptOutcome::Success
            &&& f.result matches Some(saved) && saved@ == res@
            &&& f.resolved_pair == Some(res.pair)
            &&& f.error_code is None
            &&& f.message is None
        },
        Err(error) => {
            &&& f.outcome == failure_outcome(error).0
            &&& f.result is None
            &&& f.resolved_pair == match error {
                LookupError::NotFound { pair, .. } => Some(pair),
                _ => None,
            }
            &&& f.error_code matches Some(code) && code@ == failure_outcome(error).1
            &&& f.message matches Some(m) && m@ == safe_seq(lookup_error_text_spec(error))
        },
    }
}

/// History tells failures apart: a recorded failure's outcome is "ambiguous", "undetermined",
/// "not found" or "cancelled" exactly for those kinds of error, each stored with its own
/// code, and never a success.
pub proof fn lemma_failures_keep_their_kind(error: LookupError, f: Finished)
    requires
        outcome_matches(f, Err::<LookupResult, LookupError>(error)),
    ensures
        f.outcome != AttemptOutcome::Success,
        (f.outcome == AttemptOutcome::Ambiguous) == (error is Ambiguous),
        (f.outcome == AttemptOutcome::Undetermined) == (error is Undetermined),
        (f.outcome == AttemptOutcome::NotFound) == (error is NotFound),
        (f.outcome == AttemptOutcome::Cancelled) == (error is Cancelled),
        error is Ambiguous ==> (f.error_code matches Some(c) && c@ == "ambiguous"@),
        error is Undetermined ==> (f.error_code matches Some(c) && c@ == "undetermined"@),
        error is NotFound ==> (f.error_code matches Some(c) && c@ == "not_found"@),
        error is Cancelled ==> (f.error_code matches Some(c) && c@ == "cancelled"@),
{
}

fn failure_code(error: &LookupError) -> (r: (AttemptOutcome, &'static str))
    ensures
        r.0 == failure_outcome(*error).0,
        r.1@ == failure_outcome(*error).1,
{
    match error {
        LookupError::NotFound { .. } => (AttemptOutcome::NotFound, "not_found"),
        LookupError::Ambiguous(_) => (AttemptOutcome::Ambiguous, "ambiguous"),
        LookupError::Undetermined(_) => (AttemptOutcome::Undetermined, "undetermined"),
        LookupError::Cancelled => (AttemptOutcome::Cancelled, "cancelled"),
        LookupError::Configuration(_) => (AttemptOutcome::Failure, "configuration"),
        LookupError::Dictionary(_) => (AttemptOutcome::Failure, "dictionary"),
        LookupError::DictionaryDownload(_) => (AttemptOutcome::Failure, "dictionary_download"),
        LookupError::Authentication => (AttemptOutcome::Failure, "authentication"),
        LookupError::RateLimited => (AttemptOutcome::Failure, "rate_limited"),
        LookupError::Network => (AttemptOutcome::Failure, "network"),
        LookupError::Timeout => (AttemptOutcome::Failure, "timeout"),
        LookupError::InvalidResponse => (AttemptOutcome::Failure, "invalid_response"),
        LookupError::ProviderRejected => (AttemptOutcome::Failure, "provider_rejected"),
        LookupError::ProviderUnavailable => (AttemptOutcome::Failure, "provider_unavailable"),
        _ => (AttemptOutcome::Failure, "invalid_request"),
    }
}

/// The outcome event that history records for a completed lookup.
pub fn history_outcome(result: &Result<LookupResult, LookupError>) -> (r: Finished)
    ensures
        outcome_matches(r, *result),
{
    match result {
        Ok(result) => Finished {
            outcome: AttemptOutcome::Success,
            result: Some(result.clone()),
            resolved_pair: Some(result.pair),
            error_code: None,
            message: None,
        },
        Err(error) => {
            let (outcome, code) = failure_code(error);
            let text = lookup_error_text(error);
            Finished {
                outcome,
                result: None,
                resolved_pair: match error {
                    LookupError::NotFound { pair, .. } => Some(*pair),
                    _ => None,
                },
                error_code: Some(copy_string(code)),
                message: Some(safe_text(text.as_str())),
            }
        },
    }
}

} // verus!
