//! Unicode normalization and case folding, computed by outside crates.
use vstd::prelude::*;
use caseless::default_case_fold_str;
use unicode_normalization::UnicodeNormalization;

verus! {

/// Canonical decomposition (NFD) of a text.
pub uninterp spec fn nfd_of(text: Seq<char>) -> Seq<char>;

/// Canonical composition (NFC) of a text.
pub uninterp spec fn nfc_of(text: Seq<char>) -> Seq<char>;

/// Unicode default case folding of a text.
pub uninterp spec fn case_fold_of(text: Seq<char>) -> Seq<char>;

/// Calls `UnicodeNormalization::nfd` of unicode-normalization and collects the characters.
/// The contract only names the result: it is the decomposition of the text given.
#[verifier::external_body]
pub(crate) fn nfd(text: &str) -> (r: String)
    ensures
        r@ == nfd_of(text@),
{
    text.nfd().collect()
}

/// Calls `UnicodeNormalization::nfc` of unicode-normalization and collects the characters.
/// The contract names the result, the composition of the text given, and states that it is
/// in Normalization Form C, as the crate documents its output: composing it again leaves it
/// as it is.
#[verifier::external_body]
pub(crate) fn nfc(text: &str) -> (r: String)
    ensures
        r@ == nfc_of(text@),
        nfc_of(r@) == r@,
{
    text.nfc().collect()
}

/// Calls `caseless::default_case_fold_str`. The contract only names the result: it is the
/// default case folding of the text given.
#[verifier::external_body]
pub(crate) fn case_fold(text: &str) -> (r: String)
    ensures
        r@ == case_fold_of(text@),
{
    default_case_fold_str(text)
}

/// The form in which saved queries and dictionary headwords are compared: decomposed,
/// case folded and composed again, so that case and canonical accent variants match.
pub open spec fn folded(text: Seq<char>) -> Seq<char> {
    nfc_of(case_fold_of(nfd_of(text)))
}

/// Fold a text for caseless, normalization-insensitive comparison. The folded text is
/// already composed: composing it again leaves it as it is.
pub fn fold(value: &str) -> (r: String)
    ensures
        r@ == folded(value@),
        nfc_of(r@) == r@,
{
    let decomposed = nfd(value);
    let case_folded = case_fold(decomposed.as_str());
    nfc(case_folded.as_str())
}

/// Canonically equivalent texts (with the same decomposition) fold to the same text.
pub proof fn lemma_fold_canonical(a: Seq<char>, b: Seq<char>)
    requires
        nfd_of(a) == nfd_of(b),
    ensures
        folded(a) == folded(b),
{
}

} // verus!
