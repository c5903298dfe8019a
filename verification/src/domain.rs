//! Shared language and dictionary-result contracts.
use vstd::prelude::*;
use crate::strings::{concat, copy_string, str_eq, views};

verus! {

/// A supported dictionary language.
#[derive(Clone, Copy, Debug, PartialEq, Eq, Hash, Structural)]
pub enum Language {
    German,
    English,
}

/// The two-letter code of a language.
pub open spec fn language_code(language: Language) -> Seq<char> {
    match language {
        Language::German => "de"@,
        Language::English => "en"@,
    }
}

/// The language whose code is `code`, if any.
pub open spec fn language_of_code(code: Seq<char>) -> Option<Language> {
    if code == "de"@ {
        Some(Language::German)
    } else if code == "en"@ {
        Some(Language::English)
    } else {
        None
    }
}

/// The other supported language.
pub open spec fn other_language(language: Language) -> Language {
    match language {
        Language::German => Language::English,
        Language::English => Language::German,
    }
}

impl Language {
    pub fn code(self) -> (r: &'static str)
        ensures
            r@ == language_code(self),
    {
        match self {
            Language::German => "de",
            Language::English => "en",
        }
    }

    /// Parse a language code; only `de` and `en` are supported.
    pub fn from_code(value: &str) -> (r: Result<Language, ParseLanguageError>)
        ensures
            match language_of_code(value@) {
                Some(language) => r == Ok::<Language, ParseLanguageError>(language),
                None => r matches Err(e) && e.0@ == value@,
            },
    {
        if str_eq(value, "de") {
            Ok(Language::German)
        } else if str_eq(value, "en") {
            Ok(Language::English)
        } else {
            Err(ParseLanguageError(copy_string(value)))
        }
    }

    /// The code, as `Display` shows it.
    pub fn to_text(self) -> (r: String)
        ensures
            r@ == language_code(self),
    {
        copy_string(self.code())
    }
}

impl core::str::FromStr for Language {
    type Err = ParseLanguageError;

    fn from_str(value: &str) -> (r: Result<Self, Self::Err>)
        ensures
            match language_of_code(value@) {
                Some(language) => r == Ok::<Language, ParseLanguageError>(language),
                None => r matches Err(e) && e.0@ == value@,
            },
    {
        Language::from_code(value)
    }
}

/// A translation direction.
#[derive(Clone, Copy, Debug, PartialEq, Eq, Structural)]
pub struct LanguagePair {
    pub from: Language,
    pub to: Language,
}

/// A pair as it is displayed: `de → en`.
pub open spec fn pair_text(pair: LanguagePair) -> Seq<char> {
    language_code(pair.from) + " → "@ + language_code(pair.to)
}

/// The directions that every provider supports: German → English and English → German.
pub open spec fn initial_pairs() -> Seq<LanguagePair> {
    seq![
        LanguagePair { from: Language::German, to: Language::English },
        LanguagePair { from: Language::English, to: Language::German },
    ]
}

/// A pair is one of the initial pairs exactly when its two languages differ.
pub open spec fn is_initial_pair(pair: LanguagePair) -> bool {
    pair.from != pair.to
}

impl LanguagePair {
    /// The pair as `Display` shows it.
    pub fn to_text(self) -> (r: String)
        ensures
            r@ == pair_text(self),
    {
        let r = concat(self.from.code(), " → ");
        concat(r.as_str(), self.to.code())
    }
}

/// German → English and English → German, in that order.
pub fn initial_pair_list() -> (r: Vec<LanguagePair>)
    ensures
        r@ == initial_pairs(),
{
    let mut r = Vec::new();
    r.push(LanguagePair { from: Language::German, to: Language::English });
    r.push(LanguagePair { from: Language::English, to: Language::German });
    assert(r@ =~= initial_pairs());
    r
}

/// The initial pairs are exactly the two directions between German and English.
pub proof fn lemma_initial_pairs(pair: LanguagePair)
    ensures
        initial_pairs().contains(pair) <==> is_initial_pair(pair),
{
    if is_initial_pair(pair) {
        if pair.from == Language::German {
            assert(initial_pairs()[0] == pair);
        } else {
            assert(initial_pairs()[1] == pair);
        }
    }
}

/// Whether a pair is one of the initial pairs.
pub fn is_supported_pair(pair: LanguagePair) -> (b: bool)
    ensures
        b == initial_pairs().contains(pair),
{
    proof {
        lemma_initial_pairs(pair);
    }
    pair.from != pair.to
}

#[derive(Clone, Copy, Debug, PartialEq, Eq, Structural)]
pub enum ResultKind {
    Dictionary,
    MachineTranslation,
}

/// One translation offered for a headword.
#[derive(Debug)]
pub struct TranslationCandidate {
    pub text: String,
    pub normalized: String,
    pub part_of_speech: Option<String>,
    pub sense: Option<String>,
    pub prefix: String,
    pub back_translations: Vec<String>,
}

/// The value of a candidate.
pub struct CandidateView {
    pub text: Seq<char>,
    pub normalized: Seq<char>,
    pub part_of_speech: Option<Seq<char>>,
    pub sense: Option<Seq<char>>,
    pub prefix: Seq<char>,
    pub back_translations: Seq<Seq<char>>,
}

/// The view of an optional string.
pub open spec fn option_view(value: Option<String>) -> Option<Seq<char>> {
    match value {
        Some(s) => Some(s@),
        None => None,
    }
}

impl View for TranslationCandidate {
    type V = CandidateView;

    open spec fn view(&self) -> CandidateView {
        CandidateView {
            text: self.text@,
            normalized: self.normalized@,
            part_of_speech: option_view(self.part_of_speech),
            sense: option_view(self.sense),
            prefix: self.prefix@,
            back_translations: views(self.back_translations@),
        }
    }
}

/// A dictionary answer with every candidate the provider returned.
#[derive(Debug)]
pub struct LookupResult {
    pub query: String,
    pub headword: String,
    pub normalized_headword: String,
    pub pair: LanguagePair,
    pub candidates: Vec<TranslationCandidate>,
    pub provider: String,
    pub attribution: Option<String>,
    pub kind: ResultKind,
}

/// The value of a lookup result.
pub struct ResultView {
    pub query: Seq<char>,
    pub headword: Seq<char>,
    pub normalized_headword: Seq<char>,
    pub pair: LanguagePair,
    pub candidates: Seq<CandidateView>,
    pub provider: Seq<char>,
    pub attribution: Option<Seq<char>>,
    pub kind: ResultKind,
}

/// The views of a sequence of candidates.
pub open spec fn candidate_views(v: Seq<TranslationCandidate>) -> Seq<CandidateView> {
    v.map_values(|c: TranslationCandidate| c@)
}

impl View for LookupResult {
    type V = ResultView;

    open spec fn view(&self) -> ResultView {
        ResultView {
            query: self.query@,
            headword: self.headword@,
            normalized_headword: self.normalized_headword@,
            pair: self.pair,
            candidates: candidate_views(self.candidates@),
            provider: self.provider@,
            attribution: option_view(self.attribution),
            kind: self.kind,
        }
    }
}

/// A copy of an optional string.
pub fn copy_option(value: &Option<String>) -> (r: Option<String>)
    ensures
        option_view(r) == option_view(*value),
{
    match value {
        Some(s) => Some(s.clone()),
        None => None,
    }
}

/// A copy of a vector of strings.
pub fn copy_strings(values: &Vec<String>) -> (r: Vec<String>)
    ensures
        r@ == values@,
        views(r@) == views(values@),
{
    let mut r: Vec<String> = Vec::new();
    let mut i: usize = 0;
    while i < values.len()
        invariant
            i <= values.len(),
            r@ == values@.take(i as int),
        decreases values.len() - i,
    {
        r.push(values[i].clone());
        i = i + 1;
        assert(r@ =~= values@.take(i as int));
    }
    assert(values@.take(values.len() as int) =~= values@);
    r
}

impl Clone for TranslationCandidate {
    fn clone(&self) -> (r: Self)
        ensures
            r@ == self@,
    {
        TranslationCandidate {
            text: self.text.clone(),
            normalized: self.normalized.clone(),
            part_of_speech: copy_option(&self.part_of_speech),
            sense: copy_option(&self.sense),
            prefix: self.prefix.clone(),
            back_translations: copy_strings(&self.back_translations),
        }
    }
}

/// A copy of a vector of candidates.
pub fn copy_candidates(values: &Vec<TranslationCandidate>) -> (r: Vec<TranslationCandidate>)
    ensures
        candidate_views(r@) == candidate_views(values@),
{
    let mut r: Vec<TranslationCandidate> = Vec::new();
    let mut i: usize = 0;
    while i < values.len()
        invariant
            i <= values.len(),
            r@.len() == i,
            candidate_views(r@) == candidate_views(values@.take(i as int)),
        decreases values.len() - i,
    {
        let c = values[i].clone();
        assert(c@ == values@[i as int]@);
        let ghost prev = r@;
        r.push(c);
        assert(r@ == prev.push(c));
        assert forall|k: int| 0 <= k < r@.len() implies #[trigger] candidate_views(r@)[k]
            == candidate_views(values@.take(i as int + 1))[k] by {
            if k < i {
                assert(candidate_views(prev)[k] == candidate_views(values@.take(i as int))[k]);
                assert(r@[k] == prev[k]);
                assert(values@.take(i as int)[k] == values@.take(i as int + 1)[k]);
            } else {
                assert(r@[k] == c);
                assert(values@.take(i as int + 1)[k] == values@[i as int]);
            }
        }
        i = i + 1;
        assert(candidate_views(r@) =~= candidate_views(values@.take(i as int)));
    }
    assert(values@.take(values.len() as int) =~= values@);
    r
}

impl Clone for LookupResult {
    fn clone(&self) -> (r: Self)
        ensures
            r@ == self@,
    {
        LookupResult {
            query: self.query.clone(),
            headword: self.headword.clone(),
            normalized_headword: self.normalized_headword.clone(),
            pair: self.pair,
            candidates: copy_candidates(&self.candidates),
            provider: self.provider.clone(),
            attribution: copy_option(&self.attribution),
            kind: self.kind,
        }
    }
}

/// A language code that is not supported.
#[derive(Debug)]
pub struct ParseLanguageError(pub String);

/// The message of an unsupported language code.
pub open spec fn unsupported_language_text(code: Seq<char>) -> Seq<char> {
    "Unsupported language '"@ + code + "'. Supported directions: de → en, en → de."@
}

impl ParseLanguageError {
    /// The message, as `Display` shows it.
    pub fn message(&self) -> (r: String)
        ensures
            r@ == unsupported_language_text(self.0@),
    {
        let r = concat("Unsupported language '", self.0.as_str());
        concat(r.as_str(), "'. Supported directions: de → en, en → de.")
    }
}

/// What the user asked to look up.
#[derive(Debug)]
pub struct LookupRequest {
    pub query: String,
    pub from: Option<Language>,
    pub to: Option<Language>,
}

impl Clone for LookupRequest {
    fn clone(&self) -> (r: Self)
        ensures
            r == *self,
    {
        LookupRequest { query: self.query.clone(), from: self.from, to: self.to }
    }
}

} // verus!
