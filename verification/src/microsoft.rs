//! Microsoft Translator Dictionary Lookup: the request, how a reply's status is judged, and
//! the result made of a decoded reply. Sending the request is left to the caller.
use vstd::prelude::*;
use crate::domain::{
    CandidateView,
    Language,
    LanguagePair,
    LookupResult,
    ResultKind,
    ResultView,
    TranslationCandidate,
    candidate_views,
    language_code,
    option_view,
};
use crate::lookup::LookupError;
use crate::ordering::{sort_unique, sorted_unique};
use crate::strings::{copy_string, str_eq, trim, trim_seq, views};

verus! {

/// Where dictionary lookups are sent unless another endpoint is given.
pub const ENDPOINT: &'static str = "https://api.cognitive.microsofttranslator.com/dictionary/lookup";

/// The name under which results are shown.
pub const PROVIDER_NAME: &'static str = "Microsoft Translator";

/// One translation of a decoded reply.
pub struct MsTranslation {
    pub normalized_target: String,
    pub display_target: String,
    pub pos_tag: String,
    pub prefix_word: String,
    /// The display texts of the back translations, in reply order.
    pub back_translations: Vec<String>,
}

/// One entry of a decoded reply.
pub struct MsEntry {
    pub normalized_source: String,
    pub display_source: String,
    pub translations: Vec<MsTranslation>,
}

/// The value of a translation of a reply.
pub struct MsTranslationView {
    pub normalized_target: Seq<char>,
    pub display_target: Seq<char>,
    pub pos_tag: Seq<char>,
    pub prefix_word: Seq<char>,
    pub back_translations: Seq<Seq<char>>,
}

impl View for MsTranslation {
    type V = MsTranslationView;

    open spec fn view(&self) -> MsTranslationView {
        MsTranslationView {
            normalized_target: self.normalized_target@,
            display_target: self.display_target@,
            pos_tag: self.pos_tag@,
            prefix_word: self.prefix_word@,
            back_translations: views(self.back_translations@),
        }
    }
}

/// The views of the translations of a reply.
pub open spec fn translation_views(v: Seq<MsTranslation>) -> Seq<MsTranslationView> {
    v.map_values(|t: MsTranslation| t@)
}

/// What a reply's HTTP status says: nothing for 200, else the failure it stands for.
pub open spec fn status_failure(status: u16) -> Option<LookupError> {
    if status == 200 {
        None
    } else if status == 401 || status == 403 {
        Some(LookupError::Authentication)
    } else if status == 429 {
        Some(LookupError::RateLimited)
    } else if 500 <= status <= 599 {
        Some(LookupError::ProviderUnavailable)
    } else if 300 <= status <= 399 {
        Some(LookupError::InvalidResponse)
    } else {
        Some(LookupError::ProviderRejected)
    }
}

/// Judge a reply's HTTP status.
pub fn status_error(status: u16) -> (r: Option<LookupError>)
    ensures
        r == status_failure(status),
{
    if status == 200 {
        None
    } else if status == 401 || status == 403 {
        Some(LookupError::Authentication)
    } else if status == 429 {
        Some(LookupError::RateLimited)
    } else if 500 <= status && status <= 599 {
        Some(LookupError::ProviderUnavailable)
    } else if 300 <= status && status <= 399 {
        Some(LookupError::InvalidResponse)
    } else {
        Some(LookupError::ProviderRejected)
    }
}

/// The failure for a request that could not be sent or answered: a timeout, or a network
/// failure.
pub fn transport_error(timed_out: bool) -> (r: LookupError)
    ensures
        timed_out ==> r is Timeout,
        !timed_out ==> r is Network,
{
    if timed_out {
        LookupError::Timeout
    } else {
        LookupError::Network
    }
}

/// The failure for a reply body that could not be read: a timeout, a body that is not the
/// expected JSON, or a network failure.
pub fn body_error(timed_out: bool, undecodable: bool) -> (r: LookupError)
    ensures
        timed_out ==> r is Timeout,
        !timed_out && undecodable ==> r is InvalidResponse,
        !timed_out && !undecodable ==> r is Network,
{
    if timed_out {
        LookupError::Timeout
    } else if undecodable {
        LookupError::InvalidResponse
    } else {
        LookupError::Network
    }
}

/// The query parameters of a lookup in `pair`: the API version and the two language codes.
pub fn request_parameters(pair: LanguagePair) -> (r: Vec<(String, String)>)
    ensures
        r@.len() == 3,
        r@[0].0@ == "api-version"@ && r@[0].1@ == "3.0"@,
        r@[1].0@ == "from"@ && r@[1].1@ == language_code(pair.from),
        r@[2].0@ == "to"@ && r@[2].1@ == language_code(pair.to),
{
    let mut r: Vec<(String, String)> = Vec::new();
    r.push((copy_string("api-version"), copy_string("3.0")));
    r.push((copy_string("from"), copy_string(pair.from.code())));
    r.push((copy_string("to"), copy_string(pair.to.code())));
    r
}

/// What a subscription key must be: not blank.
pub fn check_key(key: &str) -> (r: Result<(), LookupError>)
    ensures
        r is Ok <==> trim_seq(key@).len() > 0,
        r matches Err(LookupError::Configuration(m))
            ==> m@ == "Set VOCI_MICROSOFT_KEY to your Azure Translator subscription key."@,
        r matches Err(e) ==> e is Configuration,
{
    let t = trim(key);
    if t.as_str().is_empty() {
        proof {
            reveal_strlit("");
        }
        return Err(
            LookupError::Configuration(
                copy_string("Set VOCI_MICROSOFT_KEY to your Azure Translator subscription key."),
            ),
        );
    }
    Ok(())
}

/// The candidate that a translation gives: the part of speech only where the reply names
/// one, and the back translations sorted, each once.
pub open spec fn ms_candidate(t: MsTranslationView) -> CandidateView {
    CandidateView {
        text: t.display_target,
        normalized: t.normalized_target,
        part_of_speech: if t.pos_tag.len() == 0 {
            None
        } else {
            Some(t.pos_tag)
        },
        sense: None,
        prefix: t.prefix_word,
        back_translations: sorted_unique(t.back_translations),
    }
}

/// Whether two candidates are the same offer: the same normalized text, part of speech,
/// prefix and back translations.
pub open spec fn same_offer(a: CandidateView, b: CandidateView) -> bool {
    &&& a.normalized == b.normalized
    &&& a.part_of_speech == b.part_of_speech
    &&& a.prefix == b.prefix
    &&& a.back_translations == b.back_translations
}

/// The candidates in order, each offer kept where it first occurs.
pub open spec fn distinct_offers(cs: Seq<CandidateView>) -> Seq<CandidateView>
    decreases cs.len(),
{
    if cs.len() == 0 {
        Seq::empty()
    } else {
        let before = distinct_offers(cs.drop_last());
        if exists|k: int| 0 <= k < before.len() && same_offer(#[trigger] before[k], cs.last()) {
            before
        } else {
            before.push(cs.last())
        }
    }
}

/// The candidates that the translations of a reply give.
pub open spec fn ms_candidates(ts: Seq<MsTranslationView>) -> Seq<CandidateView> {
    distinct_offers(ts.map_values(|t: MsTranslationView| ms_candidate(t)))
}

/// Whether a translation names both its display and its normalized text.
pub open spec fn complete_translation(t: MsTranslationView) -> bool {
    trim_seq(t.display_target).len() > 0 && trim_seq(t.normalized_target).len() > 0
}

/// The result that a decoded reply gives for `query` in `pair`, or `None` where the reply is
/// not one entry, names no headword, or holds a translation without text.
pub open spec fn ms_result(
    query: Seq<char>,
    pair: LanguagePair,
    source: (Seq<char>, Seq<char>),
    translations: Seq<MsTranslationView>,
) -> Option<ResultView> {
    if trim_seq(source.0).len() == 0 || trim_seq(source.1).len() == 0 {
        None
    } else if exists|i: int|
        0 <= i < translations.len() && !complete_translation(#[trigger] translations[i]) {
        None
    } else {
        Some(
            ResultView {
                query,
                headword: source.0,
                normalized_headword: source.1,
                pair,
                candidates: ms_candidates(translations),
                provider: "Microsoft Translator"@,
                attribution: None,
                kind: ResultKind::Dictionary,
            },
        )
    }
}

/// Whether two candidates are the same offer.
fn offer_equal(a: &TranslationCandidate, b: &TranslationCandidate) -> (r: bool)
    ensures
        r == same_offer(a@, b@),
{
    if a.normalized != b.normalized || a.prefix != b.prefix {
        return false;
    }
    let pos = match &a.part_of_speech {
        Some(x) => match &b.part_of_speech {
            Some(y) => str_eq(x.as_str(), y.as_str()),
            None => false,
        },
        None => b.part_of_speech.is_none(),
    };
    assert(pos == (option_view(a.part_of_speech) == option_view(b.part_of_speech)));
    if !pos {
        return false;
    }
    let n = a.back_translations.len();
    if n != b.back_translations.len() {
        assert(views(a.back_translations@).len() != views(b.back_translations@).len());
        return false;
    }
    let mut i: usize = 0;
    while i < n
        invariant
            n == a.back_translations@.len() == b.back_translations@.len(),
            i <= n,
            forall|k: int| 0 <= k < i ==> a.back_translations@[k]@ == b.back_translations@[k]@,
        decreases n - i,
    {
        if a.back_translations[i] != b.back_translations[i] {
            assert(views(a.back_translations@)[i as int] != views(b.back_translations@)[i as int]);
            return false;
        }
        i = i + 1;
    }
    assert(views(a.back_translations@) =~= views(b.back_translations@));
    true
}

/// The candidate for one translation.
fn candidate_of(t: &MsTranslation) -> (c: TranslationCandidate)
    ensures
        c@ == ms_candidate(t@),
{
    let part_of_speech = if t.pos_tag.as_str().is_empty() {
        None
    } else {
        Some(t.pos_tag.clone())
    };
    TranslationCandidate {
        text: t.display_target.clone(),
        normalized: t.normalized_target.clone(),
        part_of_speech,
        sense: None,
        prefix: t.prefix_word.clone(),
        back_translations: sort_unique(&t.back_translations),
    }
}

/// The candidates of a reply's translations, each offer once.
fn candidates_of(ts: &Vec<MsTranslation>) -> (r: Vec<TranslationCandidate>)
    ensures
        candidate_views(r@) == ms_candidates(translation_views(ts@)),
{
    let ghost all = translation_views(ts@).map_values(|t: MsTranslationView| ms_candidate(t));
    let mut r: Vec<TranslationCandidate> = Vec::new();
    let mut i: usize = 0;
    while i < ts.len()
        invariant
            i <= ts@.len(),
            all == translation_views(ts@).map_values(|t: MsTranslationView| ms_candidate(t)),
            candidate_views(r@) == distinct_offers(all.take(i as int)),
        decreases ts.len() - i,
    {
        let c = candidate_of(&ts[i]);
        assert(all.take(i as int + 1).drop_last() =~= all.take(i as int));
        assert(all.take(i as int + 1).last() == c@);
        let ghost before = candidate_views(r@);
        let mut seen = false;
        let mut k: usize = 0;
        while k < r.len()
            invariant
                k <= r@.len(),
                before == candidate_views(r@),
                seen <==> exists|j: int| 0 <= j < k && same_offer(#[trigger] before[j], c@),
            decreases r.len() - k,
        {
            if offer_equal(&r[k], &c) {
                assert(same_offer(before[k as int], c@));
                seen = true;
            }
            k = k + 1;
        }
        if !seen {
            let ghost prev = r@;
            r.push(c);
            assert(candidate_views(r@) =~= candidate_views(prev).push(c@));
        }
        i = i + 1;
    }
    assert(all.take(i as int) =~= all);
    r
}

/// Whether every translation names both its texts.
fn translations_complete(ts: &Vec<MsTranslation>) -> (b: bool)
    ensures
        b == !exists|i: int|
            0 <= i < ts@.len() && !complete_translation(#[trigger] translation_views(ts@)[i]),
{
    let mut i: usize = 0;
    while i < ts.len()
        invariant
            i <= ts@.len(),
            forall|j: int| 0 <= j < i ==> complete_translation(#[trigger] translation_views(ts@)[j]),
        decreases ts.len() - i,
    {
        let t = &ts[i];
        assert(translation_views(ts@)[i as int] == t@);
        if trim(t.display_target.as_str()).as_str().is_empty() || trim(
            t.normalized_target.as_str(),
        ).as_str().is_empty() {
            return false;
        }
        i = i + 1;
    }
    true
}

/// Make the result of a decoded reply for a validated `query` in `pair`. A reply that is not
/// exactly one entry, or that `ms_result` refuses, is an invalid response.
pub fn reply_result(query: String, pair: LanguagePair, entries: Vec<MsEntry>) -> (r: Result<
    LookupResult,
    LookupError,
>)
    ensures
        entries@.len() != 1 ==> r matches Err(LookupError::InvalidResponse),
        entries@.len() == 1 ==> match ms_result(
            query@,
            pair,
            (entries@[0].display_source@, entries@[0].normalized_source@),
            translation_views(entries@[0].translations@),
        ) {
            Some(v) => r matches Ok(res) && res@ == v,
            None => r matches Err(LookupError::InvalidResponse),
        },
{
    if entries.len() != 1 {
        return Err(LookupError::InvalidResponse);
    }
    let entry = &entries[0];
    if trim(entry.display_source.as_str()).as_str().is_empty() || trim(
        entry.normalized_source.as_str(),
    ).as_str().is_empty() {
        return Err(LookupError::InvalidResponse);
    }
    if !translations_complete(&entry.translations) {
        return Err(LookupError::InvalidResponse);
    }
    let candidates = candidates_of(&entry.translations);
    Ok(
        LookupResult {
            query,
            headword: entry.display_source.clone(),
            normalized_headword: entry.normalized_source.clone(),
            pair,
            candidates,
            provider: copy_string("Microsoft Translator"),
            attribution: None,
            kind: ResultKind::Dictionary,
        },
    )
}

/// No two candidates are the same offer.
pub open spec fn distinct_offer_list(cs: Seq<CandidateView>) -> bool {
    forall|i: int, j: int| 0 <= i < j < cs.len() ==> !same_offer(#[trigger] cs[i], #[trigger] cs[j])
}

proof fn lemma_distinct_offers(cs: Seq<CandidateView>)
    ensures
        distinct_offer_list(distinct_offers(cs)),
    decreases cs.len(),
{
    if cs.len() > 0 {
        lemma_distinct_offers(cs.drop_last());
    }
}

/// A Microsoft result offers each translation at most once: no two of its candidates have
/// the same normalized text, part of speech, prefix and back translations.
pub proof fn lemma_microsoft_offers_distinct(
    query: Seq<char>,
    pair: LanguagePair,
    source: (Seq<char>, Seq<char>),
    translations: Seq<MsTranslationView>,
)
    requires
        ms_result(query, pair, source, translations) is Some,
    ensures
        distinct_offer_list(ms_result(query, pair, source, translations)->0.candidates),
{
    lemma_distinct_offers(translations.map_values(|t: MsTranslationView| ms_candidate(t)));
}

proof fn lemma_distinct_offers_kept(cs: Seq<CandidateView>)
    ensures
        forall|k: int| 0 <= k < distinct_offers(cs).len() ==> cs.contains(#[trigger] distinct_offers(cs)[k]),
    decreases cs.len(),
{
    if cs.len() > 0 {
        lemma_distinct_offers_kept(cs.drop_last());
        let before = distinct_offers(cs.drop_last());
        assert forall|k: int| 0 <= k < distinct_offers(cs).len() implies cs.contains(
            #[trigger] distinct_offers(cs)[k],
        ) by {
            if k < before.len() {
                let j = choose|j: int| 0 <= j < cs.drop_last().len() && cs.drop_last()[j] == before[k];
                assert(cs[j] == before[k]);
            } else {
                assert(cs[cs.len() - 1] == cs.last());
            }
        }
    }
}

proof fn lemma_distinct_offers_cover(cs: Seq<CandidateView>)
    ensures
        forall|j: int|
            #![trigger cs[j]]
            0 <= j < cs.len() ==> exists|k: int|
                0 <= k < distinct_offers(cs).len() && same_offer(
                    #[trigger] distinct_offers(cs)[k],
                    cs[j],
                ),
    decreases cs.len(),
{
    if cs.len() > 0 {
        let rest = cs.drop_last();
        lemma_distinct_offers_cover(rest);
        let before = distinct_offers(rest);
        let all = distinct_offers(cs);
        assert forall|j: int| #![trigger cs[j]] 0 <= j < cs.len() implies exists|k: int|
            0 <= k < all.len() && same_offer(#[trigger] all[k], cs[j]) by {
            if j < rest.len() {
                assert(cs[j] == rest[j]);
                assert(rest[j] == rest[j]);
                let k = choose|k: int| 0 <= k < before.len() && same_offer(#[trigger] before[k], rest[j]);
                assert(all[k] == before[k]);
            } else if exists|k: int| 0 <= k < before.len() && same_offer(#[trigger] before[k], cs.last()) {
                let k = choose|k: int| 0 <= k < before.len() && same_offer(#[trigger] before[k], cs.last());
                assert(all[k] == before[k]);
            } else {
                assert(all[before.len() as int] == cs.last());
            }
        }
    }
}

/// A Microsoft result drops no offer: for every translation of the reply there is a
/// candidate with its normalized text, its part of speech (none for an empty tag), its
/// prefix and its sorted back translations. Translations that differ in any of these, such
/// as the same word tagged as adverb and as adjective, give candidates of their own.
pub proof fn lemma_microsoft_keeps_every_offer(
    query: Seq<char>,
    pair: LanguagePair,
    source: (Seq<char>, Seq<char>),
    translations: Seq<MsTranslationView>,
)
    requires
        ms_result(query, pair, source, translations) is Some,
    ensures
        forall|i: int|
            #![trigger translations[i]]
            0 <= i < translations.len() ==> exists|k: int|
                #![trigger ms_result(query, pair, source, translations)->0.candidates[k]]
                0 <= k < ms_result(query, pair, source, translations)->0.candidates.len() && {
                    let c = ms_result(query, pair, source, translations)->0.candidates[k];
                    let t = translations[i];
                    &&& c.normalized == t.normalized_target
                    &&& c.part_of_speech == (if t.pos_tag.len() == 0 {
                        None
                    } else {
                        Some(t.pos_tag)
                    })
                    &&& c.prefix == t.prefix_word
                    &&& c.back_translations == sorted_unique(t.back_translations)
                },
{
    let all = translations.map_values(|t: MsTranslationView| ms_candidate(t));
    lemma_distinct_offers_cover(all);
    let cs = ms_result(query, pair, source, translations)->0.candidates;
    assert(cs == distinct_offers(all));
    assert forall|i: int| #![trigger translations[i]] 0 <= i < translations.len() implies exists|k: int|
        #![trigger cs[k]]
        0 <= k < cs.len() && {
            let c = cs[k];
            let t = translations[i];
            &&& c.normalized == t.normalized_target
            &&& c.part_of_speech == (if t.pos_tag.len() == 0 {
                None
            } else {
                Some(t.pos_tag)
            })
            &&& c.prefix == t.prefix_word
            &&& c.back_translations == sorted_unique(t.back_translations)
        } by {
        assert(all[i] == ms_candidate(translations[i]));
        let k = choose|k: int| 0 <= k < cs.len() && same_offer(#[trigger] cs[k], all[i]);
        assert(same_offer(cs[k], all[i]));
    }
}

/// Microsoft results invent nothing: every candidate is what one of the reply's translations
/// gives, with no sense added.
pub proof fn lemma_microsoft_meanings_come_from_reply(
    query: Seq<char>,
    pair: LanguagePair,
    source: (Seq<char>, Seq<char>),
    translations: Seq<MsTranslationView>,
)
    requires
        ms_result(query, pair, source, translations) is Some,
    ensures
        forall|k: int|
            #![trigger ms_result(query, pair, source, translations)->0.candidates[k]]
            0 <= k < ms_result(query, pair, source, translations)->0.candidates.len() ==> exists|
                i: int,
            |
                0 <= i < translations.len() && ms_result(query, pair, source, translations)->0.candidates[k]
                    == ms_candidate(#[trigger] translations[i]),
{
    let all = translations.map_values(|t: MsTranslationView| ms_candidate(t));
    lemma_distinct_offers_kept(all);
    let cs = ms_result(query, pair, source, translations)->0.candidates;
    assert forall|k: int| #![trigger cs[k]] 0 <= k < cs.len() implies exists|i: int|
        0 <= i < translations.len() && cs[k] == ms_candidate(#[trigger] translations[i]) by {
        let j = choose|j: int| 0 <= j < all.len() && all[j] == cs[k];
        assert(all[j] == ms_candidate(translations[j]));
    }
}

} // verus!

