//! Local WikDict SQLite dictionaries: where they live, where they are downloaded from, what a
//! failed download or a broken file is reported as, and the result made of the rows a query
//! returns. No queries or credentials are sent to WikDict.
use vstd::prelude::*;
use crate::domain::{
    CandidateView,
    LanguagePair,
    LookupResult,
    ResultKind,
    ResultView,
    TranslationCandidate,
    candidate_views,
    language_code,
    option_view,
};
use crate::lookup::{DictionaryProvider, LookupError, ProviderCapabilities, dictionary_capabilities};
use crate::domain::initial_pairs;
use crate::strings::{
    chars_of,
    concat,
    copy_string,
    str_eq,
    string_of,
    sub_chars,
    trim_chars,
    trim_seq,
    views,
};
use crate::unicode::{fold, folded};

verus! {

/// The WikDict release that dictionaries are downloaded from.
pub const RELEASE: &'static str = "2_2026-06";

/// Where dictionaries are downloaded from unless another base is given.
pub const DOWNLOAD_BASE: &'static str = "https://download.wikdict.com/dictionaries/sqlite";

/// The attribution shown with every WikDict result.
pub const ATTRIBUTION: &'static str = "WikDict by Karl Bartel · Wiktionary contributors via DBnary · CC BY-SA 4.0 · https://www.wikdict.com/page/download · https://creativecommons.org/licenses/by-sa/4.0/ · Selected and formatted by voci";

/// The largest dictionary download accepted, in bytes: 64 MiB.
pub const MAX_DOWNLOAD: u64 = 67108864;

/// `name` under the directory `base`, with `/` between them.
pub open spec fn joined(base: Seq<char>, name: Seq<char>) -> Seq<char> {
    if base.len() == 0 {
        name
    } else if base.last() == '/' {
        base + name
    } else {
        base + seq!['/'] + name
    }
}

/// The path of `name` under the directory `base`, with `/` between them.
pub fn join_path(base: &str, name: &str) -> (r: String)
    ensures
        r@ == joined(base@, name@),
{
    let b = chars_of(base);
    if b.len() == 0 {
        copy_string(name)
    } else if b[b.len() - 1] == '/' {
        concat(base, name)
    } else {
        let with_slash = concat(base, "/");
        proof {
            reveal_strlit("/");
        }
        concat(with_slash.as_str(), name)
    }
}

/// The file name of the dictionary for a direction, such as `de-en.sqlite3`.
pub open spec fn dictionary_file(pair: LanguagePair) -> Seq<char> {
    language_code(pair.from) + "-"@ + language_code(pair.to) + ".sqlite3"@
}

/// `s` without its trailing slashes.
pub open spec fn trim_slashes(s: Seq<char>) -> Seq<char>
    decreases s.len(),
{
    if s.len() > 0 && s.last() == '/' {
        trim_slashes(s.drop_last())
    } else {
        s
    }
}

/// Local dictionaries of one release under a data directory.
pub struct WikDictProvider {
    directory: String,
    download_base: String,
}

impl WikDictProvider {
    /// The directory that holds this release's dictionaries.
    pub closed spec fn spec_directory(&self) -> Seq<char> {
        self.directory@
    }

    /// Where dictionaries are downloaded from.
    pub closed spec fn spec_download_base(&self) -> Seq<char> {
        self.download_base@
    }

    /// Dictionaries under `data_dir`, downloaded from WikDict.
    pub fn new(data_dir: String) -> (r: Self)
        ensures
            r.spec_directory() == joined(data_dir@, RELEASE@),
            r.spec_download_base() == DOWNLOAD_BASE@,
    {
        Self::with_download_base(data_dir, copy_string(DOWNLOAD_BASE))
    }

    /// Dictionaries under `data_dir`, downloaded from `download_base`.
    pub fn with_download_base(data_dir: String, download_base: String) -> (r: Self)
        ensures
            r.spec_directory() == joined(data_dir@, RELEASE@),
            r.spec_download_base() == download_base@,
    {
        WikDictProvider { directory: join_path(data_dir.as_str(), RELEASE), download_base }
    }

    /// The directory that holds this release's dictionaries.
    pub fn directory(&self) -> (r: &str)
        ensures
            r@ == self.spec_directory(),
    {
        self.directory.as_str()
    }

    /// The dictionary file for a direction.
    pub fn path(&self, pair: LanguagePair) -> (r: String)
        ensures
            r@ == joined(self.spec_directory(), dictionary_file(pair)),
    {
        let name = concat(pair.from.code(), "-");
        let name = concat(name.as_str(), pair.to.code());
        let name = concat(name.as_str(), ".sqlite3");
        join_path(self.directory.as_str(), name.as_str())
    }

    /// Where the dictionary for a direction is downloaded from: the base without trailing
    /// slashes, the release and the file name.
    pub fn download_url(&self, pair: LanguagePair) -> (r: String)
        ensures
            r@ == trim_slashes(self.spec_download_base()) + "/"@ + RELEASE@ + "/"@
                + dictionary_file(pair),
    {
        let b = chars_of(self.download_base.as_str());
        let mut k: usize = b.len();
        assert(b@.take(k as int) =~= b@);
        while k > 0 && b[k - 1] == '/'
            invariant
                k <= b@.len(),
                b@ == self.download_base@,
                trim_slashes(b@) == trim_slashes(b@.take(k as int)),
            decreases k,
        {
            assert(b@.take(k as int).drop_last() =~= b@.take(k as int - 1));
            k = k - 1;
        }
        let base = string_of(&sub_chars(&b, 0, k));
        assert(base@ =~= b@.take(k as int));
        let url = concat(base.as_str(), "/");
        let url = concat(url.as_str(), RELEASE);
        let url = concat(url.as_str(), "/");
        let url = concat(url.as_str(), pair.from.code());
        let url = concat(url.as_str(), "-");
        let url = concat(url.as_str(), pair.to.code());
        let url = concat(url.as_str(), ".sqlite3");
        url
    }

}

impl DictionaryProvider for WikDictProvider {
    /// Both directions, as dictionaries, and no machine translation.
    fn capabilities(&self) -> (r: ProviderCapabilities)
        ensures
            r.dictionary_pairs@ == initial_pairs(),
            r.translation_pairs@.len() == 0,
    {
        dictionary_capabilities()
    }
}

/// The message of a dictionary file that cannot be used.
pub open spec fn storage_text(path: Seq<char>, reason: Seq<char>) -> Seq<char> {
    reason + ": "@ + path
        + ". Check permissions; for a corrupt file, remove it and retry to download a fresh copy."@
}

/// The failure for a dictionary file that cannot be used, naming the file and the reason.
pub fn storage_error(path: &str, reason: &str) -> (r: LookupError)
    ensures
        r matches LookupError::Dictionary(m) && m@ == storage_text(path@, reason@),
{
    let m = concat(reason, ": ");
    let m = concat(m.as_str(), path);
    let m = concat(
        m.as_str(),
        ". Check permissions; for a corrupt file, remove it and retry to download a fresh copy.",
    );
    LookupError::Dictionary(m)
}

/// The failure for a download that was interrupted: it timed out, or the connection failed.
pub fn download_error(timed_out: bool) -> (r: LookupError)
    ensures
        r matches LookupError::DictionaryDownload(m) && m@ == (if timed_out {
            "request timed out"@
        } else {
            "connection interrupted or unavailable"@
        }),
{
    if timed_out {
        LookupError::DictionaryDownload(copy_string("request timed out"))
    } else {
        LookupError::DictionaryDownload(copy_string("connection interrupted or unavailable"))
    }
}

/// The decimal digit for `d`.
pub open spec fn digit_char(d: nat) -> char {
    if d == 0 {
        '0'
    } else if d == 1 {
        '1'
    } else if d == 2 {
        '2'
    } else if d == 3 {
        '3'
    } else if d == 4 {
        '4'
    } else if d == 5 {
        '5'
    } else if d == 6 {
        '6'
    } else if d == 7 {
        '7'
    } else if d == 8 {
        '8'
    } else {
        '9'
    }
}

/// The decimal digits of `n`, without leading zeros.
pub open spec fn decimal(n: nat) -> Seq<char>
    decreases n,
{
    if n < 10 {
        seq![digit_char(n)]
    } else {
        decimal(n / 10).push(digit_char(n % 10))
    }
}

/// `n` written in decimal.
pub fn decimal_text(n: u64) -> (r: String)
    ensures
        r@ == decimal(n as nat),
    decreases n,
{
    let d = n % 10;
    let c = if d == 0 {
        '0'
    } else if d == 1 {
        '1'
    } else if d == 2 {
        '2'
    } else if d == 3 {
        '3'
    } else if d == 4 {
        '4'
    } else if d == 5 {
        '5'
    } else if d == 6 {
        '6'
    } else if d == 7 {
        '7'
    } else if d == 8 {
        '8'
    } else {
        '9'
    };
    if n < 10 {
        let mut r = String::new();
        r.push(c);
        r
    } else {
        let mut r = decimal_text(n / 10);
        r.push(c);
        r
    }
}

/// The failure for a download that the server refused with an HTTP status.
pub fn status_error(status: u16) -> (r: LookupError)
    ensures
        r matches LookupError::DictionaryDownload(m) && m@ == "server returned HTTP "@ + decimal(
            status as nat,
        ),
{
    let digits = decimal_text(status as u64);
    LookupError::DictionaryDownload(concat("server returned HTTP ", digits.as_str()))
}

/// The failure for a dictionary larger than the download limit.
pub fn too_large_error() -> (r: LookupError)
    ensures
        r matches LookupError::DictionaryDownload(m) && m@
            == "dictionary exceeds the 64 MiB size limit"@,
{
    LookupError::DictionaryDownload(copy_string("dictionary exceeds the 64 MiB size limit"))
}

/// Account for a received chunk of a download: the new total, or the size-limit failure once
/// the total passes the limit.
pub fn receive(received: u64, chunk: u64) -> (r: Result<u64, LookupError>)
    ensures
        received + chunk <= MAX_DOWNLOAD ==> r == Ok::<u64, LookupError>((received + chunk) as u64),
        received + chunk > MAX_DOWNLOAD ==> (r matches Err(LookupError::DictionaryDownload(m)) && m@
            == "dictionary exceeds the 64 MiB size limit"@),
{
    if chunk > MAX_DOWNLOAD || received > MAX_DOWNLOAD - chunk {
        Err(too_large_error())
    } else {
        Ok(received + chunk)
    }
}

/// The progress message shown before a dictionary is downloaded.
pub fn download_message(pair: LanguagePair) -> (r: String)
    ensures
        r@ == "Downloading WikDict "@ + language_code(pair.from) + "–"@ + language_code(pair.to)
            + " ("@ + RELEASE@ + ") for offline lookup…"@,
{
    let m = concat("Downloading WikDict ", pair.from.code());
    let m = concat(m.as_str(), "–");
    let m = concat(m.as_str(), pair.to.code());
    let m = concat(m.as_str(), " (");
    let m = concat(m.as_str(), RELEASE);
    concat(m.as_str(), ") for offline lookup…")
}

/// One row that a dictionary query returns: the written headword, its sense where the
/// dictionary names one, and the translations joined by ` | `.
pub struct DictionaryRow {
    pub source: String,
    pub sense: Option<String>,
    pub translations: String,
}

/// The value of a row.
pub struct RowView {
    pub source: Seq<char>,
    pub sense: Option<Seq<char>>,
    pub translations: Seq<char>,
}

impl View for DictionaryRow {
    type V = RowView;

    open spec fn view(&self) -> RowView {
        RowView {
            source: self.source@,
            sense: option_view(self.sense),
            translations: self.translations@,
        }
    }
}

/// The views of rows.
pub open spec fn row_views(v: Seq<DictionaryRow>) -> Seq<RowView> {
    v.map_values(|r: DictionaryRow| r@)
}

/// The separator between the translations of a row.
pub open spec fn separator() -> Seq<char> {
    " | "@
}

/// The position of the first separator in `s`.
pub open spec fn first_separator(s: Seq<char>) -> Option<int>
    decreases s.len(),
{
    if s.len() < 3 {
        None
    } else if s.take(3) == separator() {
        Some(0)
    } else {
        match first_separator(s.drop_first()) {
            Some(i) => Some(i + 1),
            None => None,
        }
    }
}

/// `s` split at each separator, from the left, as `str::split` splits it.
pub open spec fn split_pieces(s: Seq<char>) -> Seq<Seq<char>>
    decreases s.len(),
{
    match first_separator(s) {
        Some(i) => if 0 <= i && i + 3 <= s.len() {
            seq![s.take(i)] + split_pieces(s.skip(i + 3))
        } else {
            seq![s]
        },
        None => seq![s],
    }
}

/// The candidates after one more translation text with its sense: blank texts are skipped,
/// and a text whose folded form was already offered with the same sense is offered once.
pub open spec fn add_text(
    cs: Seq<CandidateView>,
    text: Seq<char>,
    sense: Option<Seq<char>>,
) -> Seq<CandidateView> {
    let t = trim_seq(text);
    if t.len() == 0 {
        cs
    } else if exists|k: int|
        0 <= k < cs.len() && (#[trigger] cs[k]).normalized == folded(t) && cs[k].sense == sense {
        cs
    } else {
        cs.push(
            CandidateView {
                text: t,
                normalized: folded(t),
                part_of_speech: None,
                sense,
                prefix: Seq::empty(),
                back_translations: Seq::empty(),
            },
        )
    }
}

/// The candidates after the translation texts of a row.
pub open spec fn add_texts(
    cs: Seq<CandidateView>,
    texts: Seq<Seq<char>>,
    sense: Option<Seq<char>>,
) -> Seq<CandidateView>
    decreases texts.len(),
{
    if texts.len() == 0 {
        cs
    } else {
        add_text(add_texts(cs, texts.drop_last(), sense), texts.last(), sense)
    }
}

/// The sense of a row: none where the dictionary gives an empty one.
pub open spec fn row_sense(row: RowView) -> Option<Seq<char>> {
    match row.sense {
        Some(s) => if s.len() == 0 {
            None
        } else {
            Some(s)
        },
        None => None,
    }
}

/// What the rows so far give: the headword and the candidates.
pub struct Gathered {
    pub headword: Seq<char>,
    pub candidates: Seq<CandidateView>,
}

/// Gather the rows in order. Until a row has given a candidate, each row's headword
/// replaces the query as the headword.
pub open spec fn gather(query: Seq<char>, rows: Seq<RowView>) -> Gathered
    decreases rows.len(),
{
    if rows.len() == 0 {
        Gathered { headword: query, candidates: Seq::empty() }
    } else {
        let g = gather(query, rows.drop_last());
        let row = rows.last();
        Gathered {
            headword: if g.candidates.len() == 0 {
                row.source
            } else {
                g.headword
            },
            candidates: add_texts(g.candidates, split_pieces(row.translations), row_sense(row)),
        }
    }
}

/// The result that the rows of a query give.
pub open spec fn wikdict_result(query: Seq<char>, pair: LanguagePair, rows: Seq<RowView>) -> ResultView {
    let g = gather(query, rows);
    ResultView {
        query,
        headword: g.headword,
        normalized_headword: folded(g.headword),
        pair,
        candidates: g.candidates,
        provider: "WikDict "@ + RELEASE@,
        attribution: Some(ATTRIBUTION@),
        kind: ResultKind::Dictionary,
    }
}

proof fn lemma_first_separator_bounds(s: Seq<char>)
    ensures
        first_separator(s) matches Some(i) ==> 0 <= i && i + 3 <= s.len() && s.subrange(i, i + 3)
            == separator(),
    decreases s.len(),
{
    reveal_strlit(" | ");
    if s.len() >= 3 && s.take(3) != separator() {
        lemma_first_separator_bounds(s.drop_first());
        if let Some(i) = first_separator(s.drop_first()) {
            assert(s.subrange(i + 1, i + 4) =~= s.drop_first().subrange(i, i + 3));
        }
    }
}

/// Where the first separator of `s` lies, from a search that found none before `i`.
proof fn lemma_first_separator_at(s: Seq<char>, i: int)
    requires
        0 <= i <= s.len(),
        forall|k: int|
            0 <= k < i && k + 3 <= s.len() ==> #[trigger] s.subrange(k, k + 3) != separator(),
        i + 3 > s.len() || s.subrange(i, i + 3) == separator(),
    ensures
        first_separator(s) == (if i + 3 > s.len() {
            None::<int>
        } else {
            Some(i)
        }),
    decreases i,
{
    reveal_strlit(" | ");
    if s.len() < 3 {
    } else if i == 0 {
        assert(s.take(3) =~= s.subrange(0, 3));
    } else {
        let z: int = 0;
        assert(s.subrange(z, z + 3) != separator());
        assert(s.take(3) =~= s.subrange(z, z + 3));
        let t = s.drop_first();
        assert forall|k: int| 0 <= k < i - 1 && k + 3 <= t.len() implies #[trigger] t.subrange(
            k,
            k + 3,
        ) != separator() by {
            assert(t.subrange(k, k + 3) =~= s.subrange(k + 1, k + 1 + 3));
        }
        if i + 3 <= s.len() {
            assert(t.subrange(i - 1, i + 2) =~= s.subrange(i, i + 3));
        }
        lemma_first_separator_at(t, i - 1);
    }
}

/// Whether the three characters of `s` from `k` are the separator.
fn separator_at(s: &Vec<char>, k: usize) -> (b: bool)
    requires
        k + 3 <= s@.len(),
    ensures
        b == (s@.subrange(k as int, k + 3) == separator()),
{
    proof {
        reveal_strlit(" | ");
    }
    assert(s@.len() == s.len());
    let b = s[k] == ' ' && s[k + 1] == '|' && s[k + 2] == ' ';
    if b {
        assert(s@.subrange(k as int, k + 3) =~= separator());
    } else {
        assert(s@.subrange(k as int, k + 3)[0] == s@[k as int]);
        assert(s@.subrange(k as int, k + 3)[1] == s@[k + 1]);
        assert(s@.subrange(k as int, k + 3)[2] == s@[k + 2]);
    }
    b
}

/// The pieces of `s` between separators.
fn split_translations(s: &Vec<char>) -> (r: Vec<Vec<char>>)
    ensures
        r@.map_values(|v: Vec<char>| v@) == split_pieces(s@),
{
    let mut r: Vec<Vec<char>> = Vec::new();
    let mut start: usize = 0;
    let n = s.len();
    assert(s@.skip(0) =~= s@);
    assert(r@.map_values(|v: Vec<char>| v@) + split_pieces(s@) =~= split_pieces(s@));
    loop
        invariant
            n == s@.len(),
            start <= n,
            r@.map_values(|v: Vec<char>| v@) + split_pieces(s@.skip(start as int)) == split_pieces(
                s@,
            ),
        decreases n - start,
    {
        let ghost rest = s@.skip(start as int);
        let mut j: usize = start;
        while n - j >= 3 && !separator_at(s, j)
            invariant
                n == s@.len(),
                start <= j <= n,
                rest == s@.skip(start as int),
                forall|k: int|
                    0 <= k < j - start && k + 3 <= rest.len() ==> #[trigger] rest.subrange(k, k + 3)
                        != separator(),
            decreases n - j,
        {
            assert(rest.subrange(j - start, j - start + 3) =~= s@.subrange(j as int, j + 3));
            j = j + 1;
        }
        if n - j >= 3 {
            assert(rest.subrange(j - start, j - start + 3) =~= s@.subrange(j as int, j + 3));
        }
        proof {
            lemma_first_separator_at(rest, (j - start) as int);
        }
        let ghost prev = r@.map_values(|v: Vec<char>| v@);
        if n - j < 3 {
            let piece = sub_chars(s, start, n);
            assert(piece@ =~= rest);
            r.push(piece);
            assert(r@.map_values(|v: Vec<char>| v@) =~= prev.push(rest));
            assert(split_pieces(rest) == seq![rest]);
            assert(prev + seq![rest] =~= prev.push(rest));
            return r;
        }
        let piece = sub_chars(s, start, j);
        assert(piece@ =~= rest.take(j - start));
        assert(rest.skip(j - start + 3) =~= s@.skip(j + 3));
        r.push(piece);
        assert(r@.map_values(|v: Vec<char>| v@) =~= prev.push(piece@));
        assert(split_pieces(rest) == seq![rest.take(j - start)] + split_pieces(
            rest.skip(j - start + 3),
        ));
        assert(prev.push(piece@) + split_pieces(s@.skip(j + 3)) =~= prev + split_pieces(rest));
        start = j + 3;
    }
}

/// The candidates after one more translation text with its sense.
fn add_candidate(
    cs: &mut Vec<TranslationCandidate>,
    text: &Vec<char>,
    sense: &Option<String>,
)
    ensures
        candidate_views(final(cs)@) == add_text(
            candidate_views(old(cs)@),
            text@,
            option_view(*sense),
        ),
{
    let t = trim_chars(text);
    if t.len() == 0 {
        return;
    }
    let t = string_of(&t);
    let normalized = fold(t.as_str());
    let ghost before = candidate_views(cs@);
    let mut k: usize = 0;
    while k < cs.len()
        invariant
            k <= cs@.len(),
            before == candidate_views(cs@),
            before == candidate_views(old(cs)@),
            t@ == trim_seq(text@),
            normalized@ == folded(t@),
            forall|j: int|
                0 <= j < k ==> !((#[trigger] before[j]).normalized == folded(t@) && before[j].sense
                    == option_view(*sense)),
        decreases cs.len() - k,
    {
        let same_sense = match &cs[k].sense {
            Some(a) => match sense {
                Some(b) => str_eq(a.as_str(), b.as_str()),
                None => false,
            },
            None => sense.is_none(),
        };
        assert(same_sense == (option_view(cs@[k as int].sense) == option_view(*sense)));
        assert(before[k as int] == cs@[k as int]@);
        if cs[k].normalized == normalized && same_sense {
            assert(before[k as int].normalized == folded(t@));
            return;
        }
        k = k + 1;
    }
    let sense_copy = match sense {
        Some(s) => Some(s.clone()),
        None => None,
    };
    let c = TranslationCandidate {
        text: t,
        normalized,
        part_of_speech: None,
        sense: sense_copy,
        prefix: String::new(),
        back_translations: Vec::new(),
    };
    let ghost prev = cs@;
    cs.push(c);
    assert(views(c.back_translations@) =~= Seq::<Seq<char>>::empty());
    assert(candidate_views(cs@) =~= candidate_views(prev).push(c@));
}

/// The row's sense, none where it is empty.
fn sense_of(row: &DictionaryRow) -> (r: Option<String>)
    ensures
        option_view(r) == row_sense(row@),
{
    match &row.sense {
        Some(s) => if s.as_str().is_empty() {
            None
        } else {
            Some(s.clone())
        },
        None => None,
    }
}

/// The result for a validated `query` in `pair` from the rows that the dictionary query
/// returned, best first.
pub fn lookup_result(query: String, pair: LanguagePair, rows: &Vec<DictionaryRow>) -> (r:
    LookupResult)
    ensures
        r@ == wikdict_result(query@, pair, row_views(rows@)),
{
    let mut headword = query.clone();
    let mut candidates: Vec<TranslationCandidate> = Vec::new();
    let mut i: usize = 0;
    while i < rows.len()
        invariant
            i <= rows@.len(),
            headword@ == gather(query@, row_views(rows@).take(i as int)).headword,
            candidate_views(candidates@) == gather(
                query@,
                row_views(rows@).take(i as int),
            ).candidates,
        decreases rows.len() - i,
    {
        let row = &rows[i];
        let ghost rv = row_views(rows@).take(i as int + 1);
        assert(rv.drop_last() =~= row_views(rows@).take(i as int));
        assert(rv.last() == row@);
        if candidates.len() == 0 {
            headword = row.source.clone();
        }
        let sense = sense_of(row);
        let pieces = split_translations(&chars_of(row.translations.as_str()));
        let ghost texts = pieces@.map_values(|v: Vec<char>| v@);
        let ghost start = candidate_views(candidates@);
        let mut k: usize = 0;
        while k < pieces.len()
            invariant
                k <= pieces@.len(),
                texts == pieces@.map_values(|v: Vec<char>| v@),
                candidate_views(candidates@) == add_texts(
                    start,
                    texts.take(k as int),
                    option_view(sense),
                ),
            decreases pieces.len() - k,
        {
            assert(texts.take(k as int + 1).drop_last() =~= texts.take(k as int));
            assert(texts.take(k as int + 1).last() == pieces@[k as int]@);
            add_candidate(&mut candidates, &pieces[k], &sense);
            k = k + 1;
        }
        assert(texts.take(k as int) =~= texts);
        i = i + 1;
    }
    assert(row_views(rows@).take(i as int) =~= row_views(rows@));
    let normalized_headword = fold(headword.as_str());
    let provider = concat("WikDict ", RELEASE);
    LookupResult {
        query,
        headword,
        normalized_headword,
        pair,
        candidates,
        provider,
        attribution: Some(copy_string(ATTRIBUTION)),
        kind: ResultKind::Dictionary,
    }
}

/// No two candidates share a folded text and a sense.
pub open spec fn distinct_senses(cs: Seq<CandidateView>) -> bool {
    forall|i: int, j: int|
        0 <= i < j < cs.len() ==> !((#[trigger] cs[i]).normalized == (#[trigger] cs[j]).normalized
            && cs[i].sense == cs[j].sense)
}

proof fn lemma_add_texts_distinct(cs: Seq<CandidateView>, texts: Seq<Seq<char>>, sense: Option<Seq<char>>)
    requires
        distinct_senses(cs),
    ensures
        distinct_senses(add_texts(cs, texts, sense)),
    decreases texts.len(),
{
    if texts.len() > 0 {
        lemma_add_texts_distinct(cs, texts.drop_last(), sense);
    }
}

proof fn lemma_gather_distinct(query: Seq<char>, rows: Seq<RowView>)
    ensures
        distinct_senses(gather(query, rows).candidates),
    decreases rows.len(),
{
    if rows.len() > 0 {
        lemma_gather_distinct(query, rows.drop_last());
        let g = gather(query, rows.drop_last());
        let row = rows.last();
        lemma_add_texts_distinct(g.candidates, split_pieces(row.translations), row_sense(row));
    }
}

/// A WikDict result offers each folded translation at most once per sense.
pub proof fn lemma_wikdict_candidates_distinct(query: Seq<char>, pair: LanguagePair, rows: Seq<RowView>)
    ensures
        distinct_senses(wikdict_result(query, pair, rows).candidates),
{
    lemma_gather_distinct(query, rows);
}

/// Whether a candidate is one of the translations of a row, with that row's sense and
/// nothing added: no part of speech, prefix or back translation.
pub open spec fn from_row(c: CandidateView, row: RowView) -> bool {
    &&& exists|p: int|
        0 <= p < split_pieces(row.translations).len() && c.text == trim_seq(
            #[trigger] split_pieces(row.translations)[p],
        )
    &&& c.sense == row_sense(row)
    &&& c.part_of_speech is None
    &&& c.prefix.len() == 0
    &&& c.back_translations.len() == 0
}

proof fn lemma_add_texts_origin(cs: Seq<CandidateView>, texts: Seq<Seq<char>>, sense: Option<Seq<char>>)
    ensures
        ({
            let r = add_texts(cs, texts, sense);
            &&& r.len() >= cs.len()
            &&& forall|k: int| 0 <= k < cs.len() ==> r[k] == cs[k]
            &&& forall|k: int|
                cs.len() <= k < r.len() ==> {
                    &&& exists|p: int| 0 <= p < texts.len() && r[k].text == trim_seq(#[trigger] texts[p])
                    &&& r[k].sense == sense
                    &&& r[k].part_of_speech is None
                    &&& r[k].prefix.len() == 0
                    &&& r[k].back_translations.len() == 0
                }
        }),
    decreases texts.len(),
{
    if texts.len() > 0 {
        let prev = add_texts(cs, texts.drop_last(), sense);
        lemma_add_texts_origin(cs, texts.drop_last(), sense);
        let r = add_texts(cs, texts, sense);
        assert(r == add_text(prev, texts.last(), sense));
        assert forall|k: int| cs.len() <= k < r.len() implies exists|p: int|
            0 <= p < texts.len() && #[trigger] r[k].text == trim_seq(texts[p]) by {
            if k < prev.len() {
                let p = choose|p: int|
                    0 <= p < texts.drop_last().len() && prev[k].text == trim_seq(
                        #[trigger] texts.drop_last()[p],
                    );
                assert(texts[p] == texts.drop_last()[p]);
            } else {
                assert(texts[texts.len() - 1] == texts.last());
            }
        }
    }
}

proof fn lemma_gather_origin(query: Seq<char>, rows: Seq<RowView>)
    ensures
        forall|k: int|
            #![trigger gather(query, rows).candidates[k]]
            0 <= k < gather(query, rows).candidates.len() ==> exists|r: int|
                0 <= r < rows.len() && from_row(gather(query, rows).candidates[k], #[trigger] rows[r]),
    decreases rows.len(),
{
    if rows.len() > 0 {
        let before = rows.drop_last();
        lemma_gather_origin(query, before);
        let g = gather(query, before);
        let row = rows.last();
        let texts = split_pieces(row.translations);
        lemma_add_texts_origin(g.candidates, texts, row_sense(row));
        let cs = gather(query, rows).candidates;
        assert forall|k: int| #![trigger cs[k]] 0 <= k < cs.len() implies exists|r: int|
            0 <= r < rows.len() && from_row(cs[k], #[trigger] rows[r]) by {
            if k < g.candidates.len() {
                let r = choose|r: int| 0 <= r < before.len() && from_row(g.candidates[k], #[trigger] before[r]);
                assert(rows[r] == before[r]);
            } else {
                let p = choose|p: int| 0 <= p < texts.len() && cs[k].text == trim_seq(#[trigger] texts[p]);
                assert(rows[rows.len() - 1] == row);
                assert(from_row(cs[k], rows[rows.len() - 1]));
            }
        }
    }
}

/// WikDict results invent nothing: every candidate is one of the translations of a row the
/// dictionary returned, trimmed, with that row's sense, and with no part of speech, prefix or
/// back translation added.
pub proof fn lemma_wikdict_meanings_come_from_rows(
    query: Seq<char>,
    pair: LanguagePair,
    rows: Seq<RowView>,
)
    ensures
        forall|k: int|
            #![trigger wikdict_result(query, pair, rows).candidates[k]]
            0 <= k < wikdict_result(query, pair, rows).candidates.len() ==> exists|r: int|
                0 <= r < rows.len() && from_row(
                    wikdict_result(query, pair, rows).candidates[k],
                    #[trigger] rows[r],
                ),
{
    lemma_gather_origin(query, rows);
}

} // verus!

