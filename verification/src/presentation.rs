//! Pure formatting shared by terminal frontends and recorded diagnostics.
use vstd::prelude::*;
use crate::domain::{CandidateView, LookupResult, ResultView, TranslationCandidate, pair_text};
use crate::lookup::{LookupError, error_message};
use crate::strings::{concat, join, join_seq, views};
use crate::text::{safe_seq, safe_text};
use crate::wikdict::{decimal, decimal_text};

verus! {

/// The plain value of a candidate: its prefix, a space and its text, made safe.
pub open spec fn candidate_value(c: CandidateView) -> Seq<char> {
    if safe_seq(c.prefix).len() == 0 {
        safe_seq(c.text)
    } else {
        safe_seq(c.prefix) + " "@ + safe_seq(c.text)
    }
}

/// The plain values of all candidates, in order.
pub open spec fn candidate_values(cs: Seq<CandidateView>) -> Seq<Seq<char>> {
    cs.map_values(|c: CandidateView| candidate_value(c))
}

/// The value of one candidate, or all values one per line.
pub open spec fn values_spec(result: ResultView, index: Option<usize>) -> Option<Seq<char>> {
    match index {
        Some(i) => if i < result.candidates.len() {
            Some(candidate_value(result.candidates[i as int]))
        } else {
            None
        },
        None => Some(join_seq(candidate_values(result.candidates), "\n"@)),
    }
}

fn candidate_value_of(c: &TranslationCandidate) -> (r: String)
    ensures
        r@ == candidate_value(c@),
{
    let prefix = safe_text(c.prefix.as_str());
    let text = safe_text(c.text.as_str());
    if prefix.as_str().unicode_len() == 0 {
        text
    } else {
        let r = concat(prefix.as_str(), " ");
        concat(r.as_str(), text.as_str())
    }
}

/// Copyable values: the selected candidate's, or every candidate's joined by newlines.
pub fn values(result: &LookupResult, index: Option<usize>) -> (r: Option<String>)
    ensures
        match (r, values_spec(result@, index)) {
            (Some(s), Some(v)) => s@ == v,
            (None, None) => true,
            _ => false,
        },
{
    match index {
        Some(i) => {
            if i < result.candidates.len() {
                Some(candidate_value_of(&result.candidates[i]))
            } else {
                None
            }
        },
        None => {
            let mut parts: Vec<String> = Vec::new();
            let mut k: usize = 0;
            while k < result.candidates.len()
                invariant
                    k <= result.candidates.len(),
                    views(parts@) == candidate_values(result@.candidates).take(k as int),
                decreases result.candidates.len() - k,
            {
                let v = candidate_value_of(&result.candidates[k]);
                let ghost prev = parts@;
                parts.push(v);
                proof {
                    assert(parts@ == prev.push(v));
                    assert(views(parts@) =~= views(prev).push(v@));
                    assert(candidate_values(result@.candidates).take(k as int + 1) =~= candidate_values(
                        result@.candidates,
                    ).take(k as int).push(v@));
                }
                k = k + 1;
            }
            assert(candidate_values(result@.candidates).take(k as int) =~= candidate_values(
                result@.candidates,
            ));
            Some(join(&parts, "\n"))
        },
    }
}

/// The text that frontends show and history records for a failed lookup.
pub open spec fn lookup_error_text_spec(error: LookupError) -> Seq<char> {
    match error {
        LookupError::Ambiguous(_) => error_message(error)
            + " Choose --from de or --from en (Source in the TUI)."@,
        LookupError::Undetermined(_) => error_message(error)
            + " Check spelling or specify --from de / --from en (Source in the TUI)."@,
        _ => error_message(error),
    }
}

/// Keep frontend advice and persisted diagnostic wording stable across adapters.
pub fn lookup_error_text(error: &LookupError) -> (r: String)
    ensures
        r@ == lookup_error_text_spec(*error),
{
    let message = error.message();
    match error {
        LookupError::Ambiguous(_) => concat(
            message.as_str(),
            " Choose --from de or --from en (Source in the TUI).",
        ),
        LookupError::Undetermined(_) => concat(
            message.as_str(),
            " Check spelling or specify --from de / --from en (Source in the TUI).",
        ),
        _ => message,
    }
}

} // verus!

verus! {

/// How many candidates the command line prints.
pub const SHOWN_CANDIDATES: usize = 8;

/// One printed candidate: its number, its value, its part of speech in parentheses, and
/// its sense (else its first back translation) after a middle dot, all made safe.
pub open spec fn candidate_line(index: nat, c: CandidateView) -> Seq<char> {
    decimal(index + 1) + ". "@ + candidate_value(c) + (match c.part_of_speech {
        Some(p) => " ("@ + safe_seq(p) + ")"@,
        None => Seq::empty(),
    }) + (match c.sense {
        Some(s) => " · "@ + safe_seq(s),
        None => if c.back_translations.len() > 0 {
            " · "@ + safe_seq(c.back_translations[0])
        } else {
            Seq::empty()
        },
    })
}

/// The printed lines of the first `n` candidates.
pub open spec fn candidate_lines(cs: Seq<CandidateView>, n: nat) -> Seq<Seq<char>>
    decreases n,
{
    if n == 0 {
        Seq::empty()
    } else {
        candidate_lines(cs, (n - 1) as nat).push(candidate_line((n - 1) as nat, cs[n - 1]))
    }
}

/// A result as the command line prints it: the headword and direction, a blank line, up to
/// eight numbered candidates, how many more were left out, and the attribution.
pub open spec fn render_spec(r: ResultView) -> Seq<char> {
    let n = r.candidates.len();
    let shown: nat = if n > 8 {
        8
    } else {
        n
    };
    safe_seq(r.headword) + " · "@ + pair_text(r.pair) + "\n\n"@ + join_seq(
        candidate_lines(r.candidates, shown),
        "\n"@,
    ) + (if n > 8 {
        "\n"@ + decimal((n - 8) as nat) + " more candidates omitted"@
    } else {
        Seq::empty()
    }) + (match r.attribution {
        Some(a) => "\n\n"@ + safe_seq(a),
        None => Seq::empty(),
    })
}

/// The lines of the first `n` candidates are `n` lines, the `i`-th numbered `i + 1`.
pub proof fn lemma_candidate_lines(cs: Seq<CandidateView>, n: nat)
    ensures
        candidate_lines(cs, n).len() == n,
        forall|i: int| 0 <= i < n ==> #[trigger] candidate_lines(cs, n)[i] == candidate_line(i as nat, cs[i]),
    decreases n,
{
    if n > 0 {
        lemma_candidate_lines(cs, (n - 1) as nat);
    }
}

/// The command line prints at most eight candidates: all of them where there are no more
/// than eight; else exactly the first eight, then the number of the others as omitted, so
/// that shown and omitted add up to every candidate.
pub proof fn lemma_render_shows_at_most_eight(r: ResultView)
    ensures
        ({
            let n = r.candidates.len();
            let head = safe_seq(r.headword) + " · "@ + pair_text(r.pair) + "\n\n"@;
            let tail = match r.attribution {
                Some(a) => "\n\n"@ + safe_seq(a),
                None => Seq::empty(),
            };
            &&& n <= 8 ==> render_spec(r) == head + join_seq(candidate_lines(r.candidates, n), "\n"@)
                + tail
            &&& n > 8 ==> render_spec(r) == head + join_seq(candidate_lines(r.candidates, 8), "\n"@)
                + "\n"@ + decimal((n - 8) as nat) + " more candidates omitted"@ + tail
            &&& candidate_lines(r.candidates, if n > 8 { 8 } else { n }).len() <= 8
        }),
{
    let n = r.candidates.len();
    lemma_candidate_lines(r.candidates, if n > 8 { 8 } else { n });
}

fn candidate_line_of(index: usize, c: &TranslationCandidate) -> (r: String)
    requires
        index < usize::MAX,
    ensures
        r@ == candidate_line(index as nat, c@),
{
    let number = decimal_text((index + 1) as u64);
    let t = concat(number.as_str(), ". ");
    let t = concat(t.as_str(), candidate_value_of(c).as_str());
    let t = match &c.part_of_speech {
        Some(p) => {
            let t = concat(t.as_str(), " (");
            let t = concat(t.as_str(), safe_text(p.as_str()).as_str());
            concat(t.as_str(), ")")
        },
        None => {
            assert(t@ + Seq::<char>::empty() =~= t@);
            t
        },
    };
    let ghost before_sense = t@;
    match &c.sense {
        Some(s) => {
            let u = concat(t.as_str(), " · ");
            concat(u.as_str(), safe_text(s.as_str()).as_str())
        },
        None => if c.back_translations.len() > 0 {
            assert(views(c.back_translations@)[0] == c.back_translations@[0]@);
            let u = concat(t.as_str(), " · ");
            concat(u.as_str(), safe_text(c.back_translations[0].as_str()).as_str())
        } else {
            assert(t@ + Seq::<char>::empty() =~= t@);
            t
        },
    }
}

/// The lines that textwrap's `wrap` breaks a text into at a width.
pub uninterp spec fn wrapped_of(text: Seq<char>, width: nat) -> Seq<Seq<char>>;

/// Calls `textwrap::wrap` with a width and collects the lines. The contract only names the
/// result: the lines that textwrap makes of the text at that width.
#[verifier::external_body]
fn wrap_text(text: &str, width: usize) -> (r: Vec<String>)
    requires
        width >= 1,
    ensures
        views(r@) == wrapped_of(text@, width as nat),
{
    textwrap::wrap(text, width).into_iter().map(|line| line.into_owned()).collect()
}

/// The width that details text is wrapped to in a pane `width` columns wide: two columns
/// narrower, and at least one.
pub open spec fn detail_width(width: u16) -> nat {
    if width > 2 {
        (width - 2) as nat
    } else {
        1
    }
}

/// The lines that candidate `index` takes in the details pane: its numbered line (as the
/// command line prints it) wrapped to the pane; none for a candidate that does not exist.
pub fn detail_lines(result: &LookupResult, index: usize, width: u16) -> (r: Vec<String>)
    ensures
        index < result.candidates@.len() ==> views(r@) == wrapped_of(
            candidate_line(index as nat, result@.candidates[index as int]),
            detail_width(width),
        ),
        index >= result.candidates@.len() ==> r@.len() == 0,
{
    if index >= result.candidates.len() {
        return Vec::new();
    }
    assert(result@.candidates[index as int] == result.candidates@[index as int]@);
    let line = candidate_line_of(index, &result.candidates[index]);
    let wrap_width: usize = if width > 2 {
        (width - 2) as usize
    } else {
        1
    };
    wrap_text(line.as_str(), wrap_width)
}

/// Print a result for the command line.
pub fn render_result(result: &LookupResult) -> (r: String)
    ensures
        r@ == render_spec(result@),
{
    let n = result.candidates.len();
    let shown = if n > SHOWN_CANDIDATES {
        SHOWN_CANDIDATES
    } else {
        n
    };
    let ghost cs = result@.candidates;
    let mut lines: Vec<String> = Vec::new();
    let mut i: usize = 0;
    while i < shown
        invariant
            shown <= n == result.candidates@.len(),
            shown <= 8,
            cs == result@.candidates,
            i <= shown,
            views(lines@) == candidate_lines(cs, i as nat),
        decreases shown - i,
    {
        let line = candidate_line_of(i, &result.candidates[i]);
        assert(cs[i as int] == result.candidates@[i as int]@);
        let ghost prev = lines@;
        lines.push(line);
        assert(views(lines@) =~= views(prev).push(line@));
        i = i + 1;
    }
    let t = concat(safe_text(result.headword.as_str()).as_str(), " · ");
    let t = concat(t.as_str(), result.pair.to_text().as_str());
    let t = concat(t.as_str(), "\n\n");
    let t = concat(t.as_str(), join(&lines, "\n").as_str());
    let t = if n > SHOWN_CANDIDATES {
        let u = concat(t.as_str(), "\n");
        let u = concat(u.as_str(), decimal_text((n - SHOWN_CANDIDATES) as u64).as_str());
        concat(u.as_str(), " more candidates omitted")
    } else {
        assert(t@ + Seq::<char>::empty() =~= t@);
        t
    };
    match &result.attribution {
        Some(a) => {
            let u = concat(t.as_str(), "\n\n");
            concat(u.as_str(), safe_text(a.as_str()).as_str())
        },
        None => {
            assert(t@ + Seq::<char>::empty() =~= t@);
            t
        },
    }
}

/// The exit status for a failed lookup: 2 for invalid input or languages, 130 for an
/// interrupted lookup, 1 for every other failure.
pub open spec fn exit_status(error: LookupError) -> u8 {
    match error {
        LookupError::InvalidInput(_) | LookupError::UnsupportedLanguage(_)
        | LookupError::UnsupportedPair(_) => 2,
        LookupError::Cancelled => 130,
        _ => 1,
    }
}

/// The exit status for a failed lookup.
pub fn exit_code(error: &LookupError) -> (r: u8)
    ensures
        r == exit_status(*error),
{
    match error {
        LookupError::InvalidInput(_) | LookupError::UnsupportedLanguage(_)
        | LookupError::UnsupportedPair(_) => 2,
        LookupError::Cancelled => 130,
        _ => 1,
    }
}

} // verus!
