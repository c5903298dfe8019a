//! Shared control-character and bidi sanitization for output and stored diagnostics.
use vstd::prelude::*;
use crate::strings::{chars_of, string_of};

verus! {

/// Unicode general category Cc, which is what `char::is_control` tests.
pub open spec fn is_control(c: char) -> bool {
    (c as u32) <= 0x1f || (0x7f <= (c as u32) && (c as u32) <= 0x9f)
}

pub fn char_is_control(c: char) -> (b: bool)
    ensures
        b == is_control(c),
{
    let n = c as u32;
    n <= 0x1f || (0x7f <= n && n <= 0x9f)
}

/// Bidirectional formatting characters that can reorder what a terminal shows.
pub open spec fn is_bidi_control(c: char) -> bool {
    let n = c as u32;
    n == 0x061c || n == 0x200e || n == 0x200f || (0x202a <= n && n <= 0x202e) || (0x2066 <= n
        && n <= 0x2069)
}

/// A character that may be shown in a terminal as is.
pub open spec fn is_safe_char(c: char) -> bool {
    !is_control(c) && !is_bidi_control(c)
}

/// `s` with every control and bidi formatting character removed.
pub open spec fn safe_seq(s: Seq<char>) -> Seq<char> {
    s.filter(|c: char| is_safe_char(c))
}

pub fn char_is_safe(c: char) -> (b: bool)
    ensures
        b == is_safe_char(c),
{
    let n = c as u32;
    !char_is_control(c) && !(n == 0x061c || n == 0x200e || n == 0x200f || (0x202a <= n && n
        <= 0x202e) || (0x2066 <= n && n <= 0x2069))
}

/// Prevent escape sequences, line injection, and bidi overrides in terminal output.
pub fn safe_text(text: &str) -> (r: String)
    ensures
        r@ == safe_seq(text@),
{
    let v = chars_of(text);
    let mut out: Vec<char> = Vec::new();
    let mut i: usize = 0;
    while i < v.len()
        invariant
            i <= v.len(),
            out@ == safe_seq(v@.take(i as int)),
        decreases v.len() - i,
    {
        let c = v[i];
        proof {
            assert(v@.take(i as int + 1).drop_last() =~= v@.take(i as int));
            reveal(Seq::filter);
        }
        if char_is_safe(c) {
            out.push(c);
        }
        i = i + 1;
    }
    assert(v@.take(v.len() as int) =~= v@);
    string_of(&out)
}

/// Nothing that `safe_text` gives can move the cursor, break a line or reorder text: it
/// holds no control and no bidi formatting character.
pub proof fn lemma_safe_text_is_safe(text: Seq<char>)
    ensures
        forall|i: int| 0 <= i < safe_seq(text).len() ==> is_safe_char(#[trigger] safe_seq(text)[i]),
    decreases text.len(),
{
    reveal(Seq::filter);
    if text.len() > 0 {
        lemma_safe_text_is_safe(text.drop_last());
    }
}

/// Text that is already safe passes unchanged.
pub proof fn lemma_safe_text_keeps_safe_text(text: Seq<char>)
    requires
        forall|i: int| 0 <= i < text.len() ==> is_safe_char(#[trigger] text[i]),
    ensures
        safe_seq(text) == text,
    decreases text.len(),
{
    reveal(Seq::filter);
    if text.len() > 0 {
        lemma_safe_text_keeps_safe_text(text.drop_last());
        assert(safe_seq(text.drop_last()).push(text.last()) =~= text);
    } else {
        assert(safe_seq(text) =~= text);
    }
}

/// Making text safe twice changes nothing more than making it safe once.
pub proof fn lemma_safe_text_idempotent(text: Seq<char>)
    ensures
        safe_seq(safe_seq(text)) == safe_seq(text),
{
    lemma_safe_text_is_safe(text);
    lemma_safe_text_keeps_safe_text(safe_seq(text));
}

} // verus!

