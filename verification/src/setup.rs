//! Managed completion source blocks in shell start-up files: a user's own lines are kept,
//! every earlier managed block is dropped, and one fresh block is appended.
use vstd::prelude::*;
use crate::completion::Shell;
use crate::strings::{chars_of, concat, copy_string, string_of};
use crate::text::{char_is_control, is_control};

verus! {

/// The line that opens a managed block.
pub open spec fn begin_marker() -> Seq<char> {
    "# >>> voci completions >>>"@
}

/// The line that closes a managed block.
pub open spec fn end_marker() -> Seq<char> {
    "# <<< voci completions <<<"@
}

/// Why completion setup refused to go on.
#[derive(Clone, Copy, Debug, PartialEq, Eq, Structural)]
pub enum SetupError {
    /// A begin marker inside an open block.
    NestedMarkers,
    /// An end marker outside any block.
    UnmatchedEnd,
    /// A block that the text never closes.
    UnclosedBlock,
    /// A path with a control character in it.
    ControlCharacterInPath,
    /// No home directory was given.
    MissingHome,
    /// The home directory is relative.
    RelativeHome,
    /// The configuration directory is relative.
    RelativeConfig,
    /// A path could not be written as a JSON string.
    Encoding,
}

/// What each setup error says.
pub open spec fn setup_error_text(error: SetupError) -> Seq<char> {
    match error {
        SetupError::NestedMarkers =>
            "Nested voci completion markers; repair the managed block before retrying"@,
        SetupError::UnmatchedEnd =>
            "Unmatched voci completion end marker; repair the managed block before retrying"@,
        SetupError::UnclosedBlock =>
            "Unclosed voci completion block; repair the managed block before retrying"@,
        SetupError::ControlCharacterInPath => "Completion paths cannot contain control characters"@,
        SetupError::MissingHome => "Cannot find the user home directory for completion setup"@,
        SetupError::RelativeHome => "The user home directory must be absolute"@,
        SetupError::RelativeConfig => "The configuration directory must be absolute"@,
        SetupError::Encoding => "Cannot encode a completion path as a JSON string"@,
    }
}

impl SetupError {
    /// The message shown for this error.
    pub fn message(&self) -> (r: String)
        ensures
            r@ == setup_error_text(*self),
    {
        let text = match self {
            SetupError::NestedMarkers =>
                "Nested voci completion markers; repair the managed block before retrying",
            SetupError::UnmatchedEnd =>
                "Unmatched voci completion end marker; repair the managed block before retrying",
            SetupError::UnclosedBlock =>
                "Unclosed voci completion block; repair the managed block before retrying",
            SetupError::ControlCharacterInPath =>
                "Completion paths cannot contain control characters",
            SetupError::MissingHome => "Cannot find the user home directory for completion setup",
            SetupError::RelativeHome => "The user home directory must be absolute",
            SetupError::RelativeConfig => "The configuration directory must be absolute",
            SetupError::Encoding => "Cannot encode a completion path as a JSON string",
        };
        text.to_owned()
    }
}

/// `s` without its trailing carriage returns and line feeds.
pub open spec fn trim_newlines(s: Seq<char>) -> Seq<char>
    decreases s.len(),
{
    if s.len() > 0 && (s.last() == '\r' || s.last() == '\n') {
        trim_newlines(s.drop_last())
    } else {
        s
    }
}

/// What reading lines has found so far: whether a block is open, the lines kept, and the
/// first error.
pub struct BlockScan {
    pub inside: bool,
    pub kept: Seq<char>,
    pub error: Option<SetupError>,
}

/// The state after one more line, its line feed included where it has one.
pub open spec fn scan_line(st: BlockScan, line: Seq<char>) -> BlockScan {
    if st.error is Some {
        st
    } else if trim_newlines(line) == begin_marker() {
        if st.inside {
            BlockScan { error: Some(SetupError::NestedMarkers), ..st }
        } else {
            BlockScan { inside: true, ..st }
        }
    } else if trim_newlines(line) == end_marker() {
        if st.inside {
            BlockScan { inside: false, ..st }
        } else {
            BlockScan { error: Some(SetupError::UnmatchedEnd), ..st }
        }
    } else if st.inside {
        st
    } else {
        BlockScan { kept: st.kept + line, ..st }
    }
}

/// Reading characters: the unfinished line and what the finished lines gave.
pub struct LineScan {
    pub pending: Seq<char>,
    pub scan: BlockScan,
}

/// The state after one more character: a line feed finishes the line.
pub open spec fn scan_char(st: LineScan, c: char) -> LineScan {
    if c == '\n' {
        LineScan { pending: Seq::empty(), scan: scan_line(st.scan, st.pending.push(c)) }
    } else {
        LineScan { pending: st.pending.push(c), ..st }
    }
}

/// The state after the characters of `s`, starting from `st`.
pub open spec fn scan_chars(st: LineScan, s: Seq<char>) -> LineScan
    decreases s.len(),
{
    if s.len() == 0 {
        st
    } else {
        scan_char(scan_chars(st, s.drop_last()), s.last())
    }
}

/// Nothing read yet.
pub open spec fn scan_start() -> LineScan {
    LineScan {
        pending: Seq::empty(),
        scan: BlockScan { inside: false, kept: Seq::empty(), error: None },
    }
}

/// What the lines of a text give, its last line included where it has no line feed.
pub open spec fn scan_text(s: Seq<char>) -> BlockScan {
    let st = scan_chars(scan_start(), s);
    if st.pending.len() > 0 {
        scan_line(st.scan, st.pending)
    } else {
        st.scan
    }
}

/// Whether `s` holds a carriage return followed by a line feed.
pub open spec fn has_crlf(s: Seq<char>) -> bool {
    exists|i: int| 0 <= i < s.len() - 1 && #[trigger] s[i] == '\r' && s[i + 1] == '\n'
}

/// The line ending of a text: CRLF where it already uses one, else LF.
pub open spec fn newline_of(s: Seq<char>) -> Seq<char> {
    if has_crlf(s) {
        seq!['\r', '\n']
    } else {
        seq!['\n']
    }
}

/// `s` with each line feed replaced by `nl`.
pub open spec fn replace_newlines(s: Seq<char>, nl: Seq<char>) -> Seq<char>
    decreases s.len(),
{
    if s.len() == 0 {
        Seq::empty()
    } else if s.last() == '\n' {
        replace_newlines(s.drop_last(), nl) + nl
    } else {
        replace_newlines(s.drop_last(), nl).push(s.last())
    }
}

/// The kept lines, with a final line ending where the last kept line lacks one.
pub open spec fn terminated(kept: Seq<char>, nl: Seq<char>) -> Seq<char> {
    if kept.len() > 0 && kept.last() != '\n' {
        kept + nl
    } else {
        kept
    }
}

/// The managed block for `body`, with line endings `nl`.
pub open spec fn managed_block(body: Seq<char>, nl: Seq<char>) -> Seq<char> {
    begin_marker() + nl + replace_newlines(body, nl) + nl + end_marker() + nl
}

/// The start-up file text with one managed block that sources `body`, or why the
/// existing text cannot be updated.
pub open spec fn source_block_spec(existing: Seq<char>, body: Seq<char>) -> Result<
    Seq<char>,
    SetupError,
> {
    let sc = scan_text(existing);
    if sc.error is Some {
        Err(sc.error->0)
    } else if sc.inside {
        Err(SetupError::UnclosedBlock)
    } else {
        let nl = newline_of(existing);
        Ok(terminated(sc.kept, nl) + managed_block(body, nl))
    }
}

/// The view of a text result.
pub open spec fn text_result(r: Result<String, SetupError>) -> Result<Seq<char>, SetupError> {
    match r {
        Ok(s) => Ok(s@),
        Err(e) => Err(e),
    }
}

/// `dst` followed by the characters of `src`.
fn extend_chars(dst: &mut Vec<char>, src: &Vec<char>)
    ensures
        final(dst)@ == old(dst)@ + src@,
{
    let mut i: usize = 0;
    while i < src.len()
        invariant
            i <= src.len(),
            dst@ == old(dst)@ + src@.take(i as int),
        decreases src.len() - i,
    {
        dst.push(src[i]);
        i = i + 1;
        assert(dst@ =~= old(dst)@ + src@.take(i as int));
    }
    assert(src@.take(src.len() as int) =~= src@);
}

/// Whether `line`, without trailing line endings, is `marker`.
fn trimmed_is(line: &Vec<char>, marker: &Vec<char>) -> (b: bool)
    ensures
        b == (trim_newlines(line@) == marker@),
{
    let mut k: usize = line.len();
    assert(line@.take(k as int) =~= line@);
    while k > 0 && (line[k - 1] == '\r' || line[k - 1] == '\n')
        invariant
            k <= line.len(),
            trim_newlines(line@) == trim_newlines(line@.take(k as int)),
        decreases k,
    {
        assert(line@.take(k as int).drop_last() =~= line@.take(k as int - 1));
        k = k - 1;
    }
    assert(trim_newlines(line@) == line@.take(k as int));
    if k != marker.len() {
        return false;
    }
    let mut i: usize = 0;
    while i < k
        invariant
            k == marker.len() <= line.len(),
            i <= k,
            trim_newlines(line@) == line@.take(k as int),
            forall|j: int| 0 <= j < i ==> line@[j] == marker@[j],
        decreases k - i,
    {
        if line[i] != marker[i] {
            assert(line@.take(k as int)[i as int] != marker@[i as int]);
            return false;
        }
        i = i + 1;
    }
    assert(line@.take(k as int) =~= marker@);
    true
}

/// What the lines read so far give, held in executable values.
struct Scan {
    inside: bool,
    kept: Vec<char>,
    error: Option<SetupError>,
}

impl Scan {
    spec fn view(&self) -> BlockScan {
        BlockScan { inside: self.inside, kept: self.kept@, error: self.error }
    }
}

/// Read one line; the line buffer is left empty.
fn read_line(st: &mut Scan, line: &mut Vec<char>, begin: &Vec<char>, end: &Vec<char>)
    requires
        begin@ == begin_marker(),
        end@ == end_marker(),
    ensures
        final(st).view() == scan_line(old(st).view(), old(line)@),
        final(line)@ == Seq::<char>::empty(),
{
    if st.error.is_some() {
        line.clear();
    } else if trimmed_is(line, begin) {
        if st.inside {
            st.error = Some(SetupError::NestedMarkers);
        } else {
            st.inside = true;
        }
        line.clear();
    } else if trimmed_is(line, end) {
        if st.inside {
            st.inside = false;
        } else {
            st.error = Some(SetupError::UnmatchedEnd);
        }
        line.clear();
    } else if st.inside {
        line.clear();
    } else {
        st.kept.append(line);
    }
}

/// Whether the characters hold a CRLF pair.
fn chars_have_crlf(s: &Vec<char>) -> (b: bool)
    ensures
        b == has_crlf(s@),
{
    if s.len() < 2 {
        return false;
    }
    let mut i: usize = 0;
    while i + 1 < s.len()
        invariant
            s.len() >= 2,
            i + 1 <= s.len(),
            forall|j: int| 0 <= j < i ==> !(#[trigger] s@[j] == '\r' && s@[j + 1] == '\n'),
        decreases s.len() - i,
    {
        if s[i] == '\r' && s[i + 1] == '\n' {
            return true;
        }
        i = i + 1;
    }
    assert(!has_crlf(s@)) by {
        if has_crlf(s@) {
            let j = choose|j: int| 0 <= j < s@.len() - 1 && #[trigger] s@[j] == '\r' && s@[j + 1]
                == '\n';
            assert(j < i);
        }
    }
    false
}

/// The characters of `body` with each line feed replaced by `nl`.
fn replaced_newlines(body: &Vec<char>, nl: &Vec<char>) -> (r: Vec<char>)
    ensures
        r@ == replace_newlines(body@, nl@),
{
    let mut r: Vec<char> = Vec::new();
    let mut i: usize = 0;
    while i < body.len()
        invariant
            i <= body.len(),
            r@ == replace_newlines(body@.take(i as int), nl@),
        decreases body.len() - i,
    {
        assert(body@.take(i as int + 1).drop_last() =~= body@.take(i as int));
        if body[i] == '\n' {
            extend_chars(&mut r, nl);
        } else {
            r.push(body[i]);
        }
        i = i + 1;
    }
    assert(body@.take(body.len() as int) =~= body@);
    r
}

/// Replace every managed block of `existing` by one block that holds `body`, keeping the
/// other lines and the text's line endings.
#[verifier::spinoff_prover]
#[verifier::rlimit(40)]
pub fn source_block(existing: &str, body: &str) -> (r: Result<String, SetupError>)
    ensures
        text_result(r) == source_block_spec(existing@, body@),
{
    let text = chars_of(existing);
    let begin = chars_of("# >>> voci completions >>>");
    let end = chars_of("# <<< voci completions <<<");
    let mut st = Scan { inside: false, kept: Vec::new(), error: None };
    let mut pending: Vec<char> = Vec::new();
    let mut i: usize = 0;
    while i < text.len()
        invariant
            i <= text.len(),
            begin@ == begin_marker(),
            end@ == end_marker(),
            (LineScan { pending: pending@, scan: st.view() }) == scan_chars(
                scan_start(),
                text@.take(i as int),
            ),
        decreases text.len() - i,
    {
        assert(text@.take(i as int + 1).drop_last() =~= text@.take(i as int));
        let c = text[i];
        pending.push(c);
        if c == '\n' {
            read_line(&mut st, &mut pending, &begin, &end);
        }
        i = i + 1;
    }
    assert(text@.take(text.len() as int) =~= text@);
    if pending.len() > 0 {
        read_line(&mut st, &mut pending, &begin, &end);
    }
    if let Some(error) = st.error {
        return Err(error);
    }
    if st.inside {
        return Err(SetupError::UnclosedBlock);
    }
    let mut nl: Vec<char> = Vec::new();
    if chars_have_crlf(&text) {
        nl.push('\r');
    }
    nl.push('\n');
    assert(nl@ =~= newline_of(existing@));
    assert(st.view() == scan_text(existing@));
    let ghost kept = st.kept@;
    let mut result = st.kept;
    if result.len() > 0 && result[result.len() - 1] != '\n' {
        extend_chars(&mut result, &nl);
    }
    assert(result@ == terminated(kept, nl@));
    let replaced = replaced_newlines(&chars_of(body), &nl);
    extend_chars(&mut result, &begin);
    extend_chars(&mut result, &nl);
    extend_chars(&mut result, &replaced);
    extend_chars(&mut result, &nl);
    extend_chars(&mut result, &end);
    extend_chars(&mut result, &nl);
    assert(result@ =~= terminated(kept, nl@) + managed_block(body@, nl@));
    proof {
        reveal_strlit("# >>> voci completions >>>");
        reveal_strlit("# <<< voci completions <<<");
    }
    Ok(string_of(&result))
}

} // verus!

verus! {

/// The text after the last line feed of `s`: the line that `s` ends in.
pub open spec fn last_line(s: Seq<char>) -> Seq<char>
    decreases s.len(),
{
    if s.len() == 0 {
        Seq::empty()
    } else if s.last() == '\n' {
        Seq::empty()
    } else {
        last_line(s.drop_last()).push(s.last())
    }
}

/// A body that can stand in a managed block as is: it has no carriage return, and none of
/// its lines is a marker line.
pub open spec fn plain_body(body: Seq<char>) -> bool {
    &&& forall|k: int| 0 <= k < body.len() ==> body[k] != '\r'
    &&& forall|i: int|
        0 <= i <= body.len() && (i == body.len() || body[i] == '\n') ==> #[trigger] last_line(
            body.take(i),
        ) != begin_marker() && last_line(body.take(i)) != end_marker()
}

/// Reading `a + b` is reading `a`, then `b`.
proof fn lemma_scan_concat(st: LineScan, a: Seq<char>, b: Seq<char>)
    ensures
        scan_chars(st, a + b) == scan_chars(scan_chars(st, a), b),
    decreases b.len(),
{
    if b.len() == 0 {
        assert(a + b =~= a);
    } else {
        lemma_scan_concat(st, a, b.drop_last());
        assert((a + b).drop_last() =~= a + b.drop_last());
    }
}

/// Characters other than line feeds only extend the unfinished line.
proof fn lemma_scan_no_lf(st: LineScan, p: Seq<char>)
    requires
        forall|k: int| 0 <= k < p.len() ==> p[k] != '\n',
    ensures
        scan_chars(st, p) == (LineScan { pending: st.pending + p, scan: st.scan }),
    decreases p.len(),
{
    if p.len() == 0 {
        assert(st.pending + p =~= st.pending);
    } else {
        lemma_scan_no_lf(st, p.drop_last());
        assert((st.pending + p.drop_last()).push(p.last()) =~= st.pending + p);
    }
}

/// A line ending finishes the unfinished line.
proof fn lemma_scan_newline(st: LineScan, nl: Seq<char>)
    requires
        nl == seq!['\n'] || nl == seq!['\r', '\n'],
    ensures
        scan_chars(st, nl) == (LineScan {
            pending: Seq::empty(),
            scan: scan_line(st.scan, st.pending + nl),
        }),
{
    if nl == seq!['\n'] {
        assert(nl.drop_last() =~= Seq::<char>::empty());
        assert(scan_chars(st, nl.drop_last()) == st);
        assert(nl.last() == '\n');
        assert(st.pending.push('\n') =~= st.pending + nl);
    } else {
        assert(nl.drop_last() =~= seq!['\r']);
        assert(nl.drop_last().drop_last() =~= Seq::<char>::empty());
        assert(scan_chars(st, nl.drop_last().drop_last()) == st);
        assert(nl.drop_last().last() == '\r');
        assert(scan_chars(st, nl.drop_last()) == scan_char(st, '\r'));
        assert(nl.last() == '\n');
        assert(st.pending.push('\r').push('\n') =~= st.pending + nl);
    }
}

/// A line ending does not change what a line says.
proof fn lemma_trim_newline(p: Seq<char>, nl: Seq<char>)
    requires
        nl == seq!['\n'] || nl == seq!['\r', '\n'],
    ensures
        trim_newlines(p + nl) == trim_newlines(p),
{
    if nl == seq!['\n'] {
        assert((p + nl).last() == '\n');
        assert((p + nl).drop_last() =~= p);
        assert(trim_newlines(p + nl) == trim_newlines((p + nl).drop_last()));
    } else {
        let q = p.push('\r');
        assert((p + nl).last() == '\n');
        assert((p + nl).drop_last() =~= q);
        assert(trim_newlines(p + nl) == trim_newlines(q));
        assert(q.last() == '\r');
        assert(q.drop_last() =~= p);
        assert(trim_newlines(q) == trim_newlines(p));
    }
}

/// A line of characters without line feeds, then a line ending, is read as one line.
proof fn lemma_scan_line(scan: BlockScan, p: Seq<char>, nl: Seq<char>)
    requires
        forall|k: int| 0 <= k < p.len() ==> p[k] != '\n',
        nl == seq!['\n'] || nl == seq!['\r', '\n'],
    ensures
        scan_chars(LineScan { pending: Seq::empty(), scan }, p + nl) == (LineScan {
            pending: Seq::empty(),
            scan: scan_line(scan, p + nl),
        }),
        trim_newlines(p + nl) == trim_newlines(p),
{
    let st = LineScan { pending: Seq::empty(), scan };
    lemma_scan_concat(st, p, nl);
    lemma_scan_no_lf(st, p);
    assert(Seq::<char>::empty() + p =~= p);
    lemma_scan_newline(LineScan { pending: p, scan }, nl);
    lemma_trim_newline(p, nl);
}

/// A CRLF pair in a part of a text is one in the text.
proof fn lemma_crlf_subrange(s: Seq<char>, i: int, j: int)
    requires
        0 <= i <= j <= s.len(),
        has_crlf(s.subrange(i, j)),
    ensures
        has_crlf(s),
{
    let t = s.subrange(i, j);
    let k = choose|k: int| 0 <= k < t.len() - 1 && #[trigger] t[k] == '\r' && t[k + 1] == '\n';
    assert(s[i + k] == '\r' && s[i + k + 1] == '\n');
}

/// A CRLF pair in two texts put together lies in one of them or across the seam.
proof fn lemma_crlf_concat(a: Seq<char>, b: Seq<char>)
    requires
        !has_crlf(a),
        !has_crlf(b),
        a.len() == 0 || b.len() == 0 || a.last() != '\r' || b[0] != '\n',
    ensures
        !has_crlf(a + b),
{
    if has_crlf(a + b) {
        let s = a + b;
        let k = choose|k: int| 0 <= k < s.len() - 1 && #[trigger] s[k] == '\r' && s[k + 1] == '\n';
        if k + 1 < a.len() {
            assert(a[k] == '\r' && a[k + 1] == '\n');
        } else if k >= a.len() {
            assert(b[k - a.len()] == '\r' && b[k - a.len() + 1] == '\n');
        }
    }
}

/// What reading keeps: the unfinished line is the end of the text read, it has no line feed,
/// and the kept lines are whole lines that read back as themselves.
proof fn lemma_scan_invariants(s: Seq<char>)
    ensures
        ({
            let st = scan_chars(scan_start(), s);
            &&& st.pending.len() <= s.len()
            &&& st.pending == s.skip(s.len() - st.pending.len())
            &&& forall|k: int| 0 <= k < st.pending.len() ==> st.pending[k] != '\n'
            &&& st.scan.kept.len() == 0 || st.scan.kept.last() == '\n'
            &&& scan_chars(scan_start(), st.scan.kept) == (LineScan {
                pending: Seq::empty(),
                scan: BlockScan { inside: false, kept: st.scan.kept, error: None },
            })
            &&& !has_crlf(s) ==> !has_crlf(st.scan.kept)
        }),
    decreases s.len(),
{
    if s.len() == 0 {
        assert(s.skip(0) =~= Seq::<char>::empty());
        assert(scan_chars(scan_start(), Seq::<char>::empty()) == scan_start());
    } else {
        let s0 = s.drop_last();
        let c = s.last();
        lemma_scan_invariants(s0);
        let st0 = scan_chars(scan_start(), s0);
        let st = scan_chars(scan_start(), s);
        assert(st == scan_char(st0, c));
        if !has_crlf(s) {
            if has_crlf(s0) {
                assert(s0 =~= s.subrange(0, s0.len() as int));
                lemma_crlf_subrange(s, 0, s0.len() as int);
            }
        }
        if c != '\n' {
            assert(s.skip(s.len() - st.pending.len()) =~= s0.skip(
                s0.len() - st0.pending.len(),
            ).push(c));
        } else {
            assert(s.skip(s.len() - 0) =~= Seq::<char>::empty());
            let line = st0.pending.push(c);
            let sc0 = st0.scan;
            if sc0.error is None && trim_newlines(line) != begin_marker() && trim_newlines(line)
                != end_marker() && !sc0.inside {
                let kept0 = sc0.kept;
                assert(st.scan.kept == kept0 + line);
                lemma_scan_concat(scan_start(), kept0, line);
                assert(line =~= st0.pending + seq!['\n']);
                lemma_scan_line(
                    BlockScan { inside: false, kept: kept0, error: None },
                    st0.pending,
                    seq!['\n'],
                );
                if !has_crlf(s) {
                    assert(line =~= s.subrange(
                        s.len() - line.len(),
                        s.len() as int,
                    ));
                    if has_crlf(line) {
                        lemma_crlf_subrange(s, s.len() - line.len(), s.len() as int);
                    }
                    lemma_crlf_concat(kept0, line);
                }
            }
        }
    }
}

/// Reading a plain body's lines inside an open block keeps the block open and changes
/// nothing else.
proof fn lemma_scan_body(body: Seq<char>, nl: Seq<char>, kept: Seq<char>, i: int)
    requires
        plain_body(body),
        nl == seq!['\n'] || nl == seq!['\r', '\n'],
        0 <= i <= body.len(),
    ensures
        scan_chars(
            LineScan {
                pending: Seq::empty(),
                scan: BlockScan { inside: true, kept, error: None },
            },
            replace_newlines(body.take(i), nl),
        ) == (LineScan {
            pending: last_line(body.take(i)),
            scan: BlockScan { inside: true, kept, error: None },
        }),
        forall|k: int|
            0 <= k < last_line(body.take(i)).len() ==> last_line(body.take(i))[k] != '\n'
                && last_line(body.take(i))[k] != '\r',
    decreases i,
{
    let open = BlockScan { inside: true, kept, error: None };
    let start = LineScan { pending: Seq::empty(), scan: open };
    if i == 0 {
        assert(body.take(0) =~= Seq::<char>::empty());
    } else {
        lemma_scan_body(body, nl, kept, i - 1);
        let prev = body.take(i - 1);
        let c = body[i - 1];
        assert(body.take(i).drop_last() =~= prev);
        let r0 = replace_newlines(prev, nl);
        let ll = last_line(prev);
        if c == '\n' {
            lemma_scan_concat(start, r0, nl);
            lemma_scan_newline(LineScan { pending: ll, scan: open }, nl);
            lemma_trim_newline(ll, nl);
            assert(body.take(i - 1) == prev);
            assert(last_line(body.take(i - 1)) != begin_marker());
            if ll.len() > 0 {
                assert(ll.last() != '\r' && ll.last() != '\n');
            }
            assert(trim_newlines(ll) == ll);
        } else {
            assert(r0.push(c).drop_last() =~= r0);
        }
    }
}

/// Replacing line feeds by another line ending keeps a text free of carriage returns where
/// the line ending has none.
proof fn lemma_replace_no_cr(body: Seq<char>, nl: Seq<char>)
    requires
        forall|k: int| 0 <= k < body.len() ==> body[k] != '\r',
        forall|k: int| 0 <= k < nl.len() ==> nl[k] != '\r',
    ensures
        forall|k: int|
            0 <= k < replace_newlines(body, nl).len() ==> replace_newlines(body, nl)[k] != '\r',
    decreases body.len(),
{
    if body.len() > 0 {
        let b0 = body.drop_last();
        lemma_replace_no_cr(b0, nl);
        let r0 = replace_newlines(b0, nl);
        let r = replace_newlines(body, nl);
        assert forall|k: int| 0 <= k < r.len() implies r[k] != '\r' by {
            if k < r0.len() {
                assert(r[k] == r0[k]);
            } else if body.last() == '\n' {
                assert(r[k] == nl[k - r0.len()]);
            } else {
                assert(r[k] == body.last());
            }
        }
    }
}

/// A text without carriage returns has no CRLF pair.
proof fn lemma_no_cr(s: Seq<char>)
    requires
        forall|k: int| 0 <= k < s.len() ==> s[k] != '\r',
    ensures
        !has_crlf(s),
{
}

/// The user lines that a managed block is written after read back as themselves, end in a
/// line ending where they are not empty, and have no CRLF pair where the text had none
/// and did not end in a carriage return.
proof fn lemma_kept_rescans(existing: Seq<char>)
    requires
        scan_text(existing).error is None,
        !scan_text(existing).inside,
    ensures
        ({
            let k = terminated(scan_text(existing).kept, newline_of(existing));
            &&& scan_chars(scan_start(), k) == (LineScan {
                pending: Seq::empty(),
                scan: BlockScan { inside: false, kept: k, error: None },
            })
            &&& k.len() == 0 || k.last() == '\n'
            &&& !has_crlf(existing) && (existing.len() == 0 || existing.last() != '\r')
                ==> !has_crlf(k)
        }),
{
    let st = scan_chars(scan_start(), existing);
    lemma_scan_invariants(existing);
    let sc = scan_text(existing);
    let nl = newline_of(existing);
    let kept = st.scan.kept;
    let big_k = terminated(sc.kept, nl);
    if st.pending.len() > 0 && sc.kept != kept {
        assert(sc.kept == kept + st.pending);
        assert(sc.kept.last() == st.pending.last());
        assert(big_k =~= kept + (st.pending + nl));
        lemma_scan_concat(scan_start(), kept, st.pending + nl);
        lemma_scan_line(BlockScan { inside: false, kept, error: None }, st.pending, nl);
        assert(kept + st.pending + nl =~= kept + (st.pending + nl));
        if !has_crlf(existing) && (existing.len() == 0 || existing.last() != '\r') {
            assert(st.pending =~= existing.subrange(
                existing.len() - st.pending.len(),
                existing.len() as int,
            ));
            if has_crlf(st.pending) {
                lemma_crlf_subrange(
                    existing,
                    existing.len() - st.pending.len(),
                    existing.len() as int,
                );
            }
            lemma_crlf_concat(kept, st.pending);
            assert(st.pending.last() == existing.last());
            lemma_crlf_concat(kept + st.pending, nl);
        }
    } else {
        assert(sc.kept == kept);
        assert(big_k == kept);
    }
}

/// Reading a managed block after closed user lines opens the block, passes over the
/// body and closes it again, leaving the user lines as they were.
proof fn lemma_block_rescans(kept: Seq<char>, body: Seq<char>, nl: Seq<char>)
    requires
        plain_body(body),
        nl == seq!['\n'] || nl == seq!['\r', '\n'],
    ensures
        scan_chars(
            LineScan {
                pending: Seq::empty(),
                scan: BlockScan { inside: false, kept, error: None },
            },
            managed_block(body, nl),
        ) == (LineScan {
            pending: Seq::empty(),
            scan: BlockScan { inside: false, kept, error: None },
        }),
{
    reveal_strlit("# >>> voci completions >>>");
    reveal_strlit("# <<< voci completions <<<");
    let begin = begin_marker();
    let end = end_marker();
    let r = replace_newlines(body, nl);
    let closed = BlockScan { inside: false, kept, error: None };
    let open = BlockScan { inside: true, kept, error: None };
    let empty_line = Seq::<char>::empty();
    assert(managed_block(body, nl) =~= (begin + nl) + ((r + nl) + (end + nl)));
    lemma_scan_concat(
        LineScan { pending: empty_line, scan: closed },
        begin + nl,
        (r + nl) + (end + nl),
    );
    lemma_scan_line(closed, begin, nl);
    assert(trim_newlines(begin) == begin);
    lemma_scan_concat(LineScan { pending: empty_line, scan: open }, r + nl, end + nl);
    lemma_scan_concat(LineScan { pending: empty_line, scan: open }, r, nl);
    lemma_scan_body(body, nl, kept, body.len() as int);
    assert(body.take(body.len() as int) =~= body);
    let ll = last_line(body);
    lemma_scan_newline(LineScan { pending: ll, scan: open }, nl);
    lemma_trim_newline(ll, nl);
    assert(last_line(body.take(body.len() as int)) != begin_marker());
    if ll.len() > 0 {
        assert(ll.last() != '\r' && ll.last() != '\n');
    }
    assert(trim_newlines(ll) == ll);
    lemma_scan_line(open, end, nl);
    assert(trim_newlines(end) == end);
}

/// A managed block written with line feeds has no CRLF pair, and it starts with `#`.
proof fn lemma_block_crlf(body: Seq<char>, nl: Seq<char>)
    requires
        plain_body(body),
        nl == seq!['\n'],
    ensures
        !has_crlf(managed_block(body, nl)),
        managed_block(body, nl)[0] == '#',
{
    reveal_strlit("# >>> voci completions >>>");
    reveal_strlit("# <<< voci completions <<<");
    let begin = begin_marker();
    let end = end_marker();
    let r = replace_newlines(body, nl);
    assert(managed_block(body, nl) =~= (begin + nl) + ((r + nl) + (end + nl)));
    lemma_replace_no_cr(body, nl);
    lemma_no_cr(begin + nl);
    lemma_no_cr(r + nl);
    lemma_no_cr(end + nl);
    lemma_crlf_concat(r + nl, end + nl);
    lemma_crlf_concat(begin + nl, (r + nl) + (end + nl));
}

/// Setting up a managed block twice gives what setting it up once gave: the second run
/// finds the block that the first wrote, replaces it by the same block and keeps the same
/// user lines. This holds for a body without carriage returns or marker lines, and for
/// existing text that uses CRLF line endings or does not end in a lone carriage return.
pub proof fn lemma_source_block_idempotent(existing: Seq<char>, body: Seq<char>)
    requires
        source_block_spec(existing, body) is Ok,
        plain_body(body),
        has_crlf(existing) || existing.len() == 0 || existing.last() != '\r',
    ensures
        source_block_spec(source_block_spec(existing, body)->Ok_0, body) == source_block_spec(
            existing,
            body,
        ),
{
    let sc = scan_text(existing);
    let nl = newline_of(existing);
    let big_k = terminated(sc.kept, nl);
    let block = managed_block(body, nl);
    let y = big_k + block;
    assert(source_block_spec(existing, body) == Ok::<Seq<char>, SetupError>(y));
    lemma_kept_rescans(existing);
    let closed = BlockScan { inside: false, kept: big_k, error: None };
    lemma_scan_concat(scan_start(), big_k, block);
    lemma_block_rescans(big_k, body, nl);
    assert(scan_chars(scan_start(), y) == (LineScan { pending: Seq::empty(), scan: closed }));
    assert(scan_text(y) == closed);
    if nl == seq!['\r', '\n'] {
        reveal_strlit("# >>> voci completions >>>");
        let k: int = (big_k.len() + begin_marker().len()) as int;
        assert(y[k] == '\r' && y[k + 1] == '\n');
        assert(has_crlf(y));
    } else {
        lemma_block_crlf(body, nl);
        lemma_crlf_concat(big_k, block);
    }
    assert(newline_of(y) == nl);
    assert(terminated(big_k, nl) == big_k);
}

} // verus!

verus! {

/// The operating system family whose path rules apply.
#[derive(Clone, Copy, Debug, PartialEq, Eq, Structural)]
pub enum Platform {
    Unix,
    MacOs,
    Windows,
}

/// Whether a character separates path components on a platform.
pub open spec fn is_separator(platform: Platform, c: char) -> bool {
    c == '/' || (platform == Platform::Windows && c == '\\')
}

/// Whether a path is absolute. On Unix and macOS it starts at the root. On Windows it
/// starts with a drive letter, a colon and a separator, or with two separators (a UNC or
/// verbatim prefix).
pub open spec fn is_absolute(platform: Platform, path: Seq<char>) -> bool {
    if platform == Platform::Windows {
        ||| (path.len() >= 3 && ('a' <= path[0] <= 'z' || 'A' <= path[0] <= 'Z') && path[1]
            == ':' && is_separator(platform, path[2]))
        ||| (path.len() >= 2 && is_separator(platform, path[0]) && is_separator(platform, path[1]))
    } else {
        path.len() >= 1 && path[0] == '/'
    }
}

/// Whether a path is absolute on a platform.
pub fn path_is_absolute(platform: Platform, path: &str) -> (b: bool)
    ensures
        b == is_absolute(platform, path@),
{
    let p = chars_of(path);
    let windows = match platform {
        Platform::Windows => true,
        _ => false,
    };
    if windows {
        let drive = p.len() >= 3 && (('a' <= p[0] && p[0] <= 'z') || ('A' <= p[0] && p[0] <= 'Z'))
            && p[1] == ':' && (p[2] == '/' || p[2] == '\\');
        let unc = p.len() >= 2 && (p[0] == '/' || p[0] == '\\') && (p[1] == '/' || p[1] == '\\');
        drive || unc
    } else {
        p.len() >= 1 && p[0] == '/'
    }
}

/// `name` under the directory `base`: a separator goes between them unless `base` is empty
/// or already ends with one.
pub open spec fn join_on(platform: Platform, base: Seq<char>, name: Seq<char>) -> Seq<char> {
    if base.len() == 0 || is_separator(platform, base.last()) {
        base + name
    } else {
        base + seq![if platform == Platform::Windows { '\\' } else { '/' }] + name
    }
}

/// The path of `name` under `base`.
pub fn join_path_on(platform: Platform, base: &str, name: &str) -> (r: String)
    ensures
        r@ == join_on(platform, base@, name@),
{
    let b = chars_of(base);
    let windows = match platform {
        Platform::Windows => true,
        _ => false,
    };
    if b.len() == 0 || b[b.len() - 1] == '/' || (windows && b[b.len() - 1] == '\\') {
        concat(base, name)
    } else {
        let mut r = copy_string(base);
        r.push(if windows { '\\' } else { '/' });
        let r = concat(r.as_str(), name);
        r
    }
}

/// Where setup reads and writes: the home and the configuration directory.
pub struct Locations {
    pub home: String,
    pub config: String,
}

/// The configuration directory that a platform uses when `XDG_CONFIG_HOME` is not set.
pub open spec fn default_config(
    platform: Platform,
    home: Seq<char>,
    appdata: Option<Seq<char>>,
) -> Seq<char> {
    match platform {
        Platform::Windows => match appdata {
            Some(a) => if a.len() > 0 {
                a
            } else {
                join_on(platform, home, "AppData/Roaming"@)
            },
            None => join_on(platform, home, "AppData/Roaming"@),
        },
        Platform::MacOs => join_on(platform, home, "Library/Application Support"@),
        Platform::Unix => join_on(platform, home, ".config"@),
    }
}

/// The locations that a home, `XDG_CONFIG_HOME` and `APPDATA` give, or why they cannot be
/// used: an empty value counts as none.
pub open spec fn locations_spec(
    platform: Platform,
    home: Option<Seq<char>>,
    xdg: Option<Seq<char>>,
    appdata: Option<Seq<char>>,
) -> Result<(Seq<char>, Seq<char>), SetupError> {
    match home {
        None => Err(SetupError::MissingHome),
        Some(h) => if h.len() == 0 {
            Err(SetupError::MissingHome)
        } else if !is_absolute(platform, h) {
            Err(SetupError::RelativeHome)
        } else {
            let config = match xdg {
                Some(x) => if x.len() > 0 {
                    x
                } else {
                    default_config(platform, h, appdata)
                },
                None => default_config(platform, h, appdata),
            };
            if is_absolute(platform, config) {
                Ok((h, config))
            } else {
                Err(SetupError::RelativeConfig)
            }
        },
    }
}

/// The view of an optional string.
pub open spec fn opt_view(value: Option<String>) -> Option<Seq<char>> {
    match value {
        Some(s) => Some(s@),
        None => None,
    }
}

impl Locations {
    /// Resolve the home and the configuration directory from the environment's values.
    pub fn resolve(
        platform: Platform,
        home: Option<String>,
        xdg: Option<String>,
        appdata: Option<String>,
    ) -> (r: Result<Locations, SetupError>)
        ensures
            match locations_spec(platform, opt_view(home), opt_view(xdg), opt_view(appdata)) {
                Ok((h, c)) => r matches Ok(l) && l.home@ == h && l.config@ == c,
                Err(e) => r == Err::<Locations, SetupError>(e),
            },
    {
        let home = match home {
            Some(h) => h,
            None => {
                return Err(SetupError::MissingHome);
            },
        };
        if home.as_str().is_empty() {
            return Err(SetupError::MissingHome);
        }
        if !path_is_absolute(platform, home.as_str()) {
            return Err(SetupError::RelativeHome);
        }
        let xdg = match xdg {
            Some(x) => if x.as_str().is_empty() {
                None
            } else {
                Some(x)
            },
            None => None,
        };
        let config = match xdg {
            Some(x) => x,
            None => match platform {
                Platform::Windows => {
                    let appdata = match appdata {
                        Some(a) => if a.as_str().is_empty() {
                            None
                        } else {
                            Some(a)
                        },
                        None => None,
                    };
                    match appdata {
                        Some(a) => a,
                        None => join_path_on(platform, home.as_str(), "AppData/Roaming"),
                    }
                },
                Platform::MacOs => join_path_on(
                    platform,
                    home.as_str(),
                    "Library/Application Support",
                ),
                Platform::Unix => join_path_on(platform, home.as_str(), ".config"),
            },
        };
        if !path_is_absolute(platform, config.as_str()) {
            return Err(SetupError::RelativeConfig);
        }
        Ok(Locations { home, config })
    }
}

/// `s` with each `from` replaced by `to`.
pub open spec fn replace_char(s: Seq<char>, from: char, to: Seq<char>) -> Seq<char>
    decreases s.len(),
{
    if s.len() == 0 {
        Seq::empty()
    } else if s.last() == from {
        replace_char(s.drop_last(), from, to) + to
    } else {
        replace_char(s.drop_last(), from, to).push(s.last())
    }
}

/// The characters of `s` with each `from` replaced by `to`.
pub fn replaced(s: &str, from: char, to: &str) -> (r: String)
    ensures
        r@ == replace_char(s@, from, to@),
{
    let v = chars_of(s);
    let t = chars_of(to);
    let mut out: Vec<char> = Vec::new();
    let mut i: usize = 0;
    while i < v.len()
        invariant
            i <= v@.len(),
            v@ == s@,
            t@ == to@,
            out@ == replace_char(v@.take(i as int), from, t@),
        decreases v.len() - i,
    {
        assert(v@.take(i as int + 1).drop_last() =~= v@.take(i as int));
        if v[i] == from {
            extend_chars(&mut out, &t);
        } else {
            out.push(v[i]);
        }
        i = i + 1;
    }
    assert(v@.take(i as int) =~= v@);
    string_of(&out)
}

/// A path as completion scripts name it: no control characters, and on Windows forward
/// slashes in place of backslashes.
pub open spec fn path_text_spec(path: Seq<char>, windows: bool) -> Result<Seq<char>, SetupError> {
    if exists|i: int| 0 <= i < path.len() && is_control(#[trigger] path[i]) {
        Err(SetupError::ControlCharacterInPath)
    } else if windows {
        Ok(replace_char(path, '\\', "/"@))
    } else {
        Ok(path)
    }
}

/// Write a path as completion scripts name it.
pub fn path_text(path: &str, windows: bool) -> (r: Result<String, SetupError>)
    ensures
        text_result(r) == path_text_spec(path@, windows),
{
    let v = chars_of(path);
    let mut i: usize = 0;
    while i < v.len()
        invariant
            i <= v@.len(),
            v@ == path@,
            forall|k: int| 0 <= k < i ==> !is_control(#[trigger] v@[k]),
        decreases v.len() - i,
    {
        if char_is_control(v[i]) {
            return Err(SetupError::ControlCharacterInPath);
        }
        i = i + 1;
    }
    if windows {
        Ok(replaced(path, '\\', "/"))
    } else {
        Ok(copy_string(path))
    }
}

/// The source line that loads the Bash script from `script`, quoted for the shell, only in
/// interactive Bash sessions.
pub open spec fn bash_body(script: Seq<char>) -> Seq<char> {
    "if [ -n \"${BASH_VERSION-}\" ]; then\n    case $- in\n        *i*) . "@ + "'"@
        + replace_char(script, '\'', "'\\''"@) + "'"@ + " ;;\n    esac\nfi"@
}

/// The block body that sources the Bash completion script.
pub fn bash_source(script: &str) -> (r: String)
    ensures
        r@ == bash_body(script@),
{
    let quoted = replaced(script, '\'', "'\\''");
    let r = concat("if [ -n \"${BASH_VERSION-}\" ]; then\n    case $- in\n        *i*) . ", "'");
    let r = concat(r.as_str(), quoted.as_str());
    let r = concat(r.as_str(), "'");
    concat(r.as_str(), " ;;\n    esac\nfi")
}

/// A hexadecimal digit, in lower case.
pub open spec fn hex_digit(n: int) -> char {
    if n == 0 {
        '0'
    } else if n == 1 {
        '1'
    } else if n == 2 {
        '2'
    } else if n == 3 {
        '3'
    } else if n == 4 {
        '4'
    } else if n == 5 {
        '5'
    } else if n == 6 {
        '6'
    } else if n == 7 {
        '7'
    } else if n == 8 {
        '8'
    } else if n == 9 {
        '9'
    } else if n == 10 {
        'a'
    } else if n == 11 {
        'b'
    } else if n == 12 {
        'c'
    } else if n == 13 {
        'd'
    } else if n == 14 {
        'e'
    } else {
        'f'
    }
}

/// How a character is written inside a JSON string: `"` and `\` behind a backslash, the
/// control characters below U+0020 as `\b`, `\t`, `\n`, `\f`, `\r` or `\u00` and two
/// lower-case hexadecimal digits, every other character as it is.
pub open spec fn json_char(c: char) -> Seq<char> {
    if c == '"' {
        seq!['\\', '"']
    } else if c == '\\' {
        seq!['\\', '\\']
    } else if c == '\u{8}' {
        seq!['\\', 'b']
    } else if c == '\t' {
        seq!['\\', 't']
    } else if c == '\n' {
        seq!['\\', 'n']
    } else if c == '\u{c}' {
        seq!['\\', 'f']
    } else if c == '\r' {
        seq!['\\', 'r']
    } else if (c as u32) < 0x20 {
        seq!['\\', 'u', '0', '0', hex_digit((c as u32) as int / 16), hex_digit((c as u32) as int % 16)]
    } else {
        seq![c]
    }
}

/// The characters of a text as a JSON string writes them.
pub open spec fn json_escaped(text: Seq<char>) -> Seq<char>
    decreases text.len(),
{
    if text.len() == 0 {
        Seq::empty()
    } else {
        json_escaped(text.drop_last()) + json_char(text.last())
    }
}

/// The JSON string literal that `serde_json` writes for a text: the escaped text between
/// double quotes. Writing a string into memory does not fail.
pub open spec fn json_string_of(text: Seq<char>) -> Option<Seq<char>> {
    Some(seq!['"'] + json_escaped(text) + seq!['"'])
}

proof fn lemma_json_char_no_break(c: char)
    ensures
        forall|k: int|
            0 <= k < json_char(c).len() ==> json_char(c)[k] != '\r' && json_char(c)[k] != '\n',
{
}

proof fn lemma_json_no_break(t: Seq<char>)
    ensures
        forall|k: int|
            0 <= k < json_escaped(t).len() ==> json_escaped(t)[k] != '\r' && json_escaped(t)[k]
                != '\n',
    decreases t.len(),
{
    if t.len() > 0 {
        lemma_json_no_break(t.drop_last());
        lemma_json_char_no_break(t.last());
        let a = json_escaped(t.drop_last());
        let b = json_char(t.last());
        assert forall|k: int| 0 <= k < (a + b).len() implies (a + b)[k] != '\r' && (a + b)[k]
            != '\n' by {
            if k < a.len() {
                assert((a + b)[k] == a[k]);
            } else {
                assert((a + b)[k] == b[k - a.len()]);
            }
        }
    }
}

proof fn lemma_last_line_whole(s: Seq<char>)
    requires
        forall|k: int| 0 <= k < s.len() ==> s[k] != '\n',
    ensures
        last_line(s) == s,
    decreases s.len(),
{
    if s.len() > 0 {
        lemma_last_line_whole(s.drop_last());
        assert(s.drop_last().push(s.last()) =~= s);
    }
}

/// The body of the Nushell block is one line, `source` and a JSON string, which holds no
/// line break and no carriage return: it can stand in a managed block as is.
pub proof fn lemma_nushell_body_plain(path: Seq<char>)
    ensures
        plain_body("source "@ + json_string_of(path)->0),
{
    reveal_strlit("source ");
    reveal_strlit("# >>> voci completions >>>");
    reveal_strlit("# <<< voci completions <<<");
    let e = json_escaped(path);
    let body = "source "@ + (seq!['"'] + e + seq!['"']);
    lemma_json_no_break(path);
    assert forall|k: int| 0 <= k < body.len() implies body[k] != '\r' && body[k] != '\n' by {
        if k >= 8 && k < 8 + e.len() {
            assert(body[k] == e[k - 8]);
        }
    }
    assert forall|i: int|
        0 <= i <= body.len() && (i == body.len() || body[i] == '\n') implies #[trigger] last_line(
        body.take(i),
    ) != begin_marker() && last_line(body.take(i)) != end_marker() by {
        assert(i == body.len());
        assert(body.take(i) =~= body);
        lemma_last_line_whole(body);
        assert(body[0] == 's');
        assert(begin_marker()[0] == '#');
        assert(end_marker()[0] == '#');
    }
}

/// Setting up the Nushell block twice gives what setting it up once gave, for any path of
/// the completion script: the second run finds the block that the first wrote and keeps the
/// same user lines. This holds for existing text that uses CRLF line endings or does not end
/// in a lone carriage return.
pub proof fn lemma_nushell_block_idempotent(existing: Seq<char>, path: Seq<char>)
    requires
        source_block_spec(existing, "source "@ + json_string_of(path)->0) is Ok,
        has_crlf(existing) || existing.len() == 0 || existing.last() != '\r',
    ensures
        ({
            let body = "source "@ + json_string_of(path)->0;
            source_block_spec(source_block_spec(existing, body)->Ok_0, body) == source_block_spec(
                existing,
                body,
            )
        }),
{
    lemma_nushell_body_plain(path);
    lemma_source_block_idempotent(existing, "source "@ + json_string_of(path)->0);
}

/// A text without line feeds and carriage returns.
pub open spec fn unbroken(s: Seq<char>) -> bool {
    forall|k: int| 0 <= k < s.len() ==> s[k] != '\n' && s[k] != '\r'
}

proof fn lemma_replace_unbroken(s: Seq<char>, from: char, to: Seq<char>)
    requires
        unbroken(s),
        unbroken(to),
    ensures
        unbroken(replace_char(s, from, to)),
    decreases s.len(),
{
    if s.len() > 0 {
        lemma_replace_unbroken(s.drop_last(), from, to);
        let a = replace_char(s.drop_last(), from, to);
        let b = if s.last() == from {
            to
        } else {
            seq![s.last()]
        };
        assert(replace_char(s, from, to) =~= a + b);
        assert forall|k: int| 0 <= k < (a + b).len() implies (a + b)[k] != '\n' && (a + b)[k]
            != '\r' by {
            if k < a.len() {
                assert((a + b)[k] == a[k]);
            } else {
                assert((a + b)[k] == b[k - a.len()]);
            }
        }
    }
}

proof fn lemma_last_line_after_break(a: Seq<char>, b: Seq<char>)
    ensures
        last_line(a + seq!['\n'] + b) == last_line(b),
    decreases b.len(),
{
    if b.len() == 0 {
        assert(a + seq!['\n'] + b =~= a.push('\n'));
        assert((a + seq!['\n'] + b).drop_last() =~= a);
    } else {
        lemma_last_line_after_break(a, b.drop_last());
        assert((a + seq!['\n'] + b).drop_last() =~= a + seq!['\n'] + b.drop_last());
    }
}

/// One line that is not a marker line: without line breaks, and not starting with `#`.
pub open spec fn plain_line(line: Seq<char>) -> bool {
    unbroken(line) && line.len() > 0 && line[0] != '#'
}

proof fn lemma_plain_line(line: Seq<char>)
    requires
        plain_line(line),
    ensures
        plain_body(line),
{
    reveal_strlit("# >>> voci completions >>>");
    reveal_strlit("# <<< voci completions <<<");
    assert forall|i: int|
        0 <= i <= line.len() && (i == line.len() || line[i] == '\n') implies #[trigger] last_line(
        line.take(i),
    ) != begin_marker() && last_line(line.take(i)) != end_marker() by {
        assert(line.take(i) =~= line);
        lemma_last_line_whole(line);
        assert(begin_marker()[0] == '#');
        assert(end_marker()[0] == '#');
    }
}

proof fn lemma_plain_lines(line: Seq<char>, rest: Seq<char>)
    requires
        plain_line(line),
        plain_body(rest),
    ensures
        plain_body(line + seq!['\n'] + rest),
{
    reveal_strlit("# >>> voci completions >>>");
    reveal_strlit("# <<< voci completions <<<");
    let body = line + seq!['\n'] + rest;
    let n = line.len() + 1;
    assert forall|k: int| 0 <= k < body.len() implies body[k] != '\r' by {
        if k >= n {
            assert(body[k] == rest[k - n]);
        }
    }
    assert forall|i: int|
        0 <= i <= body.len() && (i == body.len() || body[i] == '\n') implies #[trigger] last_line(
        body.take(i),
    ) != begin_marker() && last_line(body.take(i)) != end_marker() by {
        if i < n - 1 {
            assert(body[i] == line[i]);
        } else if i == n - 1 {
            assert(body.take(i) =~= line);
            lemma_last_line_whole(line);
        } else {
            let j = i - n;
            assert(body.take(i) =~= line + seq!['\n'] + rest.take(j));
            lemma_last_line_after_break(line, rest.take(j));
            if j < rest.len() {
                assert(body[i] == rest[j]);
            }
            assert(last_line(rest.take(j)) != begin_marker() && last_line(rest.take(j))
                != end_marker());
        }
    }
}

/// The body of the Bash block can stand in a managed block as is, for a script path without
/// line breaks: none of its lines starts with `#`.
pub proof fn lemma_bash_body_plain(script: Seq<char>)
    requires
        unbroken(script),
    ensures
        plain_body(bash_body(script)),
{
    reveal_strlit("if [ -n \"${BASH_VERSION-}\" ]; then\n    case $- in\n        *i*) . ");
    reveal_strlit("'");
    reveal_strlit("'\\''");
    reveal_strlit(" ;;\n    esac\nfi");
    reveal_strlit("if [ -n \"${BASH_VERSION-}\" ]; then");
    reveal_strlit("    case $- in");
    reveal_strlit("        *i*) . '");
    reveal_strlit("' ;;");
    reveal_strlit("    esac");
    reveal_strlit("fi");
    let q = replace_char(script, '\'', "'\\''"@);
    lemma_replace_unbroken(script, '\'', "'\\''"@);
    let l1 = "if [ -n \"${BASH_VERSION-}\" ]; then"@;
    let l2 = "    case $- in"@;
    let l3 = "        *i*) . '"@ + q + "' ;;"@;
    let l4 = "    esac"@;
    let l5 = "fi"@;
    assert(unbroken(l3)) by {
        let a = "        *i*) . '"@;
        let c = "' ;;"@;
        assert forall|k: int| 0 <= k < l3.len() implies l3[k] != '\n' && l3[k] != '\r' by {
            if k < a.len() {
                assert(l3[k] == a[k]);
            } else if k < a.len() + q.len() {
                assert(l3[k] == q[k - a.len()]);
            } else {
                assert(l3[k] == c[k - a.len() - q.len()]);
            }
        }
    }
    assert(l3[0] == ' ');
    lemma_plain_line(l5);
    lemma_plain_lines(l4, l5);
    lemma_plain_lines(l3, l4 + seq!['\n'] + l5);
    lemma_plain_lines(l2, l3 + seq!['\n'] + (l4 + seq!['\n'] + l5));
    lemma_plain_lines(l1, l2 + seq!['\n'] + (l3 + seq!['\n'] + (l4 + seq!['\n'] + l5)));
    assert(bash_body(script) =~= l1 + seq!['\n'] + (l2 + seq!['\n'] + (l3 + seq!['\n'] + (l4
        + seq!['\n'] + l5))));
}

/// Setting up the Bash block twice gives what setting it up once gave, for a script path
/// without line breaks: the second run finds the block that the first wrote and keeps the
/// same user lines. This holds for existing text that uses CRLF line endings or does not end
/// in a lone carriage return.
pub proof fn lemma_bash_block_idempotent(existing: Seq<char>, script: Seq<char>)
    requires
        unbroken(script),
        source_block_spec(existing, bash_body(script)) is Ok,
        has_crlf(existing) || existing.len() == 0 || existing.last() != '\r',
    ensures
        source_block_spec(source_block_spec(existing, bash_body(script))->Ok_0, bash_body(script))
            == source_block_spec(existing, bash_body(script)),
{
    lemma_bash_body_plain(script);
    lemma_source_block_idempotent(existing, bash_body(script));
}

/// Calls `serde_json::to_string` on a string. The contract states what its source
/// (`format_escaped_str` and its `ESCAPE` table) writes: the text between double quotes,
/// with `"`, `\` and the control characters below U+0020 escaped, and that serializing a
/// string into memory does not fail.
#[verifier::external_body]
fn json_string(text: &str) -> (r: Option<String>)
    ensures
        opt_view(r) == json_string_of(text@),
{
    serde_json::to_string(text).ok()
}

/// The block body that sources the Nushell completion script.
pub fn nushell_source(script: &str) -> (r: Result<String, SetupError>)
    ensures
        match json_string_of(script@) {
            Some(j) => r matches Ok(s) && s@ == "source "@ + j,
            None => r == Err::<String, SetupError>(SetupError::Encoding),
        },
{
    match json_string(script) {
        Some(j) => Ok(concat("source ", j.as_str())),
        None => Err(SetupError::Encoding),
    }
}

/// The start-up files that Bash may read at login, in the order it tries them.
pub open spec fn login_names() -> Seq<Seq<char>> {
    seq![".bash_profile"@, ".bash_login"@, ".profile"@]
}

/// The login file to update: the first that exists, else `.bash_profile`.
pub open spec fn login_choice(exists: Seq<bool>) -> int {
    if exists.len() > 0 && exists[0] {
        0
    } else if exists.len() > 1 && exists[1] {
        1
    } else if exists.len() > 2 && exists[2] {
        2
    } else {
        0
    }
}

/// Which of `.bash_profile`, `.bash_login` and `.profile` to update, given which of them
/// exist: the first that does, else `.bash_profile`.
pub fn login_file(exists: &Vec<bool>) -> (r: usize)
    ensures
        r == login_choice(exists@),
        r < 3,
{
    if exists.len() > 0 && exists[0] {
        0
    } else if exists.len() > 1 && exists[1] {
        1
    } else if exists.len() > 2 && exists[2] {
        2
    } else {
        0
    }
}

} // verus!

verus! {

/// What setup reads before it plans: the packaged completion scripts, which login files
/// exist, and the start-up files as they are now (empty where a file is absent).
pub struct SetupInputs {
    pub bash_script: String,
    pub nushell_script: String,
    pub bashrc: String,
    /// Whether `.bash_profile`, `.bash_login` and `.profile` exist, in that order.
    pub login_exists: Vec<bool>,
    /// The text of the login file that `login_file` chose.
    pub login: String,
    pub nushell_config: String,
}

/// A file that setup writes: its path and its new contents.
pub struct PlannedFile {
    pub path: String,
    pub contents: String,
}

/// The value of a planned file.
pub open spec fn planned_view(f: PlannedFile) -> (Seq<char>, Seq<char>) {
    (f.path@, f.contents@)
}

/// The values of planned files.
pub open spec fn planned_views(v: Seq<PlannedFile>) -> Seq<(Seq<char>, Seq<char>)> {
    v.map_values(|f: PlannedFile| planned_view(f))
}

/// The directory that holds the completion scripts.
pub open spec fn scripts_dir(platform: Platform, config: Seq<char>) -> Seq<char> {
    join_on(platform, config, "voci/completions"@)
}

/// The Bash files: the script, then `.bashrc` and the login file with a managed block that
/// sources it.
pub open spec fn bash_plan(
    platform: Platform,
    home: Seq<char>,
    config: Seq<char>,
    bash_script: Seq<char>,
    bashrc: Seq<char>,
    login_exists: Seq<bool>,
    login: Seq<char>,
) -> Result<Seq<(Seq<char>, Seq<char>)>, SetupError> {
    let script = join_on(platform, scripts_dir(platform, config), "voci.bash"@);
    match path_text_spec(script, platform == Platform::Windows) {
        Err(e) => Err(e),
        Ok(text) => {
            let body = bash_body(text);
            match source_block_spec(bashrc, body) {
                Err(e) => Err(e),
                Ok(rc) => match source_block_spec(login, body) {
                    Err(e) => Err(e),
                    Ok(lg) => Ok(
                        seq![
                            (script, bash_script),
                            (join_on(platform, home, ".bashrc"@), rc),
                            (join_on(platform, home, login_names()[login_choice(login_exists)]), lg),
                        ],
                    ),
                },
            }
        },
    }
}

/// The Nushell files: the script, then `nushell/config.nu` with a managed block that sources
/// it.
pub open spec fn nushell_plan(
    platform: Platform,
    config: Seq<char>,
    nushell_script: Seq<char>,
    nushell_config: Seq<char>,
) -> Result<Seq<(Seq<char>, Seq<char>)>, SetupError> {
    let script = join_on(platform, scripts_dir(platform, config), "voci.nu"@);
    match path_text_spec(script, platform == Platform::Windows) {
        Err(e) => Err(e),
        Ok(text) => match json_string_of(text) {
            None => Err(SetupError::Encoding),
            Some(j) => match source_block_spec(nushell_config, "source "@ + j) {
                Err(e) => Err(e),
                Ok(nu) => Ok(
                    seq![
                        (script, nushell_script),
                        (join_on(platform, config, "nushell/config.nu"@), nu),
                    ],
                ),
            },
        },
    }
}

/// Every file that setup writes for the selected shell, or for both shells where none is
/// selected; nothing is planned where any managed block cannot be updated.
pub open spec fn setup_plan(
    platform: Platform,
    home: Seq<char>,
    config: Seq<char>,
    shell: Option<Shell>,
    bash_script: Seq<char>,
    nushell_script: Seq<char>,
    bashrc: Seq<char>,
    login_exists: Seq<bool>,
    login: Seq<char>,
    nushell_config: Seq<char>,
) -> Result<Seq<(Seq<char>, Seq<char>)>, SetupError> {
    let bash = if shell is None || shell == Some(Shell::Bash) {
        bash_plan(platform, home, config, bash_script, bashrc, login_exists, login)
    } else {
        Ok(Seq::empty())
    };
    match bash {
        Err(e) => Err(e),
        Ok(b) => if shell is None || shell == Some(Shell::Nushell) {
            match nushell_plan(platform, config, nushell_script, nushell_config) {
                Err(e) => Err(e),
                Ok(n) => Ok(b + n),
            }
        } else {
            Ok(b)
        },
    }
}

/// Text that ends in a carriage return only as part of its CRLF line endings.
pub open spec fn settled_ending(text: Seq<char>) -> bool {
    has_crlf(text) || text.len() == 0 || text.last() != '\r'
}

/// Planning the Bash files again over what the plan wrote plans the same files: the Bash
/// start-up files already hold the block, and the user's lines stay as they are. This holds
/// for a script path without line breaks and start-up files that end in a carriage return
/// only as part of CRLF line endings.
pub proof fn lemma_bash_plan_idempotent(
    platform: Platform,
    home: Seq<char>,
    config: Seq<char>,
    bash_script: Seq<char>,
    bashrc: Seq<char>,
    login_exists: Seq<bool>,
    login: Seq<char>,
)
    requires
        bash_plan(platform, home, config, bash_script, bashrc, login_exists, login) is Ok,
        path_text_spec(
            join_on(platform, scripts_dir(platform, config), "voci.bash"@),
            platform == Platform::Windows,
        ) matches Ok(t) ==> unbroken(t),
        settled_ending(bashrc),
        settled_ending(login),
    ensures
        ({
            let files = bash_plan(platform, home, config, bash_script, bashrc, login_exists, login)->Ok_0;
            bash_plan(platform, home, config, bash_script, files[1].1, login_exists, files[2].1)
                == Ok::<Seq<(Seq<char>, Seq<char>)>, SetupError>(files)
        }),
{
    let script = join_on(platform, scripts_dir(platform, config), "voci.bash"@);
    match path_text_spec(script, platform == Platform::Windows) {
        Ok(text) => {
            lemma_bash_block_idempotent(bashrc, text);
            lemma_bash_block_idempotent(login, text);
        },
        Err(_) => {},
    }
}

/// Planning the Nushell files again over what the plan wrote plans the same files, for a
/// Nushell configuration that ends in a carriage return only as part of CRLF line endings.
pub proof fn lemma_nushell_plan_idempotent(
    platform: Platform,
    config: Seq<char>,
    nushell_script: Seq<char>,
    nushell_config: Seq<char>,
)
    requires
        nushell_plan(platform, config, nushell_script, nushell_config) is Ok,
        settled_ending(nushell_config),
    ensures
        ({
            let files = nushell_plan(platform, config, nushell_script, nushell_config)->Ok_0;
            nushell_plan(platform, config, nushell_script, files[1].1)
                == Ok::<Seq<(Seq<char>, Seq<char>)>, SetupError>(files)
        }),
{
    let script = join_on(platform, scripts_dir(platform, config), "voci.nu"@);
    match path_text_spec(script, platform == Platform::Windows) {
        Ok(text) => {
            lemma_nushell_block_idempotent(nushell_config, text);
        },
        Err(_) => {},
    }
}

/// Setting up both shells twice plans the same files the second time: every start-up file
/// already holds its block and keeps the user's lines. This holds for a Bash script path
/// without line breaks and start-up files that end in a carriage return only as part of
/// CRLF line endings.
pub proof fn lemma_setup_plan_idempotent(
    platform: Platform,
    home: Seq<char>,
    config: Seq<char>,
    bash_script: Seq<char>,
    nushell_script: Seq<char>,
    bashrc: Seq<char>,
    login_exists: Seq<bool>,
    login: Seq<char>,
    nushell_config: Seq<char>,
)
    requires
        setup_plan(
            platform,
            home,
            config,
            None,
            bash_script,
            nushell_script,
            bashrc,
            login_exists,
            login,
            nushell_config,
        ) is Ok,
        path_text_spec(
            join_on(platform, scripts_dir(platform, config), "voci.bash"@),
            platform == Platform::Windows,
        ) matches Ok(t) ==> unbroken(t),
        settled_ending(bashrc),
        settled_ending(login),
        settled_ending(nushell_config),
    ensures
        ({
            let files = setup_plan(
                platform,
                home,
                config,
                None,
                bash_script,
                nushell_script,
                bashrc,
                login_exists,
                login,
                nushell_config,
            )->Ok_0;
            setup_plan(
                platform,
                home,
                config,
                None,
                bash_script,
                nushell_script,
                files[1].1,
                login_exists,
                files[2].1,
                files[4].1,
            ) == Ok::<Seq<(Seq<char>, Seq<char>)>, SetupError>(files)
        }),
{
    let b = bash_plan(platform, home, config, bash_script, bashrc, login_exists, login)->Ok_0;
    let n = nushell_plan(platform, config, nushell_script, nushell_config)->Ok_0;
    lemma_bash_plan_idempotent(platform, home, config, bash_script, bashrc, login_exists, login);
    lemma_nushell_plan_idempotent(platform, config, nushell_script, nushell_config);
    let files = b + n;
    assert(files[1] == b[1] && files[2] == b[2] && files[4] == n[1]);
}

/// Plan every file that setup writes. Each managed block is checked before any file is
/// written.
pub fn plan(
    platform: Platform,
    locations: &Locations,
    shell: Option<Shell>,
    inputs: &SetupInputs,
) -> (r: Result<Vec<PlannedFile>, SetupError>)
    ensures
        match setup_plan(
            platform,
            locations.home@,
            locations.config@,
            shell,
            inputs.bash_script@,
            inputs.nushell_script@,
            inputs.bashrc@,
            inputs.login_exists@,
            inputs.login@,
            inputs.nushell_config@,
        ) {
            Ok(files) => r matches Ok(v) && planned_views(v@) == files,
            Err(e) => r matches Err(f) && f == e,
        },
{
    let windows = match platform {
        Platform::Windows => true,
        _ => false,
    };
    let scripts = join_path_on(platform, locations.config.as_str(), "voci/completions");
    let mut files: Vec<PlannedFile> = Vec::new();
    let with_bash = match shell {
        None => true,
        Some(Shell::Bash) => true,
        Some(Shell::Nushell) => false,
    };
    let with_nushell = match shell {
        None => true,
        Some(Shell::Nushell) => true,
        Some(Shell::Bash) => false,
    };
    if with_bash {
        let script = join_path_on(platform, scripts.as_str(), "voci.bash");
        let text = match path_text(script.as_str(), windows) {
            Ok(t) => t,
            Err(e) => {
                return Err(e);
            },
        };
        let body = bash_source(text.as_str());
        let rc = match source_block(inputs.bashrc.as_str(), body.as_str()) {
            Ok(t) => t,
            Err(e) => {
                return Err(e);
            },
        };
        let lg = match source_block(inputs.login.as_str(), body.as_str()) {
            Ok(t) => t,
            Err(e) => {
                return Err(e);
            },
        };
        let index = login_file(&inputs.login_exists);
        let name = if index == 0 {
            ".bash_profile"
        } else if index == 1 {
            ".bash_login"
        } else {
            ".profile"
        };
        proof {
            reveal_strlit(".bash_profile");
            reveal_strlit(".bash_login");
            reveal_strlit(".profile");
        }
        assert(name@ == login_names()[login_choice(inputs.login_exists@)]);
        files.push(PlannedFile { path: script, contents: inputs.bash_script.clone() });
        files.push(
            PlannedFile {
                path: join_path_on(platform, locations.home.as_str(), ".bashrc"),
                contents: rc,
            },
        );
        files.push(
            PlannedFile {
                path: join_path_on(platform, locations.home.as_str(), name),
                contents: lg,
            },
        );
    }
    let ghost bash_part = planned_views(files@);
    if with_nushell {
        let script = join_path_on(platform, scripts.as_str(), "voci.nu");
        let text = match path_text(script.as_str(), windows) {
            Ok(t) => t,
            Err(e) => {
                return Err(e);
            },
        };
        let body = match nushell_source(text.as_str()) {
            Ok(b) => b,
            Err(e) => {
                return Err(e);
            },
        };
        let nu = match source_block(inputs.nushell_config.as_str(), body.as_str()) {
            Ok(t) => t,
            Err(e) => {
                return Err(e);
            },
        };
        files.push(PlannedFile { path: script, contents: inputs.nushell_script.clone() });
        files.push(
            PlannedFile {
                path: join_path_on(platform, locations.config.as_str(), "nushell/config.nu"),
                contents: nu,
            },
        );
        assert(planned_views(files@) =~= bash_part + planned_views(files@).subrange(
            bash_part.len() as int,
            files@.len() as int,
        ));
    }
    Ok(files)
}

/// Everything that setup writes, from the environment's values (the home, then
/// `XDG_CONFIG_HOME` and `APPDATA`) and what was read at the locations they give. Nothing is
/// planned where the locations or any managed block cannot be used.
pub fn setup(
    platform: Platform,
    home: Option<String>,
    xdg: Option<String>,
    appdata: Option<String>,
    shell: Option<Shell>,
    inputs: &SetupInputs,
) -> (r: Result<Vec<PlannedFile>, SetupError>)
    ensures
        match locations_spec(platform, opt_view(home), opt_view(xdg), opt_view(appdata)) {
            Err(e) => r matches Err(f) && f == e,
            Ok((h, c)) => match setup_plan(
                platform,
                h,
                c,
                shell,
                inputs.bash_script@,
                inputs.nushell_script@,
                inputs.bashrc@,
                inputs.login_exists@,
                inputs.login@,
                inputs.nushell_config@,
            ) {
                Ok(files) => r matches Ok(v) && planned_views(v@) == files,
                Err(e) => r matches Err(f) && f == e,
            },
        },
{
    let locations = match Locations::resolve(platform, home, xdg, appdata) {
        Ok(l) => l,
        Err(e) => {
            return Err(e);
        },
    };
    plan(platform, &locations, shell, inputs)
}

} // verus!
