//! Log-syntax colouring of terminal lines: timestamps, level words and JSON
//! literals found by a regular expression are painted over the base text runs,
//! splitting runs where a highlight starts or stops and merging neighbours that
//! end up looking the same.

use vstd::prelude::*;
use vstd::string::StringSliceAdditionalSpecFns;
use crate::ssh::terminal::{TextRun, runs_len, lemma_runs_len_concat, lemma_runs_len_take};

verus! {

/// The colours a highlight paints with, one per kind of match.
#[derive(Debug, Clone, Copy, PartialEq, Eq, Structural)]
pub struct HighlightPalette {
    pub timestamp: u32,
    pub error: u32,
    pub warn: u32,
    pub info: u32,
    pub debug: u32,
    pub value: u32,
}

impl HighlightPalette {
    /// The colour of highlight kind `id` (1 = timestamp … 6 = value).
    pub open spec fn spec_color(self, id: u8) -> u32 {
        if id == 1 {
            self.timestamp
        } else if id == 2 {
            self.error
        } else if id == 3 {
            self.warn
        } else if id == 4 {
            self.info
        } else if id == 5 {
            self.debug
        } else {
            self.value
        }
    }

    pub fn color(&self, id: u8) -> (c: u32)
        ensures
            c == self.spec_color(id),
    {
        if id == 1 {
            self.timestamp
        } else if id == 2 {
            self.error
        } else if id == 3 {
            self.warn
        } else if id == 4 {
            self.info
        } else if id == 5 {
            self.debug
        } else {
            self.value
        }
    }
}

/// What one match captured: the whole match's byte span first, then the span
/// of each named group (`None` where the group took no part).
pub open spec fn whole_span(c: Seq<Option<(usize, usize)>>) -> (usize, usize) {
    c[0]->0
}

/// The first named group, searching from position `k`, whose span is the whole
/// match; 0 when there is none. Only the six highlight kinds count.
pub open spec fn winning_group_from(c: Seq<Option<(usize, usize)>>, k: int) -> int
    decreases c.len() - k,
{
    if k >= c.len() || k > 6 || k < 1 {
        0
    } else if c[k] is Some && c[k] == c[0] {
        k
    } else {
        winning_group_from(c, k + 1)
    }
}

pub open spec fn winning_group(c: Seq<Option<(usize, usize)>>) -> int {
    winning_group_from(c, 1)
}

/// Every capture has its whole-match span, inside the first `n` bytes.
pub open spec fn captures_well_formed(caps: Seq<Seq<Option<(usize, usize)>>>, n: nat) -> bool {
    forall|i: int|
        0 <= i < caps.len() ==> {
            &&& #[trigger] caps[i].len() >= 1
            &&& caps[i][0] is Some
            &&& whole_span(caps[i]).0 <= whole_span(caps[i]).1 <= n
        }
}

/// `m` with bytes `s..e` set to `id`.
pub open spec fn paint(m: Seq<u8>, s: int, e: int, id: u8) -> Seq<u8> {
    Seq::new(m.len(), |i: int| if s <= i < e { id } else { m[i] })
}

/// The highlight kind of each of the first `n` bytes after painting the
/// matches in order (a later match paints over an earlier one); 0 is none.
pub open spec fn highlight_marks(caps: Seq<Seq<Option<(usize, usize)>>>, n: nat) -> Seq<u8>
    decreases caps.len(),
{
    if caps.len() == 0 {
        Seq::new(n, |i: int| 0u8)
    } else {
        let prev = highlight_marks(caps.drop_last(), n);
        let c = caps.last();
        let k = winning_group(c);
        if k == 0 {
            prev
        } else {
            paint(prev, whole_span(c).0 as int, whole_span(c).1 as int, k as u8)
        }
    }
}

/// The mark of byte `i`; bytes past the text are unmarked.
pub open spec fn mark_at(m: Seq<u8>, i: int) -> u8 {
    if 0 <= i < m.len() {
        m[i]
    } else {
        0
    }
}

/// The piece of run `r` covering bytes `a..b`, coloured by the mark of `a`.
pub open spec fn segment(r: TextRun, m: Seq<u8>, p: HighlightPalette, a: int, b: int) -> TextRun {
    let id = mark_at(m, a);
    TextRun { len: (b - a) as usize, color: if id == 0 { r.color } else { p.spec_color(id) }, ..r }
}

/// The pieces of `r` from the open piece starting at `seg`, having looked at
/// every byte before `off`, up to the run's end `end`: a new piece starts
/// wherever the mark changes.
pub open spec fn split_from(r: TextRun, m: Seq<u8>, p: HighlightPalette, seg: int, off: int, end: int) -> Seq<
    TextRun,
>
    decreases end - off,
{
    if off >= end {
        seq![segment(r, m, p, seg, end)]
    } else if mark_at(m, off) != mark_at(m, seg) {
        seq![segment(r, m, p, seg, off)] + split_from(r, m, p, off, off + 1, end)
    } else {
        split_from(r, m, p, seg, off + 1, end)
    }
}

/// The pieces of run `r`, which starts at byte `start`.
pub open spec fn split_run(r: TextRun, m: Seq<u8>, p: HighlightPalette, start: int) -> Seq<TextRun> {
    split_from(r, m, p, start, start + 1, start + r.len)
}

pub open spec fn split_runs(runs: Seq<TextRun>, m: Seq<u8>, p: HighlightPalette) -> Seq<TextRun>
    decreases runs.len(),
{
    if runs.len() == 0 {
        Seq::empty()
    } else {
        split_runs(runs.drop_last(), m, p) + split_run(runs.last(), m, p, runs_len(runs.drop_last()) as int)
    }
}

/// Two runs that look the same: everything but the length agrees.
pub open spec fn same_look(a: TextRun, b: TextRun) -> bool {
    a.color == b.color && a.background == b.background && a.style == b.style
}

/// Left to right: an empty run after the first is dropped, and a run that looks
/// like the one kept before it is merged into it.
pub open spec fn merge_runs(s: Seq<TextRun>) -> Seq<TextRun>
    decreases s.len(),
{
    if s.len() == 0 {
        Seq::empty()
    } else {
        let prev = merge_runs(s.drop_last());
        let a = s.last();
        if prev.len() == 0 {
            seq![a]
        } else if a.len == 0 {
            prev
        } else if same_look(prev.last(), a) {
            prev.update(prev.len() - 1, TextRun { len: (prev.last().len + a.len) as usize, ..prev.last() })
        } else {
            prev.push(a)
        }
    }
}

pub open spec fn non_empty_runs(s: Seq<TextRun>) -> Seq<TextRun> {
    s.filter(|r: TextRun| r.len > 0)
}

/// The runs of a line of `n` bytes after painting the captured matches: the
/// runs unchanged when nothing matched.
pub open spec fn spec_highlight_runs(
    n: nat,
    runs: Seq<TextRun>,
    caps: Seq<Seq<Option<(usize, usize)>>>,
    p: HighlightPalette,
) -> Seq<TextRun> {
    if caps.len() == 0 {
        runs
    } else {
        non_empty_runs(merge_runs(split_runs(runs, highlight_marks(caps, n), p)))
    }
}

/// Every run of two or more bytes lies inside the first `n` bytes.
pub open spec fn runs_fit(runs: Seq<TextRun>, n: nat) -> bool {
    forall|i: int|
        0 <= i < runs.len() && #[trigger] runs[i].len >= 2 ==> runs_len(runs.take(i)) + runs[i].len <= n
}

/// The highlight pattern. Alternatives are ordered most specific first; each
/// is a named group, so the group whose span is the whole match tells the kind.
pub const LOG_HIGHLIGHT_PATTERN: &'static str = r"(?x)
            (?P<timestamp>
                \d{4}-\d{2}-\d{2}[T\x20]\d{2}:\d{2}:\d{2}(?:[.,]\d+)?(?:Z|[+-]\d{2}:?\d{2})?
              | \d{2}:\d{2}:\d{2}(?:[.,]\d+)?
            )
          | (?P<error>\b(?:ERROR|FATAL|PANIC|EXCEPTION|Error|Fatal|Exception)\b)
          | (?P<warn>\b(?:WARN(?:ING)?|Warning)\b)
          | (?P<info>\b(?:INFO|Info)\b)
          | (?P<debug>\b(?:DEBUG|TRACE|Debug|Trace)\b)
          | (?P<value>\b(?:true|false|null|TRUE|FALSE|NULL)\b)
            ";

/// The named groups of the pattern, in the order of the highlight kinds.
pub open spec fn highlight_group_names() -> Seq<Seq<char>> {
    seq!["timestamp"@, "error"@, "warn"@, "info"@, "debug"@, "value"@]
}

/// The spans that the regex crate finds for `pattern` over `text`: for each
/// successive match, the whole match then each group of `groups` by name;
/// `None` when the pattern does not compile.
pub uninterp spec fn regex_capture_spans(pattern: Seq<char>, groups: Seq<Seq<char>>, text: Seq<char>) -> Option<
    Seq<Seq<Option<(usize, usize)>>>,
>;

pub open spec fn captures_view(caps: Seq<Vec<Option<(usize, usize)>>>) -> Seq<Seq<Option<(usize, usize)>>> {
    caps.map_values(|c: Vec<Option<(usize, usize)>>| c@)
}

/// Compiles `pattern` with `regex::Regex::new` and walks `Regex::captures_iter`
/// over `text`, recording for each match `Captures::get(0)` and then
/// `Captures::name` of each group, as byte spans. The regex documentation
/// promises that `get(0)` is always present and that a match's start is at
/// most its end, both byte offsets into `text`; that is all that is claimed
/// of the spans beyond naming them.
#[verifier::external_body]
fn regex_captures(pattern: &str, groups: &[&str], text: &str) -> (r: Option<Vec<Vec<Option<(usize, usize)>>>>)
    ensures
        r is None <==> regex_capture_spans(pattern@, groups@.map_values(|g: &str| g@), text@) is None,
        r matches Some(v) ==> regex_capture_spans(pattern@, groups@.map_values(|g: &str| g@), text@)
            == Some(captures_view(v@)),
        r matches Some(v) ==> forall|i: int|
            0 <= i < v@.len() ==> #[trigger] v@[i]@.len() == groups@.len() + 1,
        r matches Some(v) ==> captures_well_formed(captures_view(v@), text.spec_bytes().len()),
{
    let re = regex::Regex::new(pattern).ok()?;
    let mut out = Vec::new();
    for caps in re.captures_iter(text) {
        let mut spans = vec![caps.get(0).map(|m| (m.start(), m.end()))];
        for g in groups {
            spans.push(caps.name(g).map(|m| (m.start(), m.end())));
        }
        out.push(spans);
    }
    Some(out)
}

proof fn lemma_runs_len_single(r: TextRun)
    ensures
        runs_len(seq![r]) == r.len,
{
    reveal_with_fuel(runs_len, 2);
}

proof fn lemma_split_from_len(r: TextRun, m: Seq<u8>, p: HighlightPalette, seg: int, off: int, end: int)
    requires
        0 <= seg <= end <= usize::MAX,
        seg < off,
    ensures
        runs_len(split_from(r, m, p, seg, off, end)) == end - seg,
    decreases end - off,
{
    if off >= end {
        lemma_runs_len_single(segment(r, m, p, seg, end));
    } else if mark_at(m, off) != mark_at(m, seg) {
        lemma_split_from_len(r, m, p, off, off + 1, end);
        lemma_runs_len_single(segment(r, m, p, seg, off));
        lemma_runs_len_concat(seq![segment(r, m, p, seg, off)], split_from(r, m, p, off, off + 1, end));
    } else {
        lemma_split_from_len(r, m, p, seg, off + 1, end);
    }
}

proof fn lemma_split_runs_len(runs: Seq<TextRun>, m: Seq<u8>, p: HighlightPalette)
    requires
        runs_len(runs) <= usize::MAX,
    ensures
        runs_len(split_runs(runs, m, p)) == runs_len(runs),
    decreases runs.len(),
{
    if runs.len() > 0 {
        let start: int = runs_len(runs.drop_last()) as int;
        lemma_split_runs_len(runs.drop_last(), m, p);
        lemma_split_from_len(runs.last(), m, p, start, start + 1, start + runs.last().len);
        lemma_runs_len_concat(split_runs(runs.drop_last(), m, p), split_run(runs.last(), m, p, start));
    }
}

proof fn lemma_merge_runs_len(s: Seq<TextRun>)
    requires
        runs_len(s) <= usize::MAX,
    ensures
        runs_len(merge_runs(s)) == runs_len(s),
    decreases s.len(),
{
    if s.len() > 0 {
        let prev = merge_runs(s.drop_last());
        let a = s.last();
        lemma_merge_runs_len(s.drop_last());
        if prev.len() == 0 {
            lemma_runs_len_single(a);
        } else if a.len == 0 {
        } else if same_look(prev.last(), a) {
            let merged = prev.update(prev.len() - 1, TextRun { len: (prev.last().len + a.len) as usize, ..prev.last() });
            assert(merged.drop_last() =~= prev.drop_last());
        } else {
            assert(prev.push(a).drop_last() =~= prev);
        }
    }
}

proof fn lemma_filter_step(s: Seq<TextRun>, i: int)
    requires
        0 <= i < s.len(),
    ensures
        non_empty_runs(s.take(i + 1)) == (if s[i].len > 0 {
            non_empty_runs(s.take(i)).push(s[i])
        } else {
            non_empty_runs(s.take(i))
        }),
{
    reveal(Seq::filter);
    assert(s.take(i + 1).drop_last() =~= s.take(i));
}

proof fn lemma_non_empty_runs_len(s: Seq<TextRun>)
    ensures
        runs_len(non_empty_runs(s)) == runs_len(s),
    decreases s.len(),
{
    if s.len() > 0 {
        lemma_non_empty_runs_len(s.drop_last());
        lemma_filter_step(s, s.len() - 1);
        assert(s.take(s.len() - 1) =~= s.drop_last());
        assert(s.take(s.len() as int) =~= s);
        if s.last().len > 0 {
            assert(non_empty_runs(s.drop_last()).push(s.last()).drop_last() =~= non_empty_runs(s.drop_last()));
        }
    }
}

/// Highlighting splits, recolours and merges runs but never changes how many
/// bytes they cover.
pub proof fn law_highlights_keep_length(
    n: nat,
    runs: Seq<TextRun>,
    caps: Seq<Seq<Option<(usize, usize)>>>,
    p: HighlightPalette,
)
    requires
        runs_len(runs) <= usize::MAX,
    ensures
        runs_len(spec_highlight_runs(n, runs, caps, p)) == runs_len(runs),
{
    if caps.len() > 0 {
        let split = split_runs(runs, highlight_marks(caps, n), p);
        lemma_split_runs_len(runs, highlight_marks(caps, n), p);
        lemma_merge_runs_len(split);
        lemma_non_empty_runs_len(merge_runs(split));
    }
}

proof fn lemma_marks_len(caps: Seq<Seq<Option<(usize, usize)>>>, n: nat)
    ensures
        highlight_marks(caps, n).len() == n,
    decreases caps.len(),
{
    if caps.len() > 0 {
        lemma_marks_len(caps.drop_last(), n);
    }
}

fn same_span(a: Option<(usize, usize)>, whole: Option<(usize, usize)>) -> (r: bool)
    ensures
        r == (a is Some && a == whole),
{
    match (a, whole) {
        (Some((s1, e1)), Some((s2, e2))) => s1 == s2 && e1 == e2,
        _ => false,
    }
}

fn winning_group_of(c: &Vec<Option<(usize, usize)>>) -> (k: u8)
    requires
        c@.len() >= 1,
    ensures
        k as int == winning_group(c@),
        k <= 6,
{
    let whole = c[0];
    let mut k: usize = 1;
    while k < c.len() && k <= 6
        invariant
            1 <= k <= 7,
            whole == c@[0],
            winning_group(c@) == winning_group_from(c@, k as int),
        decreases c.len() - k,
    {
        if same_span(c[k], whole) {
            return k as u8;
        }
        k = k + 1;
    }
    0
}

fn mark_matches(n: usize, caps: &Vec<Vec<Option<(usize, usize)>>>) -> (m: Vec<u8>)
    requires
        captures_well_formed(captures_view(caps@), n as nat),
    ensures
        m@ == highlight_marks(captures_view(caps@), n as nat),
{
    let ghost cv = captures_view(caps@);
    let mut m: Vec<u8> = vec![0u8; n];
    assert(cv.take(0) =~= Seq::<Seq<Option<(usize, usize)>>>::empty());
    assert(m@ =~= highlight_marks(cv.take(0), n as nat));
    let mut i: usize = 0;
    while i < caps.len()
        invariant
            i <= caps@.len(),
            cv == captures_view(caps@),
            captures_well_formed(cv, n as nat),
            m@.len() == n,
            m@ == highlight_marks(cv.take(i as int), n as nat),
        decreases caps.len() - i,
    {
        let c = &caps[i];
        assert(cv[i as int] == c@);
        assert(cv[i as int].len() >= 1);
        let k = winning_group_of(c);
        let ghost before = m@;
        if k != 0 {
            let (s, e) = match c[0] {
                Some(span) => span,
                None => (0, 0),
            };
            assert(whole_span(cv[i as int]) == (s, e));
            let mut j: usize = s;
            while j < e
                invariant
                    s <= j <= e <= n,
                    m@.len() == n,
                    m@ == paint(before, s as int, j as int, k),
                decreases e - j,
            {
                m.set(j, k);
                j = j + 1;
                assert(m@ =~= paint(before, s as int, j as int, k));
            }
        }
        assert(cv.take(i + 1).drop_last() =~= cv.take(i as int));
        assert(cv.take(i + 1).last() == cv[i as int]);
        i = i + 1;
    }
    assert(cv.take(caps@.len() as int) =~= cv);
    m
}

fn piece(run: TextRun, id: u8, len: usize, p: &HighlightPalette) -> (r: TextRun)
    ensures
        r == (TextRun { len, color: if id == 0 { run.color } else { p.spec_color(id) }, ..run }),
{
    let color = if id == 0 { run.color } else { p.color(id) };
    TextRun { len, color, ..run }
}

fn split_all(runs: &[TextRun], m: &Vec<u8>, p: &HighlightPalette) -> (out: Vec<TextRun>)
    requires
        runs_len(runs@) <= usize::MAX,
        runs_fit(runs@, m@.len()),
    ensures
        out@ == split_runs(runs@, m@, *p),
{
    let mut out: Vec<TextRun> = Vec::new();
    let mut pos: usize = 0;
    let mut i: usize = 0;
    assert(runs@.take(0) =~= Seq::<TextRun>::empty());
    while i < runs.len()
        invariant
            i <= runs@.len(),
            runs_len(runs@) <= usize::MAX,
            runs_fit(runs@, m@.len()),
            pos == runs_len(runs@.take(i as int)),
            out@ == split_runs(runs@.take(i as int), m@, *p),
        decreases runs.len() - i,
    {
        let run = runs[i];
        proof {
            assert(runs@.take(i + 1).drop_last() =~= runs@.take(i as int));
            assert(runs@.take(i + 1).last() == run);
            lemma_runs_len_take(runs@, i + 1);
        }
        let run_start = pos;
        let run_end = pos + run.len;
        let ghost before = out@;
        let mut seg_start = run_start;
        let mut seg_id: u8 = if seg_start < m.len() { m[seg_start] } else { 0 };
        if run.len >= 2 {
            assert(runs_len(runs@.take(i as int)) + runs@[i as int].len <= m@.len());
            let mut off = run_start + 1;
            while off < run_end
                invariant
                    run_start <= seg_start < off <= run_end <= m@.len(),
                    run_end == run_start + run.len,
                    seg_id == mark_at(m@, seg_start as int),
                    before + split_run(run, m@, *p, run_start as int) == out@ + split_from(
                        run,
                        m@,
                        *p,
                        seg_start as int,
                        off as int,
                        run_end as int,
                    ),
                decreases run_end - off,
            {
                let id = m[off];
                let ghost rest = split_from(run, m@, *p, off as int, off + 1, run_end as int);
                if id != seg_id {
                    let r = piece(run, seg_id, off - seg_start, p);
                    assert(r == segment(run, m@, *p, seg_start as int, off as int));
                    out.push(r);
                    assert(seq![r] + rest =~= split_from(run, m@, *p, seg_start as int, off as int, run_end as int));
                    assert(out@ + rest =~= before + split_run(run, m@, *p, run_start as int));
                    seg_start = off;
                    seg_id = id;
                }
                off = off + 1;
            }
        }
        let r = piece(run, seg_id, run_end - seg_start, p);
        assert(r == segment(run, m@, *p, seg_start as int, run_end as int));
        out.push(r);
        assert(out@ =~= before + split_run(run, m@, *p, run_start as int));
        pos = run_end;
        i = i + 1;
    }
    assert(runs@.take(runs@.len() as int) =~= runs@);
    out
}

fn same_background(a: Option<u32>, b: Option<u32>) -> (r: bool)
    ensures
        r == (a == b),
{
    match (a, b) {
        (Some(x), Some(y)) => x == y,
        (None, None) => true,
        _ => false,
    }
}

fn merge_all(s: &Vec<TextRun>) -> (out: Vec<TextRun>)
    requires
        runs_len(s@) <= usize::MAX,
    ensures
        out@ == merge_runs(s@),
{
    let mut out: Vec<TextRun> = Vec::new();
    let mut i: usize = 0;
    assert(s@.take(0) =~= Seq::<TextRun>::empty());
    while i < s.len()
        invariant
            i <= s@.len(),
            runs_len(s@) <= usize::MAX,
            out@ == merge_runs(s@.take(i as int)),
        decreases s.len() - i,
    {
        let a = s[i];
        proof {
            assert(s@.take(i + 1).drop_last() =~= s@.take(i as int));
            assert(s@.take(i + 1).last() == a);
            lemma_runs_len_take(s@, i + 1);
            lemma_runs_len_take(s@, i as int);
            lemma_merge_runs_len(s@.take(i as int));
        }
        let n = out.len();
        if n == 0 {
            out.push(a);
        } else if a.len == 0 {
        } else {
            let last = out[n - 1];
            if last.color == a.color && same_background(last.background, a.background) && last.style == a.style {
                assert(runs_len(out@) == runs_len(out@.drop_last()) + last.len);
                out.set(n - 1, TextRun { len: last.len + a.len, ..last });
            } else {
                out.push(a);
            }
        }
        i = i + 1;
    }
    assert(s@.take(s@.len() as int) =~= s@);
    out
}

fn keep_non_empty(s: &Vec<TextRun>) -> (out: Vec<TextRun>)
    ensures
        out@ == non_empty_runs(s@),
{
    let mut out: Vec<TextRun> = Vec::new();
    let mut i: usize = 0;
    proof {
        reveal(Seq::filter);
        assert(s@.take(0) =~= Seq::<TextRun>::empty());
    }
    while i < s.len()
        invariant
            i <= s@.len(),
            out@ == non_empty_runs(s@.take(i as int)),
        decreases s.len() - i,
    {
        proof {
            lemma_filter_step(s@, i as int);
        }
        if s[i].len > 0 {
            out.push(s[i]);
        }
        i = i + 1;
    }
    assert(s@.take(s@.len() as int) =~= s@);
    out
}

fn copy_runs(runs: &[TextRun]) -> (out: Vec<TextRun>)
    ensures
        out@ == runs@,
{
    let mut out: Vec<TextRun> = Vec::new();
    let mut i: usize = 0;
    while i < runs.len()
        invariant
            i <= runs@.len(),
            out@ == runs@.take(i as int),
        decreases runs.len() - i,
    {
        out.push(runs[i]);
        assert(runs@.take(i + 1) =~= runs@.take(i as int).push(runs@[i as int]));
        i = i + 1;
    }
    assert(runs@.take(runs@.len() as int) =~= runs@);
    out
}

/// Paints the matches `caps` found in a line of `text_len` bytes over its
/// `runs`: each byte covered by a match whose winning group is a highlight
/// kind takes that kind's colour (later matches over earlier ones), runs are
/// split where the colour changes, neighbours that look the same are merged
/// and empty runs dropped. With no matches the runs come back unchanged.
pub fn highlight_runs(
    text_len: usize,
    runs: &[TextRun],
    caps: &Vec<Vec<Option<(usize, usize)>>>,
    palette: &HighlightPalette,
) -> (r: Vec<TextRun>)
    requires
        runs_len(runs@) <= usize::MAX,
        runs_fit(runs@, text_len as nat),
        captures_well_formed(captures_view(caps@), text_len as nat),
    ensures
        r@ == spec_highlight_runs(text_len as nat, runs@, captures_view(caps@), *palette),
{
    if caps.len() == 0 {
        return copy_runs(runs);
    }
    let marks = mark_matches(text_len, caps);
    proof {
        lemma_marks_len(captures_view(caps@), text_len as nat);
    }
    let pieces = split_all(runs, &marks, palette);
    proof {
        lemma_split_runs_len(runs@, marks@, *palette);
    }
    let merged = merge_all(&pieces);
    keep_non_empty(&merged)
}

/// Log-syntax colouring of one terminal line: the runs of `text` with
/// timestamps, level words and JSON literals painted in `palette`'s colours
/// (see `highlight_runs`), the matches being those of `LOG_HIGHLIGHT_PATTERN`.
pub fn apply_log_highlights(text: &str, runs: &[TextRun], palette: &HighlightPalette) -> (r: Vec<TextRun>)
    requires
        runs_len(runs@) <= usize::MAX,
        runs_fit(runs@, text.spec_bytes().len()),
    ensures
        match regex_capture_spans(LOG_HIGHLIGHT_PATTERN@, highlight_group_names(), text@) {
            None => r@ == runs@,
            Some(caps) => r@ == spec_highlight_runs(text.spec_bytes().len(), runs@, caps, *palette),
        },
{
    let groups: [&str; 6] = ["timestamp", "error", "warn", "info", "debug", "value"];
    assert(groups@.map_values(|g: &str| g@) =~= highlight_group_names());
    match regex_captures(LOG_HIGHLIGHT_PATTERN, &groups, text) {
        None => copy_runs(runs),
        Some(caps) => highlight_runs(text.as_bytes().len(), runs, &caps, palette),
    }
}

} // verus!
