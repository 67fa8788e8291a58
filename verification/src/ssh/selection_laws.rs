//! Painting a selection, byte by byte: every byte inside the selection
//! (clipped to the text) ends up in a run with the selection background;
//! every other byte keeps the background it had; text color and style never
//! change.

use vstd::prelude::*;
use crate::ssh::terminal::{
    TextRun, lemma_runs_len_concat, lemma_select_run_len, max_nat, min_nat, runs_len, select_run, select_runs,
    spec_apply_selection,
};

verus! {

/// The run that covers byte `p` of the text the runs lay out, if any.
pub open spec fn run_at(runs: Seq<TextRun>, p: nat) -> Option<TextRun>
    decreases runs.len(),
{
    if runs.len() == 0 {
        None
    } else if p < runs_len(runs.drop_last()) {
        run_at(runs.drop_last(), p)
    } else if p < runs_len(runs) {
        Some(runs.last())
    } else {
        None
    }
}

/// Byte `p` lies in the selection `[s, e)` clipped to `text_len`.
pub open spec fn selected_byte(p: nat, text_len: nat, s: nat, e: nat) -> bool {
    s <= p && p < e && p < text_len
}

proof fn lemma_runs_len_mono(runs: Seq<TextRun>)
    ensures
        runs.len() > 0 ==> runs_len(runs.drop_last()) <= runs_len(runs),
{
}

proof fn lemma_run_at_some(runs: Seq<TextRun>, p: nat)
    ensures
        p < runs_len(runs) <==> run_at(runs, p) is Some,
    decreases runs.len(),
{
    if runs.len() > 0 {
        lemma_run_at_some(runs.drop_last(), p);
    }
}

proof fn lemma_run_at_concat(a: Seq<TextRun>, b: Seq<TextRun>, p: nat)
    ensures
        run_at(a + b, p) == if p < runs_len(a) {
            run_at(a, p)
        } else {
            run_at(b, (p - runs_len(a)) as nat)
        },
    decreases b.len(),
{
    if b.len() == 0 {
        assert(a + b =~= a);
        lemma_run_at_some(a, p);
        lemma_run_at_some(b, (p - runs_len(a)) as nat);
    } else {
        lemma_run_at_concat(a, b.drop_last(), p);
        assert((a + b).drop_last() =~= a + b.drop_last());
        assert((a + b).last() == b.last());
        lemma_runs_len_concat(a, b.drop_last());
        lemma_runs_len_concat(a, b);
    }
}

proof fn lemma_run_at_single(r: TextRun, q: nat)
    ensures
        run_at(seq![r], q) == if q < r.len {
            Some(r)
        } else {
            None::<TextRun>
        },
{
    reveal_with_fuel(runs_len, 2);
    assert(seq![r].drop_last() =~= Seq::<TextRun>::empty());
}

proof fn lemma_select_runs_len(runs: Seq<TextRun>, s: nat, e: nat, bg: u32)
    requires
        s < e,
    ensures
        runs_len(select_runs(runs, s, e, bg)) == runs_len(runs),
    decreases runs.len(),
{
    if runs.len() > 0 {
        lemma_select_runs_len(runs.drop_last(), s, e, bg);
        lemma_select_run_len(runs.last(), runs_len(runs.drop_last()), s, e, bg);
        lemma_runs_len_concat(
            select_runs(runs.drop_last(), s, e, bg),
            select_run(runs.last(), runs_len(runs.drop_last()), s, e, bg),
        );
    }
}

/// What one run becomes, byte by byte.
proof fn lemma_select_run_bytes(r: TextRun, start: nat, s: nat, e: nat, bg: u32, q: nat)
    requires
        s < e,
        q < r.len,
    ensures
        run_at(select_run(r, start, s, e, bg), q) matches Some(x) && x.color == r.color && x.style == r.style
            && x.background == (if s <= start + q && start + q < e {
            Some(bg)
        } else {
            r.background
        }),
{
    let end = (start + r.len) as nat;
    if end <= s || start >= e {
        lemma_run_at_single(r, q);
    } else {
        let lo = max_nat(start, s);
        let hi = min_nat(end, e);
        let ra = TextRun { len: (s - start) as usize, ..r };
        let rb = TextRun { len: (hi - lo) as usize, background: Some(bg), ..r };
        let rc = TextRun { len: (end - e) as usize, ..r };
        let a: Seq<TextRun> = if start < s { seq![ra] } else { Seq::empty() };
        let b: Seq<TextRun> = if hi > lo { seq![rb] } else { Seq::empty() };
        let c: Seq<TextRun> = if end > e { seq![rc] } else { Seq::empty() };
        assert(select_run(r, start, s, e, bg) == a + b + c);
        reveal_with_fuel(runs_len, 2);
        assert(seq![ra].drop_last() =~= Seq::<TextRun>::empty());
        assert(seq![rb].drop_last() =~= Seq::<TextRun>::empty());
        let la = runs_len(a);
        let lb = runs_len(b);
        assert(la == if start < s { (s - start) as nat } else { 0 });
        assert(lb == (hi - lo) as nat);
        lemma_run_at_concat(a + b, c, q);
        lemma_runs_len_concat(a, b);
        lemma_run_at_concat(a, b, q);
        if q < la {
            lemma_run_at_single(ra, q);
        } else if q < la + lb {
            lemma_run_at_single(rb, (q - la) as nat);
        } else {
            assert(end > e);
            lemma_run_at_single(rc, (q - la - lb) as nat);
        }
    }
}

proof fn lemma_select_runs_bytes(runs: Seq<TextRun>, s: nat, e: nat, bg: u32, p: nat)
    requires
        s < e,
        p < runs_len(runs),
    ensures
        run_at(select_runs(runs, s, e, bg), p) matches Some(x) && run_at(runs, p) matches Some(y) && x.color
            == y.color && x.style == y.style && x.background == (if s <= p && p < e {
            Some(bg)
        } else {
            y.background
        }),
    decreases runs.len(),
{
    let d = runs.drop_last();
    let l = runs_len(d);
    lemma_select_runs_len(d, s, e, bg);
    lemma_run_at_concat(select_runs(d, s, e, bg), select_run(runs.last(), l, s, e, bg), p);
    if p < l {
        lemma_select_runs_bytes(d, s, e, bg, p);
    } else {
        lemma_select_run_bytes(runs.last(), l, s, e, bg, (p - l) as nat);
    }
}

/// After painting the selection `[s, e)` on runs laying out `text_len`
/// bytes, every byte the runs cover is still covered, with the same text
/// color and style; it has the selection background exactly when it lies in
/// the selection (clipped to the text), and otherwise the background it had.
pub proof fn law_selection_paints_every_selected_byte(
    runs: Seq<TextRun>,
    text_len: nat,
    s: nat,
    e: nat,
    bg: u32,
    p: nat,
)
    requires
        p < runs_len(runs),
    ensures
        run_at(spec_apply_selection(runs, text_len, s, e, bg), p) matches Some(x) && run_at(runs, p) matches Some(y)
            && x.color == y.color && x.style == y.style && x.background == (if selected_byte(p, text_len, s, e) {
            Some(bg)
        } else {
            y.background
        }),
{
    lemma_run_at_some(runs, p);
    if !(s >= e || s >= text_len) {
        lemma_select_runs_bytes(runs, s, min_nat(e, text_len), bg, p);
    }
}

} // verus!
