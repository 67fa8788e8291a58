//! The ZMODEM trigger detector finds exactly the first trigger in the
//! stream: what the matcher's state means, and the law that follows.

use vstd::prelude::*;
use crate::ssh::zmodem::{detect, matcher_step};

verus! {

/// Whether `s` ends with `t`.
pub open spec fn ends_with(s: Seq<u8>, t: Seq<u8>) -> bool {
    s.len() >= t.len() && s.subrange(s.len() - t.len(), s.len() as int) == t
}

/// How much of the trigger a stream that ends with `p` has begun: the
/// longest start of the trigger (short of all of it) that `p` ends with.
pub open spec fn tail_state(p: Seq<u8>) -> nat {
    if ends_with(p, crate::ssh::zmodem::trigger().take(3)) {
        3
    } else if ends_with(p, crate::ssh::zmodem::trigger().take(2)) {
        2
    } else if ends_with(p, crate::ssh::zmodem::trigger().take(1)) {
        1
    } else {
        0
    }
}

proof fn lemma_ends_push(p: Seq<u8>, b: u8, t: Seq<u8>)
    requires
        t.len() > 0,
    ensures
        ends_with(p.push(b), t) <==> (ends_with(p, t.drop_last()) && b == t.last()),
{
    let q = p.push(b);
    if ends_with(q, t) {
        let w = q.subrange(q.len() - t.len(), q.len() as int);
        assert(w == t);
        assert(w.last() == b);
        assert(p.subrange(p.len() - (t.len() - 1), p.len() as int) =~= w.drop_last());
        assert(ends_with(p, t.drop_last()));
    }
    if ends_with(p, t.drop_last()) && b == t.last() {
        let w = p.subrange(p.len() - (t.len() - 1), p.len() as int);
        assert(w == t.drop_last());
        assert(q.subrange(q.len() - t.len(), q.len() as int) =~= w.push(b));
        assert(w.push(b) =~= t);
    }
}

/// The matcher's state is how much of the trigger the stream read so far
/// ends with; it reaches 4 exactly when the stream ends with the trigger.
proof fn lemma_matcher_tracks_tail(p: Seq<u8>, b: u8)
    ensures
        matcher_step(tail_state(p), b) == if ends_with(p.push(b), crate::ssh::zmodem::trigger()) { 4 } else { tail_state(p.push(b)) },
{
    let t = crate::ssh::zmodem::trigger();
    assert(t.take(4) =~= t);
    assert(t.take(1).drop_last() =~= t.take(0));
    assert(t.take(2).drop_last() =~= t.take(1));
    assert(t.take(3).drop_last() =~= t.take(2));
    assert(t.take(4).drop_last() =~= t.take(3));
    assert(ends_with(p, t.take(0))) by {
        assert(p.subrange(p.len() as int, p.len() as int) =~= t.take(0));
    }
    lemma_ends_push(p, b, t.take(1));
    lemma_ends_push(p, b, t.take(2));
    lemma_ends_push(p, b, t.take(3));
    lemma_ends_push(p, b, t);
    // `*` is what a stream ending with `*` ends in; `**` ends in `*`; `**`
    // ZDLE ends in ZDLE, so not in `*`.
    if ends_with(p, t.take(1)) {
        assert(p.subrange(p.len() - 1, p.len() as int)[0] == p.last());
    }
    if p.len() >= 1 && p.last() == 0x2au8 {
        assert(p.subrange(p.len() - 1, p.len() as int) =~= t.take(1));
    }
    if ends_with(p, t.take(2)) {
        assert(p.subrange(p.len() - 2, p.len() as int)[1] == p.last());
        assert(p.last() == 0x2au8);
    }
    if ends_with(p, t.take(3)) {
        assert(p.subrange(p.len() - 3, p.len() as int)[2] == p.last());
        assert(p.last() == 0x18u8);
        assert(!ends_with(p, t.take(1)));
        assert(!ends_with(p, t.take(2)));
    }
}

proof fn lemma_detect_finds_first(pre: Seq<u8>, data: Seq<u8>)
    ensures
        detect(tail_state(pre), data).0 matches Some(i) ==> {
            &&& 0 <= i < data.len()
            &&& ends_with(pre + data.take(i + 1), crate::ssh::zmodem::trigger())
            &&& forall|j: int| 0 <= j < i ==> !ends_with(#[trigger] (pre + data.take(j + 1)), crate::ssh::zmodem::trigger())
        },
        detect(tail_state(pre), data).0 is None ==> forall|j: int| 0 <= j < data.len() ==> !ends_with(
            #[trigger] (pre + data.take(j + 1)),
            crate::ssh::zmodem::trigger(),
        ),
    decreases data.len(),
{
    if data.len() > 0 {
        let b = data[0];
        let pre2 = pre.push(b);
        let rest = data.drop_first();
        lemma_matcher_tracks_tail(pre, b);
        assert(pre + data.take(1) =~= pre2);
        if !ends_with(pre2, crate::ssh::zmodem::trigger()) {
            lemma_detect_finds_first(pre2, rest);
            assert forall|j: int| 0 <= j < rest.len() implies #[trigger] (pre2 + rest.take(j + 1)) == pre + data.take(j + 2) by {
                assert(pre2 + rest.take(j + 1) =~= pre + data.take(j + 2));
            }
            if let Some(i) = detect(tail_state(pre), data).0 {
                assert(pre + data.take(i + 1) == pre2 + rest.take(i));
                assert forall|j: int| 0 <= j < i implies !ends_with(#[trigger] (pre + data.take(j + 1)), crate::ssh::zmodem::trigger()) by {
                    if j > 0 {
                        assert(pre + data.take(j + 1) == pre2 + rest.take(j - 1 + 1));
                    }
                }
            } else {
                assert forall|j: int| 0 <= j < data.len() implies !ends_with(#[trigger] (pre + data.take(j + 1)), crate::ssh::zmodem::trigger()) by {
                    if j > 0 {
                        assert(pre + data.take(j + 1) == pre2 + rest.take(j - 1 + 1));
                    }
                }
            }
        }
    }
}

/// A fresh detector reports exactly the first place where the trigger
/// `*`, `*`, ZDLE, `B` ends in the data, and nothing when it does not occur
/// (however many `*` come before it).
pub proof fn law_detector_finds_first_trigger(data: Seq<u8>)
    ensures
        detect(0, data).0 matches Some(i) ==> {
            &&& 3 <= i < data.len()
            &&& data.subrange(i - 3, i + 1) == crate::ssh::zmodem::trigger()
            &&& forall|j: int| 3 <= j < i ==> #[trigger] data.subrange(j - 3, j + 1) != crate::ssh::zmodem::trigger()
        },
        detect(0, data).0 is None ==> forall|j: int| 3 <= j < data.len() ==> #[trigger] data.subrange(j - 3, j + 1) != crate::ssh::zmodem::trigger(),
{
    let e = Seq::<u8>::empty();
    assert(tail_state(e) == 0);
    lemma_detect_finds_first(e, data);
    assert forall|j: int| 0 <= j < data.len() implies #[trigger] (e + data.take(j + 1)) == data.take(j + 1) by {
        assert(e + data.take(j + 1) =~= data.take(j + 1));
    }
    assert forall|j: int| 3 <= j < data.len() implies (ends_with(#[trigger] (e + data.take(j + 1)), crate::ssh::zmodem::trigger())
        <==> data.subrange(j - 3, j + 1) == crate::ssh::zmodem::trigger()) by {
        assert(data.take(j + 1).subrange(j + 1 - 4, j + 1) =~= data.subrange(j - 3, j + 1));
    }
    if let Some(i) = detect(0, data).0 {
        assert(ends_with(e + data.take(i + 1), crate::ssh::zmodem::trigger()));
        assert(i >= 3);
        assert forall|j: int| 3 <= j < i implies #[trigger] data.subrange(j - 3, j + 1) != crate::ssh::zmodem::trigger() by {
            assert(!ends_with(e + data.take(j + 1), crate::ssh::zmodem::trigger()));
        }
    } else {
        assert forall|j: int| 3 <= j < data.len() implies #[trigger] data.subrange(j - 3, j + 1) != crate::ssh::zmodem::trigger() by {
            assert(!ends_with(e + data.take(j + 1), crate::ssh::zmodem::trigger()));
        }
    }
}

} // verus!
