//! Facts about what a ZMODEM session hands its state machine.

use vstd::prelude::*;
use crate::ssh::zmodem::{ZmodemSession, handed_to_machine};

verus! {

/// Handing bytes over is a matter of what was taken and what is held back:
/// a state that agrees on those with `a` hands over the same.
pub(crate) proof fn lemma_handed_same_wire(a: ZmodemSession, a2: ZmodemSession, w: Seq<u8>, b: ZmodemSession)
    requires
        a.wire_taken_spec() == a2.wire_taken_spec(),
        handed_to_machine(a2, w, b),
    ensures
        handed_to_machine(a, w, b),
{
    let p = choose|p: int| {
        &&& 0 <= p <= w.len()
        &&& b.wire_taken_spec() == a2.wire_taken_spec() + w.take(p)
        &&& (b.done_spec() || b.pending_spec() == w.skip(p))
    };
    assert(b.wire_taken_spec() == a.wire_taken_spec() + w.take(p));
}

} // verus!
