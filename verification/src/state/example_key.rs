//! Saved response examples are told apart by their key: two examples have
//! the same key exactly when they have the same status and the same body.

use vstd::prelude::*;
use crate::state::request::ResponseExample;
use crate::text::{decimal, digit_char};

verus! {

/// The value of a run of decimal digits, most significant first.
pub open spec fn decimal_value(s: Seq<char>) -> nat
    decreases s.len(),
{
    if s.len() == 0 {
        0
    } else {
        decimal_value(s.drop_last()) * 10 + ((s.last() as u32) - 48) as nat
    }
}

/// The key [`ResponseExample::dedup_key`] gives an example.
pub open spec fn example_key(e: ResponseExample) -> Seq<char> {
    decimal(e.status as nat) + seq![':'] + e.body@
}

proof fn lemma_digit_char(d: nat)
    requires
        d < 10,
    ensures
        digit_char(d) as u32 == d + 48,
        digit_char(d) != ':',
{
}

/// Every character of a decimal rendering is a digit, never `:`.
proof fn lemma_decimal_no_colon(n: nat)
    ensures
        forall|i: int| 0 <= i < decimal(n).len() ==> #[trigger] decimal(n)[i] != ':',
        decimal(n).len() > 0,
    decreases n,
{
    if n < 10 {
        lemma_digit_char(n);
    } else {
        lemma_decimal_no_colon(n / 10);
        lemma_digit_char(n % 10);
        assert forall|i: int| 0 <= i < decimal(n).len() implies #[trigger] decimal(n)[i] != ':' by {
            if i < decimal(n / 10).len() {
                assert(decimal(n)[i] == decimal(n / 10)[i]);
            }
        }
    }
}

/// Reading a decimal rendering back gives the number.
proof fn lemma_decimal_value(n: nat)
    ensures
        decimal_value(decimal(n)) == n,
    decreases n,
{
    if n < 10 {
        lemma_digit_char(n);
        assert(decimal(n).drop_last() =~= Seq::<char>::empty());
        assert(decimal(n).last() == digit_char(n));
        assert(decimal_value(Seq::<char>::empty()) == 0);
    } else {
        lemma_decimal_value(n / 10);
        lemma_digit_char(n % 10);
        let s = decimal(n);
        assert(s.drop_last() =~= decimal(n / 10));
        assert(s.last() == digit_char(n % 10));
        assert(decimal_value(s) == decimal_value(decimal(n / 10)) * 10 + (n % 10));
        assert(n == (n / 10) * 10 + n % 10) by (nonlinear_arith);
        assert(decimal_value(s) == (n / 10) * 10 + n % 10);
    }
}

/// Two examples have the same deduplication key exactly when they have the
/// same status and the same body; the status text and the save time play no
/// part.
pub proof fn law_dedup_key_same_iff(a: ResponseExample, b: ResponseExample)
    ensures
        example_key(a) == example_key(b) <==> (a.status == b.status && a.body@ == b.body@),
{
    let da = decimal(a.status as nat);
    let db = decimal(b.status as nat);
    let ka = example_key(a);
    let kb = example_key(b);
    if ka == kb {
        lemma_decimal_no_colon(a.status as nat);
        lemma_decimal_no_colon(b.status as nat);
        if da.len() < db.len() {
            assert(ka[da.len() as int] == ':');
            assert(kb[da.len() as int] == db[da.len() as int]);
        }
        if db.len() < da.len() {
            assert(kb[db.len() as int] == ':');
            assert(ka[db.len() as int] == da[db.len() as int]);
        }
        assert(da =~= ka.take(da.len() as int));
        assert(db =~= kb.take(db.len() as int));
        assert(a.body@ =~= ka.skip(da.len() as int + 1));
        assert(b.body@ =~= kb.skip(db.len() as int + 1));
        lemma_decimal_value(a.status as nat);
        lemma_decimal_value(b.status as nat);
    }
}

} // verus!
