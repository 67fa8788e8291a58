//! What merging project-global rows with a request's own rows gives, stated
//! row by row: a global row is dropped only when an enabled, non-blank row
//! of the request has the same key (trimmed, upper-cased).

use vstd::prelude::*;
use crate::state::kv::{KeyValue, active_rows, override_keys, spec_merge_kv, surviving_globals};
use crate::text::{trim, upper};

verus! {

/// The row is enabled and its key is not blank.
pub open spec fn in_use(kv: KeyValue) -> bool {
    kv.enabled && trim(kv.key@).len() > 0
}

/// Some enabled, non-blank row of `rows` has the key `k` once trimmed and
/// upper-cased.
pub open spec fn overridden_by(rows: Seq<KeyValue>, k: Seq<char>) -> bool {
    exists|j: int| 0 <= j < rows.len() && in_use(#[trigger] rows[j]) && upper(trim(rows[j].key@)) == k
}

proof fn lemma_active_rows_filter(s: Seq<KeyValue>)
    ensures
        active_rows(s) == s.filter(|kv: KeyValue| in_use(kv)),
    decreases s.len(),
{
    reveal(Seq::filter);
    if s.len() > 0 {
        lemma_active_rows_filter(s.drop_last());
    }
}

proof fn lemma_override_keys_contains(s: Seq<KeyValue>, k: Seq<char>)
    ensures
        override_keys(s).contains(k) <==> overridden_by(s, k),
    decreases s.len(),
{
    if s.len() > 0 {
        let d = s.drop_last();
        let x = s.last();
        lemma_override_keys_contains(d, k);
        let ka = active_rows(d).map_values(|kv: KeyValue| kv.norm_key());
        if x.active() {
            assert(override_keys(s) =~= ka.push(x.norm_key()));
        } else {
            assert(override_keys(s) =~= ka);
        }
        if overridden_by(d, k) {
            let j = choose|j: int| 0 <= j < d.len() && in_use(#[trigger] d[j]) && upper(trim(d[j].key@)) == k;
            assert(s[j] == d[j]);
            assert(in_use(s[j]) && upper(trim(s[j].key@)) == k);
            assert(overridden_by(s, k));
        }
        if x.active() && x.norm_key() == k {
            assert(s[s.len() - 1] == x);
            assert(in_use(s[s.len() - 1]) && upper(trim(s[s.len() - 1].key@)) == k);
            assert(overridden_by(s, k));
            assert(override_keys(s).last() == k);
            assert(override_keys(s).contains(k));
        }
        if overridden_by(s, k) {
            let j = choose|j: int| 0 <= j < s.len() && in_use(#[trigger] s[j]) && upper(trim(s[j].key@)) == k;
            if j < d.len() {
                assert(d[j] == s[j]);
                assert(in_use(d[j]) && upper(trim(d[j].key@)) == k);
                assert(overridden_by(d, k));
                let i2 = choose|i2: int| 0 <= i2 < ka.len() && ka[i2] == k;
                assert(override_keys(s)[i2] == k);
            } else {
                assert(s[j] == x);
            }
        }
        if override_keys(s).contains(k) {
            let i2 = choose|i2: int| 0 <= i2 < override_keys(s).len() && override_keys(s)[i2] == k;
            if i2 < ka.len() {
                assert(ka[i2] == k);
                assert(ka.contains(k));
            }
        }
    } else {
        assert(override_keys(s) =~= Seq::<Seq<char>>::empty());
    }
}

proof fn lemma_survivors_filter(g: Seq<KeyValue>, per: Seq<KeyValue>)
    ensures
        surviving_globals(g, override_keys(per)) == g.filter(
            |kv: KeyValue| in_use(kv) && !overridden_by(per, upper(trim(kv.key@))),
        ),
    decreases g.len(),
{
    reveal(Seq::filter);
    if g.len() > 0 {
        lemma_survivors_filter(g.drop_last(), per);
        lemma_override_keys_contains(per, g.last().norm_key());
    }
}

/// Merging keeps, in order, every enabled non-blank global row whose key no
/// enabled non-blank request row has (trimmed, upper-cased), then every
/// enabled non-blank request row. A disabled or blank request row overrides
/// nothing.
pub proof fn law_merge_kv_overrides(global: Seq<KeyValue>, per_request: Seq<KeyValue>)
    ensures
        spec_merge_kv(global, per_request) == global.filter(
            |kv: KeyValue| in_use(kv) && !overridden_by(per_request, upper(trim(kv.key@))),
        ) + per_request.filter(|kv: KeyValue| in_use(kv)),
{
    lemma_survivors_filter(global, per_request);
    lemma_active_rows_filter(per_request);
}

/// When every request row is disabled, the merge is the enabled non-blank
/// global rows, in order.
pub proof fn law_merge_kv_disabled_rows_override_nothing(global: Seq<KeyValue>, per_request: Seq<KeyValue>)
    requires
        forall|j: int| 0 <= j < per_request.len() ==> !(#[trigger] per_request[j]).enabled,
    ensures
        spec_merge_kv(global, per_request) == global.filter(|kv: KeyValue| in_use(kv)),
{
    reveal(Seq::filter);
    law_merge_kv_overrides(global, per_request);
    lemma_none_in_use(per_request);
    assert(per_request.filter(|kv: KeyValue| in_use(kv)) =~= Seq::<KeyValue>::empty());
    lemma_filter_same(global, per_request);
}

proof fn lemma_none_in_use(s: Seq<KeyValue>)
    requires
        forall|j: int| 0 <= j < s.len() ==> !(#[trigger] s[j]).enabled,
    ensures
        s.filter(|kv: KeyValue| in_use(kv)).len() == 0,
    decreases s.len(),
{
    reveal(Seq::filter);
    if s.len() > 0 {
        assert(forall|j: int| 0 <= j < s.drop_last().len() ==> s.drop_last()[j] == s[j]);
        lemma_none_in_use(s.drop_last());
        assert(!in_use(s[s.len() - 1]));
    }
}

proof fn lemma_filter_same(g: Seq<KeyValue>, per: Seq<KeyValue>)
    requires
        forall|j: int| 0 <= j < per.len() ==> !(#[trigger] per[j]).enabled,
    ensures
        g.filter(|kv: KeyValue| in_use(kv) && !overridden_by(per, upper(trim(kv.key@)))) == g.filter(
            |kv: KeyValue| in_use(kv),
        ),
    decreases g.len(),
{
    reveal(Seq::filter);
    if g.len() > 0 {
        lemma_filter_same(g.drop_last(), per);
        let k = upper(trim(g.last().key@));
        if overridden_by(per, k) {
            let j = choose|j: int| 0 <= j < per.len() && in_use(#[trigger] per[j]) && upper(trim(per[j].key@)) == k;
            assert(!per[j].enabled);
        }
    }
}

} // verus!
