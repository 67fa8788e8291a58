//! A directory listing shows every entry the server reported except `.` and
//! `..`, each exactly once: sorting reorders the entries and drops none.

use vstd::prelude::*;
use crate::ssh::sftp_listing::{FileEntryView, RawDirEntry, insert_position, listed_before, listed_entries, listing_order};

verus! {

broadcast use vstd::seq_lib::group_to_multiset_ensures, vstd::multiset::group_multiset_axioms;

/// The entry is a real one: neither `.` nor `..`.
pub open spec fn not_dot_entry(r: RawDirEntry) -> bool {
    r.name@ != "."@ && r.name@ != ".."@
}

pub open spec fn entry_names(s: Seq<FileEntryView>) -> Seq<Seq<char>> {
    s.map_values(|e: FileEntryView| e.name)
}

pub open spec fn raw_names(s: Seq<RawDirEntry>) -> Seq<Seq<char>> {
    s.map_values(|r: RawDirEntry| r.name@)
}

proof fn lemma_position_bound(sorted: Seq<FileEntryView>, x: FileEntryView)
    ensures
        0 <= insert_position(sorted, x) <= sorted.len(),
    decreases sorted.len(),
{
    if sorted.len() > 0 {
        lemma_position_bound(sorted.drop_first(), x);
    }
}

proof fn lemma_insert_ms<A>(s: Seq<A>, p: int, a: A)
    requires
        0 <= p <= s.len(),
    ensures
        s.insert(p, a).to_multiset() == s.to_multiset().insert(a),
{
    assert(s.insert(p, a) =~= s.take(p) + seq![a] + s.skip(p));
    assert(s =~= s.take(p) + s.skip(p));
    vstd::seq_lib::lemma_multiset_commutative(s.take(p) + seq![a], s.skip(p));
    vstd::seq_lib::lemma_multiset_commutative(s.take(p), seq![a]);
    vstd::seq_lib::lemma_multiset_commutative(s.take(p), s.skip(p));
    assert(s.take(p).to_multiset().add(seq![a].to_multiset()).add(s.skip(p).to_multiset())
        =~= s.take(p).to_multiset().add(s.skip(p).to_multiset()).insert(a));
}

proof fn lemma_listed_names(parent: Seq<char>, raw: Seq<RawDirEntry>)
    ensures
        entry_names(listed_entries(parent, raw)) == raw_names(raw.filter(|r: RawDirEntry| not_dot_entry(r))),
    decreases raw.len(),
{
    reveal(Seq::filter);
    if raw.len() > 0 {
        lemma_listed_names(parent, raw.drop_last());
        let f = raw.drop_last().filter(|r: RawDirEntry| not_dot_entry(r));
        assert(raw_names(f.push(raw.last())) =~= raw_names(f).push(raw.last().name@));
        assert(entry_names(listed_entries(parent, raw.drop_last()).push(
            crate::ssh::sftp_listing::entry_of(parent, raw.last()),
        )) =~= entry_names(listed_entries(parent, raw.drop_last())).push(raw.last().name@));
    } else {
        assert(entry_names(listed_entries(parent, raw)) =~= Seq::<Seq<char>>::empty());
        assert(raw_names(raw.filter(|r: RawDirEntry| not_dot_entry(r))) =~= Seq::<Seq<char>>::empty());
    }
}

proof fn lemma_order_keeps_names(s: Seq<FileEntryView>)
    ensures
        entry_names(listing_order(s)).to_multiset() == entry_names(s).to_multiset(),
    decreases s.len(),
{
    if s.len() > 0 {
        let d = s.drop_last();
        let x = s.last();
        lemma_order_keeps_names(d);
        let sorted = listing_order(d);
        let p = insert_position(sorted, x);
        lemma_position_bound(sorted, x);
        assert(entry_names(sorted.insert(p, x)) =~= entry_names(sorted).insert(p, x.name));
        lemma_insert_ms(entry_names(sorted), p, x.name);
        assert(entry_names(s) =~= entry_names(d).push(x.name));
    } else {
        assert(entry_names(listing_order(s)) =~= Seq::<Seq<char>>::empty());
        assert(entry_names(s) =~= Seq::<Seq<char>>::empty());
    }
}

/// The listing of a directory holds every entry the server reported other
/// than `.` and `..` (dotfiles included), each exactly once: its names are
/// those of the raw entries minus `.` and `..`, as a multiset.
pub proof fn law_listing_keeps_all_but_dot_entries(parent: Seq<char>, raw: Seq<RawDirEntry>)
    ensures
        entry_names(listing_order(listed_entries(parent, raw))).to_multiset() == raw_names(
            raw.filter(|r: RawDirEntry| not_dot_entry(r)),
        ).to_multiset(),
{
    lemma_order_keeps_names(listed_entries(parent, raw));
    lemma_listed_names(parent, raw);
}

/// No file comes before a directory.
pub open spec fn dirs_first(s: Seq<FileEntryView>) -> bool {
    forall|i: int, j: int| 0 <= i < j < s.len() && (#[trigger] s[j]).is_dir ==> (#[trigger] s[i]).is_dir
}

proof fn lemma_position_facts(sorted: Seq<FileEntryView>, x: FileEntryView)
    ensures
        forall|i: int| 0 <= i < insert_position(sorted, x) ==> !listed_before(x, #[trigger] sorted[i]),
        insert_position(sorted, x) < sorted.len() ==> listed_before(x, sorted[insert_position(sorted, x)]),
    decreases sorted.len(),
{
    lemma_position_bound(sorted, x);
    if sorted.len() > 0 && !listed_before(x, sorted[0]) {
        let rest = sorted.drop_first();
        lemma_position_facts(rest, x);
        lemma_position_bound(rest, x);
        assert(insert_position(sorted, x) == 1 + insert_position(rest, x));
        assert forall|i: int| 0 <= i < insert_position(sorted, x) implies !listed_before(x, #[trigger] sorted[i]) by {
            if i > 0 {
                assert(sorted[i] == rest[i - 1]);
            }
        }
        if insert_position(sorted, x) < sorted.len() {
            assert(sorted[insert_position(sorted, x)] == rest[insert_position(rest, x)]);
        }
    }
}

proof fn lemma_order_dirs_first(s: Seq<FileEntryView>)
    ensures
        dirs_first(listing_order(s)),
    decreases s.len(),
{
    if s.len() > 0 {
        let d = s.drop_last();
        let x = s.last();
        lemma_order_dirs_first(d);
        let sorted = listing_order(d);
        let p = insert_position(sorted, x);
        lemma_position_bound(sorted, x);
        lemma_position_facts(sorted, x);
        let t = sorted.insert(p, x);
        assert forall|i: int, j: int| 0 <= i < j < t.len() && (#[trigger] t[j]).is_dir implies (#[trigger] t[i]).is_dir by {
            if j < p {
                assert(t[i] == sorted[i] && t[j] == sorted[j]);
            } else if j == p {
                assert(t[i] == sorted[i] && t[j] == x);
                assert(!listed_before(x, sorted[i]));
            } else if i == p {
                assert(t[i] == x && t[j] == sorted[j - 1]);
                assert(listed_before(x, sorted[p]));
                if !x.is_dir {
                    assert(!sorted[p].is_dir);
                    if j - 1 > p {
                        assert(sorted[j - 1].is_dir ==> sorted[p].is_dir);
                    }
                }
            } else if i < p {
                assert(t[i] == sorted[i] && t[j] == sorted[j - 1]);
            } else {
                assert(t[i] == sorted[i - 1] && t[j] == sorted[j - 1]);
            }
        }
    }
}

/// In a listing, directories come before files: no file is listed before a
/// directory.
pub proof fn law_listing_directories_first(parent: Seq<char>, raw: Seq<RawDirEntry>)
    ensures
        dirs_first(listing_order(listed_entries(parent, raw))),
{
    lemma_order_dirs_first(listed_entries(parent, raw));
}

} // verus!
