//! The upload plan of a local directory tree: the walk's entries sorted into
//! directories to create, files to send, and entries that are reported as
//! skipped. Directories and files come in text order, which puts every
//! parent before its children, so the remote directories can be created in
//! one pass.

use vstd::prelude::*;
use crate::text::chars_of;

verus! {

broadcast use vstd::seq_lib::group_seq_properties, vstd::seq_lib::group_to_multiset_ensures,
    vstd::multiset::group_multiset_axioms;

/// Strictly before in code-point order, which is the order of `str`'s `<`
/// (UTF-8 keeps the order of code points, and `char`'s `<` is theirs).
pub open spec fn text_lt(a: Seq<char>, b: Seq<char>) -> bool
    decreases a.len(),
{
    if a.len() == 0 {
        b.len() > 0
    } else if b.len() == 0 {
        false
    } else if a[0] != b[0] {
        a[0] < b[0]
    } else {
        text_lt(a.drop_first(), b.drop_first())
    }
}

/// No text of the list comes after a later one.
pub open spec fn text_sorted(s: Seq<Seq<char>>) -> bool {
    forall|i: int, j: int| 0 <= i < j < s.len() ==> !text_lt(#[trigger] s[j], #[trigger] s[i])
}

proof fn lemma_text_lt_total(a: Seq<char>, b: Seq<char>)
    ensures
        text_lt(a, b) || a == b || text_lt(b, a),
        !(text_lt(a, b) && text_lt(b, a)),
        !text_lt(a, a),
    decreases a.len(),
{
    if a.len() > 0 {
        lemma_text_lt_total(a.drop_first(), a.drop_first());
    }
    if a.len() > 0 && b.len() > 0 && a[0] == b[0] {
        lemma_text_lt_total(a.drop_first(), b.drop_first());
        if a.drop_first() == b.drop_first() {
            assert(a =~= b);
        }
    }
    if a.len() == 0 && b.len() == 0 {
        assert(a =~= b);
    }
}

proof fn lemma_text_lt_trans(a: Seq<char>, b: Seq<char>, c: Seq<char>)
    requires
        text_lt(a, b),
        text_lt(b, c),
    ensures
        text_lt(a, c),
    decreases a.len(),
{
    if a.len() > 0 && b.len() > 0 && c.len() > 0 && a[0] == b[0] && b[0] == c[0] {
        lemma_text_lt_trans(a.drop_first(), b.drop_first(), c.drop_first());
    }
}

/// A path comes before every path that extends it.
pub proof fn law_prefix_first(a: Seq<char>, b: Seq<char>)
    requires
        a.len() < b.len(),
        b.take(a.len() as int) == a,
    ensures
        text_lt(a, b),
    decreases a.len(),
{
    if a.len() > 0 {
        assert(b[0] == a[0]);
        assert(b.drop_first().take(a.drop_first().len() as int) =~= a.drop_first());
        law_prefix_first(a.drop_first(), b.drop_first());
    }
}

/// Whether `a` comes strictly before `b`.
pub fn text_less(a: &str, b: &str) -> (r: bool)
    ensures
        r == text_lt(a@, b@),
{
    let x = chars_of(a);
    let y = chars_of(b);
    let mut i: usize = 0;
    while i < x.len() && i < y.len()
        invariant
            i <= x@.len(),
            i <= y@.len(),
            x@ == a@,
            y@ == b@,
            text_lt(a@, b@) == text_lt(x@.skip(i as int), y@.skip(i as int)),
        decreases x.len() - i,
    {
        let c = x[i];
        let d = y[i];
        assert(x@.skip(i as int)[0] == c && y@.skip(i as int)[0] == d);
        if c != d {
            return c < d;
        }
        assert(x@.skip(i as int).drop_first() =~= x@.skip(i + 1));
        assert(y@.skip(i as int).drop_first() =~= y@.skip(i + 1));
        i = i + 1;
    }
    i == x.len() && i < y.len()
}

/// A file to upload: its '/'-separated path under the root, and its size.
#[derive(Debug, Clone, PartialEq, Eq)]
pub struct LocalFileEntry {
    pub rel: String,
    pub size: u64,
}

/// What the walk found at an entry. The caller reads the file system; a
/// node that is neither a directory nor a file (a symlink, a fifo, a socket,
/// a device) is given with the size of the file it leads to, if it leads to
/// a regular file.
#[derive(Debug, Clone)]
pub enum WalkKind {
    Dir,
    File { size: u64 },
    Special { file_size: Option<u64> },
    /// The entry could not be read; `rel` names it as well as the walk
    /// could.
    Unreadable,
}

/// One entry of the walk, in walk order; depth 0 is the root itself.
#[derive(Debug, Clone)]
pub struct WalkEntry {
    pub rel: String,
    pub depth: usize,
    pub kind: WalkKind,
}

/// The upload plan: directories to create (the root as the empty path
/// first), files to send, and what is skipped.
#[derive(Debug, Clone)]
pub struct LocalTree {
    pub dirs: Vec<String>,
    pub files: Vec<LocalFileEntry>,
    pub skipped: Vec<String>,
}

/// Where an entry goes.
pub open spec fn is_dir_entry(e: WalkEntry) -> bool {
    e.depth > 0 && e.kind is Dir
}

/// The file an entry gives, if any.
pub open spec fn entry_file(e: WalkEntry) -> Option<(Seq<char>, u64)> {
    if e.kind is Unreadable || e.depth == 0 {
        None
    } else {
        match e.kind {
            WalkKind::File { size } => Some((e.rel@, size)),
            WalkKind::Special { file_size: Some(n) } => Some((e.rel@, n)),
            _ => None,
        }
    }
}

/// Whether an entry is reported as skipped.
pub open spec fn is_skipped_entry(e: WalkEntry) -> bool {
    ||| e.kind is Unreadable
    ||| (e.depth > 0 && e.kind matches WalkKind::Special { file_size: None })
}

/// The directories of the walk, in walk order, after the root.
pub open spec fn walk_dirs(es: Seq<WalkEntry>) -> Seq<Seq<char>>
    decreases es.len(),
{
    if es.len() == 0 {
        seq![Seq::<char>::empty()]
    } else {
        let rest = walk_dirs(es.drop_last());
        if is_dir_entry(es.last()) {
            rest.push(es.last().rel@)
        } else {
            rest
        }
    }
}

/// The files of the walk, in walk order.
pub open spec fn walk_files(es: Seq<WalkEntry>) -> Seq<(Seq<char>, u64)>
    decreases es.len(),
{
    if es.len() == 0 {
        Seq::empty()
    } else {
        match entry_file(es.last()) {
            Some(f) => walk_files(es.drop_last()).push(f),
            None => walk_files(es.drop_last()),
        }
    }
}

/// The skipped entries, in walk order.
pub open spec fn walk_skipped(es: Seq<WalkEntry>) -> Seq<Seq<char>>
    decreases es.len(),
{
    if es.len() == 0 {
        Seq::empty()
    } else if is_skipped_entry(es.last()) {
        walk_skipped(es.drop_last()).push(es.last().rel@)
    } else {
        walk_skipped(es.drop_last())
    }
}

pub open spec fn text_views(v: Seq<String>) -> Seq<Seq<char>> {
    v.map_values(|s: String| s@)
}

pub open spec fn file_views(v: Seq<LocalFileEntry>) -> Seq<(Seq<char>, u64)> {
    v.map_values(|f: LocalFileEntry| (f.rel@, f.size))
}

/// The paths of files, in order.
pub open spec fn file_paths(v: Seq<(Seq<char>, u64)>) -> Seq<Seq<char>> {
    v.map_values(|f: (Seq<char>, u64)| f.0)
}

proof fn lemma_insert_ms<A>(s: Seq<A>, p: int, a: A)
    requires
        0 <= p <= s.len(),
    ensures
        s.insert(p, a).to_multiset() == s.to_multiset().insert(a),
{
    assert(s.insert(p, a) =~= s.take(p) + seq![a] + s.skip(p));
    assert(s =~= s.take(p) + s.skip(p));
    vstd::seq_lib::lemma_multiset_commutative(s.take(p) + seq![a], s.skip(p));
    vstd::seq_lib::lemma_multiset_commutative(s.take(p), seq![a]);
    vstd::seq_lib::lemma_multiset_commutative(s.take(p), s.skip(p));
    assert(s.take(p).to_multiset().add(seq![a].to_multiset()).add(s.skip(p).to_multiset())
        =~= s.take(p).to_multiset().add(s.skip(p).to_multiset()).insert(a));
}

/// Where `key` goes in a sorted list: after everything not after it.
proof fn lemma_sorted_insert(s: Seq<Seq<char>>, p: int, key: Seq<char>)
    requires
        text_sorted(s),
        0 <= p <= s.len(),
        forall|i: int| 0 <= i < p ==> !text_lt(key, #[trigger] s[i]),
        p < s.len() ==> text_lt(key, s[p]),
    ensures
        text_sorted(s.insert(p, key)),
{
    let t = s.insert(p, key);
    assert forall|i: int, j: int| 0 <= i < j < t.len() implies !text_lt(#[trigger] t[j], #[trigger] t[i]) by {
        if j < p {
            assert(t[i] == s[i] && t[j] == s[j]);
        } else if j == p {
            assert(t[j] == key && t[i] == s[i]);
        } else if i == p {
            assert(t[i] == key && t[j] == s[j - 1]);
            lemma_text_lt_total(key, s[j - 1]);
            if j - 1 > p {
                assert(!text_lt(s[j - 1], s[p]));
                lemma_text_lt_total(s[p], s[j - 1]);
                if text_lt(s[j - 1], key) {
                    if text_lt(s[p], s[j - 1]) {
                        lemma_text_lt_trans(s[p], s[j - 1], key);
                        lemma_text_lt_trans(key, s[p], key);
                        lemma_text_lt_total(key, key);
                    } else {
                        lemma_text_lt_trans(key, s[p], key);
                        lemma_text_lt_total(key, key);
                    }
                }
            } else {
                lemma_text_lt_total(key, s[p]);
            }
        } else if i < p {
            assert(t[i] == s[i] && t[j] == s[j - 1]);
        } else {
            assert(t[i] == s[i - 1] && t[j] == s[j - 1]);
        }
    }
}

/// The directories in text order.
fn sort_dirs(v: Vec<String>) -> (r: Vec<String>)
    ensures
        text_sorted(text_views(r@)),
        text_views(r@).to_multiset() == text_views(v@).to_multiset(),
{
    let mut out: Vec<String> = Vec::new();
    let mut k: usize = 0;
    while k < v.len()
        invariant
            k <= v@.len(),
            text_sorted(text_views(out@)),
            text_views(out@).to_multiset() == text_views(v@.take(k as int)).to_multiset(),
        decreases v.len() - k,
    {
        let x = v[k].clone();
        let mut p: usize = 0;
        while p < out.len() && !text_less(x.as_str(), out[p].as_str())
            invariant
                p <= out@.len(),
                forall|i: int| 0 <= i < p ==> !text_lt(x@, #[trigger] text_views(out@)[i]),
            decreases out.len() - p,
        {
            p = p + 1;
        }
        let ghost before = text_views(out@);
        proof {
            lemma_sorted_insert(before, p as int, x@);
            lemma_insert_ms(before, p as int, x@);
        }
        out.insert(p, x);
        proof {
            assert(text_views(out@) =~= before.insert(p as int, v@[k as int]@));
            assert(text_views(v@.take(k + 1)) =~= text_views(v@.take(k as int)).push(v@[k as int]@));
        }
        k = k + 1;
    }
    assert(v@.take(v@.len() as int) =~= v@);
    out
}

/// The files in text order of their paths.
fn sort_files(v: Vec<LocalFileEntry>) -> (r: Vec<LocalFileEntry>)
    ensures
        text_sorted(file_paths(file_views(r@))),
        file_views(r@).to_multiset() == file_views(v@).to_multiset(),
{
    let mut out: Vec<LocalFileEntry> = Vec::new();
    let mut k: usize = 0;
    while k < v.len()
        invariant
            k <= v@.len(),
            text_sorted(file_paths(file_views(out@))),
            file_views(out@).to_multiset() == file_views(v@.take(k as int)).to_multiset(),
        decreases v.len() - k,
    {
        let x = LocalFileEntry { rel: v[k].rel.clone(), size: v[k].size };
        let mut p: usize = 0;
        while p < out.len() && !text_less(x.rel.as_str(), out[p].rel.as_str())
            invariant
                p <= out@.len(),
                forall|i: int| 0 <= i < p ==> !text_lt(x.rel@, #[trigger] file_paths(file_views(out@))[i]),
            decreases out.len() - p,
        {
            p = p + 1;
        }
        let ghost before = file_views(out@);
        proof {
            lemma_sorted_insert(file_paths(before), p as int, x.rel@);
            lemma_insert_ms(before, p as int, (x.rel@, x.size));
            assert(file_paths(before.insert(p as int, (x.rel@, x.size))) =~= file_paths(before).insert(p as int, x.rel@));
        }
        out.insert(p, x);
        proof {
            assert(file_views(out@) =~= before.insert(p as int, (v@[k as int].rel@, v@[k as int].size)));
            assert(file_views(v@.take(k + 1)) =~= file_views(v@.take(k as int)).push((v@[k as int].rel@, v@[k as int].size)));
        }
        k = k + 1;
    }
    assert(v@.take(v@.len() as int) =~= v@);
    out
}

/// Sorts the walk's entries into the upload plan: every directory below the
/// root (and the root as the empty path), every regular file and every
/// special node that leads to a regular file, each in text order; what cannot
/// be read, and special nodes that lead to no regular file, are skipped, in
/// walk order.
pub fn plan_local_tree(entries: &Vec<WalkEntry>) -> (r: LocalTree)
    ensures
        text_sorted(text_views(r.dirs@)),
        text_views(r.dirs@).to_multiset() == walk_dirs(entries@).to_multiset(),
        text_sorted(file_paths(file_views(r.files@))),
        file_views(r.files@).to_multiset() == walk_files(entries@).to_multiset(),
        text_views(r.skipped@) == walk_skipped(entries@),
{
    let mut dirs: Vec<String> = Vec::new();
    dirs.push(String::new());
    let mut files: Vec<LocalFileEntry> = Vec::new();
    let mut skipped: Vec<String> = Vec::new();
    let mut i: usize = 0;
    assert(text_views(dirs@) =~= walk_dirs(entries@.take(0)));
    assert(file_views(files@) =~= walk_files(entries@.take(0)));
    assert(text_views(skipped@) =~= walk_skipped(entries@.take(0)));
    while i < entries.len()
        invariant
            i <= entries@.len(),
            text_views(dirs@) == walk_dirs(entries@.take(i as int)),
            file_views(files@) == walk_files(entries@.take(i as int)),
            text_views(skipped@) == walk_skipped(entries@.take(i as int)),
        decreases entries.len() - i,
    {
        let e = &entries[i];
        proof {
            assert(entries@.take(i + 1).drop_last() =~= entries@.take(i as int));
            assert(entries@.take(i + 1).last() == *e);
        }
        match &e.kind {
            WalkKind::Unreadable => {
                skipped.push(e.rel.clone());
            },
            WalkKind::Dir => {
                if e.depth > 0 {
                    dirs.push(e.rel.clone());
                }
            },
            WalkKind::File { size } => {
                if e.depth > 0 {
                    files.push(LocalFileEntry { rel: e.rel.clone(), size: *size });
                }
            },
            WalkKind::Special { file_size } => {
                if e.depth > 0 {
                    match file_size {
                        Some(n) => files.push(LocalFileEntry { rel: e.rel.clone(), size: *n }),
                        None => skipped.push(e.rel.clone()),
                    }
                }
            },
        }
        proof {
            assert(text_views(dirs@) =~= walk_dirs(entries@.take(i + 1)));
            assert(file_views(files@) =~= walk_files(entries@.take(i + 1)));
            assert(text_views(skipped@) =~= walk_skipped(entries@.take(i + 1)));
        }
        i = i + 1;
    }
    assert(entries@.take(entries@.len() as int) =~= entries@);
    LocalTree { dirs: sort_dirs(dirs), files: sort_files(files), skipped }
}

/// In the plan, every directory comes before the directories and files below
/// it: a sorted list puts a path before every path that extends it.
pub proof fn law_parents_first(s: Seq<Seq<char>>, i: int, j: int)
    requires
        text_sorted(s),
        0 <= i < s.len(),
        0 <= j < s.len(),
        s[i].len() < s[j].len(),
        s[j].take(s[i].len() as int) == s[i],
    ensures
        i < j,
{
    law_prefix_first(s[i], s[j]);
    lemma_text_lt_total(s[i], s[j]);
    if j < i {
        assert(!text_lt(s[i], s[j]));
    }
}

} // verus!
