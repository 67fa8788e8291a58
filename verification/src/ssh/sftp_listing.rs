//! What the SFTP browser makes of what the server reports: directory
//! listings (directories first, then by case-insensitive name), the outcome
//! of creating a remote directory, and the note about skipped entries after a
//! folder upload.

use vstd::prelude::*;
use crate::ssh::sftp::{join_path, spec_join_path};
use crate::text::{chars_of, decimal, push_decimal, str_eq, str_to_lowercase, unicode_lowercase};

verus! {

/// One entry of the remote file browser.
#[derive(Debug)]
pub struct FileEntry {
    /// The base name.
    pub name: String,
    /// The full remote path.
    pub path: String,
    /// Size in bytes (0 when the server gave none).
    pub size: u64,
    pub is_dir: bool,
    pub is_symlink: bool,
    /// Unix permission bits (0 when the server gave none).
    pub permissions: u32,
    /// Last modification, Unix seconds, when the server reported it.
    pub modified: Option<i64>,
}

/// A directory entry as the server lists it.
#[derive(Debug)]
pub struct RawDirEntry {
    pub name: String,
    pub size: Option<u64>,
    pub is_dir: bool,
    pub is_symlink: bool,
    pub permissions: Option<u32>,
    pub mtime: Option<u32>,
}

pub struct FileEntryView {
    pub name: Seq<char>,
    pub path: Seq<char>,
    pub size: u64,
    pub is_dir: bool,
    pub is_symlink: bool,
    pub permissions: u32,
    pub modified: Option<i64>,
}

impl View for FileEntry {
    type V = FileEntryView;

    open spec fn view(&self) -> FileEntryView {
        FileEntryView {
            name: self.name@,
            path: self.path@,
            size: self.size,
            is_dir: self.is_dir,
            is_symlink: self.is_symlink,
            permissions: self.permissions,
            modified: self.modified,
        }
    }
}

pub open spec fn entries_view(s: Seq<FileEntry>) -> Seq<FileEntryView> {
    s.map_values(|e: FileEntry| e@)
}

/// The browser entry of a listed entry of directory `parent`.
pub open spec fn entry_of(parent: Seq<char>, r: RawDirEntry) -> FileEntryView {
    FileEntryView {
        name: r.name@,
        path: spec_join_path(parent, r.name@),
        size: match r.size {
            Some(s) => s,
            None => 0,
        },
        is_dir: r.is_dir,
        is_symlink: r.is_symlink,
        permissions: match r.permissions {
            Some(p) => p,
            None => 0,
        },
        modified: match r.mtime {
            Some(t) => Some(t as i64),
            None => None,
        },
    }
}

/// The listed entries other than `.` and `..`, as browser entries.
pub open spec fn listed_entries(parent: Seq<char>, raw: Seq<RawDirEntry>) -> Seq<FileEntryView>
    decreases raw.len(),
{
    if raw.len() == 0 {
        Seq::empty()
    } else {
        let prev = listed_entries(parent, raw.drop_last());
        let r = raw.last();
        if r.name@ == "."@ || r.name@ == ".."@ {
            prev
        } else {
            prev.push(entry_of(parent, r))
        }
    }
}

/// Lexicographic order of char sequences by code point (the order of their
/// UTF-8 bytes).
pub open spec fn seq_less(a: Seq<char>, b: Seq<char>) -> bool
    decreases a.len(),
{
    if a.len() == 0 {
        b.len() > 0
    } else if b.len() == 0 {
        false
    } else if a[0] != b[0] {
        (a[0] as u32) < (b[0] as u32)
    } else {
        seq_less(a.drop_first(), b.drop_first())
    }
}

/// Listing order: directories first, then by lower-cased name.
pub open spec fn listed_before(a: FileEntryView, b: FileEntryView) -> bool {
    (a.is_dir && !b.is_dir) || (a.is_dir == b.is_dir && seq_less(
        unicode_lowercase(a.name),
        unicode_lowercase(b.name),
    ))
}

/// Where `x` goes in `sorted`: before the first entry it is listed before.
pub open spec fn insert_position(sorted: Seq<FileEntryView>, x: FileEntryView) -> int
    decreases sorted.len(),
{
    if sorted.len() == 0 {
        0
    } else if listed_before(x, sorted[0]) {
        0
    } else {
        1 + insert_position(sorted.drop_first(), x)
    }
}

/// The entries in listing order; entries that tie keep their order (a stable
/// insertion sort).
pub open spec fn listing_order(s: Seq<FileEntryView>) -> Seq<FileEntryView>
    decreases s.len(),
{
    if s.len() == 0 {
        Seq::empty()
    } else {
        let sorted = listing_order(s.drop_last());
        sorted.insert(insert_position(sorted, s.last()), s.last())
    }
}

proof fn lemma_seq_less_skip(a: Seq<char>, b: Seq<char>, i: int)
    requires
        0 <= i <= a.len(),
        i <= b.len(),
        forall|j: int| 0 <= j < i ==> a[j] == b[j],
    ensures
        seq_less(a, b) == seq_less(a.skip(i), b.skip(i)),
    decreases i,
{
    if i > 0 {
        lemma_seq_less_skip(a.drop_first(), b.drop_first(), i - 1);
        assert(a.drop_first().skip(i - 1) =~= a.skip(i));
        assert(b.drop_first().skip(i - 1) =~= b.skip(i));
    } else {
        assert(a.skip(0) =~= a);
        assert(b.skip(0) =~= b);
    }
}

fn less_chars(a: &Vec<char>, b: &Vec<char>) -> (r: bool)
    ensures
        r == seq_less(a@, b@),
{
    let mut i: usize = 0;
    while i < a.len() && i < b.len() && a[i] == b[i]
        invariant
            i <= a@.len(),
            i <= b@.len(),
            forall|j: int| 0 <= j < i ==> a@[j] == b@[j],
        decreases a.len() - i,
    {
        i = i + 1;
    }
    proof {
        lemma_seq_less_skip(a@, b@, i as int);
        if i < a@.len() && i < b@.len() {
            assert(a@.skip(i as int)[0] == a@[i as int]);
            assert(b@.skip(i as int)[0] == b@[i as int]);
        }
    }
    if i == a.len() {
        i < b.len()
    } else if i == b.len() {
        false
    } else {
        (a[i] as u32) < (b[i] as u32)
    }
}

proof fn lemma_insert_position_bound(sorted: Seq<FileEntryView>, x: FileEntryView)
    ensures
        0 <= insert_position(sorted, x) <= sorted.len(),
    decreases sorted.len(),
{
    if sorted.len() > 0 {
        lemma_insert_position_bound(sorted.drop_first(), x);
    }
}

proof fn lemma_insert_position_step(sorted: Seq<FileEntryView>, x: FileEntryView, i: int)
    requires
        0 <= i < sorted.len(),
        !listed_before(x, sorted[i]),
    ensures
        insert_position(sorted.skip(i), x) == 1 + insert_position(sorted.skip(i + 1), x),
{
    assert(sorted.skip(i).drop_first() =~= sorted.skip(i + 1));
    assert(sorted.skip(i)[0] == sorted[i]);
}

/// The listing of directory `parent`: every entry but `.` and `..`, each
/// with its full path, in listing order.
pub fn list_entries(parent: &str, raw: &Vec<RawDirEntry>) -> (r: Vec<FileEntry>)
    ensures
        entries_view(r@) == listing_order(listed_entries(parent@, raw@)),
{
    let mut sorted: Vec<FileEntry> = Vec::new();
    let mut keys: Vec<Vec<char>> = Vec::new();
    let mut i: usize = 0;
    assert(raw@.take(0) =~= Seq::<RawDirEntry>::empty());
    assert(entries_view(sorted@) =~= listing_order(listed_entries(parent@, raw@.take(0))));
    while i < raw.len()
        invariant
            i <= raw@.len(),
            entries_view(sorted@) == listing_order(listed_entries(parent@, raw@.take(i as int))),
            keys@.len() == sorted@.len(),
            forall|j: int| 0 <= j < keys@.len() ==> (#[trigger] keys@[j])@ == unicode_lowercase(sorted@[j].name@),
        decreases raw.len() - i,
    {
        let r = &raw[i];
        assert(raw@.take(i + 1).drop_last() =~= raw@.take(i as int));
        assert(raw@.take(i + 1).last() == *r);
        let is_dot = str_eq(r.name.as_str(), ".") || str_eq(r.name.as_str(), "..");
        if !is_dot {
            let entry = FileEntry {
                name: r.name.clone(),
                path: join_path(parent, r.name.as_str()),
                size: match r.size {
                    Some(s) => s,
                    None => 0,
                },
                is_dir: r.is_dir,
                is_symlink: r.is_symlink,
                permissions: match r.permissions {
                    Some(p) => p,
                    None => 0,
                },
                modified: match r.mtime {
                    Some(t) => Some(t as i64),
                    None => None,
                },
            };
            let ghost ev = entry@;
            assert(ev == entry_of(parent@, *r));
            let lowered = str_to_lowercase(entry.name.as_str());
            let key = chars_of(lowered.as_str());
            let ghost sv = entries_view(sorted@);
            assert(sv.skip(0) =~= sv);
            let mut p: usize = 0;
            while p < sorted.len()
                invariant
                    p <= sorted@.len(),
                    sv == entries_view(sorted@),
                    keys@.len() == sorted@.len(),
                    forall|j: int| 0 <= j < keys@.len() ==> (#[trigger] keys@[j])@ == unicode_lowercase(sorted@[j].name@),
                    key@ == unicode_lowercase(ev.name),
                    ev == entry@,
                    insert_position(sv, ev) == p + insert_position(sv.skip(p as int), ev),
                ensures
                    p <= sorted@.len(),
                    sv == entries_view(sorted@),
                    keys@.len() == sorted@.len(),
                    forall|j: int| 0 <= j < keys@.len() ==> (#[trigger] keys@[j])@ == unicode_lowercase(sorted@[j].name@),
                    insert_position(sv, ev) == p,
                decreases sorted.len() - p,
            {
                let other_dir = sorted[p].is_dir;
                let before = (entry.is_dir && !other_dir) || (entry.is_dir == other_dir && less_chars(&key, &keys[p]));
                assert(sv[p as int] == sorted@[p as int]@);
                if before {
                    assert(sv.skip(p as int)[0] == sv[p as int]);
                    assert(insert_position(sv.skip(p as int), ev) == 0);
                    break;
                }
                proof {
                    lemma_insert_position_step(sv, ev, p as int);
                }
                p = p + 1;
                if p == sorted.len() {
                    assert(sv.skip(p as int) =~= Seq::<FileEntryView>::empty());
                }
            }
            proof {
                lemma_insert_position_bound(sv, ev);
            }
            let ghost old_sorted = sorted@;
            let ghost old_keys = keys@;
            sorted.insert(p, entry);
            keys.insert(p, key);
            assert(entries_view(sorted@) =~= sv.insert(p as int, ev));
            proof {
                let prev = listed_entries(parent@, raw@.take(i as int));
                assert(listed_entries(parent@, raw@.take(i + 1)) == prev.push(ev));
                assert(prev.push(ev).drop_last() =~= prev);
                assert(listing_order(prev.push(ev)) == sv.insert(insert_position(sv, ev), ev));
            }
            assert forall|j: int| 0 <= j < keys@.len() implies (#[trigger] keys@[j])@ == unicode_lowercase(
                sorted@[j].name@,
            ) by {
                if j > p {
                    assert(keys@[j] == old_keys[j - 1]);
                    assert(sorted@[j] == old_sorted[j - 1]);
                }
            }
        }
        i = i + 1;
    }
    assert(raw@.take(raw@.len() as int) =~= raw@);
    sorted
}
/// `parts` joined with `sep` between them.
pub open spec fn join_with(parts: Seq<Seq<char>>, sep: Seq<char>) -> Seq<char>
    decreases parts.len(),
{
    if parts.len() == 0 {
        Seq::empty()
    } else if parts.len() == 1 {
        parts[0]
    } else {
        join_with(parts.drop_last(), sep) + sep + parts.last()
    }
}

/// The note a folder upload ends with when entries were skipped: how many,
/// the first three, and `…` when there were more.
pub open spec fn spec_skipped_note(skipped: Seq<Seq<char>>) -> Option<Seq<char>> {
    if skipped.len() == 0 {
        None
    } else {
        let shown = if skipped.len() > 3 { skipped.take(3) } else { skipped };
        Some(
            "跳过 "@ + decimal(skipped.len()) + " 项（无权限/链接/特殊文件）："@ + join_with(shown, "、"@) + (if skipped.len()
                > 3 {
                " …"@
            } else {
                Seq::empty()
            }),
        )
    }
}

pub fn skipped_note(skipped: &Vec<String>) -> (r: Option<String>)
    ensures
        match spec_skipped_note(skipped@.map_values(|x: String| x@)) {
            None => r is None,
            Some(n) => r matches Some(t) && t@ == n,
        },
{
    let ghost sv = skipped@.map_values(|x: String| x@);
    if skipped.len() == 0 {
        return None;
    }
    let mut out = "跳过 ".to_owned();
    push_decimal(&mut out, skipped.len() as u64);
    out.append(" 项（无权限/链接/特殊文件）：");
    let shown: usize = if skipped.len() > 3 { 3 } else { skipped.len() };
    let ghost shown_v = if sv.len() > 3 { sv.take(3) } else { sv };
    assert(shown_v =~= sv.take(shown as int));
    let ghost head = out@;
    let mut i: usize = 0;
    assert(sv.take(0) =~= Seq::<Seq<char>>::empty());
    while i < shown
        invariant
            i <= shown <= skipped@.len(),
            sv == skipped@.map_values(|x: String| x@),
            out@ == head + join_with(sv.take(i as int), "、"@),
        decreases shown - i,
    {
        if i > 0 {
            out.append("、");
        }
        out.append(skipped[i].as_str());
        proof {
            let t = sv.take(i + 1);
            assert(t.drop_last() =~= sv.take(i as int));
            assert(t.last() == skipped@[i as int]@);
            if i == 0 {
                assert(join_with(sv.take(0), "、"@) =~= Seq::<char>::empty());
                assert(t.len() == 1);
            }
        }
        i = i + 1;
    }
    if skipped.len() > 3 {
        out.append(" …");
    }
    proof {
        if skipped@.len() <= 3 {
            assert(out@ =~= head + join_with(shown_v, "、"@) + Seq::<char>::empty());
        }
    }
    Some(out)
}

/// Creating a remote directory that may exist already: a failed `mkdir` is
/// fine when the path is a directory, else it is reported with the path.
pub fn ensure_dir_result(path: &str, mkdir: Result<(), String>, exists_as_dir: bool) -> (r: Result<(), String>)
    ensures
        match mkdir {
            Ok(()) => r is Ok,
            Err(e) => if exists_as_dir {
                r is Ok
            } else {
                r matches Err(m) && m@ == "创建目录 "@ + path@ + " 失败: "@ + e@
            },
        },
{
    match mkdir {
        Ok(()) => Ok(()),
        Err(e) => {
            if exists_as_dir {
                Ok(())
            } else {
                let mut m = "创建目录 ".to_owned();
                m.append(path);
                m.append(" 失败: ");
                m.append(e.as_str());
                Err(m)
            }
        },
    }
}

} // verus!
