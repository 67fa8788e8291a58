//! The local shell session's events, the choice of shell and its display
//! name.

use vstd::prelude::*;
use crate::text::{chars_of, string_from_chars};

verus! {

/// What the local shell's reader reports to the UI.
#[derive(Debug)]
pub enum LocalPtyEvent {
    Data(Vec<u8>),
    /// The shell produced no output for a while after it started.
    Stall,
    /// The shell exited.
    Closed,
}

/// The shell to start on Unix: `$SHELL` when it is set, non-empty and
/// exists on disk, else `/bin/zsh` on macOS and `/bin/bash` elsewhere.
pub open spec fn spec_choose_unix_shell(shell_env: Option<Seq<char>>, exists: bool, macos: bool) -> Seq<char> {
    match shell_env {
        Some(s) => if s.len() > 0 && exists {
            s
        } else if macos {
            "/bin/zsh"@
        } else {
            "/bin/bash"@
        },
        None => if macos {
            "/bin/zsh"@
        } else {
            "/bin/bash"@
        },
    }
}

/// `shell_env` is `$SHELL`, `exists` whether that path exists.
pub fn choose_unix_shell(shell_env: Option<&str>, exists: bool, macos: bool) -> (r: String)
    ensures
        r@ == spec_choose_unix_shell(
            match shell_env {
                Some(s) => Some(s@),
                None => None,
            },
            exists,
            macos,
        ),
{
    if let Some(s) = shell_env {
        if !s.is_empty() && exists {
            return s.to_owned();
        }
    }
    if macos {
        "/bin/zsh".to_owned()
    } else {
        "/bin/bash".to_owned()
    }
}

pub open spec fn is_path_sep(c: char) -> bool {
    c == '/' || c == '\\'
}

/// `p` without its trailing separators.
pub open spec fn strip_trailing_seps(p: Seq<char>) -> Seq<char>
    decreases p.len(),
{
    if p.len() > 0 && is_path_sep(p.last()) {
        strip_trailing_seps(p.drop_last())
    } else {
        p
    }
}

/// The characters of `t` after its last separator.
pub open spec fn last_segment(t: Seq<char>) -> Seq<char>
    decreases t.len(),
{
    if t.len() == 0 || is_path_sep(t.last()) {
        Seq::empty()
    } else {
        last_segment(t.drop_last()).push(t.last())
    }
}

/// The name a shell path is shown by: its last non-empty segment, with `/`
/// and `\\` both separating ("/bin/zsh" is "zsh"); the path itself when it
/// has none.
pub open spec fn spec_shell_display_name(p: Seq<char>) -> Seq<char> {
    let t = strip_trailing_seps(p);
    if t.len() == 0 {
        p
    } else {
        last_segment(t)
    }
}

proof fn lemma_strip_trailing_seps(p: Seq<char>)
    ensures
        strip_trailing_seps(p) == p.take(strip_trailing_seps(p).len() as int),
        strip_trailing_seps(p).len() <= p.len(),
        strip_trailing_seps(p).len() > 0 ==> !is_path_sep(strip_trailing_seps(p).last()),
        forall|i: int| strip_trailing_seps(p).len() <= i < p.len() ==> is_path_sep(#[trigger] p[i]),
    decreases p.len(),
{
    if p.len() > 0 && is_path_sep(p.last()) {
        lemma_strip_trailing_seps(p.drop_last());
        let t = strip_trailing_seps(p.drop_last());
        assert(p.drop_last().take(t.len() as int) =~= p.take(t.len() as int));
        assert forall|i: int| t.len() <= i < p.len() implies is_path_sep(#[trigger] p[i]) by {
            if i < p.len() - 1 {
                assert(p.drop_last()[i] == p[i]);
            }
        }
    } else {
        assert(p.take(p.len() as int) =~= p);
    }
}

proof fn lemma_last_segment(t: Seq<char>, start: int)
    requires
        0 <= start <= t.len(),
        start == 0 || is_path_sep(t[start - 1]),
        forall|i: int| start <= i < t.len() ==> !is_path_sep(#[trigger] t[i]),
    ensures
        last_segment(t) == t.subrange(start, t.len() as int),
    decreases t.len(),
{
    if t.len() == 0 {
    } else if start == t.len() {
    } else {
        lemma_last_segment(t.drop_last(), start);
        assert(t.drop_last().subrange(start, t.len() - 1).push(t.last()) =~= t.subrange(start, t.len() as int));
    }
}

/// The shell's display name (see `spec_shell_display_name`).
pub fn shell_display_name(path: &str) -> (r: String)
    ensures
        r@ == spec_shell_display_name(path@),
{
    let cs = chars_of(path);
    let mut end: usize = cs.len();
    while end > 0 && (cs[end - 1] == '/' || cs[end - 1] == '\\')
        invariant
            end <= cs@.len(),
            cs@ == path@,
            forall|i: int| end <= i < cs@.len() ==> is_path_sep(#[trigger] cs@[i]),
        decreases end,
    {
        end = end - 1;
    }
    proof {
        lemma_strip_trailing_seps(path@);
        let t = strip_trailing_seps(path@);
        if t.len() < end {
            assert(is_path_sep(cs@[end - 1]));
        } else if t.len() > end {
            assert(!is_path_sep(cs@[t.len() - 1]) && t.last() == cs@[t.len() - 1]);
        }
        assert(t.len() == end);
    }
    if end == 0 {
        return path.to_owned();
    }
    let mut start: usize = end;
    while start > 0 && !(cs[start - 1] == '/' || cs[start - 1] == '\\')
        invariant
            start <= end <= cs@.len(),
            forall|i: int| start <= i < end ==> !is_path_sep(#[trigger] cs@[i]),
        decreases start,
    {
        start = start - 1;
    }
    let mut seg: Vec<char> = Vec::new();
    let mut i: usize = start;
    while i < end
        invariant
            start <= i <= end <= cs@.len(),
            seg@ == cs@.subrange(start as int, i as int),
        decreases end - i,
    {
        seg.push(cs[i]);
        assert(cs@.subrange(start as int, i + 1) =~= cs@.subrange(start as int, i as int).push(cs@[i as int]));
        i = i + 1;
    }
    proof {
        let t = strip_trailing_seps(path@);
        assert(t =~= cs@.take(end as int));
        assert forall|k: int| start <= k < t.len() implies !is_path_sep(#[trigger] t[k]) by {
            assert(t[k] == cs@[k]);
        }
        if start > 0 {
            assert(t[start - 1] == cs@[start - 1]);
        }
        lemma_last_segment(t, start as int);
        assert(t.subrange(start as int, t.len() as int) =~= seg@);
    }
    string_from_chars(seg.as_slice())
}

} // verus!
