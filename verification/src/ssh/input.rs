//! Choosing an English keyboard layout when a terminal session opens: the
//! caller reads the platform's layouts (or runs its input-method tools) and
//! activates the choice made here.

use vstd::prelude::*;
use crate::text::{decimal, push_decimal, str_eq};

verus! {

/// The language id of a layout handle: its low word.
pub open spec fn spec_lang_id(hkl: usize) -> u16 {
    (hkl % 0x10000) as u16
}

pub fn lang_id(hkl: usize) -> (r: u16)
    ensures
        r == spec_lang_id(hkl),
{
    (hkl % 0x10000) as u16
}

/// The primary language of a layout: the low 10 bits of its language id
/// (0x09 is English).
pub open spec fn spec_primary_language(hkl: usize) -> u16 {
    (spec_lang_id(hkl) % 0x400) as u16
}

pub fn primary_language(hkl: usize) -> (r: u16)
    ensures
        r == spec_primary_language(hkl),
{
    lang_id(hkl) % 0x400
}

/// The layout to activate: the first US English one (language id 0x0409),
/// else the first of any English variant, else none.
pub open spec fn spec_choose_english_layout(layouts: Seq<usize>) -> Option<usize> {
    if exists|i: int| 0 <= i < layouts.len() && spec_lang_id(layouts[i]) == 0x0409 {
        Some(layouts[choose|i: int| 0 <= i < layouts.len() && spec_lang_id(layouts[i]) == 0x0409 && forall|j: int| 0 <= j < i ==> spec_lang_id(#[trigger] layouts[j]) != 0x0409])
    } else if exists|i: int| 0 <= i < layouts.len() && spec_primary_language(layouts[i]) == 0x09 {
        Some(layouts[choose|i: int| 0 <= i < layouts.len() && spec_primary_language(layouts[i]) == 0x09 && forall|j: int| 0 <= j < i ==> spec_primary_language(#[trigger] layouts[j]) != 0x09])
    } else {
        None
    }
}

pub fn choose_english_layout(layouts: &[usize]) -> (r: Option<usize>)
    ensures
        r == spec_choose_english_layout(layouts@),
{
    let ghost s = layouts@;
    let mut i: usize = 0;
    while i < layouts.len()
        invariant
            s == layouts@,
            i <= s.len(),
            forall|j: int| 0 <= j < i ==> spec_lang_id(#[trigger] s[j]) != 0x0409,
        decreases layouts.len() - i,
    {
        if lang_id(layouts[i]) == 0x0409 {
            proof {
                let c = choose|k: int| 0 <= k < s.len() && spec_lang_id(s[k]) == 0x0409 && forall|j: int| 0 <= j < k ==> spec_lang_id(#[trigger] s[j]) != 0x0409;
                assert(c == i) by {
                    if c < i {
                        assert(spec_lang_id(s[c]) != 0x0409);
                    } else if c > i {
                        assert(spec_lang_id(s[i as int]) != 0x0409);
                    }
                }
            }
            return Some(layouts[i]);
        }
        i = i + 1;
    }
    let mut k: usize = 0;
    while k < layouts.len()
        invariant
            s == layouts@,
            k <= s.len(),
            forall|j: int| 0 <= j < s.len() ==> spec_lang_id(#[trigger] s[j]) != 0x0409,
            forall|j: int| 0 <= j < k ==> spec_primary_language(#[trigger] s[j]) != 0x09,
        decreases layouts.len() - k,
    {
        if primary_language(layouts[k]) == 0x09 {
            proof {
                let c = choose|m: int| 0 <= m < s.len() && spec_primary_language(s[m]) == 0x09 && forall|j: int| 0 <= j < m ==> spec_primary_language(#[trigger] s[j]) != 0x09;
                assert(c == k) by {
                    if c < k {
                        assert(spec_primary_language(s[c]) != 0x09);
                    } else if c > k {
                        assert(spec_primary_language(s[k as int]) != 0x09);
                    }
                }
            }
            return Some(layouts[k]);
        }
        k = k + 1;
    }
    None
}

/// The macOS layouts preferred, in order: ABC, U.S., U.S. International.
pub open spec fn preferred_mac_layouts() -> Seq<Seq<char>> {
    seq!["com.apple.keylayout.ABC"@, "com.apple.keylayout.US"@, "com.apple.keylayout.USInternational-PC"@]
}

/// The first position of `x` in `s`.
pub open spec fn index_of(s: Seq<Seq<char>>, x: Seq<char>) -> Option<int>
    decreases s.len(),
{
    if s.len() == 0 {
        None
    } else {
        match index_of(s.drop_last(), x) {
            Some(i) => Some(i),
            None => if s.last() == x {
                Some(s.len() - 1)
            } else {
                None
            },
        }
    }
}

/// The macOS layout to select among the enabled ones (by input-source id):
/// the first preferred one present, else the first enabled; none when none
/// is enabled.
pub open spec fn spec_choose_mac_layout(ids: Seq<Seq<char>>) -> Option<int> {
    let p = preferred_mac_layouts();
    match index_of(ids, p[0]) {
        Some(i) => Some(i),
        None => match index_of(ids, p[1]) {
            Some(i) => Some(i),
            None => match index_of(ids, p[2]) {
                Some(i) => Some(i),
                None => if ids.len() > 0 {
                    Some(0)
                } else {
                    None
                },
            },
        },
    }
}

proof fn lemma_index_of_prefix(s: Seq<Seq<char>>, x: Seq<char>, n: int)
    requires
        0 <= n <= s.len(),
    ensures
        index_of(s.take(n), x) matches Some(i) ==> index_of(s, x) == Some(i),
        index_of(s.take(n), x) is None && n < s.len() && s[n] == x ==> index_of(s, x) == Some(n),
        index_of(s.take(n), x) is None && n == s.len() ==> index_of(s, x) is None,
        index_of(s.take(n), x) matches Some(i) ==> 0 <= i < n,
    decreases s.len() - n,
{
    if n < s.len() {
        assert(s.take(n + 1).drop_last() =~= s.take(n));
        lemma_index_of_prefix(s, x, n + 1);
    } else {
        assert(s.take(n) =~= s);
    }
    if n > 0 {
        lemma_index_of_bound(s.take(n), x);
    }
}

proof fn lemma_index_of_bound(s: Seq<Seq<char>>, x: Seq<char>)
    ensures
        index_of(s, x) matches Some(i) ==> 0 <= i < s.len(),
    decreases s.len(),
{
    if s.len() > 0 {
        lemma_index_of_bound(s.drop_last(), x);
    }
}

fn position_of_id(ids: &Vec<String>, want: &str) -> (r: Option<usize>)
    ensures
        match index_of(ids@.map_values(|s: String| s@), want@) {
            Some(i) => r == Some(i as usize),
            None => r is None,
        },
{
    let ghost v = ids@.map_values(|s: String| s@);
    let mut i: usize = 0;
    assert(v.take(0) =~= Seq::<Seq<char>>::empty());
    while i < ids.len()
        invariant
            i <= ids@.len(),
            v == ids@.map_values(|s: String| s@),
            index_of(v.take(i as int), want@) is None,
        decreases ids.len() - i,
    {
        if str_eq(ids[i].as_str(), want) {
            proof {
                lemma_index_of_prefix(v, want@, i as int);
            }
            return Some(i);
        }
        proof {
            assert(v.take(i + 1).drop_last() =~= v.take(i as int));
        }
        i = i + 1;
    }
    proof {
        lemma_index_of_prefix(v, want@, i as int);
    }
    None
}

pub fn choose_mac_layout(ids: &Vec<String>) -> (r: Option<usize>)
    ensures
        match spec_choose_mac_layout(ids@.map_values(|s: String| s@)) {
            Some(i) => r == Some(i as usize),
            None => r is None,
        },
{
    let ghost v = ids@.map_values(|s: String| s@);
    assert(preferred_mac_layouts()[0] == "com.apple.keylayout.ABC"@);
    assert(preferred_mac_layouts()[1] == "com.apple.keylayout.US"@);
    assert(preferred_mac_layouts()[2] == "com.apple.keylayout.USInternational-PC"@);
    if let Some(i) = position_of_id(ids, "com.apple.keylayout.ABC") {
        return Some(i);
    }
    if let Some(i) = position_of_id(ids, "com.apple.keylayout.US") {
        return Some(i);
    }
    if let Some(i) = position_of_id(ids, "com.apple.keylayout.USInternational-PC") {
        return Some(i);
    }
    if ids.len() > 0 {
        Some(0)
    } else {
        None
    }
}

/// The error when no layout is enabled.
pub fn no_mac_layout_error() -> (r: String)
    ensures
        r@ == "没有可用的英文键盘布局"@,
{
    "没有可用的英文键盘布局".to_owned()
}

/// The error when the selection call fails with `status`.
pub fn mac_select_error(status: i32) -> (r: String)
    ensures
        r@ == "TISSelectInputSource 失败, OSStatus="@ + (if status < 0 {
            "-"@ + decimal((-status) as nat)
        } else {
            decimal(status as nat)
        }),
{
    let mut s = "TISSelectInputSource 失败, OSStatus=".to_owned();
    if status < 0 {
        s.append("-");
        let magnitude: u64 = (0i64 - status as i64) as u64;
        push_decimal(&mut s, magnitude);
    } else {
        push_decimal(&mut s, status as u64);
    }
    s
}

/// The Linux input-method commands tried in order: each program with its
/// arguments.
pub fn linux_switch_commands() -> (r: Vec<(&'static str, Vec<&'static str>)>)
    ensures
        r@.len() == 3,
        r@[0].0@ == "fcitx5-remote"@ && r@[0].1@.len() == 1 && r@[0].1@[0]@ == "-c"@,
        r@[1].0@ == "fcitx-remote"@ && r@[1].1@.len() == 1 && r@[1].1@[0]@ == "-c"@,
        r@[2].0@ == "ibus"@ && r@[2].1@.len() == 2 && r@[2].1@[0]@ == "engine"@ && r@[2].1@[1]@
            == "xkb:us::eng"@,
{
    let mut v: Vec<(&'static str, Vec<&'static str>)> = Vec::new();
    let mut a: Vec<&'static str> = Vec::new();
    a.push("-c");
    v.push(("fcitx5-remote", a));
    let mut b: Vec<&'static str> = Vec::new();
    b.push("-c");
    v.push(("fcitx-remote", b));
    let mut c: Vec<&'static str> = Vec::new();
    c.push("engine");
    c.push("xkb:us::eng");
    v.push(("ibus", c));
    v
}

/// The outcome of the Linux switch given the first command that succeeded:
/// the command used, or the error when none did.
pub fn linux_switch_outcome(first_success: Option<usize>) -> (r: Result<String, String>)
    ensures
        first_success == Some(0usize) ==> (r matches Ok(m) && m@ == "fcitx5-remote -c"@),
        first_success == Some(1usize) ==> (r matches Ok(m) && m@ == "fcitx-remote -c"@),
        first_success == Some(2usize) ==> (r matches Ok(m) && m@ == "ibus engine xkb:us::eng"@),
        (first_success is None || first_success.unwrap() > 2) ==> (r matches Err(m) && m@
            == "未检测到 fcitx5/fcitx/ibus(或切换未成功)"@),
{
    match first_success {
        Some(0) => Ok("fcitx5-remote -c".to_owned()),
        Some(1) => Ok("fcitx-remote -c".to_owned()),
        Some(2) => Ok("ibus engine xkb:us::eng".to_owned()),
        _ => Err("未检测到 fcitx5/fcitx/ibus(或切换未成功)".to_owned()),
    }
}

} // verus!
