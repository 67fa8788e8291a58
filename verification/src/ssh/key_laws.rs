//! The cursor and Home/End keys follow xterm's scheme: plain, they send
//! `ESC [ f` (or `ESC O f` in application-cursor mode); with Shift, Alt or
//! Ctrl held they send `ESC [ 1 ; p f`, where `p` is one plus Shift (1), Alt
//! (2) and Ctrl (4). Only the final byte `f` tells the keys apart.

use vstd::prelude::*;
use crate::ssh::terminal::{KeyMods, spec_keystroke_bytes};

verus! {

/// The key is one of the cursor or Home/End keys, and `f` the final byte
/// xterm gives it: A B C D for up, down, right, left; H and F for Home and
/// End.
pub open spec fn nav_key_final(key: Seq<char>, f: u8) -> bool {
    ||| key == "up"@ && f == 0x41u8
    ||| key == "down"@ && f == 0x42u8
    ||| key == "right"@ && f == 0x43u8
    ||| key == "left"@ && f == 0x44u8
    ||| key == "home"@ && f == 0x48u8
    ||| key == "end"@ && f == 0x46u8
}

/// xterm's modifier parameter, counted from the held keys.
pub open spec fn xterm_param(m: KeyMods) -> int {
    1 + (if m.shift { 1int } else { 0 }) + (if m.alt { 2int } else { 0 }) + (if m.control { 4int } else { 0 })
}

/// What a cursor or Home/End key sends, for every combination of held keys
/// and both cursor modes.
pub proof fn law_nav_keys_follow_xterm(key: Seq<char>, f: u8, m: KeyMods, app_cursor: bool)
    requires
        nav_key_final(key, f),
    ensures
        m.shift || m.alt || m.control ==> spec_keystroke_bytes(key, m, app_cursor) == seq![
            0x1bu8,
            0x5bu8,
            0x31u8,
            0x3bu8,
            (48 + xterm_param(m)) as u8,
            f,
        ],
        !(m.shift || m.alt || m.control) ==> spec_keystroke_bytes(key, m, app_cursor) == (if app_cursor {
            seq![0x1bu8, 0x4fu8, f]
        } else {
            seq![0x1bu8, 0x5bu8, f]
        }),
{
    reveal_strlit("enter");
    reveal_strlit("return");
    reveal_strlit("backspace");
    reveal_strlit("tab");
    reveal_strlit("escape");
    reveal_strlit("space");
    reveal_strlit("up");
    reveal_strlit("down");
    reveal_strlit("right");
    reveal_strlit("left");
    reveal_strlit("home");
    reveal_strlit("end");
}

/// Two cursor keys pressed with the same held keys in the same mode send the
/// same bytes up to the last one, which is their final byte.
pub proof fn law_nav_keys_differ_only_in_final(
    k1: Seq<char>,
    f1: u8,
    k2: Seq<char>,
    f2: u8,
    m: KeyMods,
    app_cursor: bool,
)
    requires
        nav_key_final(k1, f1),
        nav_key_final(k2, f2),
    ensures
        spec_keystroke_bytes(k1, m, app_cursor).len() == spec_keystroke_bytes(k2, m, app_cursor).len(),
        spec_keystroke_bytes(k1, m, app_cursor).drop_last() == spec_keystroke_bytes(k2, m, app_cursor).drop_last(),
        spec_keystroke_bytes(k1, m, app_cursor).last() == f1,
        spec_keystroke_bytes(k2, m, app_cursor).last() == f2,
{
    law_nav_keys_follow_xterm(k1, f1, m, app_cursor);
    law_nav_keys_follow_xterm(k2, f2, m, app_cursor);
}

/// The key is Delete, Page Up or Page Down, and `n` the digit xterm gives it
/// (3, 5, 6).
pub open spec fn tilde_key_digit(key: Seq<char>, n: u8) -> bool {
    ||| key == "delete"@ && n == 0x33u8
    ||| key == "pageup"@ && n == 0x35u8
    ||| key == "pagedown"@ && n == 0x36u8
}

/// Delete, Page Up and Page Down send `ESC [ n ~`, and `ESC [ n ; p ~` with
/// Shift, Alt or Ctrl held.
pub proof fn law_tilde_keys_follow_xterm(key: Seq<char>, n: u8, m: KeyMods, app_cursor: bool)
    requires
        tilde_key_digit(key, n),
    ensures
        m.shift || m.alt || m.control ==> spec_keystroke_bytes(key, m, app_cursor) == seq![
            0x1bu8,
            0x5bu8,
            n,
            0x3bu8,
            (48 + xterm_param(m)) as u8,
            0x7eu8,
        ],
        !(m.shift || m.alt || m.control) ==> spec_keystroke_bytes(key, m, app_cursor) == seq![
            0x1bu8,
            0x5bu8,
            n,
            0x7eu8,
        ],
{
    reveal_strlit("enter");
    reveal_strlit("return");
    reveal_strlit("backspace");
    reveal_strlit("tab");
    reveal_strlit("escape");
    reveal_strlit("space");
    reveal_strlit("up");
    reveal_strlit("down");
    reveal_strlit("right");
    reveal_strlit("left");
    reveal_strlit("home");
    reveal_strlit("end");
    reveal_strlit("delete");
    reveal_strlit("pageup");
    reveal_strlit("pagedown");
}

/// Enter (or Return) sends a carriage return, Tab a tab, Escape an escape
/// and Space a space, whatever is held; Backspace sends DEL, preceded by ESC
/// when Alt is held.
pub proof fn law_control_keys(m: KeyMods, app_cursor: bool)
    ensures
        spec_keystroke_bytes("enter"@, m, app_cursor) == seq![0x0du8],
        spec_keystroke_bytes("return"@, m, app_cursor) == seq![0x0du8],
        spec_keystroke_bytes("tab"@, m, app_cursor) == seq![0x09u8],
        spec_keystroke_bytes("escape"@, m, app_cursor) == seq![0x1bu8],
        spec_keystroke_bytes("space"@, m, app_cursor) == seq![0x20u8],
        spec_keystroke_bytes("backspace"@, m, app_cursor) == (if m.alt {
            seq![0x1bu8, 0x7fu8]
        } else {
            seq![0x7fu8]
        }),
{
    reveal_strlit("enter");
    reveal_strlit("return");
    reveal_strlit("backspace");
    reveal_strlit("tab");
    reveal_strlit("escape");
    reveal_strlit("space");
    assert("tab"@[0] == 't' && "enter"@[0] == 'e' && "return"@[0] == 'r' && "backspace"@[0] == 'b');
    assert("escape"@[1] == 's' && "enter"@[1] == 'n' && "return"@[1] == 'e' && "backspace"@[1] == 'a');
    assert("escape"@.len() == 6 && "tab"@.len() == 3);
}

} // verus!
