//! What the terminal sends to the remote side: key sequences, xterm mouse
//! reports and alternate-scroll arrows; and what it looks for in what comes
//! back (the clear-screen sequence, even when split across reads). Also the
//! selection overlay on styled text runs.

use vstd::prelude::*;
use crate::text::{chars_of, decimal_bytes, find_bytes, find_first, push_decimal_bytes, str_eq};

verus! {

/// The modifier keys held with a key or mouse event.
#[derive(Debug, Clone, Copy, PartialEq, Eq, Structural)]
pub struct KeyMods {
    pub control: bool,
    pub alt: bool,
    pub shift: bool,
    /// The platform key (Cmd / Win).
    pub platform: bool,
}

impl Default for KeyMods {
    fn default() -> (r: Self)
        ensures
            !r.control && !r.alt && !r.shift && !r.platform,
    {
        KeyMods { control: false, alt: false, shift: false, platform: false }
    }
}

/// A key press: the key's name (`up`, `enter`, `a`, …) and its modifiers.
#[derive(Debug)]
pub struct Keystroke {
    pub key: String,
    pub mods: KeyMods,
}

/// xterm modifier parameter: 1 + shift(1) + alt(2) + ctrl(4); the platform
/// key does not count.
pub open spec fn spec_modifier_param(m: KeyMods) -> nat {
    1 + (if m.shift { 1nat } else { 0 }) + (if m.alt { 2nat } else { 0 }) + (if m.control { 4nat } else { 0 })
}

pub fn xterm_modifier_param(m: KeyMods) -> (r: usize)
    ensures
        r == spec_modifier_param(m),
{
    1 + (if m.shift { 1 } else { 0 }) + (if m.alt { 2 } else { 0 }) + (if m.control { 4 } else { 0 })
}

/// A cursor or Home/End key ending in `f`: `ESC [ 1 ; <mods> f` when
/// modified, else `ESC O f` in application-cursor mode (DECCKM) and
/// `ESC [ f` otherwise.
pub open spec fn spec_nav_seq(m: KeyMods, app_cursor: bool, f: u8) -> Seq<u8> {
    let p = spec_modifier_param(m);
    if p > 1 {
        seq![0x1bu8, 0x5bu8, 0x31u8, 0x3bu8, (p + 48) as u8, f]
    } else if app_cursor {
        seq![0x1bu8, 0x4fu8, f]
    } else {
        seq![0x1bu8, 0x5bu8, f]
    }
}

pub fn nav_seq(m: KeyMods, app_cursor: bool, f: u8) -> (r: Vec<u8>)
    ensures
        r@ == spec_nav_seq(m, app_cursor, f),
{
    let p = xterm_modifier_param(m);
    if p > 1 {
        vec![0x1bu8, 0x5bu8, 0x31u8, 0x3bu8, (p as u8) + 48u8, f]
    } else if app_cursor {
        vec![0x1bu8, 0x4fu8, f]
    } else {
        vec![0x1bu8, 0x5bu8, f]
    }
}

/// A `~`-terminated key (Delete, PgUp, PgDn) with key code `code` (a digit):
/// `ESC [ code ; <mods> ~` when modified, else its plain form.
pub open spec fn spec_tilde_seq(m: KeyMods, plain: Seq<u8>, code: u8) -> Seq<u8> {
    let p = spec_modifier_param(m);
    if p > 1 {
        seq![0x1bu8, 0x5bu8, (code + 48) as u8, 0x3bu8, (p + 48) as u8, 0x7eu8]
    } else {
        plain
    }
}

pub fn tilde_seq(m: KeyMods, plain: &[u8], code: u8) -> (r: Vec<u8>)
    requires
        code < 10,
    ensures
        r@ == spec_tilde_seq(m, plain@, code),
{
    let p = xterm_modifier_param(m);
    if p > 1 {
        vec![0x1bu8, 0x5bu8, code + 48u8, 0x3bu8, (p as u8) + 48u8, 0x7eu8]
    } else {
        let mut out: Vec<u8> = Vec::new();
        let mut i: usize = 0;
        while i < plain.len()
            invariant
                i <= plain@.len(),
                out@ == plain@.take(i as int),
            decreases plain.len() - i,
        {
            out.push(plain[i]);
            assert(plain@.take(i + 1) =~= plain@.take(i as int).push(plain@[i as int]));
            i = i + 1;
        }
        assert(plain@.take(plain@.len() as int) =~= plain@);
        out
    }
}

/// ASCII lower-casing of one char.
pub open spec fn ascii_lower(c: char) -> char {
    if 'A' <= c && c <= 'Z' {
        ((c as u32) + 32) as char
    } else {
        c
    }
}

/// ASCII upper-casing of one char.
pub open spec fn ascii_upper(c: char) -> char {
    if 'a' <= c && c <= 'z' {
        ((c as u32) - 32) as char
    } else {
        c
    }
}

pub open spec fn is_ascii_alpha(c: char) -> bool {
    ('a' <= c && c <= 'z') || ('A' <= c && c <= 'Z')
}

/// The byte a Ctrl+key combination sends, when the key's first char,
/// lower-cased and truncated to a byte, is a letter: 1 for `a` to 26 for `z`.
pub open spec fn ctrl_code(key: Seq<char>) -> Option<u8> {
    if key.len() > 0 {
        let code = ((ascii_lower(key[0]) as u32) % 256) as u8;
        if 0x61 <= code && code <= 0x7a {
            Some((code - 0x60) as u8)
        } else {
            None
        }
    } else {
        None
    }
}

/// What the terminal sends for a key press. Named keys map to their control
/// bytes or escape sequences; Ctrl+letter sends the control character; a
/// printable ASCII key without Ctrl or the platform key sends itself, letters
/// upper-cased with Shift and lower-cased without; anything else sends
/// nothing.
pub open spec fn spec_keystroke_bytes(key: Seq<char>, m: KeyMods, app_cursor: bool) -> Seq<u8> {
    if key == "enter"@ || key == "return"@ {
        seq![0x0du8]
    } else if key == "backspace"@ {
        if m.alt {
            seq![0x1bu8, 0x7fu8]
        } else {
            seq![0x7fu8]
        }
    } else if key == "tab"@ {
        seq![0x09u8]
    } else if key == "escape"@ {
        seq![0x1bu8]
    } else if key == "space"@ {
        seq![0x20u8]
    } else if key == "up"@ {
        spec_nav_seq(m, app_cursor, 0x41)
    } else if key == "down"@ {
        spec_nav_seq(m, app_cursor, 0x42)
    } else if key == "right"@ {
        spec_nav_seq(m, app_cursor, 0x43)
    } else if key == "left"@ {
        spec_nav_seq(m, app_cursor, 0x44)
    } else if key == "home"@ {
        spec_nav_seq(m, app_cursor, 0x48)
    } else if key == "end"@ {
        spec_nav_seq(m, app_cursor, 0x46)
    } else if key == "delete"@ {
        spec_tilde_seq(m, seq![0x1bu8, 0x5bu8, 0x33u8, 0x7eu8], 3)
    } else if key == "pageup"@ {
        spec_tilde_seq(m, seq![0x1bu8, 0x5bu8, 0x35u8, 0x7eu8], 5)
    } else if key == "pagedown"@ {
        spec_tilde_seq(m, seq![0x1bu8, 0x5bu8, 0x36u8, 0x7eu8], 6)
    } else if m.control && !m.alt && ctrl_code(key) is Some {
        seq![ctrl_code(key).unwrap()]
    } else if key.len() > 0 && (key[0] as u32) < 128 && !m.control && !m.platform {
        let c = key[0];
        let c2 = if m.shift && is_ascii_alpha(c) {
            ascii_upper(c)
        } else if !m.shift && is_ascii_alpha(c) {
            ascii_lower(c)
        } else {
            c
        };
        seq![(c2 as u32) as u8]
    } else {
        Seq::empty()
    }
}

/// The bytes a key press sends; `app_cursor` is the terminal's DECCKM
/// (application cursor keys) state.
pub fn keystroke_to_bytes(ks: &Keystroke, app_cursor: bool) -> (r: Vec<u8>)
    ensures
        r@ == spec_keystroke_bytes(ks.key@, ks.mods, app_cursor),
{
    let k = ks.key.as_str();
    let m = ks.mods;
    if str_eq(k, "enter") || str_eq(k, "return") {
        return vec![0x0du8];
    }
    if str_eq(k, "backspace") {
        return if m.alt {
            vec![0x1bu8, 0x7fu8]
        } else {
            vec![0x7fu8]
        };
    }
    if str_eq(k, "tab") {
        return vec![0x09u8];
    }
    if str_eq(k, "escape") {
        return vec![0x1bu8];
    }
    if str_eq(k, "space") {
        return vec![0x20u8];
    }
    if str_eq(k, "up") {
        return nav_seq(m, app_cursor, 0x41);
    }
    if str_eq(k, "down") {
        return nav_seq(m, app_cursor, 0x42);
    }
    if str_eq(k, "right") {
        return nav_seq(m, app_cursor, 0x43);
    }
    if str_eq(k, "left") {
        return nav_seq(m, app_cursor, 0x44);
    }
    if str_eq(k, "home") {
        return nav_seq(m, app_cursor, 0x48);
    }
    if str_eq(k, "end") {
        return nav_seq(m, app_cursor, 0x46);
    }
    if str_eq(k, "delete") {
        return tilde_seq(m, &[0x1bu8, 0x5bu8, 0x33u8, 0x7eu8], 3);
    }
    if str_eq(k, "pageup") {
        return tilde_seq(m, &[0x1bu8, 0x5bu8, 0x35u8, 0x7eu8], 5);
    }
    if str_eq(k, "pagedown") {
        return tilde_seq(m, &[0x1bu8, 0x5bu8, 0x36u8, 0x7eu8], 6);
    }
    let cs = chars_of(k);
    if m.control && !m.alt && cs.len() > 0 {
        let cu = cs[0] as u32;
        let lu = if 65 <= cu && cu <= 90 {
            cu + 32
        } else {
            cu
        };
        let code = (lu % 256) as u8;
        proof {
            assert(lu == ascii_lower(ks.key@[0]) as u32);
        }
        if 0x61u8 <= code && code <= 0x7au8 {
            return vec![code - 0x60u8];
        }
    }
    if cs.len() > 0 && (cs[0] as u32) < 128 && !m.control && !m.platform {
        let cu = cs[0] as u32;
        let b = cu as u8;
        let lower = 97 <= b && b <= 122;
        let upper = 65 <= b && b <= 90;
        let out = if m.shift && (lower || upper) {
            if lower {
                b - 32
            } else {
                b
            }
        } else if !m.shift && (lower || upper) {
            if upper {
                b + 32
            } else {
                b
            }
        } else {
            b
        };
        return vec![out];
    }
    Vec::new()
}

/// `ESC O A` per line scrolled up (toward history), `ESC O B` per line down:
/// the arrows that alternate scroll sends on the alternate screen.
pub open spec fn spec_alt_scroll_bytes(lines: int) -> Seq<u8> {
    let seq3 = if lines > 0 {
        seq![0x1bu8, 0x4fu8, 0x41u8]
    } else {
        seq![0x1bu8, 0x4fu8, 0x42u8]
    };
    let n = if lines < 0 { -lines } else { lines };
    Seq::new((3 * n) as nat, |i: int| seq3[i % 3])
}

pub fn alt_scroll_bytes(lines: i32) -> (r: Vec<u8>)
    ensures
        r@ == spec_alt_scroll_bytes(lines as int),
{
    let last: u8 = if lines > 0 { 0x41 } else { 0x42 };
    let n: u32 = if lines < 0 { (0 - (lines as i64)) as u32 } else { lines as u32 };
    let ghost seq3 = seq![0x1bu8, 0x4fu8, last];
    let mut out: Vec<u8> = Vec::new();
    let mut k: u32 = 0;
    while k < n
        invariant
            k <= n,
            n as int == (if lines < 0 { -(lines as int) } else { lines as int }),
            seq3 == seq![0x1bu8, 0x4fu8, last],
            out@ == Seq::new((3 * k) as nat, |i: int| seq3[i % 3]),
        decreases n - k,
    {
        out.push(0x1bu8);
        out.push(0x4fu8);
        out.push(last);
        proof {
            let next = Seq::new((3 * (k + 1)) as nat, |i: int| seq3[i % 3]);
            assert forall|i: int| 0 <= i < next.len() implies out@[i] == next[i] by {
                if i >= 3 * k {
                    assert(i - 3 * k < 3);
                    assert((i - 3 * k) % 3 == i % 3) by (nonlinear_arith)
                        requires
                            k >= 0,
                            0 <= i - 3 * k < 3,
                    ;
                }
            }
            assert(out@ =~= next);
        }
        k = k + 1;
    }
    out
}

/// A mouse button.
#[derive(Debug, Clone, Copy, PartialEq, Eq, Structural)]
pub enum MouseButton {
    Left,
    Middle,
    Right,
    /// A back/forward navigation button: it has no xterm encoding.
    Navigate,
}

/// The mouse-related terminal modes.
#[derive(Debug, Clone, Copy, PartialEq, Eq, Structural)]
pub struct MouseModes {
    /// 1000: report clicks.
    pub report_click: bool,
    /// 1002: report drags.
    pub drag: bool,
    /// 1003: report any motion.
    pub motion: bool,
    /// 1006: SGR encoding.
    pub sgr: bool,
    /// 1005: UTF-8 coordinate extension.
    pub utf8: bool,
}

/// The xterm mouse wire format.
#[derive(Debug, Clone, Copy, PartialEq, Eq, Structural)]
pub enum MouseEncoding {
    /// `ESC [ < b ; col ; row M/m`, unlimited coordinates.
    Sgr,
    /// Legacy `ESC [ M` with one-byte coordinates, or two-byte ones with the
    /// UTF-8 extension.
    Normal { utf8: bool },
}

impl MouseEncoding {
    /// SGR when that mode is on, else legacy (UTF-8 extended when that mode
    /// is on).
    pub fn from_mode(mode: MouseModes) -> (r: Self)
        ensures
            r == (if mode.sgr {
                MouseEncoding::Sgr
            } else {
                MouseEncoding::Normal { utf8: mode.utf8 }
            }),
    {
        if mode.sgr {
            MouseEncoding::Sgr
        } else if mode.utf8 {
            MouseEncoding::Normal { utf8: true }
        } else {
            MouseEncoding::Normal { utf8: false }
        }
    }
}

/// Whether the application owns the mouse: a reporting mode is on and Shift
/// (the local-selection escape hatch) is not held.
pub fn mouse_reporting(mode: MouseModes, mods: KeyMods) -> (r: bool)
    ensures
        r == ((mode.report_click || mode.drag || mode.motion) && !mods.shift),
{
    (mode.report_click || mode.drag || mode.motion) && !mods.shift
}

/// Modifier bits of a mouse report: Shift 4, Alt 8, Control 16.
pub open spec fn spec_mouse_mod_bits(m: KeyMods) -> nat {
    (if m.shift { 4nat } else { 0 }) + (if m.alt { 8nat } else { 0 }) + (if m.control { 16nat } else { 0 })
}

pub fn mouse_mod_bits(m: KeyMods) -> (r: u8)
    ensures
        r == spec_mouse_mod_bits(m),
{
    (if m.shift { 4u8 } else { 0u8 }) + (if m.alt { 8u8 } else { 0u8 }) + (if m.control { 16u8 } else { 0u8 })
}

/// The button code of a press or release: 0, 1, 2; none for navigation
/// buttons.
pub fn mouse_press_code(button: MouseButton) -> (r: Option<u8>)
    ensures
        r == match button {
            MouseButton::Left => Some(0u8),
            MouseButton::Middle => Some(1u8),
            MouseButton::Right => Some(2u8),
            MouseButton::Navigate => None,
        },
{
    match button {
        MouseButton::Left => Some(0),
        MouseButton::Middle => Some(1),
        MouseButton::Right => Some(2),
        MouseButton::Navigate => None,
    }
}

pub open spec fn spec_move_code(pressed: Option<MouseButton>) -> Option<u8> {
    match pressed {
        Some(MouseButton::Left) => Some(32u8),
        Some(MouseButton::Middle) => Some(33u8),
        Some(MouseButton::Right) => Some(34u8),
        Some(MouseButton::Navigate) => None,
        None => Some(35u8),
    }
}

/// The button code of a motion event: drags with the left, middle or right
/// button held 32, 33, 34; plain hover 35; none for navigation buttons.
pub fn mouse_move_code(pressed: Option<MouseButton>) -> (r: Option<u8>)
    ensures
        r == spec_move_code(pressed),
{
    match pressed {
        Some(MouseButton::Left) => Some(32),
        Some(MouseButton::Middle) => Some(33),
        Some(MouseButton::Right) => Some(34),
        Some(MouseButton::Navigate) => None,
        None => Some(35),
    }
}

/// Whether a motion is reported under the active modes, and with which
/// code: any-motion (1003) reports hover and drags, drag (1002) only drags,
/// click-only (1000) no motion.
pub open spec fn spec_reportable_move_code(mode: MouseModes, pressed: Option<MouseButton>) -> Option<u8> {
    match spec_move_code(pressed) {
        None => None,
        Some(code) => if code == 35 && !mode.motion {
            None
        } else if !(mode.motion || mode.drag) {
            None
        } else {
            Some(code)
        },
    }
}

pub fn reportable_move_code(mode: MouseModes, pressed: Option<MouseButton>) -> (r: Option<u8>)
    ensures
        r == spec_reportable_move_code(mode, pressed),
{
    let code = match mouse_move_code(pressed) {
        Some(c) => c,
        None => {
            return None;
        },
    };
    if code == 35 && !mode.motion {
        return None;
    }
    if !(mode.motion || mode.drag) {
        return None;
    }
    Some(code)
}

/// One coordinate of a legacy report: a byte `33 + pos`, or with the UTF-8
/// extension from position 95 on the two bytes `0xC0 + p / 64`,
/// `0x80 + p % 64` of `p = 33 + pos`.
pub open spec fn normal_coord(pos: nat, utf8: bool) -> Seq<u8> {
    if utf8 && pos >= 95 {
        seq![(0xC0 + (33 + pos) / 64) as u8, (0x80 + (33 + pos) % 64) as u8]
    } else {
        seq![(33 + pos) as u8]
    }
}

/// The legacy report `ESC [ M (32 + button) x y`; coordinates are limited to
/// 222 (2014 with the UTF-8 extension).
pub open spec fn spec_encode_normal_mouse(col: nat, row: nat, button: nat, utf8: bool) -> Option<Seq<u8>> {
    let max_point: nat = if utf8 { 2015 } else { 223 };
    if row >= max_point || col >= max_point {
        None
    } else {
        Some(seq![0x1bu8, 0x5bu8, 0x4du8, (32 + button) as u8] + normal_coord(col, utf8) + normal_coord(row, utf8))
    }
}

fn push_normal_coord(out: &mut Vec<u8>, pos: usize, utf8: bool)
    requires
        pos < (if utf8 { 2015usize } else { 223usize }),
    ensures
        final(out)@ == old(out)@ + normal_coord(pos as nat, utf8),
{
    if utf8 && pos >= 95 {
        let p = 33 + pos;
        out.push((0xC0 + p / 64) as u8);
        out.push((0x80 + p % 64) as u8);
    } else {
        out.push((33 + pos) as u8);
    }
}

pub fn encode_normal_mouse(col: usize, row: usize, button: u8, utf8: bool) -> (r: Option<Vec<u8>>)
    requires
        button <= 223,
    ensures
        match r {
            Some(v) => spec_encode_normal_mouse(col as nat, row as nat, button as nat, utf8) == Some(v@),
            None => spec_encode_normal_mouse(col as nat, row as nat, button as nat, utf8) is None,
        },
{
    let max_point: usize = if utf8 { 2015 } else { 223 };
    if row >= max_point || col >= max_point {
        return None;
    }
    let mut msg: Vec<u8> = vec![0x1bu8, 0x5bu8, 0x4du8, 32u8 + button];
    push_normal_coord(&mut msg, col, utf8);
    push_normal_coord(&mut msg, row, utf8);
    Some(msg)
}

/// One mouse report for 0-based viewport coordinates (the protocols count
/// from 1). SGR: `ESC [ < code ; col+1 ; row+1` then `M` for a press and `m`
/// for a release. Legacy: the press code, or 3 for any release, plus the
/// modifier bits.
pub open spec fn spec_encode_mouse_report(
    col: nat,
    row: nat,
    button: nat,
    pressed: bool,
    mods: KeyMods,
    encoding: MouseEncoding,
) -> Option<Seq<u8>> {
    let bits = spec_mouse_mod_bits(mods);
    match encoding {
        MouseEncoding::Sgr => Some(
            seq![0x1bu8, 0x5bu8, 0x3cu8] + decimal_bytes(button + bits) + seq![0x3bu8] + decimal_bytes(col + 1)
                + seq![0x3bu8] + decimal_bytes(row + 1) + seq![if pressed { 0x4du8 } else { 0x6du8 }],
        ),
        MouseEncoding::Normal { utf8 } => spec_encode_normal_mouse(
            col,
            row,
            if pressed { button + bits } else { 3 + bits },
            utf8,
        ),
    }
}

pub fn encode_mouse_report(
    col: usize,
    row: usize,
    button: u8,
    pressed: bool,
    mods: KeyMods,
    encoding: MouseEncoding,
) -> (r: Option<Vec<u8>>)
    requires
        col < usize::MAX,
        row < usize::MAX,
        button + spec_mouse_mod_bits(mods) <= 255,
        encoding is Normal && pressed ==> button + spec_mouse_mod_bits(mods) <= 223,
    ensures
        match r {
            Some(v) => spec_encode_mouse_report(col as nat, row as nat, button as nat, pressed, mods, encoding) == Some(v@),
            None => spec_encode_mouse_report(col as nat, row as nat, button as nat, pressed, mods, encoding) is None,
        },
{
    let bits = mouse_mod_bits(mods);
    match encoding {
        MouseEncoding::Sgr => {
            let mut out: Vec<u8> = vec![0x1bu8, 0x5bu8, 0x3cu8];
            push_decimal_bytes(&mut out, (button + bits) as u64);
            out.push(0x3bu8);
            push_decimal_bytes(&mut out, (col + 1) as u64);
            out.push(0x3bu8);
            push_decimal_bytes(&mut out, (row + 1) as u64);
            out.push(if pressed { 0x4du8 } else { 0x6du8 });
            Some(out)
        },
        MouseEncoding::Normal { utf8 } => {
            let code = if pressed { button + bits } else { 3 + bits };
            encode_normal_mouse(col, row, code, utf8)
        },
    }
}

/// Wheel reports: one press report (code 64 up, 65 down) per scrolled line,
/// none when the report cannot be encoded.
pub fn encode_wheel_reports(col: usize, row: usize, lines: i32, mods: KeyMods, mode: MouseModes) -> (r: Vec<
    Vec<u8>,
>)
    requires
        col < usize::MAX,
        row < usize::MAX,
    ensures
        ({
            let n = if lines < 0 { -(lines as int) } else { lines as int };
            let button: nat = if lines > 0 { 64 } else { 65 };
            let enc = if mode.sgr {
                MouseEncoding::Sgr
            } else {
                MouseEncoding::Normal { utf8: mode.utf8 }
            };
            match spec_encode_mouse_report(col as nat, row as nat, button, true, mods, enc) {
                Some(b) => r@.len() == n && forall|i: int| 0 <= i < n ==> (#[trigger] r@[i])@ == b,
                None => r@.len() == 0,
            }
        }),
{
    let button: u8 = if lines > 0 { 64 } else { 65 };
    let report = encode_mouse_report(col, row, button, true, mods, MouseEncoding::from_mode(mode));
    let mut out: Vec<Vec<u8>> = Vec::new();
    match report {
        Some(bytes) => {
            let n: u32 = if lines < 0 { (0 - (lines as i64)) as u32 } else { lines as u32 };
            let mut k: u32 = 0;
            while k < n
                invariant
                    k <= n,
                    out@.len() == k,
                    forall|i: int| 0 <= i < k ==> (#[trigger] out@[i])@ == bytes@,
                decreases n - k,
            {
                out.push(bytes.clone());
                k = k + 1;
            }
        },
        None => {},
    }
    out
}

/// Whether `needle` occurs in `haystack`; an empty needle never does.
pub fn contains_sequence(haystack: &[u8], needle: &[u8]) -> (r: bool)
    ensures
        r == (needle@.len() > 0 && find_first(haystack@, needle@) is Some),
{
    if needle.len() == 0 || needle.len() > haystack.len() {
        proof {
            if needle@.len() > haystack@.len() {
                assert(crate::text::find_from(haystack@, needle@, 0) is None);
            }
        }
        return false;
    }
    find_bytes(haystack, needle).is_some()
}

/// `ESC [ 2 J`: clear screen.
pub open spec fn clear_screen_seq() -> Seq<u8> {
    seq![0x1bu8, 0x5bu8, 0x32u8, 0x4au8]
}

/// The last bytes of `s` kept for the next read: three, one short of the
/// clear-screen sequence, or all of a shorter `s`.
pub open spec fn carried_tail(s: Seq<u8>) -> Seq<u8> {
    if s.len() >= 3 {
        s.skip(s.len() - 3)
    } else {
        s
    }
}

/// Looks for the clear-screen sequence in the terminal's input, carrying the
/// end of each read into the next so a sequence split across two reads is
/// still found.
pub struct ClearScreenScanner {
    tail: Vec<u8>,
}

impl ClearScreenScanner {
    /// The bytes carried over from the previous read.
    pub closed spec fn carried(&self) -> Seq<u8> {
        self.tail@
    }

    pub fn new() -> (r: Self)
        ensures
            r.carried() == Seq::<u8>::empty(),
    {
        ClearScreenScanner { tail: Vec::new() }
    }

    /// Whether the carried bytes followed by `data` hold the clear-screen
    /// sequence; the last three of them are carried to the next call.
    pub fn scan_for_clear_screen(&mut self, data: &[u8]) -> (r: bool)
        ensures
            r == (find_first(old(self).carried() + data@, clear_screen_seq()) is Some),
            final(self).carried() == carried_tail(old(self).carried() + data@),
    {
        let seq: [u8; 4] = [0x1bu8, 0x5bu8, 0x32u8, 0x4au8];
        assert(seq@ == clear_screen_seq());
        let mut buf: Vec<u8> = Vec::new();
        let ghost joined = self.tail@ + data@;
        let mut i: usize = 0;
        while i < self.tail.len()
            invariant
                i <= self.tail@.len(),
                buf@ == self.tail@.take(i as int),
            decreases self.tail.len() - i,
        {
            buf.push(self.tail[i]);
            assert(self.tail@.take(i + 1) =~= self.tail@.take(i as int).push(self.tail@[i as int]));
            i = i + 1;
        }
        assert(self.tail@.take(self.tail@.len() as int) =~= self.tail@);
        let ghost t0 = buf@;
        let mut j: usize = 0;
        while j < data.len()
            invariant
                j <= data@.len(),
                buf@ == t0 + data@.take(j as int),
            decreases data.len() - j,
        {
            buf.push(data[j]);
            assert(data@.take(j + 1) =~= data@.take(j as int).push(data@[j as int]));
            j = j + 1;
        }
        assert(data@.take(data@.len() as int) =~= data@);
        assert(buf@ =~= joined);
        let found = find_bytes(buf.as_slice(), &seq).is_some();
        let start: usize = if buf.len() >= 3 { buf.len() - 3 } else { 0 };
        let mut tail: Vec<u8> = Vec::new();
        let mut k: usize = start;
        while k < buf.len()
            invariant
                start <= k <= buf@.len(),
                tail@ == buf@.subrange(start as int, k as int),
            decreases buf.len() - k,
        {
            tail.push(buf[k]);
            assert(buf@.subrange(start as int, k + 1) =~= buf@.subrange(start as int, k as int).push(buf@[k as int]));
            k = k + 1;
        }
        assert(tail@ =~= carried_tail(joined));
        self.tail = tail;
        found
    }
}

proof fn lemma_find_from_some(h: Seq<u8>, n: Seq<u8>, i: int, p: int)
    requires
        0 <= i <= p,
        crate::text::occurs_at(h, n, p),
    ensures
        crate::text::find_from(h, n, i) is Some,
    decreases p - i,
{
    if !crate::text::occurs_at(h, n, i) {
        lemma_find_from_some(h, n, i + 1, p);
    }
}

/// A clear-screen sequence split between two reads is still found: when it
/// occurs in the concatenation of the two reads and ends inside the second,
/// scanning the second read after the first reports it.
pub proof fn law_clear_screen_across_reads(first: Seq<u8>, second: Seq<u8>, p: int)
    requires
        crate::text::occurs_at(first + second, clear_screen_seq(), p),
        p + 4 > first.len(),
    ensures
        find_first(carried_tail(first) + second, clear_screen_seq()) is Some,
{
    let t = carried_tail(first);
    let shift = first.len() - t.len();
    let q = p - shift;
    assert(0 <= q);
    assert((t + second).subrange(q, q + 4) =~= (first + second).subrange(p, p + 4));
    lemma_find_from_some(t + second, clear_screen_seq(), 0, q);
}

/// A styled span of a rendered row: its length in bytes, its text color,
/// its background and the rest of its style (font, decorations), colors and
/// style by palette id.
#[derive(Debug, Clone, Copy, PartialEq, Eq, Structural)]
pub struct TextRun {
    pub len: usize,
    pub color: u32,
    pub background: Option<u32>,
    pub style: u32,
}

/// The total length of runs.
pub open spec fn runs_len(runs: Seq<TextRun>) -> nat
    decreases runs.len(),
{
    if runs.len() == 0 {
        0
    } else {
        (runs_len(runs.drop_last()) + runs.last().len) as nat
    }
}

pub open spec fn min_nat(a: nat, b: nat) -> nat {
    if a < b { a } else { b }
}

pub open spec fn max_nat(a: nat, b: nat) -> nat {
    if a < b { b } else { a }
}

/// The pieces one run starting at `start` becomes under a selection
/// `[s, e)`: unchanged outside it; otherwise the part before, the selected
/// part with the selection background, and the part after, each present
/// when not empty.
pub open spec fn select_run(r: TextRun, start: nat, s: nat, e: nat, bg: u32) -> Seq<TextRun> {
    let end = (start + r.len) as nat;
    if end <= s || start >= e {
        seq![r]
    } else {
        let lo = max_nat(start, s);
        let hi = min_nat(end, e);
        (if start < s {
            seq![TextRun { len: (s - start) as usize, ..r }]
        } else {
            Seq::empty()
        }) + (if hi > lo {
            seq![TextRun { len: (hi - lo) as usize, background: Some(bg), ..r }]
        } else {
            Seq::empty()
        }) + (if end > e {
            seq![TextRun { len: (end - e) as usize, ..r }]
        } else {
            Seq::empty()
        })
    }
}

/// Every run split under the selection `[s, e)`.
pub open spec fn select_runs(runs: Seq<TextRun>, s: nat, e: nat, bg: u32) -> Seq<TextRun>
    decreases runs.len(),
{
    if runs.len() == 0 {
        Seq::empty()
    } else {
        select_runs(runs.drop_last(), s, e, bg) + select_run(runs.last(), runs_len(runs.drop_last()), s, e, bg)
    }
}

/// The runs with the selection `[sel_start, sel_end)` (clipped to the text)
/// painted with the selection background; text color and style are kept. An
/// empty selection, or one starting past the text, leaves the runs as they
/// are.
pub open spec fn spec_apply_selection(
    runs: Seq<TextRun>,
    text_len: nat,
    sel_start: nat,
    sel_end: nat,
    sel_bg: u32,
) -> Seq<TextRun> {
    if sel_start >= sel_end || sel_start >= text_len {
        runs
    } else {
        select_runs(runs, sel_start, min_nat(sel_end, text_len), sel_bg)
    }
}

pub(crate) proof fn lemma_runs_len_take(runs: Seq<TextRun>, i: int)
    requires
        0 <= i <= runs.len(),
    ensures
        runs_len(runs.take(i)) <= runs_len(runs),
    decreases runs.len() - i,
{
    if i < runs.len() {
        lemma_runs_len_take(runs, i + 1);
        assert(runs.take(i + 1).drop_last() =~= runs.take(i));
    } else {
        assert(runs.take(i) =~= runs);
    }
}

pub fn apply_selection(runs: &[TextRun], text_len: usize, sel_start: usize, sel_end: usize, sel_bg: u32) -> (r: Vec<
    TextRun,
>)
    requires
        runs_len(runs@) <= usize::MAX,
    ensures
        r@ == spec_apply_selection(runs@, text_len as nat, sel_start as nat, sel_end as nat, sel_bg),
{
    if sel_start >= sel_end || sel_start >= text_len {
        let mut out: Vec<TextRun> = Vec::new();
        let mut i: usize = 0;
        while i < runs.len()
            invariant
                i <= runs@.len(),
                out@ == runs@.take(i as int),
            decreases runs.len() - i,
        {
            out.push(runs[i]);
            assert(runs@.take(i + 1) =~= runs@.take(i as int).push(runs@[i as int]));
            i = i + 1;
        }
        assert(runs@.take(runs@.len() as int) =~= runs@);
        return out;
    }
    let se: usize = if sel_end < text_len { sel_end } else { text_len };
    let mut out: Vec<TextRun> = Vec::new();
    let mut pos: usize = 0;
    let mut i: usize = 0;
    while i < runs.len()
        invariant
            i <= runs@.len(),
            runs_len(runs@) <= usize::MAX,
            sel_start < se,
            pos == runs_len(runs@.take(i as int)),
            out@ == select_runs(runs@.take(i as int), sel_start as nat, se as nat, sel_bg),
        decreases runs.len() - i,
    {
        let run = runs[i];
        proof {
            assert(runs@.take(i + 1).drop_last() =~= runs@.take(i as int));
            assert(runs@.take(i + 1).last() == run);
            lemma_runs_len_take(runs@, i + 1);
        }
        let r_start = pos;
        let r_end = pos + run.len;
        pos = r_end;
        let ghost before = out@;
        if r_end <= sel_start || r_start >= se {
            out.push(run);
        } else {
            if r_start < sel_start {
                out.push(TextRun { len: sel_start - r_start, ..run });
            }
            let mid_start = if r_start > sel_start { r_start } else { sel_start };
            let mid_end = if r_end < se { r_end } else { se };
            if mid_end > mid_start {
                out.push(TextRun { len: mid_end - mid_start, background: Some(sel_bg), ..run });
            }
            if r_end > se {
                out.push(TextRun { len: r_end - se, ..run });
            }
        }
        assert(out@ =~= before + select_run(run, r_start as nat, sel_start as nat, se as nat, sel_bg));
        i = i + 1;
    }
    assert(runs@.take(runs@.len() as int) =~= runs@);
    out
}

pub(crate) proof fn lemma_select_run_len(r: TextRun, start: nat, s: nat, e: nat, bg: u32)
    requires
        s < e,
    ensures
        runs_len(select_run(r, start, s, e, bg)) == r.len,
{
    let p = select_run(r, start, s, e, bg);
    reveal_with_fuel(runs_len, 4);
    let end = (start + r.len) as nat;
    if !(end <= s || start >= e) {
        let a: Seq<TextRun> = if start < s { seq![TextRun { len: (s - start) as usize, ..r }] } else { Seq::empty() };
        let lo = max_nat(start, s);
        let hi = min_nat(end, e);
        let b: Seq<TextRun> = if hi > lo { seq![TextRun { len: (hi - lo) as usize, background: Some(bg), ..r }] } else { Seq::empty() };
        let c: Seq<TextRun> = if end > e { seq![TextRun { len: (end - e) as usize, ..r }] } else { Seq::empty() };
        lemma_runs_len_concat(a, b);
        lemma_runs_len_concat(a + b, c);
    }
}

pub(crate) proof fn lemma_runs_len_concat(a: Seq<TextRun>, b: Seq<TextRun>)
    ensures
        runs_len(a + b) == runs_len(a) + runs_len(b),
    decreases b.len(),
{
    if b.len() > 0 {
        lemma_runs_len_concat(a, b.drop_last());
        assert((a + b).drop_last() =~= a + b.drop_last());
    } else {
        assert(a + b =~= a);
    }
}

/// Painting a selection splits runs but never changes the total length.
pub proof fn law_selection_keeps_length(runs: Seq<TextRun>, text_len: nat, s: nat, e: nat, bg: u32)
    ensures
        runs_len(spec_apply_selection(runs, text_len, s, e, bg)) == runs_len(runs),
    decreases runs.len(),
{
    if !(s >= e || s >= text_len) && runs.len() > 0 {
        let e2 = min_nat(e, text_len);
        law_selection_keeps_length(runs.drop_last(), text_len, s, e, bg);
        lemma_select_run_len(runs.last(), runs_len(runs.drop_last()), s, e2, bg);
        lemma_runs_len_concat(
            select_runs(runs.drop_last(), s, e2, bg),
            select_run(runs.last(), runs_len(runs.drop_last()), s, e2, bg),
        );
    }
}

} // verus!
