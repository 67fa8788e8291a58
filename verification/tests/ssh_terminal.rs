use verve::ssh::terminal::{
    alt_scroll_bytes, apply_selection, contains_sequence, encode_mouse_report, encode_normal_mouse,
    encode_wheel_reports, keystroke_to_bytes, mouse_mod_bits, mouse_press_code, mouse_reporting,
    reportable_move_code, xterm_modifier_param, ClearScreenScanner, KeyMods, Keystroke, MouseButton,
    MouseEncoding, MouseModes, TextRun,
};

fn ks(key: &str) -> Keystroke {
    Keystroke { key: key.to_string(), mods: KeyMods::default() }
}

fn ks_ctrl(key: &str) -> Keystroke {
    Keystroke { key: key.to_string(), mods: KeyMods { control: true, ..KeyMods::default() } }
}

fn modes(report_click: bool, drag: bool, motion: bool, sgr: bool, utf8: bool) -> MouseModes {
    MouseModes { report_click, drag, motion, sgr, utf8 }
}

#[test]
fn arrows_csi_without_decckm() {
    assert_eq!(keystroke_to_bytes(&ks("up"), false), b"\x1b[A");
    assert_eq!(keystroke_to_bytes(&ks("down"), false), b"\x1b[B");
    assert_eq!(keystroke_to_bytes(&ks("right"), false), b"\x1b[C");
    assert_eq!(keystroke_to_bytes(&ks("left"), false), b"\x1b[D");
    assert_eq!(keystroke_to_bytes(&ks("home"), false), b"\x1b[H");
    assert_eq!(keystroke_to_bytes(&ks("end"), false), b"\x1b[F");
}

#[test]
fn arrows_ss3_with_decckm() {
    assert_eq!(keystroke_to_bytes(&ks("up"), true), b"\x1bOA");
    assert_eq!(keystroke_to_bytes(&ks("down"), true), b"\x1bOB");
    assert_eq!(keystroke_to_bytes(&ks("right"), true), b"\x1bOC");
    assert_eq!(keystroke_to_bytes(&ks("left"), true), b"\x1bOD");
    assert_eq!(keystroke_to_bytes(&ks("home"), true), b"\x1bOH");
    assert_eq!(keystroke_to_bytes(&ks("end"), true), b"\x1bOF");
}

#[test]
fn modified_and_tilde_keys_unchanged_by_decckm() {
    for app in [false, true] {
        assert_eq!(keystroke_to_bytes(&ks_ctrl("right"), app), b"\x1b[1;5C");
        assert_eq!(keystroke_to_bytes(&ks("delete"), app), b"\x1b[3~");
        assert_eq!(keystroke_to_bytes(&ks("pageup"), app), b"\x1b[5~");
        assert_eq!(keystroke_to_bytes(&ks("pagedown"), app), b"\x1b[6~");
    }
}

#[test]
fn control_printable_and_named_keys() {
    assert_eq!(keystroke_to_bytes(&ks("enter"), false), b"\r");
    assert_eq!(keystroke_to_bytes(&ks("return"), false), b"\r");
    assert_eq!(keystroke_to_bytes(&ks("tab"), false), b"\t");
    assert_eq!(keystroke_to_bytes(&ks("escape"), false), b"\x1b");
    assert_eq!(keystroke_to_bytes(&ks("space"), false), b" ");
    assert_eq!(keystroke_to_bytes(&ks("backspace"), false), b"\x7f");
    let alt_bs = Keystroke { key: "backspace".into(), mods: KeyMods { alt: true, ..KeyMods::default() } };
    assert_eq!(keystroke_to_bytes(&alt_bs, false), b"\x1b\x7f");
    assert_eq!(keystroke_to_bytes(&ks_ctrl("c"), false), vec![3u8]);
    assert_eq!(keystroke_to_bytes(&ks_ctrl("C"), false), vec![3u8]);
    assert_eq!(keystroke_to_bytes(&ks("a"), false), b"a");
    assert_eq!(keystroke_to_bytes(&ks("A"), false), b"a");
    let shift_a = Keystroke { key: "a".into(), mods: KeyMods { shift: true, ..KeyMods::default() } };
    assert_eq!(keystroke_to_bytes(&shift_a, false), b"A");
    assert_eq!(keystroke_to_bytes(&ks("1"), false), b"1");
    assert!(keystroke_to_bytes(&ks("é"), false).is_empty());
    let cmd_c = Keystroke { key: "c".into(), mods: KeyMods { platform: true, ..KeyMods::default() } };
    assert!(keystroke_to_bytes(&cmd_c, false).is_empty());
    let shift_up = Keystroke { key: "up".into(), mods: KeyMods { shift: true, ..KeyMods::default() } };
    assert_eq!(keystroke_to_bytes(&shift_up, true), b"\x1b[1;2A");
    let ctrl_alt_del = Keystroke {
        key: "delete".into(),
        mods: KeyMods { control: true, alt: true, ..KeyMods::default() },
    };
    assert_eq!(keystroke_to_bytes(&ctrl_alt_del, false), b"\x1b[3;7~");
    assert_eq!(xterm_modifier_param(KeyMods { shift: true, alt: true, control: true, platform: true }), 8);
}

#[test]
fn contains_sequence_detects_clear_screen() {
    let esc_2j = b"\x1b[2J";
    assert!(contains_sequence(b"hello\x1b[2Jworld", esc_2j));
    assert!(contains_sequence(b"\x1b[H\x1b[2J", esc_2j));
    assert!(!contains_sequence(b"\x1b[3J", esc_2j));
    assert!(!contains_sequence(b"\x1b[1J", esc_2j));
    assert!(!contains_sequence(b"\x1b[0J", esc_2j));
    assert!(!contains_sequence(b"", esc_2j));
    assert!(!contains_sequence(b"\x1b", esc_2j));
    assert!(!contains_sequence(b"abc", b""));
}

#[test]
fn clear_screen_detected_across_chunk_split() {
    let mut scanner = ClearScreenScanner::new();
    assert!(!scanner.scan_for_clear_screen(b"abc\x1b["));
    assert!(scanner.scan_for_clear_screen(b"2J"));
    let mut fresh = ClearScreenScanner::new();
    assert!(!fresh.scan_for_clear_screen(b"2J"));
    let mut split3 = ClearScreenScanner::new();
    assert!(!split3.scan_for_clear_screen(b"\x1b"));
    assert!(!split3.scan_for_clear_screen(b"["));
    assert!(!split3.scan_for_clear_screen(b"2"));
    assert!(split3.scan_for_clear_screen(b"J"));
}

fn run(len: usize, bg: Option<u32>) -> TextRun {
    TextRun { len, color: 7, background: bg, style: 0 }
}

#[test]
fn apply_selection_preserves_total_length_and_colors() {
    let runs = vec![run(4, None), run(6, None)];
    let sel_bg = 99;
    let out = apply_selection(&runs, 10, 2, 8, sel_bg);
    let total: usize = out.iter().map(|r| r.len).sum();
    assert_eq!(total, 10, "output runs must still cover the whole text");
    assert!(out.iter().any(|r| r.background == Some(sel_bg)));
    assert!(out.iter().all(|r| r.color == 7));
}

#[test]
fn apply_selection_wholly_inside_one_run_splits_into_three() {
    let runs = vec![run(10, None)];
    let out = apply_selection(&runs, 10, 3, 7, 99);
    assert_eq!(out.len(), 3);
    assert_eq!(out[0].len, 3);
    assert_eq!(out[0].background, None);
    assert_eq!(out[1].len, 4);
    assert_eq!(out[1].background, Some(99));
    assert_eq!(out[2].len, 3);
    assert_eq!(out[2].background, None);
}

#[test]
fn apply_selection_at_boundaries_and_empty_range() {
    let runs = vec![run(5, None)];
    let out = apply_selection(&runs, 5, 0, 5, 99);
    assert_eq!(out.len(), 1);
    assert_eq!(out[0].len, 5);
    assert_eq!(out[0].background, Some(99));
    let out = apply_selection(&runs, 5, 3, 3, 99);
    assert_eq!(out.len(), 1);
    assert_eq!(out[0].background, None);
    let out = apply_selection(&runs, 5, 99, 100, 99);
    assert_eq!(out.len(), 1);
    assert_eq!(out[0].background, None);
}

#[test]
fn apply_selection_clips_to_text() {
    let runs = vec![run(3, Some(1)), run(3, Some(2))];
    let out = apply_selection(&runs, 6, 4, 100, 99);
    assert_eq!(out, vec![run(3, Some(1)), run(1, Some(2)), run(2, Some(99))]);
}

#[test]
fn alt_scroll_sequences() {
    assert_eq!(alt_scroll_bytes(3), b"\x1bOA\x1bOA\x1bOA");
    assert_eq!(alt_scroll_bytes(-2), b"\x1bOB\x1bOB");
    assert!(alt_scroll_bytes(0).is_empty());
}

#[test]
fn sgr_mouse_reports() {
    let no_mods = KeyMods::default();
    assert_eq!(encode_mouse_report(0, 0, 0, true, no_mods, MouseEncoding::Sgr).unwrap(), b"\x1b[<0;1;1M");
    assert_eq!(encode_mouse_report(0, 0, 0, false, no_mods, MouseEncoding::Sgr).unwrap(), b"\x1b[<0;1;1m");
    let ctrl = KeyMods { control: true, ..KeyMods::default() };
    assert_eq!(encode_mouse_report(0, 0, 0, true, ctrl, MouseEncoding::Sgr).unwrap(), b"\x1b[<16;1;1M");
    let shift_alt = KeyMods { shift: true, alt: true, ..KeyMods::default() };
    assert_eq!(encode_mouse_report(0, 0, 0, true, shift_alt, MouseEncoding::Sgr).unwrap(), b"\x1b[<12;1;1M");
    assert_eq!(encode_mouse_report(4, 2, 0, true, no_mods, MouseEncoding::Sgr).unwrap(), b"\x1b[<0;5;3M");
    let sgr_mode = modes(false, false, false, true, false);
    let ups = encode_wheel_reports(0, 0, 3, no_mods, sgr_mode);
    assert_eq!(ups.len(), 3);
    assert!(ups.iter().all(|b| b == b"\x1b[<64;1;1M"));
    let downs = encode_wheel_reports(0, 0, -2, no_mods, sgr_mode);
    assert_eq!(downs.len(), 2);
    assert!(downs.iter().all(|b| b == b"\x1b[<65;1;1M"));
}

#[test]
fn normal_mouse_reports() {
    let no_mods = KeyMods::default();
    let enc = MouseEncoding::Normal { utf8: false };
    assert_eq!(encode_mouse_report(0, 0, 0, true, no_mods, enc).unwrap(), vec![0x1b, b'[', b'M', 32, 33, 33]);
    let up = encode_mouse_report(0, 0, 0, false, no_mods, enc).unwrap();
    assert_eq!(up[3], 32 + 3);
    assert!(encode_mouse_report(223, 0, 0, true, no_mods, enc).is_none());
    let edge = encode_mouse_report(222, 0, 0, true, no_mods, enc).unwrap();
    assert_eq!(edge[4], 255);
    let u8enc = MouseEncoding::Normal { utf8: true };
    let pos = 32 + 1 + 95;
    let msg = encode_mouse_report(95, 0, 0, true, no_mods, u8enc).unwrap();
    assert_eq!(&msg[4..6], &[(0xC0 + pos / 64) as u8, (0x80 + (pos & 63)) as u8]);
    assert!(encode_mouse_report(0, 2014, 0, true, no_mods, u8enc).is_some());
    assert!(encode_mouse_report(0, 2015, 0, true, no_mods, u8enc).is_none());
    assert_eq!(encode_normal_mouse(1, 2, 0, false).unwrap(), vec![0x1b, b'[', b'M', 32, 34, 35]);
}

#[test]
fn move_reports_follow_mode_bits() {
    let click = modes(true, false, false, false, false);
    let drag = modes(false, true, false, false, false);
    let motion = modes(false, false, true, false, false);
    assert_eq!(reportable_move_code(click, Some(MouseButton::Left)), None);
    assert_eq!(reportable_move_code(click, None), None);
    assert_eq!(reportable_move_code(drag, Some(MouseButton::Left)), Some(32));
    assert_eq!(reportable_move_code(drag, None), None);
    assert_eq!(reportable_move_code(motion, None), Some(35));
    assert_eq!(reportable_move_code(motion, Some(MouseButton::Right)), Some(34));
    assert_eq!(reportable_move_code(motion, Some(MouseButton::Navigate)), None);
}

#[test]
fn mouse_helpers() {
    assert_eq!(mouse_mod_bits(KeyMods { shift: true, alt: true, control: true, platform: true }), 28);
    assert_eq!(mouse_press_code(MouseButton::Middle), Some(1));
    assert_eq!(mouse_press_code(MouseButton::Navigate), None);
    assert!(mouse_reporting(modes(true, false, false, false, false), KeyMods::default()));
    let shift = KeyMods { shift: true, ..KeyMods::default() };
    assert!(!mouse_reporting(modes(true, false, false, false, false), shift));
    assert!(!mouse_reporting(modes(false, false, false, true, true), KeyMods::default()));
    assert_eq!(MouseEncoding::from_mode(modes(false, false, false, true, true)), MouseEncoding::Sgr);
    assert_eq!(MouseEncoding::from_mode(modes(false, false, false, false, true)), MouseEncoding::Normal { utf8: true });
}
