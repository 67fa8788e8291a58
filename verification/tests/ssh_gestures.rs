use verve::ssh::gestures::{
    mouse_down_action, mouse_move_action, mouse_up_action, purge_history_after_clear, wheel_action,
    MouseDownAction, MouseMoveAction, MouseUpAction, SelectionKind, WheelAction,
};
use verve::ssh::local_pty::shell_display_name;
use verve::ssh::terminal::{KeyMods, MouseButton, MouseModes};

fn modes(report_click: bool, drag: bool, motion: bool) -> MouseModes {
    MouseModes { report_click, drag, motion, sgr: true, utf8: false }
}

fn shift() -> KeyMods {
    KeyMods { shift: true, ..KeyMods::default() }
}

#[test]
fn clicks_pick_the_selection_kind() {
    let none = modes(false, false, false);
    let m = KeyMods::default();
    assert_eq!(mouse_down_action(none, m, MouseButton::Left, 0), MouseDownAction::Ignore);
    assert_eq!(mouse_down_action(none, m, MouseButton::Left, 1), MouseDownAction::StartSelection(SelectionKind::Simple));
    assert_eq!(mouse_down_action(none, m, MouseButton::Left, 2), MouseDownAction::StartSelection(SelectionKind::Semantic));
    assert_eq!(mouse_down_action(none, m, MouseButton::Left, 3), MouseDownAction::StartSelection(SelectionKind::Lines));
    assert_eq!(mouse_down_action(none, m, MouseButton::Left, 4), MouseDownAction::ClearSelection);
    assert_eq!(mouse_down_action(none, m, MouseButton::Right, 1), MouseDownAction::Ignore);
    assert_eq!(mouse_down_action(modes(true, false, false), m, MouseButton::Right, 1), MouseDownAction::Report);
    // Shift keeps the local selection even when the application owns the mouse.
    assert_eq!(
        mouse_down_action(modes(true, false, false), shift(), MouseButton::Left, 1),
        MouseDownAction::StartSelection(SelectionKind::Simple)
    );
}

#[test]
fn release_reports_or_finishes() {
    let m = KeyMods::default();
    assert_eq!(mouse_up_action(modes(false, true, false), m, MouseButton::Left, true), MouseUpAction::Report);
    assert_eq!(mouse_up_action(modes(false, false, false), m, MouseButton::Left, true), MouseUpAction::FinishSelection);
    assert_eq!(mouse_up_action(modes(false, false, false), m, MouseButton::Left, false), MouseUpAction::Ignore);
    assert_eq!(mouse_up_action(modes(false, false, false), m, MouseButton::Middle, true), MouseUpAction::Ignore);
}

#[test]
fn motion_reports_once_per_cell() {
    let m = KeyMods::default();
    let drag = modes(false, true, false);
    let a = mouse_move_action(drag, m, Some(MouseButton::Left), Some((3, 4)), None, false, false);
    let MouseMoveAction::Report(code) = a else { panic!("expected a report, got {a:?}") };
    assert_eq!(mouse_move_action(drag, m, Some(MouseButton::Left), Some((3, 4)), Some((3, 4, code)), false, false), MouseMoveAction::Ignore);
    assert_eq!(mouse_move_action(drag, m, Some(MouseButton::Left), Some((4, 4)), Some((3, 4, code)), false, false), MouseMoveAction::Report(code));
    // Plain motion is only reported in any-motion mode.
    assert_eq!(mouse_move_action(drag, m, None, Some((1, 1)), None, false, false), MouseMoveAction::Ignore);
    assert!(matches!(mouse_move_action(modes(false, false, true), m, None, Some((1, 1)), None, false, false), MouseMoveAction::Report(_)));
    assert_eq!(mouse_move_action(drag, m, Some(MouseButton::Left), None, None, false, false), MouseMoveAction::Ignore);
}

#[test]
fn local_drag_extends_past_threshold() {
    let m = KeyMods::default();
    let none = modes(false, false, false);
    assert_eq!(mouse_move_action(none, m, Some(MouseButton::Left), Some((1, 1)), None, true, true), MouseMoveAction::ExtendSelection);
    assert_eq!(mouse_move_action(none, m, Some(MouseButton::Left), Some((1, 1)), None, true, false), MouseMoveAction::Ignore);
    assert_eq!(mouse_move_action(none, m, Some(MouseButton::Right), Some((1, 1)), None, true, true), MouseMoveAction::Ignore);
    assert_eq!(mouse_move_action(none, m, Some(MouseButton::Left), Some((1, 1)), None, false, true), MouseMoveAction::Ignore);
}

#[test]
fn wheel_precedence() {
    let none = modes(false, false, false);
    let app = modes(true, false, false);
    assert_eq!(wheel_action(true, app, true, true, false), WheelAction::ExtendSelection);
    assert_eq!(wheel_action(false, app, true, true, false), WheelAction::Report);
    assert_eq!(wheel_action(false, app, true, true, true), WheelAction::ScrollHistory);
    assert_eq!(wheel_action(false, none, true, true, false), WheelAction::AltScroll);
    assert_eq!(wheel_action(false, none, true, false, false), WheelAction::ScrollHistory);
    assert_eq!(wheel_action(false, none, false, true, false), WheelAction::ScrollHistory);
    assert!(purge_history_after_clear(true, false));
    assert!(!purge_history_after_clear(true, true));
    assert!(!purge_history_after_clear(false, false));
}

#[test]
fn shell_names() {
    assert_eq!(shell_display_name("/bin/zsh"), "zsh");
    assert_eq!(shell_display_name("C:\\Program Files\\PowerShell\\7\\pwsh.exe"), "pwsh.exe");
    assert_eq!(shell_display_name("/usr/local/bin/fish/"), "fish");
    assert_eq!(shell_display_name("bash"), "bash");
    assert_eq!(shell_display_name("///"), "///");
    assert_eq!(shell_display_name(""), "");
}
