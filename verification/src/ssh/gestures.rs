//! What the terminal does with mouse buttons, motion and the wheel: report
//! them to an application that owns the mouse, or run the local selection
//! gesture and scrolling. Pixel geometry stays with the view; these decide on
//! what it measured.

use vstd::prelude::*;
use crate::ssh::terminal::{
    mouse_reporting, reportable_move_code, spec_reportable_move_code, KeyMods, MouseButton, MouseModes,
};

verus! {

/// How much a new selection takes.
#[derive(Debug, Clone, Copy, PartialEq, Eq, Structural)]
pub enum SelectionKind {
    /// Cell by cell (single click).
    Simple,
    /// Word by word (double click).
    Semantic,
    /// Whole lines (triple click).
    Lines,
}

#[derive(Debug, Clone, Copy, PartialEq, Eq, Structural)]
pub enum MouseDownAction {
    /// Send a press report to the application.
    Report,
    Ignore,
    /// Four or more rapid clicks clear the selection.
    ClearSelection,
    StartSelection(SelectionKind),
}

/// A button press with `click_count` rapid clicks (0: a synthetic release).
pub open spec fn spec_mouse_down_action(
    mode: MouseModes,
    mods: KeyMods,
    button: MouseButton,
    click_count: usize,
) -> MouseDownAction {
    if (mode.report_click || mode.drag || mode.motion) && !mods.shift {
        MouseDownAction::Report
    } else if button != MouseButton::Left || click_count == 0 {
        MouseDownAction::Ignore
    } else if click_count >= 4 {
        MouseDownAction::ClearSelection
    } else if click_count == 3 {
        MouseDownAction::StartSelection(SelectionKind::Lines)
    } else if click_count == 2 {
        MouseDownAction::StartSelection(SelectionKind::Semantic)
    } else {
        MouseDownAction::StartSelection(SelectionKind::Simple)
    }
}

pub fn mouse_down_action(mode: MouseModes, mods: KeyMods, button: MouseButton, click_count: usize) -> (r:
    MouseDownAction)
    ensures
        r == spec_mouse_down_action(mode, mods, button, click_count),
{
    if mouse_reporting(mode, mods) {
        return MouseDownAction::Report;
    }
    if button != MouseButton::Left || click_count == 0 {
        return MouseDownAction::Ignore;
    }
    if click_count >= 4 {
        MouseDownAction::ClearSelection
    } else if click_count == 3 {
        MouseDownAction::StartSelection(SelectionKind::Lines)
    } else if click_count == 2 {
        MouseDownAction::StartSelection(SelectionKind::Semantic)
    } else {
        MouseDownAction::StartSelection(SelectionKind::Simple)
    }
}

#[derive(Debug, Clone, Copy, PartialEq, Eq, Structural)]
pub enum MouseUpAction {
    /// Send a release report to the application.
    Report,
    Ignore,
    /// End the selection gesture a left press started.
    FinishSelection,
}

pub fn mouse_up_action(mode: MouseModes, mods: KeyMods, button: MouseButton, selecting: bool) -> (r:
    MouseUpAction)
    ensures
        r == (if (mode.report_click || mode.drag || mode.motion) && !mods.shift {
            MouseUpAction::Report
        } else if button != MouseButton::Left || !selecting {
            MouseUpAction::Ignore
        } else {
            MouseUpAction::FinishSelection
        }),
{
    if mouse_reporting(mode, mods) {
        MouseUpAction::Report
    } else if button != MouseButton::Left || !selecting {
        MouseUpAction::Ignore
    } else {
        MouseUpAction::FinishSelection
    }
}

#[derive(Debug, Clone, Copy, PartialEq, Eq, Structural)]
pub enum MouseMoveAction {
    /// Send a motion report with this button code (remember the cell and code
    /// to skip repeats).
    Report(u8),
    Ignore,
    /// The selection head follows the pointer.
    ExtendSelection,
}

/// Pointer motion over `cell` (`None`: outside the grid) with `pressed` held.
/// In reporting mode a motion the modes ask for is reported once per cell and
/// code; locally a left drag that moved past the jitter threshold extends the
/// selection.
pub open spec fn spec_mouse_move_action(
    mode: MouseModes,
    mods: KeyMods,
    pressed: Option<MouseButton>,
    cell: Option<(usize, usize)>,
    last_report: Option<(usize, usize, u8)>,
    selecting: bool,
    past_threshold: bool,
) -> MouseMoveAction {
    if (mode.report_click || mode.drag || mode.motion) && !mods.shift {
        match (spec_reportable_move_code(mode, pressed), cell) {
            (Some(code), Some((col, row))) => if last_report == Some((col, row, code)) {
                MouseMoveAction::Ignore
            } else {
                MouseMoveAction::Report(code)
            },
            _ => MouseMoveAction::Ignore,
        }
    } else if !selecting || pressed != Some(MouseButton::Left) || !past_threshold {
        MouseMoveAction::Ignore
    } else {
        MouseMoveAction::ExtendSelection
    }
}

pub fn mouse_move_action(
    mode: MouseModes,
    mods: KeyMods,
    pressed: Option<MouseButton>,
    cell: Option<(usize, usize)>,
    last_report: Option<(usize, usize, u8)>,
    selecting: bool,
    past_threshold: bool,
) -> (r: MouseMoveAction)
    ensures
        r == spec_mouse_move_action(mode, mods, pressed, cell, last_report, selecting, past_threshold),
{
    if mouse_reporting(mode, mods) {
        let code = match reportable_move_code(mode, pressed) {
            Some(c) => c,
            None => return MouseMoveAction::Ignore,
        };
        let (col, row) = match cell {
            Some(c) => c,
            None => return MouseMoveAction::Ignore,
        };
        let repeat = match last_report {
            Some((c, r, k)) => c == col && r == row && k == code,
            None => false,
        };
        return if repeat {
            MouseMoveAction::Ignore
        } else {
            MouseMoveAction::Report(code)
        };
    }
    let left_held = match pressed {
        Some(b) => b == MouseButton::Left,
        None => false,
    };
    if !selecting || !left_held || !past_threshold {
        MouseMoveAction::Ignore
    } else {
        MouseMoveAction::ExtendSelection
    }
}

#[derive(Debug, Clone, Copy, PartialEq, Eq, Structural)]
pub enum WheelAction {
    /// Move the selection with the scroll.
    ExtendSelection,
    /// Send wheel reports to the application.
    Report,
    /// Send Up/Down arrow keys (alternate scroll on the alternate screen).
    AltScroll,
    /// Scroll the local history.
    ScrollHistory,
}

/// The wheel, in order of precedence: an active selection, an application
/// that owns the mouse, the alternate screen with alternate scroll, the local
/// history. Shift skips the two that hand the wheel to the application.
pub open spec fn spec_wheel_action(
    selecting: bool,
    mode: MouseModes,
    alt_screen: bool,
    alternate_scroll: bool,
    shift: bool,
) -> WheelAction {
    if selecting {
        WheelAction::ExtendSelection
    } else if (mode.report_click || mode.drag || mode.motion) && !shift {
        WheelAction::Report
    } else if alt_screen && alternate_scroll && !shift {
        WheelAction::AltScroll
    } else {
        WheelAction::ScrollHistory
    }
}

pub fn wheel_action(selecting: bool, mode: MouseModes, alt_screen: bool, alternate_scroll: bool, shift: bool) -> (r:
    WheelAction)
    ensures
        r == spec_wheel_action(selecting, mode, alt_screen, alternate_scroll, shift),
{
    if selecting {
        WheelAction::ExtendSelection
    } else if (mode.report_click || mode.drag || mode.motion) && !shift {
        WheelAction::Report
    } else if alt_screen && alternate_scroll && !shift {
        WheelAction::AltScroll
    } else {
        WheelAction::ScrollHistory
    }
}

/// After output containing a clear-screen, the scrollback is dropped too, but
/// only on the primary screen: full-screen applications on the alternate
/// screen redraw their own grid.
pub fn purge_history_after_clear(had_clear_screen: bool, alt_screen: bool) -> (r: bool)
    ensures
        r == (had_clear_screen && !alt_screen),
{
    had_clear_screen && !alt_screen
}

} // verus!
