use verve::ssh::session::ZmUiState;
use verve::ssh::transfer_bar::{bar_visible, forwards_label, transfer_label};
use verve::ssh::zmodem::ZmRole;

fn state(role: ZmRole) -> ZmUiState {
    ZmUiState {
        active: true,
        filename: "a.bin".to_string(),
        total: 2048,
        transferred: 1536,
        role,
        done: false,
        error: None,
        cancelled: false,
    }
}

#[test]
fn transfer_label_shows_progress_sizes() {
    assert_eq!(transfer_label(&state(ZmRole::SendToRemote)), "↑ a.bin  1.5 KB / 2.0 KB");
    let mut s = state(ZmRole::ReceiveFromRemote);
    s.transferred = 0;
    assert_eq!(transfer_label(&s), "↓ a.bin  0 B / 2.0 KB");
}

#[test]
fn transfer_label_done_and_error() {
    let mut s = state(ZmRole::ReceiveFromRemote);
    s.active = false;
    s.done = true;
    assert_eq!(transfer_label(&s), "↓ a.bin 传输完成");
    s.error = Some("boom".to_string());
    assert_eq!(transfer_label(&s), "↓ rz/sz 错误: boom");
}

#[test]
fn bar_hides_cancelled_transfers() {
    let mut s = state(ZmRole::SendToRemote);
    assert!(bar_visible(&s));
    s.active = false;
    s.done = true;
    assert!(bar_visible(&s));
    s.cancelled = true;
    assert!(!bar_visible(&s));
    s.error = Some("x".to_string());
    assert!(bar_visible(&s));
    assert!(!bar_visible(&ZmUiState::default()));
}

#[test]
fn forwards_label_counts_running_forwards() {
    assert_eq!(forwards_label(0), "端口转发");
    assert_eq!(forwards_label(3), "转发 (3)");
    assert_eq!(forwards_label(12), "转发 (12)");
}
