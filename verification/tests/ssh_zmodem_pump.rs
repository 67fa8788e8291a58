use verve::ssh::zmodem::ZmEvent;
use verve::ssh::zmodem_pump::{DataRoute, PathReply, ZmodemPump, ZM_ABORT_GRACE_MS};

/// A ZRINIT hex header: the remote ran `rz` and waits for a file.
const RZ_START: &[u8] = b"$ rz\r\n**\x18B0100000023be50\r\n";

#[test]
fn plain_output_goes_to_the_terminal() {
    let mut pump = ZmodemPump::new();
    assert_eq!(pump.on_data(b"hello\r\n", 0), DataRoute::Terminal);
    assert!(!pump.in_transfer());
    let out = pump.settle(0);
    assert!(out.to_remote.is_empty() && out.events.is_empty() && out.to_terminal.is_none());
}

#[test]
fn handshake_starts_a_transfer_that_asks_for_a_file() {
    let mut pump = ZmodemPump::new();
    assert_eq!(pump.on_data(RZ_START, 10), DataRoute::Transfer);
    assert!(pump.in_transfer());
    let out = pump.settle(10);
    assert!(out.events.iter().any(|e| matches!(e, ZmEvent::NeedFileToSend)));
    assert!(out.to_terminal.is_none());
    assert!(pump.in_transfer());
    // Later output goes to the running transfer.
    assert_eq!(pump.on_data(b"more", 20), DataRoute::Transfer);
}

#[test]
fn dismissed_dialog_aborts_and_starts_the_grace_period() {
    let mut pump = ZmodemPump::new();
    pump.on_data(RZ_START, 100);
    pump.settle(100);
    assert!(pump.on_path_reply(PathReply::Send(None)));
    let out = pump.settle(200);
    assert!(out.events.iter().any(|e| matches!(e, ZmEvent::Cancelled)));
    assert!(out.to_remote.windows(2).any(|w| w == [0x18, 0x18]), "abort sequence goes to the remote");
    assert!(!pump.in_transfer());
    // Inside the grace period a handshake is shown, not detected.
    assert_eq!(pump.on_data(RZ_START, 200 + ZM_ABORT_GRACE_MS - 1), DataRoute::Terminal);
    assert!(!pump.in_transfer());
    // After it, detection is back.
    assert_eq!(pump.on_data(RZ_START, 200 + ZM_ABORT_GRACE_MS), DataRoute::Transfer);
}

#[test]
fn reply_without_transfer_is_ignored() {
    let mut pump = ZmodemPump::new();
    assert!(!pump.on_path_reply(PathReply::Save(None)));
    assert!(pump.take_file_request().is_none());
    assert!(!pump.needs_resume());
}
