use verve::ssh::zmodem::{resolve_role, ZmRole, ZmodemDetector};

#[test]
fn detector_finds_trigger_and_index() {
    let mut d = ZmodemDetector::new();
    assert_eq!(d.feed(b"rz\r**\x18B00"), Some(6));
    let mut d2 = ZmodemDetector::new();
    assert_eq!(d2.feed(b"plain text"), None);
}

#[test]
fn detector_carries_partial_match_across_feeds() {
    let mut d = ZmodemDetector::new();
    assert_eq!(d.feed(b"abc**"), None);
    assert_eq!(d.feed(b"\x18B01"), Some(1));
    d.reset();
    assert_eq!(d.feed(b"\x18B"), None);
}

#[test]
fn detector_restarts_on_star() {
    let mut d = ZmodemDetector::new();
    // "*X" breaks the match; the following "**\x18B" completes it.
    assert_eq!(d.feed(b"*X**\x18B"), Some(5));
    // A third star right after "**" keeps the two stars matched.
    let mut e = ZmodemDetector::new();
    assert_eq!(e.feed(b"***\x18B00"), Some(4));
}

#[test]
fn role_from_frame_type() {
    assert_eq!(resolve_role(b"sz file\r\n**\x18B00000000000000"), Some((9, ZmRole::ReceiveFromRemote)));
    assert_eq!(resolve_role(b"**\x18B0100000023be50"), Some((0, ZmRole::SendToRemote)));
    assert_eq!(resolve_role(b"**\x18B0"), None);
    assert_eq!(resolve_role(b"no trigger here"), None);
}
