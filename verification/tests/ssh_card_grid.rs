use verve::ssh::card_grid::host_display_name;
use verve::ssh::models::SshHost;
use verve::ssh::session::{SessionTab, SessionTabs};

#[test]
fn connected_badge_follows_tab_status() {
    let mut t = SessionTabs::new();
    t.open_session(SessionTab::new("a".to_string(), "host-a".to_string(), 1, false));
    t.open_session(SessionTab::new("b".to_string(), "host-b".to_string(), 2, false));
    assert!(!t.host_connected("host-a"));
    assert!(t.mark_connected(2));
    assert!(t.host_connected("host-b"));
    assert!(!t.host_connected("host-a"));
    assert!(!t.host_connected("host-c"));
}

#[test]
fn bastion_name_or_deleted_placeholder() {
    let b = SshHost::new("Jump", "10.0.0.1");
    let id = b.id.clone();
    let hosts = vec![b];
    assert_eq!(host_display_name(&hosts, &id), "Jump");
    assert_eq!(host_display_name(&hosts, "gone"), "(已删除)");
}
