use verve::ssh::credentials::{load_secret, store_secret};
use verve::ssh::models::{PortForward, SshHost, SshHostType};
use verve::ssh::panel::{
    duplicate_host, forward_from_form, host_matches, host_picker_matches, parse_u16, plan_duplicate,
    DuplicatePlan,
};
use verve::ssh::session::{SessionTab, SessionTabs};
use verve::ssh::vault::SecretMap;

fn host(name: &str, addr: &str, port: u16) -> SshHost {
    let mut h = SshHost::new(name, addr);
    h.port = port;
    h
}

#[test]
fn picker_search_is_case_insensitive_over_name_address_and_port() {
    let hosts = vec![host("Prod-DB", "10.0.0.5", 22), host("staging", "Stage.Example.com", 2222), host("测试机", "h", 8022)];
    assert_eq!(host_picker_matches(&hosts, ""), vec![0, 1, 2]);
    assert_eq!(host_picker_matches(&hosts, "prod"), vec![0]);
    assert_eq!(host_picker_matches(&hosts, "EXAMPLE"), vec![1]);
    assert_eq!(host_picker_matches(&hosts, "22"), vec![0, 1, 2]);
    assert_eq!(host_picker_matches(&hosts, "802"), vec![2]);
    assert_eq!(host_picker_matches(&hosts, "测试"), vec![2]);
    assert_eq!(host_picker_matches(&hosts, "nomatch"), Vec::<usize>::new());
    assert!(host_matches("a", "b", 443, "44"));
    assert!(!host_matches("a", "b", 443, "x"));
}

#[test]
fn parse_u16_follows_std() {
    for s in ["0", "22", "+80", "0080", "65535", "", "+", "-1", "65536", "1x", " 1", "99999999999"] {
        assert_eq!(parse_u16(s), s.parse::<u16>().ok(), "input {s:?}");
    }
}

#[test]
fn forward_form_reports_first_problem() {
    let f = forward_from_form(" 8080 ", " db.internal ", "5432").unwrap();
    assert_eq!(f.local_port, 8080);
    assert_eq!(f.remote_host, "db.internal");
    assert_eq!(f.remote_port, 5432);
    assert_eq!(f.local_host, "127.0.0.1");
    assert!(!f.auto_start);
    assert_eq!(forward_from_form("x", "", "y").unwrap_err(), "本地端口无效");
    assert_eq!(forward_from_form("1", "", "70000").unwrap_err(), "远端端口无效");
    assert_eq!(forward_from_form("1", "   ", "2").unwrap_err(), "远端 host 不能为空");
}

#[test]
fn duplicate_host_copies_config_and_secrets() {
    let mut src = host("web", "1.2.3.4", 2200);
    src.username = "root".to_string();
    src.host_type = SshHostType::Bastion;
    src.port_forwards.push(PortForward::new());
    let src_id = src.id.clone();
    let fwd_id = src.port_forwards[0].id.clone();
    let mut hosts = vec![src];
    let mut vault = SecretMap::new();
    store_secret(&mut vault, &src_id, "password", "s3cret");
    let new_id = duplicate_host(&mut hosts, &mut vault, &src_id).unwrap();
    assert_eq!(hosts.len(), 2);
    let dup = &hosts[1];
    assert_eq!(dup.id, new_id);
    assert_ne!(dup.id, src_id);
    assert_eq!(dup.name, "web 副本");
    assert_eq!(dup.host, "1.2.3.4");
    assert_eq!(dup.port, 2200);
    assert_eq!(dup.username, "root");
    assert_eq!(dup.host_type, SshHostType::Bastion);
    assert_eq!(dup.port_forwards.len(), 1);
    assert_ne!(dup.port_forwards[0].id, fwd_id);
    assert_eq!(load_secret(&vault, &new_id, "password").as_deref(), Some("s3cret"));
    assert_eq!(load_secret(&vault, &new_id, "key_passphrase"), None);
    assert_eq!(hosts[0].name, "web");
    assert!(duplicate_host(&mut hosts, &mut vault, "missing").is_none());
    assert_eq!(hosts.len(), 2);
}

#[test]
fn duplicate_session_plans() {
    let saved = host("box", "b.example", 22);
    let saved_id = saved.id.clone();
    let hosts = vec![saved];
    let mut tabs = SessionTabs::new();
    tabs.open_session(SessionTab::new("local".to_string(), String::new(), 1, true));
    tabs.open_session(SessionTab::new("box".to_string(), saved_id.clone(), 2, false));
    tabs.open_session(SessionTab::new("gone".to_string(), "gone-id".to_string(), 3, false));
    assert!(matches!(plan_duplicate(&tabs, 0, &hosts), DuplicatePlan::LocalShell));
    assert!(matches!(plan_duplicate(&tabs, 1, &hosts), DuplicatePlan::FreshConnect(ref h) if h.id == saved_id));
    assert!(matches!(plan_duplicate(&tabs, 2, &hosts), DuplicatePlan::Nothing));
    assert!(matches!(plan_duplicate(&tabs, 9, &hosts), DuplicatePlan::Nothing));
    tabs.mark_connected(2);
    tabs.mark_connected(3);
    assert!(matches!(plan_duplicate(&tabs, 1, &hosts), DuplicatePlan::ReuseConnection(ref h) if h.id == saved_id));
    match plan_duplicate(&tabs, 2, &hosts) {
        DuplicatePlan::ReuseConnection(h) => {
            assert_eq!(h.id, "gone-id");
            assert_eq!(h.name, "gone");
            assert_eq!(h.host, "");
            assert_eq!(h.port, 22);
        }
        other => panic!("unexpected plan {other:?}"),
    }
}
