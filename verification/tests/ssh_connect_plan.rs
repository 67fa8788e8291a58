use verve::ssh::client::SshOutput;
use verve::ssh::connect_plan::{
    auth_plan, connect_route, key_load_error, key_rejected_error, remote_term_type, shell_output, AuthStep,
    ChannelEvent, ConnectRoute,
};
use verve::ssh::credentials::store_secret;
use verve::ssh::models::{SshAuthType, SshHost, SshHostType};
use verve::ssh::vault::SecretMap;

fn host(name: &str, addr: &str, port: u16) -> SshHost {
    let mut h = SshHost::new(name, addr);
    h.port = port;
    h
}

#[test]
fn direct_route_without_bastion() {
    let h = host("a", "10.0.0.1", 2222);
    match connect_route(&vec![], &h).unwrap() {
        ConnectRoute::Direct { addr, host, port } => {
            assert_eq!(addr, "10.0.0.1:2222");
            assert_eq!(host, "10.0.0.1");
            assert_eq!(port, 2222);
        }
        other => panic!("unexpected {other:?}"),
    }
}

#[test]
fn route_through_bastion_uses_target_override() {
    let mut b = host("jump", "jump.example", 22);
    b.host_type = SshHostType::Bastion;
    let mut t = host("db", "db.public", 5022);
    t.bastion_id = Some(b.id.clone());
    t.bastion_target_override = Some("10.1.2.3".to_string());
    let hosts = vec![b.duplicate(), t.duplicate()];
    match connect_route(&hosts, &t).unwrap() {
        ConnectRoute::ViaBastion { bastion, bastion_addr, target_host, target_port } => {
            assert_eq!(bastion.id, b.id);
            assert_eq!(bastion_addr, "jump.example:22");
            assert_eq!(target_host, "10.1.2.3");
            assert_eq!(target_port, 5022);
        }
        other => panic!("unexpected {other:?}"),
    }
}

#[test]
fn broken_chain_is_a_config_error() {
    let mut t = host("db", "db", 22);
    t.bastion_id = Some("missing".to_string());
    let e = connect_route(&vec![], &t).unwrap_err();
    assert!(e.message.starts_with("跳板机配置错误: "));
    assert!(!e.retryable);
}

#[test]
fn auth_plans_by_type() {
    let mut vault = SecretMap::new();
    let mut h = host("a", "h", 22);
    match auth_plan(&h, &vault).unwrap() {
        AuthStep::Password { password } => assert_eq!(password, ""),
        other => panic!("unexpected {other:?}"),
    }
    store_secret(&mut vault, &h.id, "password", "pw");
    match auth_plan(&h, &vault).unwrap() {
        AuthStep::Password { password } => assert_eq!(password, "pw"),
        other => panic!("unexpected {other:?}"),
    }
    h.auth_type = SshAuthType::KeyboardInteractive;
    match auth_plan(&h, &vault).unwrap() {
        AuthStep::KeyboardInteractive { password_first } => assert_eq!(password_first.as_deref(), Some("pw")),
        other => panic!("unexpected {other:?}"),
    }
    store_secret(&mut vault, &h.id, "password", "");
    assert!(matches!(auth_plan(&h, &vault).unwrap(), AuthStep::KeyboardInteractive { password_first: None }));
    h.auth_type = SshAuthType::PrivateKey;
    assert_eq!(auth_plan(&h, &vault).unwrap_err().message, "未配置密钥路径");
    h.key_path = Some("/k/id_ed25519".to_string());
    store_secret(&mut vault, &h.id, "key_passphrase", "pp");
    match auth_plan(&h, &vault).unwrap() {
        AuthStep::PrivateKey { key_path, passphrase } => {
            assert_eq!(key_path, "/k/id_ed25519");
            assert_eq!(passphrase.as_deref(), Some("pp"));
        }
        other => panic!("unexpected {other:?}"),
    }
    h.auth_type = SshAuthType::Agent;
    assert_eq!(auth_plan(&h, &vault).unwrap_err().message, "Agent 认证暂不支持");
}

#[test]
fn key_errors_and_term() {
    assert_eq!(key_load_error("/k", "bad").message, "加载私钥失败（路径 /k）: bad");
    assert!(!key_rejected_error().retryable);
    assert_eq!(remote_term_type(), "xterm-256color");
}

#[test]
fn channel_messages_to_terminal() {
    assert!(matches!(shell_output(ChannelEvent::Data(vec![1])), (Some(SshOutput::Data(d)), false) if d == vec![1]));
    assert!(matches!(shell_output(ChannelEvent::ExtendedData(vec![2])), (Some(SshOutput::Data(d)), false) if d == vec![2]));
    assert!(matches!(shell_output(ChannelEvent::ExitStatus(3)), (Some(SshOutput::Closed(Some(3))), true)));
    assert!(matches!(shell_output(ChannelEvent::Eof), (Some(SshOutput::Closed(None)), true)));
    assert!(matches!(shell_output(ChannelEvent::Gone), (Some(SshOutput::Closed(None)), true)));
    assert!(matches!(shell_output(ChannelEvent::Other), (None, false)));
}
