use verve::ssh::models::{ForwardDirection, PortForward, SshAuthType, SshHost, SshHostType};

#[test]
fn host_defaults() {
    let h = SshHost::new("Test", "10.0.0.1");
    assert_eq!(h.port, 22);
    assert_eq!(h.auth_type, SshAuthType::Password);
    assert_eq!(h.host_type, SshHostType::Direct);
    assert!(!h.is_bastion());
    assert!(!h.has_bastion());
}

#[test]
fn address_summary() {
    let h = SshHost::new("Test", "example.com");
    assert_eq!(h.address_summary(), "user ssh");
    let mut h2 = h.duplicate();
    h2.username = "root".into();
    h2.port = 2222;
    assert_eq!(h2.address_summary(), "root ssh");
}

#[test]
fn bastion_detection() {
    let mut h = SshHost::new("跳板机", "10.0.0.1");
    assert!(!h.is_bastion());
    h.host_type = SshHostType::Bastion;
    assert!(h.is_bastion());
}

#[test]
fn keyboard_interactive_variant() {
    assert!(SshAuthType::all().contains(&SshAuthType::KeyboardInteractive));
    assert_eq!(SshAuthType::KeyboardInteractive.label(), "键盘交互(MFA)");
}

#[test]
fn child_host_has_bastion() {
    let mut h = SshHost::new("内网主机", "192.168.1.10");
    assert!(!h.has_bastion());
    h.bastion_id = Some("bastion-id".into());
    assert!(h.has_bastion());
}

#[test]
fn new_host_fields() {
    let h = SshHost::new("Prod", "db.internal");
    assert_eq!(h.name, "Prod");
    assert_eq!(h.host, "db.internal");
    assert_eq!(h.id.chars().count(), 21);
    assert!(h.username.is_empty());
    assert!(h.key_path.is_none() && h.color.is_none() && h.bastion_target_override.is_none());
    assert!(h.port_forwards.is_empty());
    assert!(h.created_at > 0);
    let other = SshHost::new("Prod", "db.internal");
    assert_ne!(h.id, other.id);
}

#[test]
fn labels() {
    assert_eq!(SshAuthType::Password.label(), "密码");
    assert_eq!(SshAuthType::PrivateKey.label(), "密钥");
    assert_eq!(SshAuthType::Agent.label(), "Agent");
    assert_eq!(SshHostType::Direct.label(), "直连");
    assert_eq!(SshHostType::Bastion.label(), "跳板机");
    assert_eq!(ForwardDirection::Local.label(), "本地转发 (Local)");
    assert_eq!(ForwardDirection::Remote.label(), "远程转发 (Remote)");
    assert_eq!(SshAuthType::all().len(), 4);
    assert_eq!(SshAuthType::default(), SshAuthType::Password);
    assert_eq!(SshHostType::default(), SshHostType::Direct);
}

#[test]
fn port_forward_defaults() {
    let f = PortForward::new();
    assert_eq!(f.direction, ForwardDirection::Local);
    assert_eq!(f.local_host, "127.0.0.1");
    assert_eq!(f.local_port, 8080);
    assert_eq!(f.remote_host, "127.0.0.1");
    assert_eq!(f.remote_port, 80);
    assert!(!f.auto_start);
    assert_eq!(f.id.chars().count(), 21);
    let d = PortForward::default();
    assert_eq!(d.local_port, 8080);
}

#[test]
fn duplicate_copies_every_field() {
    let mut h = SshHost::new("A", "a.example");
    h.username = "ops".into();
    h.bastion_id = Some("b1".into());
    h.port_forwards.push(PortForward::new());
    let d = h.duplicate();
    assert_eq!(d.id, h.id);
    assert_eq!(d.username, "ops");
    assert_eq!(d.bastion_id.as_deref(), Some("b1"));
    assert_eq!(d.port_forwards.len(), 1);
    assert_eq!(d.port_forwards[0].id, h.port_forwards[0].id);
    assert_eq!(d.created_at, h.created_at);
}
