use verve::ssh::client::{
    is_local_network_host, local_network_candidate, ConnectFailure, IoFailure, IpLiteral, SshError,
};

/// A dotted-quad IPv4 literal, or `None`.
fn v4(s: &str) -> Option<IpLiteral> {
    let parts: Vec<&str> = s.split('.').collect();
    if parts.len() != 4 {
        return None;
    }
    let mut o = [0u8; 4];
    for (i, p) in parts.iter().enumerate() {
        o[i] = p.parse().ok()?;
    }
    Some(IpLiteral::V4(o))
}

fn is_local(host: &str) -> bool {
    let c = local_network_candidate(host);
    let ip = match c.as_str() {
        "::1" => Some(IpLiteral::V6([0, 0, 0, 0, 0, 0, 0, 1])),
        "fe80::1" => Some(IpLiteral::V6([0xfe80, 0, 0, 0, 0, 0, 0, 1])),
        other => v4(other),
    };
    is_local_network_host(&c, ip)
}

#[test]
fn detects_rfc1918_local_addresses() {
    assert!(is_local("192.168.1.17"));
    assert!(is_local("192.168.0.1"));
    assert!(is_local("10.0.0.5"));
    assert!(is_local("10.255.255.255"));
    assert!(is_local("172.16.0.1"));
    assert!(is_local("172.31.255.255"));
}

#[test]
fn detects_loopback_and_link_local() {
    assert!(is_local("127.0.0.1"));
    assert!(is_local("localhost"));
    assert!(is_local("::1"));
    assert!(is_local("169.254.1.1"));
}

#[test]
fn does_not_flag_public_addresses() {
    assert!(!is_local("8.8.8.8"));
    assert!(!is_local("1.1.1.1"));
    assert!(!is_local("203.0.113.5"));
    assert!(!is_local("172.32.0.1"));
}

#[test]
fn handles_mdns_local_suffix() {
    assert!(is_local("myhost.local"));
    assert!(!is_local("example.com"));
}

#[test]
fn strips_ipv6_zone_id() {
    assert!(is_local("fe80::1%en0"));
}

#[test]
fn candidate_trims_and_drops_zone() {
    assert_eq!(local_network_candidate("  fe80::1%en0 "), "fe80::1");
    assert_eq!(local_network_candidate("host%%"), "host");
    assert_eq!(local_network_candidate("plain"), "plain");
}

#[test]
fn io_errors_are_classified() {
    let e = SshError::from_io(&IoFailure::ConnectionRefused, "连接", false, false);
    assert!(e.message.starts_with("连接被拒绝"));
    assert!(!e.retryable);
    let e = SshError::from_io(&IoFailure::NetworkUnreachable, "连接", true, true);
    assert!(e.message.contains("本地网络"));
    assert!(e.retryable);
    let e = SshError::from_io(&IoFailure::HostUnreachable, "连接", true, false);
    assert_eq!(e.message, "网络不可达，请检查主机地址或网络连接");
    let e = SshError::from_io(&IoFailure::TimedOut, "连接", false, false);
    assert_eq!(e.message, "连接超时，请检查主机地址是否正确、网络是否可达");
    let e = SshError::from_io(&IoFailure::NotFound, "连接", false, false);
    assert!(!e.retryable);
    let e = SshError::from_io(&IoFailure::PermissionDenied, "跳板机", false, false);
    assert_eq!(e.message, "跳板机被拒绝（权限不足）");
    let e = SshError::from_io(&IoFailure::Other { text: "broken pipe".into() }, "连接", false, false);
    assert_eq!(e.message, "连接失败: broken pipe");
    assert!(e.retryable);
}

#[test]
fn ssh_failures_are_classified() {
    let e = SshError::from_failure(&ConnectFailure::UnknownKey, "连接", false, false);
    assert!(e.message.contains("主机密钥"));
    assert!(!e.retryable);
    let e = SshError::from_failure(&ConnectFailure::Timeout, "跳板机", false, false);
    assert_eq!(e.message, "跳板机超时，请检查网络或主机地址是否可达");
    let e = SshError::from_failure(&ConnectFailure::Closed, "连接", false, false);
    assert_eq!(e.message, "连接被对端关闭");
    let e = SshError::from_failure(&ConnectFailure::Other { text: "x".into() }, "认证", false, false);
    assert_eq!(e.to_string(), "认证失败: x");
    let e = SshError::from_failure(&ConnectFailure::Io(IoFailure::ConnectionRefused), "连接", false, false);
    assert!(!e.retryable);
}
