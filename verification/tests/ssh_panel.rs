use verve::ssh::panel::{ssh_error_short_label, truncate_prompt};

#[test]
fn truncate_prompt_short_unchanged() {
    assert_eq!(truncate_prompt("Verification code:", 40), "Verification code:");
}

#[test]
fn truncate_prompt_long_elided() {
    let long = "请输入您的动态验证码以完成多因素认证并登录到远程服务器系统";
    let out = truncate_prompt(long, 10);
    assert!(out.chars().count() == 10, "elided length is exactly max");
    assert!(out.ends_with('…'));
    assert_eq!(out.chars().count(), out.chars().count());
}

#[test]
fn truncate_prompt_multibyte_safe() {
    let out = truncate_prompt("验证码验证码验证码", 5);
    assert_eq!(out.chars().count(), 5);
    assert!(out.ends_with('…'));
}

#[test]
fn truncate_prompt_empty() {
    assert_eq!(truncate_prompt("", 40), "");
}

#[test]
fn truncate_prompt_exact_and_zero() {
    assert_eq!(truncate_prompt("abcd", 4), "abcd");
    assert_eq!(truncate_prompt("abcde", 4), "abc…");
    assert_eq!(truncate_prompt("abc", 0), "…");
}

#[test]
fn error_short_labels() {
    assert_eq!(ssh_error_short_label("认证失败：密码错误"), "认证失败");
    assert_eq!(ssh_error_short_label("连接被拒绝：目标端口上没有服务"), "端口不通");
    assert_eq!(ssh_error_short_label("连接超时，请检查"), "连接超时");
    assert_eq!(ssh_error_short_label("服务器主机密钥与本地已保存的不一致"), "主机密钥异常");
    assert_eq!(ssh_error_short_label("无法解析主机地址"), "主机不可达");
    assert_eq!(ssh_error_short_label("网络不可达"), "主机不可达");
    assert_eq!(ssh_error_short_label("找不到跳板机配置：x"), "跳板机错误");
    assert_eq!(ssh_error_short_label("something else"), "连接失败");
}
