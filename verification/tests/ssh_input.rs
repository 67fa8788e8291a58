use verve::ssh::input::{
    choose_mac_layout, linux_switch_commands, linux_switch_outcome, mac_select_error, no_mac_layout_error,
};

fn ids(v: &[&str]) -> Vec<String> {
    v.iter().map(|s| s.to_string()).collect()
}

#[test]
fn mac_prefers_abc_then_us_then_international() {
    assert_eq!(choose_mac_layout(&ids(&["com.apple.keylayout.US", "com.apple.keylayout.ABC"])), Some(1));
    assert_eq!(choose_mac_layout(&ids(&["x.pinyin", "com.apple.keylayout.USInternational-PC", "com.apple.keylayout.US"])), Some(2));
    assert_eq!(choose_mac_layout(&ids(&["x.pinyin", "com.apple.keylayout.USInternational-PC"])), Some(1));
    assert_eq!(choose_mac_layout(&ids(&["com.apple.keylayout.German"])), Some(0));
    assert_eq!(choose_mac_layout(&ids(&[])), None);
    assert_eq!(no_mac_layout_error(), "没有可用的英文键盘布局");
    assert_eq!(mac_select_error(-50), "TISSelectInputSource 失败, OSStatus=-50");
    assert_eq!(mac_select_error(7), "TISSelectInputSource 失败, OSStatus=7");
}

#[test]
fn linux_commands_and_outcomes() {
    let cmds = linux_switch_commands();
    assert_eq!(cmds[0], ("fcitx5-remote", vec!["-c"]));
    assert_eq!(cmds[2], ("ibus", vec!["engine", "xkb:us::eng"]));
    assert_eq!(linux_switch_outcome(Some(1)), Ok("fcitx-remote -c".to_string()));
    assert_eq!(linux_switch_outcome(Some(2)), Ok("ibus engine xkb:us::eng".to_string()));
    assert_eq!(linux_switch_outcome(None), Err("未检测到 fcitx5/fcitx/ibus(或切换未成功)".to_string()));
}
