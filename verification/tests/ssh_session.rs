use verve::ssh::session::{
    AttemptEnd, NextStep, ReconnectPolicy, SessionStatus, SessionTab, SessionTabs, SessionView, ZmUiState,
    MAX_RECONNECT_ATTEMPTS,
};
use verve::ssh::local_pty::LocalPtyEvent;
use verve::ssh::session::{local_event_notice, local_spawn_error_notice};
use verve::ssh::zmodem::{ZmEvent, ZmRole};

fn tab(name: &str, uid: u64) -> SessionTab {
    SessionTab::new(name.to_string(), format!("id-{name}"), uid, false)
}

fn tabs_of(names: &[&str]) -> SessionTabs {
    let mut t = SessionTabs::new();
    for (i, n) in names.iter().enumerate() {
        t.open_session(tab(n, i as u64 + 1));
    }
    t
}

fn names(t: &SessionTabs) -> Vec<&str> {
    t.sessions.iter().map(|s| s.host_name.as_str()).collect()
}

#[test]
fn open_session_focuses_new_tab_and_leaves_grid() {
    let mut t = tabs_of(&["a", "b"]);
    t.show_hosts();
    assert!(t.show_host_grid);
    t.open_session(tab("c", 9));
    assert_eq!(t.active_tab, 2);
    assert!(!t.show_host_grid);
    assert_eq!(t.sessions[2].status, SessionStatus::Connecting);
    assert_eq!(t.sessions[2].view, SessionView::Terminal);
}

#[test]
fn close_session_clamps_focus_and_clears_grid_when_empty() {
    let mut t = tabs_of(&["a", "b", "c"]);
    assert_eq!(t.active_tab, 2);
    let closed = t.close_session(2).unwrap();
    assert_eq!(closed.host_name, "c");
    assert_eq!(t.active_tab, 1);
    t.select_tab(0);
    t.close_session(1);
    assert_eq!(t.active_tab, 0);
    assert_eq!(names(&t), vec!["a"]);
    assert!(t.close_session(5).is_none());
    t.show_hosts();
    t.close_session(0);
    assert!(t.sessions.is_empty());
    assert_eq!(t.active_tab, 0);
    assert!(!t.show_host_grid);
}

#[test]
fn close_other_sessions_keeps_one() {
    let mut t = tabs_of(&["a", "b", "c"]);
    let closed = t.close_other_sessions(1);
    assert_eq!(names(&t), vec!["b"]);
    assert_eq!(t.active_tab, 0);
    let closed_names: Vec<&str> = closed.iter().map(|s| s.host_name.as_str()).collect();
    assert_eq!(closed_names, vec!["a", "c"]);
    assert!(t.close_other_sessions(3).is_empty());
    assert_eq!(names(&t), vec!["b"]);
}

#[test]
fn transfer_events_route_by_uid() {
    let mut t = tabs_of(&["a", "b"]);
    let started = ZmEvent::Started { filename: "f.bin".to_string(), total: 10, role: ZmRole::SendToRemote };
    assert!(t.handle_zm_event(2, started));
    assert!(!t.sessions[0].zm_state.active);
    assert!(t.sessions[1].zm_state.active);
    assert_eq!(t.sessions[1].zm_state.filename, "f.bin");
    let progress = ZmEvent::Progress {
        filename: "f.bin".to_string(),
        transferred: 4,
        total: 10,
        role: ZmRole::SendToRemote,
    };
    assert!(t.handle_zm_event(2, progress));
    assert_eq!(t.sessions[1].zm_state.transferred, 4);
    assert!(t.handle_zm_event(2, ZmEvent::Error { message: "boom".to_string() }));
    let z = &t.sessions[1].zm_state;
    assert!(!z.active && z.done);
    assert_eq!(z.error.as_deref(), Some("boom"));
    assert!(!t.handle_zm_event(77, ZmEvent::Cancelled));
}

#[test]
fn zm_ui_state_cancel_and_complete() {
    let mut z = ZmUiState::default();
    z.apply(ZmEvent::Started { filename: "x".to_string(), total: 3, role: ZmRole::ReceiveFromRemote });
    z.apply(ZmEvent::Completed { filename: "y".to_string(), role: ZmRole::ReceiveFromRemote, saved_to: None });
    assert!(z.done && !z.active);
    assert_eq!(z.filename, "y");
    z.apply(ZmEvent::Cancelled);
    assert!(z.cancelled);
    assert_eq!(z.error, None);
    z.apply(ZmEvent::NeedFileToSend);
    assert!(z.cancelled && z.done);
}

#[test]
fn status_updates_by_uid() {
    let mut t = tabs_of(&["a", "b"]);
    assert!(t.mark_connected(1));
    assert_eq!(t.sessions[0].status, SessionStatus::Connected);
    assert!(t.sessions[0].connected);
    assert!(t.set_status(2, SessionStatus::Reconnecting(3)));
    assert_eq!(t.sessions[1].status, SessionStatus::Reconnecting(3));
    assert!(!t.set_status(5, SessionStatus::Closed));
    t.select_tab(1);
    t.set_view(SessionView::Sftp);
    assert_eq!(t.sessions[1].view, SessionView::Sftp);
    assert_eq!(t.sessions[0].view, SessionView::Terminal);
}

#[test]
fn first_attempt_is_quiet_and_may_reuse() {
    let mut p = ReconnectPolicy::new();
    assert_eq!(p.max_attempts, MAX_RECONNECT_ATTEMPTS);
    let s = p.begin_attempt();
    assert!(s.notice.is_none());
    assert!(s.reuse_connection);
    let s = p.begin_attempt();
    assert_eq!(s.notice.as_deref(), Some("\r\n⟳ 正在重连（第 2 次）…\r\n"));
    assert!(!s.reuse_connection);
}

#[test]
fn logout_stops_with_exit_code() {
    let mut p = ReconnectPolicy::new();
    p.begin_attempt();
    let o = p.on_attempt_end(AttemptEnd::Closed(Some(0)));
    assert_eq!(o.notices, vec!["\r\n[会话结束，退出码: 0]\r\n".to_string()]);
    assert_eq!(o.statuses, vec![SessionStatus::Closed]);
    assert_eq!(o.next, NextStep::Stop);
}

#[test]
fn dropped_connection_retries_with_backoff() {
    let mut p = ReconnectPolicy::new();
    p.begin_attempt();
    let o = p.on_attempt_end(AttemptEnd::Closed(None));
    assert_eq!(
        o.notices,
        vec!["\r\n✕ 连接已断开，正在尝试重连…\r\n".to_string(), "\r\n⏳ 1 秒后重连…\r\n".to_string()]
    );
    assert_eq!(o.statuses, vec![SessionStatus::Reconnecting(1), SessionStatus::Reconnecting(2)]);
    assert_eq!(o.next, NextStep::RetryAfter(1));
    let mut delays = vec![];
    for _ in 0..3 {
        p.begin_attempt();
        if let NextStep::RetryAfter(d) = p.on_attempt_end(AttemptEnd::Disconnected).next {
            delays.push(d);
        }
    }
    assert_eq!(delays, vec![2, 4, 8]);
}

#[test]
fn config_error_is_not_retried() {
    let mut p = ReconnectPolicy::new();
    p.begin_attempt();
    let o = p.on_attempt_end(AttemptEnd::Error { message: "认证失败：密码错误".to_string(), retryable: false });
    assert_eq!(
        o.notices,
        vec!["\r\n✕ 连接错误：认证失败：密码错误\r\n（已停止重试，请修改连接配置后重试）\r\n".to_string()]
    );
    assert_eq!(o.statuses, vec![SessionStatus::Error("认证失败".to_string())]);
    assert_eq!(o.next, NextStep::Stop);
}

#[test]
fn used_up_round_waits_for_keypress() {
    let mut p = ReconnectPolicy::new();
    for _ in 0..MAX_RECONNECT_ATTEMPTS {
        p.begin_attempt();
    }
    let o = p.on_attempt_end(AttemptEnd::Error { message: "连接超时".to_string(), retryable: true });
    assert_eq!(o.next, NextStep::AwaitKeypress);
    assert_eq!(o.notices[1], "\r\n✕ 重连失败（已尝试 5 次）。\r\n\r\n  已断开连接，按任意键重连…\r\n");
    assert_eq!(o.statuses, vec![SessionStatus::Error("连接超时".to_string()), SessionStatus::Error("连接失败".to_string())]);
    p.on_keypress();
    let s = p.begin_attempt();
    assert!(s.notice.is_none());
    assert_eq!(p.attempt, 1);
}

#[test]
fn torn_down_session_stops_silently() {
    let p = ReconnectPolicy::new();
    let o = p.on_attempt_end(AttemptEnd::PumpGone);
    assert!(o.notices.is_empty() && o.statuses.is_empty());
    assert_eq!(o.next, NextStep::Stop);
}

#[test]
fn local_shell_tabs_and_notices() {
    let t = SessionTab::local_shell("zsh", 5);
    assert_eq!(t.host_name, "本地 zsh");
    assert_eq!(t.host_id, "local");
    assert_eq!(t.status, SessionStatus::Connected);
    assert!(t.is_local());
    let f = SessionTab::local_failed("no pty", 6);
    assert_eq!(f.host_name, "本地终端");
    assert_eq!(f.status, SessionStatus::Error("no pty".to_string()));
    assert!(!f.is_local());
    assert_eq!(local_spawn_error_notice("no pty"), "\r\n\x1b[31m✕ no pty\x1b[0m\r\n");
    let (n, closed) = local_event_notice(&LocalPtyEvent::Stall, "bash");
    assert_eq!(n.as_deref(), Some("\r\n\x1b[33m⚠ 本地 shell(bash)启动后 5 秒无输出，可关闭此标签页重试\x1b[0m\r\n"));
    assert!(!closed);
    let (n, closed) = local_event_notice(&LocalPtyEvent::Closed, "bash");
    assert_eq!(n.as_deref(), Some("\r\n\x1b[90m○ 本地 shell 已退出\x1b[0m\r\n"));
    assert!(closed);
    assert_eq!(local_event_notice(&LocalPtyEvent::Data(vec![1]), "bash"), (None, false));
}
