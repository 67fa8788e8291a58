use verve::ssh::client::{ConnectFailure, IoFailure};
use verve::ssh::mfa::{
    ki_auth_result, ki_fallback_succeeded, password_rejected_error, KiAction, KiDriver, KiOutcome, KiPrompt,
    KiReply,
};

fn info(prompts: &[&str]) -> KiReply {
    KiReply::InfoRequest {
        prompts: prompts.iter().map(|p| KiPrompt { prompt: p.to_string(), echo: false }).collect(),
    }
}

/// Runs a driver against scripted server replies, answering every prompt
/// with `code` (or cancelling when `code` is `None`). Returns the final
/// action, the answers sent and the prompts asked.
fn run(
    mut replies: Vec<KiReply>,
    code: Option<&str>,
    has_otp: bool,
    max_rounds: u32,
) -> (KiAction, Vec<Vec<String>>, Vec<String>) {
    let mut d = KiDriver::new(has_otp, max_rounds);
    let mut sent = Vec::new();
    let mut asked = Vec::new();
    let mut action = d.on_reply(Ok(replies.remove(0)), false, false);
    loop {
        match action {
            KiAction::AskOtp { prompt, .. } => {
                asked.push(prompt);
                action = d.on_otp(code.map(|c| c.to_string()));
            }
            KiAction::Respond { answers } => {
                sent.push(answers);
                action = d.on_reply(Ok(replies.remove(0)), false, false);
            }
            other => return (other, sent, asked),
        }
    }
}

#[test]
fn ki_success_after_single_challenge() {
    let (end, sent, asked) = run(vec![info(&["Verification code:"]), KiReply::Success], Some("123456"), true, 8);
    assert!(matches!(end, KiAction::Finished(KiOutcome::Success)));
    assert_eq!(sent, vec![vec!["123456".to_string()]]);
    assert_eq!(asked, vec!["Verification code:".to_string()]);
}

#[test]
fn ki_success_after_multiple_rounds() {
    let (end, sent, _) = run(vec![info(&["Password:"]), info(&["Verification code:"]), KiReply::Success], Some("998877"), true, 8);
    assert!(matches!(end, KiAction::Finished(KiOutcome::Success)));
    assert_eq!(sent, vec![vec!["998877".to_string()], vec!["998877".to_string()]]);
}

#[test]
fn ki_failure_when_server_rejects() {
    let (end, _, _) = run(vec![info(&["Verification code:"]), KiReply::Failure], Some("000000"), true, 8);
    assert!(matches!(end, KiAction::Finished(KiOutcome::Failure)));
}

#[test]
fn ki_exhausted_when_never_resolves() {
    let replies = vec![info(&["a"]), info(&["b"]), info(&["c"]), info(&["d"]), info(&["e"]), KiReply::Success];
    let (end, sent, _) = run(replies, Some("111111"), true, 3);
    assert!(matches!(end, KiAction::Finished(KiOutcome::Exhausted)));
    assert_eq!(sent.len(), 3);
}

#[test]
fn ki_error_when_no_otp_callback() {
    let (end, sent, _) = run(vec![info(&["Verification code:"])], None, false, 8);
    match end {
        KiAction::Failed(e) => {
            assert!(!e.retryable);
            assert!(e.message.contains("MFA"));
        }
        _ => panic!("expected an error"),
    }
    assert!(sent.is_empty());
}

#[test]
fn ki_otp_cancel_surfaces_as_error() {
    let (end, sent, _) = run(vec![info(&["Verification code:"])], None, true, 8);
    match end {
        KiAction::Failed(e) => {
            assert_eq!(e.message, "认证失败：已取消验证码输入");
            assert!(!e.retryable);
        }
        _ => panic!("expected an error"),
    }
    assert!(sent.is_empty());
}

#[test]
fn several_prompts_are_answered_together() {
    let (end, sent, asked) = run(vec![info(&["Password:", "Code:"]), KiReply::Success], Some("x"), true, 8);
    assert!(matches!(end, KiAction::Finished(KiOutcome::Success)));
    assert_eq!(asked, vec!["Password:".to_string(), "Code:".to_string()]);
    assert_eq!(sent, vec![vec!["x".to_string(), "x".to_string()]]);
    let (_, sent_empty, asked_none) = run(vec![info(&[]), KiReply::Success], Some("x"), true, 8);
    assert_eq!(sent_empty, vec![Vec::<String>::new()]);
    assert!(asked_none.is_empty());
}

#[test]
fn transport_failure_is_classified() {
    let mut d = KiDriver::new(true, 8);
    match d.on_reply(Err(ConnectFailure::Io(IoFailure::TimedOut)), false, false) {
        KiAction::Failed(e) => assert_eq!(e.message, "连接超时，请检查主机地址是否正确、网络是否可达"),
        _ => panic!("expected an error"),
    }
    let mut z = KiDriver::new(true, 0);
    assert!(matches!(z.on_reply(Ok(info(&["Code:"])), false, false), KiAction::Finished(KiOutcome::Exhausted)));
    let mut y = KiDriver::new(true, 0);
    assert!(matches!(y.on_reply(Ok(KiReply::Success), false, false), KiAction::Finished(KiOutcome::Success)));
}

#[test]
fn last_allowed_round_is_honoured() {
    let replies = vec![info(&["Verification code:"]), KiReply::Success];
    let (end, sent, asked) = run(replies, Some("123456"), true, 1);
    assert!(matches!(end, KiAction::Finished(KiOutcome::Success)));
    assert_eq!(sent, vec![vec!["123456".to_string()]]);
    assert_eq!(asked, vec!["Verification code:".to_string()]);
}

#[test]
fn answers_keep_prompt_order() {
    let mut d = KiDriver::new(true, 8);
    match d.on_reply(Ok(info(&["Password:", "Code:"])), false, false) {
        KiAction::AskOtp { prompt, .. } => assert_eq!(prompt, "Password:"),
        _ => panic!("expected a prompt"),
    }
    match d.on_otp(Some("pw".to_string())) {
        KiAction::AskOtp { prompt, .. } => assert_eq!(prompt, "Code:"),
        _ => panic!("expected the second prompt"),
    }
    match d.on_otp(Some("42".to_string())) {
        KiAction::Respond { answers } => assert_eq!(answers, vec!["pw".to_string(), "42".to_string()]),
        _ => panic!("expected the answers"),
    }
}

#[test]
fn outcome_results() {
    assert!(ki_auth_result(KiOutcome::Success).is_ok());
    assert_eq!(ki_auth_result(KiOutcome::Failure).unwrap_err().message, "认证失败：验证码错误或被服务器拒绝");
    assert!(ki_auth_result(KiOutcome::Exhausted).unwrap_err().message.contains("超过上限 8"));
    assert!(ki_fallback_succeeded(KiOutcome::Success));
    assert!(!ki_fallback_succeeded(KiOutcome::Exhausted));
    assert!(password_rejected_error(true).message.ends_with("请检查账号配置"));
    assert!(password_rejected_error(false).message.contains("MFA"));
}
