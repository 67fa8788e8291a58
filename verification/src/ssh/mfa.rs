//! The keyboard-interactive (MFA) exchange as a state machine: the caller
//! talks to the server and to the user, this module decides what comes next.
//! The exchange starts, then for each challenge every prompt is put to the
//! user and the answers are sent back, until the server accepts or rejects,
//! or the round limit is reached.

use vstd::prelude::*;
use crate::ssh::client::{spec_ssh_error, ConnectFailure, SshError};

verus! {

/// How a keyboard-interactive exchange ended.
#[derive(Debug, Clone, Copy, PartialEq, Eq, Structural)]
pub enum KiOutcome {
    /// The server accepted.
    Success,
    /// The server rejected the method or the answers.
    Failure,
    /// The round limit was reached without a decision.
    Exhausted,
}

/// One prompt of a challenge.
#[derive(Debug)]
pub struct KiPrompt {
    pub prompt: String,
    /// Whether the answer may be shown while typed.
    pub echo: bool,
}

/// The server's answer to a start or a response.
#[derive(Debug)]
pub enum KiReply {
    Success,
    Failure,
    InfoRequest { prompts: Vec<KiPrompt> },
}

/// What the caller must do next.
#[derive(Debug)]
pub enum KiAction {
    /// Ask the user this prompt (with an empty challenge name).
    AskOtp { prompt: String, echo: bool },
    /// Send these answers to the server.
    Respond { answers: Vec<String> },
    /// The exchange is over.
    Finished(KiOutcome),
    /// The exchange failed.
    Failed(SshError),
}

#[derive(Debug, Clone, Copy, PartialEq, Eq, Structural)]
enum KiPhase {
    AwaitReply,
    AwaitOtp,
    Over,
}

pub open spec fn no_otp_message() -> Seq<char> {
    "该服务器要求键盘交互式认证（MFA），但当前连接无法输入验证码。请在 SSH 终端中连接。"@
}

pub open spec fn otp_cancelled_message() -> Seq<char> {
    "认证失败：已取消验证码输入"@
}

/// The driver of one exchange. The caller starts the exchange on the server
/// for the user (no submethods) and passes each reply to `on_reply` and each
/// answer of the user to `on_otp`.
pub struct KiDriver {
    has_otp: bool,
    max_rounds: u32,
    round: u32,
    prompts: Vec<KiPrompt>,
    next_prompt: usize,
    answers: Vec<String>,
    phase: KiPhase,
}

impl KiDriver {
    /// The number of server replies examined so far.
    pub closed spec fn rounds(&self) -> nat {
        self.round as nat
    }

    pub closed spec fn limit(&self) -> nat {
        self.max_rounds as nat
    }

    pub closed spec fn awaiting_reply(&self) -> bool {
        self.phase == KiPhase::AwaitReply
    }

    pub closed spec fn awaiting_otp(&self) -> bool {
        self.phase == KiPhase::AwaitOtp
    }

    pub closed spec fn over(&self) -> bool {
        self.phase == KiPhase::Over
    }

    pub closed spec fn wf(&self) -> bool {
        &&& self.round <= self.max_rounds
        &&& (self.phase == KiPhase::AwaitOtp ==> self.next_prompt < self.prompts@.len() && self.round < self.max_rounds
            && self.answers@.len() == self.next_prompt)
    }

    /// A driver waiting for the reply to the start of the exchange. `has_otp`
    /// tells whether the user can be asked for codes at all.
    pub fn new(has_otp: bool, max_rounds: u32) -> (r: Self)
        ensures
            r.wf(),
            r.awaiting_reply(),
            r.rounds() == 0,
            r.limit() == max_rounds,
            r.has_otp_spec() == has_otp,
    {
        KiDriver {
            has_otp,
            max_rounds,
            round: 0,
            prompts: Vec::new(),
            next_prompt: 0,
            answers: Vec::new(),
            phase: KiPhase::AwaitReply,
        }
    }

    fn ask(&self, i: usize) -> (r: KiAction)
        requires
            i < self.prompts@.len(),
        ensures
            r matches KiAction::AskOtp { prompt, echo } && prompt@ == self.prompts@[i as int].prompt@ && echo
                == self.prompts@[i as int].echo,
    {
        KiAction::AskOtp { prompt: self.prompts[i].prompt.clone(), echo: self.prompts[i].echo }
    }

    /// Handles the server's reply (or the transport failure). A success or a
    /// rejection ends the exchange, also for the reply to the last allowed
    /// round. A challenge is put to the user prompt by prompt (a challenge
    /// without prompts is answered at once); once the round limit is reached
    /// a further challenge ends the exchange as exhausted. A challenge that no
    /// user can answer, and a transport failure, end it with an error.
    pub fn on_reply(&mut self, reply: Result<KiReply, ConnectFailure>, user_is_local: bool, macos: bool) -> (r: KiAction)
        requires
            old(self).wf(),
            old(self).awaiting_reply(),
        ensures
            final(self).wf(),
            final(self).limit() == old(self).limit(),
            final(self).has_otp_spec() == old(self).has_otp_spec(),
            final(self).rounds() <= old(self).rounds() + 1,
            match reply {
                Err(f) => final(self).over() && (r matches KiAction::Failed(e) && (e.message@, e.retryable)
                    == spec_ssh_error(f, "键盘交互认证"@, user_is_local, macos)),
                Ok(rep) => match rep {
                        KiReply::Success => final(self).over() && r matches KiAction::Finished(KiOutcome::Success),
                        KiReply::Failure => final(self).over() && r matches KiAction::Finished(KiOutcome::Failure),
                        KiReply::InfoRequest { prompts } => if old(self).rounds() >= old(self).limit() {
                            final(self).over() && r matches KiAction::Finished(KiOutcome::Exhausted)
                        } else if !old(self).has_otp_spec() {
                            final(self).over() && (r matches KiAction::Failed(e) && e.message@ == no_otp_message()
                                && !e.retryable)
                        } else if prompts@.len() == 0 {
                            final(self).awaiting_reply() && final(self).rounds() == old(self).rounds() + 1
                                && (r matches KiAction::Respond { answers } && answers@.len() == 0)
                        } else {
                            final(self).awaiting_otp() && final(self).rounds() == old(self).rounds()
                                && final(self).prompts_spec() == prompts@ && final(self).answers_spec().len() == 0
                                && final(self).answered() == 0
                                && (r matches KiAction::AskOtp { prompt, echo } && prompt@ == prompts@[0].prompt@
                                && echo == prompts@[0].echo)
                        },
                },
            },
    {
        match reply {
            Err(f) => {
                self.phase = KiPhase::Over;
                KiAction::Failed(SshError::from_failure(&f, "键盘交互认证", user_is_local, macos))
            },
            Ok(rep) => {
                match rep {
                    KiReply::Success => {
                        self.phase = KiPhase::Over;
                        KiAction::Finished(KiOutcome::Success)
                    },
                    KiReply::Failure => {
                        self.phase = KiPhase::Over;
                        KiAction::Finished(KiOutcome::Failure)
                    },
                    KiReply::InfoRequest { prompts } => {
                        if self.round >= self.max_rounds {
                            self.phase = KiPhase::Over;
                            return KiAction::Finished(KiOutcome::Exhausted);
                        }
                        if !self.has_otp {
                            self.phase = KiPhase::Over;
                            return KiAction::Failed(
                                SshError::new(
                                    "该服务器要求键盘交互式认证（MFA），但当前连接无法输入验证码。请在 SSH 终端中连接。",
                                    false,
                                ),
                            );
                        }
                        self.prompts = prompts;
                        self.answers = Vec::new();
                        self.next_prompt = 0;
                        if self.prompts.len() == 0 {
                            self.round = self.round + 1;
                            self.phase = KiPhase::AwaitReply;
                            KiAction::Respond { answers: Vec::new() }
                        } else {
                            self.phase = KiPhase::AwaitOtp;
                            self.ask(0)
                        }
                    },
                }
            },
        }
    }

    /// Handles the user's answer to the prompt asked last: `None` when the
    /// user cancelled, which ends the exchange with an error. After the last
    /// prompt of the challenge the collected answers go to the server.
    pub fn on_otp(&mut self, answer: Option<String>) -> (r: KiAction)
        requires
            old(self).wf(),
            old(self).awaiting_otp(),
        ensures
            final(self).wf(),
            final(self).limit() == old(self).limit(),
            final(self).has_otp_spec() == old(self).has_otp_spec(),
            match answer {
                None => final(self).over() && (r matches KiAction::Failed(e) && e.message@ == otp_cancelled_message()
                    && !e.retryable),
                Some(a) => if old(self).answered() + 1 < old(self).prompt_count() {
                    &&& final(self).awaiting_otp()
                    &&& final(self).rounds() == old(self).rounds()
                    &&& final(self).prompts_spec() == old(self).prompts_spec()
                    &&& final(self).answers_spec() == old(self).answers_spec().push(a)
                    &&& final(self).answered() == old(self).answered() + 1
                    &&& r matches KiAction::AskOtp { prompt, echo }
                        && prompt@ == old(self).prompts_spec()[old(self).answered() + 1int].prompt@
                        && echo == old(self).prompts_spec()[old(self).answered() + 1int].echo
                } else {
                    &&& final(self).awaiting_reply()
                    &&& final(self).rounds() == old(self).rounds() + 1
                    &&& final(self).answers_spec().len() == 0
                    &&& r matches KiAction::Respond { answers } && answers@ == old(self).answers_spec().push(a)
                        && answers@.len() == old(self).prompt_count()
                },
            },
    {
        match answer {
            None => {
                self.phase = KiPhase::Over;
                KiAction::Failed(SshError::new("认证失败：已取消验证码输入", false))
            },
            Some(code) => {
                let count = self.prompts.len();
                self.answers.push(code);
                self.next_prompt = self.next_prompt + 1;
                if self.next_prompt < count {
                    self.ask(self.next_prompt)
                } else {
                    self.round = self.round + 1;
                    self.phase = KiPhase::AwaitReply;
                    let mut out: Vec<String> = Vec::new();
                    std::mem::swap(&mut out, &mut self.answers);
                    KiAction::Respond { answers: out }
                }
            },
        }
    }
}

impl KiDriver {
    pub closed spec fn has_otp_spec(&self) -> bool {
        self.has_otp
    }

    /// Prompts of the current challenge answered so far.
    pub closed spec fn answered(&self) -> nat {
        self.next_prompt as nat
    }

    pub closed spec fn prompt_count(&self) -> nat {
        self.prompts@.len()
    }

    /// The prompts of the current challenge.
    pub closed spec fn prompts_spec(&self) -> Seq<KiPrompt> {
        self.prompts@
    }

    /// The answers collected for the current challenge, in prompt order.
    pub closed spec fn answers_spec(&self) -> Seq<String> {
        self.answers@
    }
}

/// The replies a driver examines never exceed its round limit.
pub proof fn law_ki_rounds_bounded(d: KiDriver)
    requires
        d.wf(),
    ensures
        d.rounds() <= d.limit(),
{
}

/// The result of an explicit MFA login: success, or the error for a rejected
/// code or for too many rounds.
pub fn ki_auth_result(outcome: KiOutcome) -> (r: Result<(), SshError>)
    ensures
        match outcome {
            KiOutcome::Success => r is Ok,
            KiOutcome::Failure => r matches Err(e) && e.message@ == "认证失败：验证码错误或被服务器拒绝"@ && !e.retryable,
            KiOutcome::Exhausted => r matches Err(e) && e.message@ == "认证失败：服务器要求的交互轮次过多（超过上限 8），疑似配置异常"@
                && !e.retryable,
        },
{
    match outcome {
        KiOutcome::Success => Ok(()),
        KiOutcome::Failure => Err(SshError::new("认证失败：验证码错误或被服务器拒绝", false)),
        KiOutcome::Exhausted => Err(SshError::new("认证失败：服务器要求的交互轮次过多（超过上限 8），疑似配置异常", false)),
    }
}

/// Whether an MFA attempt after a rejected password logged in (a rejection
/// or too many rounds both mean there was no MFA path).
pub fn ki_fallback_succeeded(outcome: KiOutcome) -> (r: bool)
    ensures
        r == (outcome == KiOutcome::Success),
{
    outcome == KiOutcome::Success
}

/// The error for a rejected password: with a way to ask for codes the
/// account is wrong; without one the server may also want MFA.
pub fn password_rejected_error(has_otp: bool) -> (r: SshError)
    ensures
        !r.retryable,
        r.message@ == if has_otp {
            "认证失败：用户名或密码错误，请检查账号配置"@
        } else {
            "认证失败：用户名或密码错误。若该服务器启用了 MFA（多因素认证），请在 SSH 终端中连接以输入验证码。"@
        },
{
    if has_otp {
        SshError::new("认证失败：用户名或密码错误，请检查账号配置", false)
    } else {
        SshError::new(
            "认证失败：用户名或密码错误。若该服务器启用了 MFA（多因素认证），请在 SSH 终端中连接以输入验证码。",
            false,
        )
    }
}

} // verus!
