//! The SSH panel's sessions: the open tabs and what each shows, how a
//! transfer's events update a tab, and the reconnect policy of a session.
//!
//! The live connection, terminal and channels of a tab are held by the caller,
//! keyed by the tab's `session_uid`.

use vstd::prelude::*;
use crate::ssh::local_pty::LocalPtyEvent;
use crate::ssh::zmodem::{ZmEvent, ZmRole};
use crate::ssh::panel::{spec_error_short_label, ssh_error_short_label};
use crate::text::{decimal, push_decimal};

verus! {

/// What the SSH panel asks of the application.
#[derive(Clone, Debug)]
pub enum SshEvent {
    NewHost,
    EditHost(String),
    Connect(String),
}

/// Which view a session tab shows.
#[derive(Clone, Copy, Debug, PartialEq, Eq, Structural)]
pub enum SessionView {
    Terminal,
    Sftp,
    Forwards,
}

/// The state of a session's connection.
#[derive(Clone, Debug, PartialEq)]
pub enum SessionStatus {
    Connecting,
    Connected,
    /// Reconnecting; the attempt number.
    Reconnecting(usize),
    Error(String),
    Closed,
}

/// What the UI shows of a ZMODEM transfer.
#[derive(Clone, Debug)]
pub struct ZmUiState {
    pub active: bool,
    pub filename: String,
    pub total: u64,
    pub transferred: u64,
    pub role: ZmRole,
    pub done: bool,
    pub error: Option<String>,
    pub cancelled: bool,
}

impl Default for ZmUiState {
    fn default() -> (r: Self)
        ensures
            !r.active && r.filename@.len() == 0 && r.total == 0 && r.transferred == 0,
            r.role == ZmRole::ReceiveFromRemote,
            !r.done && r.error is None && !r.cancelled,
    {
        ZmUiState {
            active: false,
            filename: String::new(),
            total: 0,
            transferred: 0,
            role: ZmRole::ReceiveFromRemote,
            done: false,
            error: None,
            cancelled: false,
        }
    }
}

/// The transfer state after event `ev`. Prompts for a path do not reach the
/// tab and change nothing.
pub open spec fn zm_ui_after(s: ZmUiState, ev: ZmEvent) -> ZmUiState {
    match ev {
        ZmEvent::Started { filename, total, role } => ZmUiState {
            active: true,
            filename,
            total,
            transferred: 0,
            role,
            done: false,
            error: None,
            cancelled: false,
        },
        ZmEvent::Progress { transferred, total, .. } => ZmUiState { transferred, total, ..s },
        ZmEvent::Completed { filename, .. } => ZmUiState { active: false, done: true, filename, ..s },
        ZmEvent::Cancelled => ZmUiState { active: false, done: true, cancelled: true, error: None, ..s },
        ZmEvent::Error { message } => ZmUiState { active: false, done: true, error: Some(message), ..s },
        _ => s,
    }
}

impl ZmUiState {
    /// Applies a transfer event.
    pub fn apply(&mut self, ev: ZmEvent)
        ensures
            *final(self) == zm_ui_after(*old(self), ev),
    {
        match ev {
            ZmEvent::Started { filename, total, role } => {
                *self = ZmUiState {
                    active: true,
                    filename,
                    total,
                    transferred: 0,
                    role,
                    done: false,
                    error: None,
                    cancelled: false,
                };
            },
            ZmEvent::Progress { transferred, total, .. } => {
                self.transferred = transferred;
                self.total = total;
            },
            ZmEvent::Completed { filename, .. } => {
                self.active = false;
                self.done = true;
                self.filename = filename;
            },
            ZmEvent::Cancelled => {
                self.active = false;
                self.done = true;
                self.cancelled = true;
                self.error = None;
            },
            ZmEvent::Error { message } => {
                self.active = false;
                self.done = true;
                self.error = Some(message);
            },
            ZmEvent::NeedSavePath { .. } => {},
            ZmEvent::NeedFileToSend => {},
        }
    }
}

/// One session tab.
#[derive(Debug)]
pub struct SessionTab {
    pub host_name: String,
    pub host_id: String,
    /// Unique per tab, so transfers of two tabs on one host stay apart.
    pub session_uid: u64,
    pub view: SessionView,
    pub status: SessionStatus,
    pub zm_state: ZmUiState,
    /// The tab runs the local shell rather than an SSH session.
    pub local: bool,
    /// An authenticated connection is available (it can be reused).
    pub connected: bool,
}

impl SessionTab {
    /// A new SSH tab, connecting, showing its terminal.
    pub fn new(host_name: String, host_id: String, session_uid: u64, local: bool) -> (r: Self)
        ensures
            r.host_name == host_name,
            r.host_id == host_id,
            r.session_uid == session_uid,
            r.view == SessionView::Terminal,
            r.status == SessionStatus::Connecting,
            r.zm_state == (ZmUiState {
                active: false,
                filename: r.zm_state.filename,
                total: 0,
                transferred: 0,
                role: ZmRole::ReceiveFromRemote,
                done: false,
                error: None,
                cancelled: false,
            }),
            r.zm_state.filename@.len() == 0,
            r.local == local,
            !r.connected,
    {
        SessionTab {
            host_name,
            host_id,
            session_uid,
            view: SessionView::Terminal,
            status: SessionStatus::Connecting,
            zm_state: ZmUiState::default(),
            local,
            connected: false,
        }
    }

    /// The tab runs the local shell.
    pub fn is_local(&self) -> (r: bool)
        ensures
            r == self.local,
    {
        self.local
    }
}

fn concat3(a: &str, b: &str, c: &str) -> (r: String)
    ensures
        r@ == a@ + b@ + c@,
{
    let mut s = a.to_owned();
    s.append(b);
    s.append(c);
    s
}

impl SessionTab {
    /// The tab of a local shell that started: named after the shell,
    /// connected.
    pub fn local_shell(shell_name: &str, session_uid: u64) -> (r: Self)
        ensures
            r.host_name@ == "本地 "@ + shell_name@,
            r.host_id@ == "local"@,
            r.session_uid == session_uid,
            r.view == SessionView::Terminal,
            r.status == SessionStatus::Connected,
            r.local,
            !r.connected,
    {
        let mut name = "本地 ".to_owned();
        name.append(shell_name);
        SessionTab {
            host_name: name,
            host_id: "local".to_owned(),
            session_uid,
            view: SessionView::Terminal,
            status: SessionStatus::Connected,
            zm_state: ZmUiState::default(),
            local: true,
            connected: false,
        }
    }

    /// The tab of a local shell that failed to start: it shows the error.
    pub fn local_failed(error: &str, session_uid: u64) -> (r: Self)
        ensures
            r.host_name@ == "本地终端"@,
            r.host_id@ == "local"@,
            r.session_uid == session_uid,
            r.view == SessionView::Terminal,
            r.status matches SessionStatus::Error(e) && e@ == error@,
            !r.local,
            !r.connected,
    {
        SessionTab {
            host_name: "本地终端".to_owned(),
            host_id: "local".to_owned(),
            session_uid,
            view: SessionView::Terminal,
            status: SessionStatus::Error(error.to_owned()),
            zm_state: ZmUiState::default(),
            local: false,
            connected: false,
        }
    }
}

/// The terminal text for a local shell that failed to start (in red).
pub fn local_spawn_error_notice(error: &str) -> (r: String)
    ensures
        r@ == "\r\n\x1b[31m✕ "@ + error@ + "\x1b[0m\r\n"@,
{
    concat3("\r\n\x1b[31m✕ ", error, "\x1b[0m\r\n")
}

/// What a local shell's event shows besides its output: a warning when it
/// stalls (yellow), a notice when it exits (grey); `true` when the tab is
/// closed by it.
pub open spec fn spec_local_event_notice(ev: LocalPtyEvent, shell_name: Seq<char>) -> (Option<Seq<char>>, bool) {
    match ev {
        LocalPtyEvent::Data(_) => (None, false),
        LocalPtyEvent::Stall => (
            Some("\r\n\x1b[33m⚠ 本地 shell("@ + shell_name + ")启动后 5 秒无输出，可关闭此标签页重试\x1b[0m\r\n"@),
            false,
        ),
        LocalPtyEvent::Closed => (Some("\r\n\x1b[90m○ 本地 shell 已退出\x1b[0m\r\n"@), true),
    }
}

pub fn local_event_notice(ev: &LocalPtyEvent, shell_name: &str) -> (r: (Option<String>, bool))
    ensures
        r.1 == spec_local_event_notice(*ev, shell_name@).1,
        match spec_local_event_notice(*ev, shell_name@).0 {
            Some(n) => r.0 matches Some(t) && t@ == n,
            None => r.0 is None,
        },
{
    match ev {
        LocalPtyEvent::Data(_) => (None, false),
        LocalPtyEvent::Stall => (
            Some(
                concat3(
                    "\r\n\x1b[33m⚠ 本地 shell(",
                    shell_name,
                    ")启动后 5 秒无输出，可关闭此标签页重试\x1b[0m\r\n",
                ),
            ),
            false,
        ),
        LocalPtyEvent::Closed => (Some("\r\n\x1b[90m○ 本地 shell 已退出\x1b[0m\r\n".to_owned()), true),
    }
}

/// The first tab with uid `uid`.
pub open spec fn tab_with_uid(s: Seq<SessionTab>, uid: u64) -> Option<int>
    decreases s.len(),
{
    if s.len() == 0 {
        None
    } else {
        match tab_with_uid(s.drop_last(), uid) {
            Some(i) => Some(i),
            None => if s.last().session_uid == uid {
                Some(s.len() - 1)
            } else {
                None
            },
        }
    }
}

/// The open session tabs, the focused one, and whether the host grid is shown
/// in place of the focused session.
#[derive(Debug)]
pub struct SessionTabs {
    pub sessions: Vec<SessionTab>,
    pub active_tab: usize,
    pub show_host_grid: bool,
}

/// The focused tab after closing one, with `len` tabs left.
pub open spec fn active_after_close(active: usize, len: nat) -> usize {
    if len == 0 {
        0
    } else if active >= len {
        (len - 1) as usize
    } else {
        active
    }
}

impl SessionTabs {
    /// The focused tab is a real tab whenever there is one.
    pub open spec fn active_in_range(&self) -> bool {
        self.sessions@.len() > 0 ==> self.active_tab < self.sessions@.len()
    }

    pub fn new() -> (r: Self)
        ensures
            r.sessions@.len() == 0,
            r.active_tab == 0,
            !r.show_host_grid,
    {
        SessionTabs { sessions: Vec::new(), active_tab: 0, show_host_grid: false }
    }

    /// Adds a tab and focuses it, leaving the host grid.
    pub fn open_session(&mut self, tab: SessionTab)
        requires
            old(self).sessions@.len() < usize::MAX,
        ensures
            final(self).sessions@ == old(self).sessions@.push(tab),
            final(self).active_tab == old(self).sessions@.len(),
            !final(self).show_host_grid,
            final(self).active_in_range(),
    {
        self.sessions.push(tab);
        self.active_tab = self.sessions.len() - 1;
        self.show_host_grid = false;
    }

    /// Focuses tab `i`, leaving the host grid.
    pub fn select_tab(&mut self, i: usize)
        ensures
            final(self).sessions@ == old(self).sessions@,
            final(self).active_tab == i,
            !final(self).show_host_grid,
    {
        self.active_tab = i;
        self.show_host_grid = false;
    }

    /// Shows the host grid in place of the focused session.
    pub fn show_hosts(&mut self)
        ensures
            final(self).sessions@ == old(self).sessions@,
            final(self).active_tab == old(self).active_tab,
            final(self).show_host_grid,
    {
        self.show_host_grid = true;
    }

    /// Closes tab `idx` and hands it back (its connection and shell are the
    /// caller's to stop). The focus stays put, moving to the last tab when it
    /// fell off the end; with no tab left the host grid flag is cleared. An
    /// index out of range changes nothing.
    pub fn close_session(&mut self, idx: usize) -> (r: Option<SessionTab>)
        ensures
            idx < old(self).sessions@.len() ==> {
                &&& r == Some(old(self).sessions@[idx as int])
                &&& final(self).sessions@ == old(self).sessions@.remove(idx as int)
                &&& final(self).active_tab == active_after_close(old(self).active_tab, final(self).sessions@.len())
                &&& final(self).show_host_grid == (old(self).show_host_grid && final(self).sessions@.len() > 0)
            },
            idx >= old(self).sessions@.len() ==> r is None && *final(self) == *old(self),
            old(self).active_in_range() ==> final(self).active_in_range(),
    {
        if idx >= self.sessions.len() {
            return None;
        }
        let tab = self.sessions.remove(idx);
        if self.active_tab >= self.sessions.len() && self.sessions.len() > 0 {
            self.active_tab = self.sessions.len() - 1;
        }
        if self.sessions.len() == 0 {
            self.active_tab = 0;
            self.show_host_grid = false;
        }
        Some(tab)
    }

    /// Closes every tab but `keep`, which becomes the only, focused tab; the
    /// closed tabs are handed back in order. An index out of range changes
    /// nothing.
    pub fn close_other_sessions(&mut self, keep: usize) -> (r: Vec<SessionTab>)
        ensures
            keep < old(self).sessions@.len() ==> {
                &&& final(self).sessions@ == seq![old(self).sessions@[keep as int]]
                &&& r@ == old(self).sessions@.remove(keep as int)
                &&& final(self).active_tab == 0
                &&& final(self).show_host_grid == old(self).show_host_grid
            },
            keep >= old(self).sessions@.len() ==> r@.len() == 0 && *final(self) == *old(self),
            old(self).active_in_range() ==> final(self).active_in_range(),
    {
        if keep >= self.sessions.len() {
            return Vec::new();
        }
        let kept = self.sessions.remove(keep);
        let mut closed: Vec<SessionTab> = Vec::new();
        std::mem::swap(&mut closed, &mut self.sessions);
        self.sessions.push(kept);
        self.active_tab = 0;
        closed
    }

    /// Applies a transfer event to the tab with uid `uid`; false when no tab
    /// has it.
    pub fn handle_zm_event(&mut self, uid: u64, ev: ZmEvent) -> (r: bool)
        ensures
            r == (tab_with_uid(old(self).sessions@, uid) is Some),
            final(self).active_tab == old(self).active_tab,
            final(self).show_host_grid == old(self).show_host_grid,
            match tab_with_uid(old(self).sessions@, uid) {
                Some(i) => final(self).sessions@ == old(self).sessions@.update(
                    i,
                    SessionTab { zm_state: zm_ui_after(old(self).sessions@[i].zm_state, ev), ..old(self).sessions@[i] },
                ),
                None => final(self).sessions@ == old(self).sessions@,
            },
    {
        match self.position_of_uid(uid) {
            Some(i) => {
                let mut tab = self.sessions.remove(i);
                tab.zm_state.apply(ev);
                self.sessions.insert(i, tab);
                assert(self.sessions@ =~= old(self).sessions@.update(
                    i as int,
                    SessionTab { zm_state: zm_ui_after(old(self).sessions@[i as int].zm_state, ev), ..old(self).sessions@[i as int] },
                ));
                true
            },
            None => false,
        }
    }

    /// Sets the status of the tab with uid `uid`; false when no tab has it.
    pub fn set_status(&mut self, uid: u64, status: SessionStatus) -> (r: bool)
        ensures
            r == (tab_with_uid(old(self).sessions@, uid) is Some),
            final(self).active_tab == old(self).active_tab,
            final(self).show_host_grid == old(self).show_host_grid,
            match tab_with_uid(old(self).sessions@, uid) {
                Some(i) => final(self).sessions@ == old(self).sessions@.update(
                    i,
                    SessionTab { status, ..old(self).sessions@[i] },
                ),
                None => final(self).sessions@ == old(self).sessions@,
            },
    {
        match self.position_of_uid(uid) {
            Some(i) => {
                let mut tab = self.sessions.remove(i);
                tab.status = status;
                self.sessions.insert(i, tab);
                assert(self.sessions@ =~= old(self).sessions@.update(
                    i as int,
                    SessionTab { status, ..old(self).sessions@[i as int] },
                ));
                true
            },
            None => false,
        }
    }

    /// Records that the tab with uid `uid` has its authenticated connection:
    /// connected, and the connection can be reused.
    pub fn mark_connected(&mut self, uid: u64) -> (r: bool)
        ensures
            r == (tab_with_uid(old(self).sessions@, uid) is Some),
            final(self).active_tab == old(self).active_tab,
            final(self).show_host_grid == old(self).show_host_grid,
            match tab_with_uid(old(self).sessions@, uid) {
                Some(i) => final(self).sessions@ == old(self).sessions@.update(
                    i,
                    SessionTab { status: SessionStatus::Connected, connected: true, ..old(self).sessions@[i] },
                ),
                None => final(self).sessions@ == old(self).sessions@,
            },
    {
        match self.position_of_uid(uid) {
            Some(i) => {
                let mut tab = self.sessions.remove(i);
                tab.status = SessionStatus::Connected;
                tab.connected = true;
                self.sessions.insert(i, tab);
                assert(self.sessions@ =~= old(self).sessions@.update(
                    i as int,
                    SessionTab { status: SessionStatus::Connected, connected: true, ..old(self).sessions@[i as int] },
                ));
                true
            },
            None => false,
        }
    }

    /// Switches the focused tab to `view`; nothing when no tab is focused.
    pub fn set_view(&mut self, view: SessionView)
        ensures
            final(self).active_tab == old(self).active_tab,
            final(self).show_host_grid == old(self).show_host_grid,
            old(self).active_tab < old(self).sessions@.len() ==> final(self).sessions@ == old(self).sessions@.update(
                old(self).active_tab as int,
                SessionTab { view, ..old(self).sessions@[old(self).active_tab as int] },
            ),
            old(self).active_tab >= old(self).sessions@.len() ==> final(self).sessions@ == old(self).sessions@,
    {
        let i = self.active_tab;
        if i < self.sessions.len() {
            let mut tab = self.sessions.remove(i);
            tab.view = view;
            self.sessions.insert(i, tab);
            assert(self.sessions@ =~= old(self).sessions@.update(
                i as int,
                SessionTab { view, ..old(self).sessions@[i as int] },
            ));
        }
    }

    fn position_of_uid(&self, uid: u64) -> (r: Option<usize>)
        ensures
            r matches Some(i) ==> tab_with_uid(self.sessions@, uid) == Some(i as int) && i < self.sessions@.len(),
            r is None ==> tab_with_uid(self.sessions@, uid) is None,
    {
        let mut i: usize = 0;
        while i < self.sessions.len()
            invariant
                i <= self.sessions@.len(),
                tab_with_uid(self.sessions@.take(i as int), uid) is None,
            decreases self.sessions.len() - i,
        {
            assert(self.sessions@.take(i + 1).drop_last() =~= self.sessions@.take(i as int));
            if self.sessions[i].session_uid == uid {
                proof {
                    lemma_tab_with_uid_prefix(self.sessions@, uid, i + 1);
                }
                return Some(i);
            }
            i = i + 1;
        }
        assert(self.sessions@.take(self.sessions@.len() as int) =~= self.sessions@);
        None
    }
}

proof fn lemma_tab_with_uid_prefix(s: Seq<SessionTab>, uid: u64, n: int)
    requires
        0 <= n <= s.len(),
        tab_with_uid(s.take(n), uid) is Some,
    ensures
        tab_with_uid(s, uid) == tab_with_uid(s.take(n), uid),
    decreases s.len() - n,
{
    if n < s.len() {
        assert(s.take(n + 1).drop_last() =~= s.take(n));
        lemma_tab_with_uid_prefix(s, uid, n + 1);
    } else {
        assert(s.take(n) =~= s);
    }
}

/// Connection attempts in one round before waiting for a key press.
pub const MAX_RECONNECT_ATTEMPTS: usize = 5;

/// How a connection attempt ended.
#[derive(Debug)]
pub enum AttemptEnd {
    /// The shell channel closed: with the remote exit status after a
    /// deliberate logout, without one when the connection dropped.
    Closed(Option<u32>),
    /// Connecting or the session failed; `retryable` is false for
    /// configuration problems (credentials, port, host key).
    Error { message: String, retryable: bool },
    /// The connection went away without an error.
    Disconnected,
    /// The output pump stopped: the session is being torn down.
    PumpGone,
}

/// What to do once an attempt has ended.
#[derive(Debug, Clone, Copy, PartialEq, Eq, Structural)]
pub enum NextStep {
    Stop,
    /// Connect again after this many seconds.
    RetryAfter(u64),
    /// Wait for a key press in the terminal, then start a fresh round.
    AwaitKeypress,
}

/// What starting an attempt shows and uses.
#[derive(Debug)]
pub struct AttemptStart {
    /// Text for the terminal (a reconnect notice from the second attempt on).
    pub notice: Option<String>,
    /// The connection a duplicated tab brought may be reused (first attempt).
    pub reuse_connection: bool,
}

/// What an ended attempt shows and what follows.
#[derive(Debug)]
pub struct AttemptOutcome {
    /// Text for the terminal, in order.
    pub notices: Vec<String>,
    /// Status changes of the tab, in order.
    pub statuses: Vec<SessionStatus>,
    pub next: NextStep,
}

/// A session status with its text as a char sequence.
pub enum StatusModel {
    Connecting,
    Connected,
    Reconnecting(usize),
    Error(Seq<char>),
    Closed,
}

pub open spec fn status_model(s: SessionStatus) -> StatusModel {
    match s {
        SessionStatus::Connecting => StatusModel::Connecting,
        SessionStatus::Connected => StatusModel::Connected,
        SessionStatus::Reconnecting(n) => StatusModel::Reconnecting(n),
        SessionStatus::Error(m) => StatusModel::Error(m@),
        SessionStatus::Closed => StatusModel::Closed,
    }
}

pub struct OutcomeModel {
    pub notices: Seq<Seq<char>>,
    pub statuses: Seq<StatusModel>,
    pub next: NextStep,
}

impl AttemptOutcome {
    pub open spec fn model(&self) -> OutcomeModel {
        OutcomeModel {
            notices: self.notices@.map_values(|n: String| n@),
            statuses: self.statuses@.map_values(|s: SessionStatus| status_model(s)),
            next: self.next,
        }
    }
}

pub open spec fn reconnecting_notice(attempt: nat) -> Seq<char> {
    "\r\n⟳ 正在重连（第 "@ + decimal(attempt) + " 次）…\r\n"@
}

pub open spec fn exit_notice(code: nat) -> Seq<char> {
    "\r\n[会话结束，退出码: "@ + decimal(code) + "]\r\n"@
}

pub open spec fn dropped_notice() -> Seq<char> {
    "\r\n✕ 连接已断开，正在尝试重连…\r\n"@
}

pub open spec fn error_notice(message: Seq<char>, retryable: bool) -> Seq<char> {
    if retryable {
        "\r\n✕ 连接错误："@ + message + "\r\n"@
    } else {
        "\r\n✕ 连接错误："@ + message + "\r\n（已停止重试，请修改连接配置后重试）\r\n"@
    }
}

pub open spec fn exhausted_notice(max: nat) -> Seq<char> {
    "\r\n✕ 重连失败（已尝试 "@ + decimal(max) + " 次）。\r\n\r\n  已断开连接，按任意键重连…\r\n"@
}

pub open spec fn waiting_notice(secs: nat) -> Seq<char> {
    "\r\n⏳ "@ + decimal(secs) + " 秒后重连…\r\n"@
}

/// Exponential backoff before attempt `attempt + 1`: 1, 2, 4, 8, then 16
/// seconds.
pub open spec fn backoff_secs(attempt: nat) -> nat {
    if attempt <= 1 {
        1
    } else if attempt == 2 {
        2
    } else if attempt == 3 {
        4
    } else if attempt == 4 {
        8
    } else {
        16
    }
}

/// What the end of an attempt itself reports: terminal text and statuses.
pub open spec fn end_report(end: AttemptEnd) -> (Seq<Seq<char>>, Seq<StatusModel>) {
    match end {
        AttemptEnd::Closed(Some(code)) => (seq![exit_notice(code as nat)], seq![StatusModel::Closed]),
        AttemptEnd::Closed(None) => (seq![dropped_notice()], seq![StatusModel::Reconnecting(1)]),
        AttemptEnd::Error { message, retryable } => (
            seq![error_notice(message@, retryable)],
            seq![StatusModel::Error(spec_error_short_label(message@))],
        ),
        _ => (Seq::empty(), Seq::empty()),
    }
}

/// Whether the end is a disconnect worth another attempt.
pub open spec fn end_retryable(end: AttemptEnd) -> bool {
    match end {
        AttemptEnd::Closed(None) => true,
        AttemptEnd::Error { retryable, .. } => retryable,
        AttemptEnd::Disconnected => true,
        _ => false,
    }
}

/// The outcome of attempt number `attempt` (of `max` per round) ending with
/// `end`: a deliberate logout, a configuration error or a torn-down session
/// stop; otherwise retry after the backoff, or once the round is used up,
/// show the failure and wait for a key press.
pub open spec fn spec_attempt_outcome(attempt: nat, max: nat, end: AttemptEnd) -> OutcomeModel {
    let (notices, statuses) = end_report(end);
    if !end_retryable(end) {
        OutcomeModel { notices, statuses, next: NextStep::Stop }
    } else if attempt >= max {
        OutcomeModel {
            notices: notices.push(exhausted_notice(max)),
            statuses: statuses.push(StatusModel::Error("连接失败"@)),
            next: NextStep::AwaitKeypress,
        }
    } else {
        OutcomeModel {
            notices: notices.push(waiting_notice(backoff_secs(attempt))),
            statuses: statuses.push(StatusModel::Reconnecting((attempt + 1) as usize)),
            next: NextStep::RetryAfter(backoff_secs(attempt) as u64),
        }
    }
}

/// The reconnect policy of one session: the attempt number within the
/// current round, and the round's length.
#[derive(Debug)]
pub struct ReconnectPolicy {
    pub attempt: usize,
    pub max_attempts: usize,
}

fn concat_decimal(prefix: &str, n: u64, suffix: &str) -> (r: String)
    ensures
        r@ == prefix@ + decimal(n as nat) + suffix@,
{
    let mut s = prefix.to_owned();
    push_decimal(&mut s, n);
    s.append(suffix);
    s
}

fn backoff(attempt: usize) -> (r: u64)
    ensures
        r == backoff_secs(attempt as nat),
{
    if attempt <= 1 {
        1
    } else if attempt == 2 {
        2
    } else if attempt == 3 {
        4
    } else if attempt == 4 {
        8
    } else {
        16
    }
}

impl ReconnectPolicy {
    /// A fresh policy: no attempt made yet, `MAX_RECONNECT_ATTEMPTS` per round.
    pub fn new() -> (r: Self)
        ensures
            r.attempt == 0,
            r.max_attempts == MAX_RECONNECT_ATTEMPTS,
    {
        ReconnectPolicy { attempt: 0, max_attempts: MAX_RECONNECT_ATTEMPTS }
    }

    /// Starts the next attempt: from the second one on, a reconnect notice;
    /// only the first may reuse a connection.
    pub fn begin_attempt(&mut self) -> (r: AttemptStart)
        requires
            old(self).attempt < usize::MAX,
        ensures
            final(self).attempt == old(self).attempt + 1,
            final(self).max_attempts == old(self).max_attempts,
            r.reuse_connection == (final(self).attempt == 1),
            final(self).attempt == 1 ==> r.notice is None,
            final(self).attempt != 1 ==> (r.notice matches Some(n) && n@ == reconnecting_notice(
                final(self).attempt as nat,
            )),
    {
        self.attempt = self.attempt + 1;
        let notice = if self.attempt == 1 {
            None
        } else {
            Some(concat_decimal("\r\n⟳ 正在重连（第 ", self.attempt as u64, " 次）…\r\n"))
        };
        AttemptStart { notice, reuse_connection: self.attempt == 1 }
    }

    /// Decides what follows the end of the current attempt.
    pub fn on_attempt_end(&self, end: AttemptEnd) -> (r: AttemptOutcome)
        requires
            self.attempt < usize::MAX,
        ensures
            r.model() == spec_attempt_outcome(self.attempt as nat, self.max_attempts as nat, end),
    {
        let ghost end_v = end;
        let mut notices: Vec<String> = Vec::new();
        let mut statuses: Vec<SessionStatus> = Vec::new();
        let retryable = match end {
            AttemptEnd::Closed(Some(code)) => {
                notices.push(concat_decimal("\r\n[会话结束，退出码: ", code as u64, "]\r\n"));
                statuses.push(SessionStatus::Closed);
                false
            },
            AttemptEnd::Closed(None) => {
                notices.push("\r\n✕ 连接已断开，正在尝试重连…\r\n".to_owned());
                statuses.push(SessionStatus::Reconnecting(1));
                true
            },
            AttemptEnd::Error { message, retryable } => {
                let mut m = "\r\n✕ 连接错误：".to_owned();
                m.append(message.as_str());
                if retryable {
                    m.append("\r\n");
                } else {
                    m.append("\r\n（已停止重试，请修改连接配置后重试）\r\n");
                }
                notices.push(m);
                statuses.push(SessionStatus::Error(ssh_error_short_label(message.as_str())));
                retryable
            },
            AttemptEnd::Disconnected => true,
            AttemptEnd::PumpGone => false,
        };
        proof {
            let (n, st) = end_report(end_v);
            assert(notices@.map_values(|x: String| x@) =~= n);
            assert(statuses@.map_values(|x: SessionStatus| status_model(x)) =~= st);
        }
        let ghost n0 = notices@;
        let ghost s0 = statuses@;
        let next = if !retryable {
            NextStep::Stop
        } else if self.attempt >= self.max_attempts {
            notices.push(
                concat_decimal(
                    "\r\n✕ 重连失败（已尝试 ",
                    self.max_attempts as u64,
                    " 次）。\r\n\r\n  已断开连接，按任意键重连…\r\n",
                ),
            );
            statuses.push(SessionStatus::Error("连接失败".to_owned()));
            NextStep::AwaitKeypress
        } else {
            let delay = backoff(self.attempt);
            statuses.push(SessionStatus::Reconnecting(self.attempt + 1));
            notices.push(concat_decimal("\r\n⏳ ", delay, " 秒后重连…\r\n"));
            NextStep::RetryAfter(delay)
        };
        proof {
            assert(notices@.map_values(|x: String| x@) =~= if retryable {
                n0.map_values(|x: String| x@).push(notices@.last()@)
            } else {
                n0.map_values(|x: String| x@)
            });
            assert(statuses@.map_values(|x: SessionStatus| status_model(x)) =~= if retryable {
                s0.map_values(|x: SessionStatus| status_model(x)).push(status_model(statuses@.last()))
            } else {
                s0.map_values(|x: SessionStatus| status_model(x))
            });
        }
        AttemptOutcome { notices, statuses, next }
    }

    /// A key press after a used-up round: the next attempt starts a fresh
    /// round.
    pub fn on_keypress(&mut self)
        ensures
            final(self).attempt == 0,
            final(self).max_attempts == old(self).max_attempts,
    {
        self.attempt = 0;
    }
}

/// A round makes at most `max` attempts: a retry is only ever scheduled
/// before the last attempt of the round.
pub proof fn law_reconnect_round_bounded(attempt: nat, max: nat, end: AttemptEnd)
    ensures
        spec_attempt_outcome(attempt, max, end).next is RetryAfter ==> attempt < max,
        attempt >= max ==> !(spec_attempt_outcome(attempt, max, end).next is RetryAfter),
{
}

/// A deliberate logout, a configuration error and a torn-down session are
/// never retried.
pub proof fn law_no_retry_after_final_end(attempt: nat, max: nat, end: AttemptEnd)
    requires
        !end_retryable(end),
    ensures
        spec_attempt_outcome(attempt, max, end).next == NextStep::Stop,
{
}

/// The backoff doubles from one second and is capped at sixteen.
pub proof fn law_backoff_doubles_then_caps(attempt: nat)
    requires
        attempt >= 1,
    ensures
        1 <= backoff_secs(attempt) <= 16,
        attempt < 5 ==> backoff_secs(attempt + 1) == 2 * backoff_secs(attempt),
        attempt >= 5 ==> backoff_secs(attempt) == 16,
{
}

} // verus!
