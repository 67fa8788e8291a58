//! Routing of a session's shell output between the terminal and ZMODEM
//! transfers: output goes to the terminal until the transfer handshake shows
//! up, then to a transfer session until it ends. After an aborted transfer,
//! output is not scanned for a new handshake for a short grace period, so
//! frames the remote retransmits cannot start a phantom transfer; a transfer
//! that completed cleanly gets no grace.
//!
//! The caller does the file work the session asks for between `on_data` (or
//! `on_path_reply`) and `settle`, and sends what `settle` returns.

use vstd::prelude::*;
use crate::ssh::zmodem::{
    append_bytes, detect, FileRequest, OpenedFile, ReadFailure, ZmEvent, ZmodemDetector, ZmodemSession,
    resumed, write_completed, read_completed, handed_to_machine, session_advanced, abort_queued, file_chosen,
    open_failure_message, spec_resolve_role, ZmRole,
};

verus! {

/// How long after an aborted transfer no new one is detected, in
/// milliseconds.
pub const ZM_ABORT_GRACE_MS: u64 = 1500;

/// Where a chunk of shell output went.
#[derive(Debug, Clone, Copy, PartialEq, Eq, Structural)]
pub enum DataRoute {
    /// Show it in the terminal.
    Terminal,
    /// A transfer session took it.
    Transfer,
}

/// The answer of the file dialog a transfer asked for.
#[derive(Debug)]
pub enum PathReply {
    /// Where to save the incoming file (`None`: dismissed).
    Save(Option<OpenedFile>),
    /// Which file to upload (`None`: dismissed).
    Send(Option<OpenedFile>),
}

/// What a settled step produced.
#[derive(Debug)]
pub struct PumpOutput {
    /// Bytes for the remote side.
    pub to_remote: Vec<u8>,
    /// Transfer events for the UI.
    pub events: Vec<ZmEvent>,
    /// Output for the terminal: the chunk that started a transfer which ended
    /// at once.
    pub to_terminal: Option<Vec<u8>>,
}

pub struct ZmodemPump {
    detector: ZmodemDetector,
    session: Option<ZmodemSession>,
    grace_until: Option<u64>,
    pending_forward: Option<Vec<u8>>,
}

/// Whether `now` falls in the grace period ending at `until`.
pub open spec fn in_grace(until: Option<u64>, now: u64) -> bool {
    until matches Some(t) && now < t
}

impl ZmodemPump {
    pub closed spec fn wf(&self) -> bool {
        &&& self.detector.wf()
        &&& (self.session matches Some(s) ==> s.inv())
    }

    /// The running transfer, if any.
    pub closed spec fn session_spec(&self) -> Option<ZmodemSession> {
        self.session
    }

    /// The end of the grace period, if one is running.
    pub closed spec fn grace_spec(&self) -> Option<u64> {
        self.grace_until
    }

    /// How much of the handshake the detector has seen.
    pub closed spec fn detector_state(&self) -> nat {
        self.detector.state()
    }

    /// The chunk that started the running transfer, kept in case the
    /// transfer ends at once.
    pub closed spec fn pending_spec(&self) -> Option<Seq<u8>> {
        match self.pending_forward {
            Some(v) => Some(v@),
            None => None,
        }
    }

    /// Nothing running, no grace, nothing seen.
    pub fn new() -> (r: Self)
        ensures
            r.wf(),
            r.session_spec() is None,
            r.grace_spec() is None,
            r.detector_state() == 0,
            r.pending_spec() is None,
    {
        ZmodemPump { detector: ZmodemDetector::new(), session: None, grace_until: None, pending_forward: None }
    }

    /// Whether a transfer is running.
    pub fn in_transfer(&self) -> (r: bool)
        ensures
            r == (self.session_spec() is Some),
    {
        self.session.is_some()
    }

    /// Routes a chunk of shell output read at `now_ms`. A running transfer
    /// takes it. Otherwise, during the grace period it goes to the terminal
    /// unscanned; after it the grace ends and the chunk is scanned: when it
    /// completes the handshake a new transfer starts with it, else it goes to
    /// the terminal.
    pub fn on_data(&mut self, data: &[u8], now_ms: u64) -> (r: DataRoute)
        requires
            old(self).wf(),
        ensures
            final(self).wf(),
            old(self).session_spec() is Some ==> {
                &&& r == DataRoute::Transfer
                &&& (final(self).session_spec() matches Some(s) && session_advanced_from(old(self).session_spec(), s))
                &&& final(self).grace_spec() == old(self).grace_spec()
                &&& final(self).pending_spec() == old(self).pending_spec()
                &&& final(self).detector_state() == old(self).detector_state()
            },
            old(self).session_spec() is Some && running_machine(old(self).session_spec()->0) ==> handed_to_machine(
                old(self).session_spec()->0,
                old(self).session_spec()->0.pending_spec() + data@,
                final(self).session_spec()->0,
            ),
            old(self).session_spec() is None && in_grace(old(self).grace_spec(), now_ms) ==> {
                &&& r == DataRoute::Terminal
                &&& final(self).session_spec() is None
                &&& final(self).grace_spec() == old(self).grace_spec()
                &&& final(self).detector_state() == old(self).detector_state()
                &&& final(self).pending_spec() == old(self).pending_spec()
            },
            old(self).session_spec() is None && !in_grace(old(self).grace_spec(), now_ms) ==> {
                &&& final(self).grace_spec() is None
                &&& (r == DataRoute::Transfer) == (detect(old(self).detector_state(), data@).0 is Some)
                &&& final(self).detector_state() == detect(old(self).detector_state(), data@).1
                &&& r == DataRoute::Transfer ==> final(self).session_spec() is Some && final(self).pending_spec()
                    == Some(data@)
                &&& r == DataRoute::Transfer ==> started_with(data@, final(self).session_spec()->0)
                &&& r == DataRoute::Terminal ==> final(self).session_spec() is None && final(self).pending_spec()
                    == old(self).pending_spec()
            },
    {
        if let Some(mut s) = self.session.take() {
            s.feed(data);
            self.session = Some(s);
            return DataRoute::Transfer;
        }
        let in_grace_now = match self.grace_until {
            Some(t) => now_ms < t,
            None => false,
        };
        if in_grace_now {
            return DataRoute::Terminal;
        }
        self.grace_until = None;
        match self.detector.feed(data) {
            Some(_) => {
                let mut s = ZmodemSession::new();
                assert(s.buffered_spec() + data@ =~= data@);
                s.feed(data);
                self.session = Some(s);
                let mut copy: Vec<u8> = Vec::new();
                append_bytes(&mut copy, data);
                assert(copy@ =~= data@);
                self.pending_forward = Some(copy);
                DataRoute::Transfer
            },
            None => DataRoute::Terminal,
        }
    }

    /// Hands the running transfer the file dialog's answer and lets it go on;
    /// false (and nothing happens) when no transfer runs.
    pub fn on_path_reply(&mut self, reply: PathReply) -> (r: bool)
        requires
            old(self).wf(),
        ensures
            final(self).wf(),
            r == (old(self).session_spec() is Some),
            old(self).session_spec() is Some ==> (final(self).session_spec() matches Some(s)
                && session_advanced_from(old(self).session_spec(), s)),
            old(self).session_spec() is None ==> final(self).session_spec() is None,
            old(self).session_spec() is Some ==> exists|s1: ZmodemSession|
                path_provided(old(self).session_spec()->0, reply, s1) && #[trigger] resumed(
                    s1,
                    final(self).session_spec()->0,
                ),
            final(self).grace_spec() == old(self).grace_spec(),
            final(self).pending_spec() == old(self).pending_spec(),
            final(self).detector_state() == old(self).detector_state(),
    {
        let ghost reply0 = reply;
        match self.session.take() {
            Some(mut s) => {
                let ghost s0 = s;
                match reply {
                    PathReply::Save(choice) => s.provide_save_path(choice),
                    PathReply::Send(choice) => s.provide_file_to_send(choice),
                }
                let ghost s1 = s;
                s.resume();
                proof {
                    crate::ssh::zmodem::lemma_advanced_trans(s0, s1, s);
                    assert(path_provided(s0, reply0, s1));
                }
                self.session = Some(s);
                assert(resumed(s1, self.session_spec()->0));
                true
            },
            None => false,
        }
    }

    /// The file work the running transfer asks for next, if any.
    pub fn take_file_request(&mut self) -> (r: Option<FileRequest>)
        requires
            old(self).wf(),
        ensures
            final(self).wf(),
            old(self).session_spec() is None ==> r is None && final(self).session_spec() is None,
            old(self).session_spec() is Some ==> (final(self).session_spec() matches Some(s)
                && session_advanced_from(old(self).session_spec(), s)),
            old(self).session_spec() matches Some(s) ==> r == s.file_request_spec()
                && final(self).session_spec() == Some(s.without_file_request()),
            final(self).grace_spec() == old(self).grace_spec(),
            final(self).pending_spec() == old(self).pending_spec(),
            final(self).detector_state() == old(self).detector_state(),
    {
        match self.session.take() {
            Some(mut s) => {
                let r = s.take_file_request();
                self.session = Some(s);
                r
            },
            None => None,
        }
    }

    /// Reports the outcome of a file write the transfer asked for.
    pub fn complete_file_write(&mut self, result: Result<(), String>)
        requires
            old(self).wf(),
        ensures
            final(self).wf(),
            old(self).session_spec() matches Some(s) ==> (final(self).session_spec() matches Some(s2)
                && write_completed(s, result, s2)),
            old(self).session_spec() is None ==> final(self).session_spec() is None,
            old(self).session_spec() is Some ==> (final(self).session_spec() matches Some(s)
                && session_advanced_from(old(self).session_spec(), s)),
            final(self).grace_spec() == old(self).grace_spec(),
            final(self).pending_spec() == old(self).pending_spec(),
            final(self).detector_state() == old(self).detector_state(),
    {
        if let Some(mut s) = self.session.take() {
            s.complete_file_write(result);
            self.session = Some(s);
        }
    }

    /// Reports the outcome of a file read the transfer asked for.
    pub fn complete_file_read(&mut self, result: Result<Vec<u8>, ReadFailure>)
        requires
            old(self).wf(),
        ensures
            final(self).wf(),
            old(self).session_spec() matches Some(s) ==> (final(self).session_spec() matches Some(s2)
                && read_completed(s, result, s2)),
            old(self).session_spec() is None ==> final(self).session_spec() is None,
            old(self).session_spec() is Some ==> (final(self).session_spec() matches Some(s)
                && session_advanced_from(old(self).session_spec(), s)),
            final(self).grace_spec() == old(self).grace_spec(),
            final(self).pending_spec() == old(self).pending_spec(),
            final(self).detector_state() == old(self).detector_state(),
    {
        if let Some(mut s) = self.session.take() {
            s.complete_file_read(result);
            self.session = Some(s);
        }
    }

    /// Whether the transfer stopped at its work budget and wants `resume`.
    pub fn needs_resume(&self) -> (r: bool)
        ensures
            r == (self.session_spec() matches Some(s) && s.stalled_spec() && !s.done_spec()),
    {
        match &self.session {
            Some(s) => s.needs_resume(),
            None => false,
        }
    }

    /// Lets the running transfer go on after its work budget ran out.
    pub fn resume(&mut self)
        requires
            old(self).wf(),
        ensures
            final(self).wf(),
            old(self).session_spec() matches Some(s) ==> (final(self).session_spec() matches Some(s2)
                && resumed(s, s2)),
            old(self).session_spec() is None ==> final(self).session_spec() is None,
            old(self).session_spec() is Some ==> (final(self).session_spec() matches Some(s)
                && session_advanced_from(old(self).session_spec(), s)),
            final(self).grace_spec() == old(self).grace_spec(),
            final(self).pending_spec() == old(self).pending_spec(),
            final(self).detector_state() == old(self).detector_state(),
    {
        if let Some(mut s) = self.session.take() {
            s.resume();
            self.session = Some(s);
        }
    }

    /// Ends a step: takes what the transfer has for the remote side and the
    /// UI. A transfer that has ended is dropped and the detector starts over;
    /// after an abort the grace period starts at `now_ms`, and the chunk that
    /// started a transfer which ended at once goes to the terminal.
    pub fn settle(&mut self, now_ms: u64) -> (r: PumpOutput)
        requires
            old(self).wf(),
            now_ms <= u64::MAX - ZM_ABORT_GRACE_MS,
        ensures
            final(self).wf(),
            match old(self).session_spec() {
                None => {
                    &&& r.to_remote@.len() == 0
                    &&& r.events@.len() == 0
                    &&& r.to_terminal is None
                    &&& final(self).session_spec() is None
                    &&& final(self).grace_spec() == old(self).grace_spec()
                    &&& final(self).detector_state() == old(self).detector_state()
                    &&& final(self).pending_spec() == old(self).pending_spec()
                },
                Some(s) => {
                    &&& r.to_remote@ == s.outgoing_spec()
                    &&& r.events@ == s.events_spec()
                    &&& final(self).pending_spec() is None
                    &&& if s.done_spec() {
                        &&& final(self).session_spec() is None
                        &&& final(self).detector_state() == 0
                        &&& final(self).grace_spec() == (if s.cancelled_spec() {
                            Some((now_ms + ZM_ABORT_GRACE_MS) as u64)
                        } else {
                            None
                        })
                        &&& match old(self).pending_spec() {
                            Some(p) => (r.to_terminal matches Some(t) && t@ == p),
                            None => r.to_terminal is None,
                        }
                    } else {
                        &&& (final(self).session_spec() matches Some(s2) && s2.outgoing_spec().len() == 0
                            && s2.events_spec().len() == 0 && !s2.done_spec())
                        &&& final(self).grace_spec() == old(self).grace_spec()
                        &&& final(self).detector_state() == old(self).detector_state()
                        &&& r.to_terminal is None
                    }
                },
            },
    {
        match self.session.take() {
            None => PumpOutput { to_remote: Vec::new(), events: Vec::new(), to_terminal: None },
            Some(mut s) => {
                let to_remote = s.drain_outgoing();
                let events = s.pop_events();
                let pending = self.pending_forward.take();
                if s.is_done() {
                    self.grace_until = if s.was_cancelled() {
                        Some(now_ms + ZM_ABORT_GRACE_MS)
                    } else {
                        None
                    };
                    self.detector.reset();
                    PumpOutput { to_remote, events, to_terminal: pending }
                } else {
                    self.session = Some(s);
                    PumpOutput { to_remote, events, to_terminal: None }
                }
            },
        }
    }
}

/// A transfer that just started on `data`: the role is fixed once the
/// chunk holds the whole handshake, else the chunk waits in the session for
/// more.
pub open spec fn started_with(data: Seq<u8>, s: ZmodemSession) -> bool {
    match spec_resolve_role(data) {
        None => s.role_spec() is None && s.buffered_spec() == data,
        Some((_, role)) => s.role_spec() == Some(role),
    }
}

/// What handing `choice` to a transfer that waits for a file of `role` does,
/// from `a` to `b`: a dismissed dialog cancels the transfer, a file that
/// could not be opened ends it with an error (both queue the abort bytes),
/// and an opened file starts it.
pub open spec fn choice_provided(a: ZmodemSession, role: ZmRole, choice: Option<OpenedFile>, b: ZmodemSession) -> bool {
    &&& session_advanced(a, b)
    &&& choice is None ==> {
        &&& b.events_spec() == a.events_spec().push(ZmEvent::Cancelled)
        &&& b.done_spec()
        &&& b.cancelled_spec()
        &&& abort_queued(a, b)
    }
    &&& choice matches Some(OpenedFile::Failed { path, error }) ==> {
        &&& abort_queued(a, b)
        &&& b.done_spec()
        &&& b.cancelled_spec()
        &&& b.events_spec().drop_last() == a.events_spec()
        &&& b.events_spec().last() matches ZmEvent::Error { message }
        &&& message@ == open_failure_message(role, path@, error@)
    }
    &&& choice matches Some(OpenedFile::Opened { path, name, size }) ==> file_chosen(a, role, path, name, size, b)
}

/// What the file dialog's answer does to the transfer, from `a` to `b`.
pub open spec fn path_provided(a: ZmodemSession, reply: PathReply, b: ZmodemSession) -> bool {
    match reply {
        PathReply::Save(choice) => choice_provided(a, ZmRole::ReceiveFromRemote, choice, b),
        PathReply::Send(choice) => choice_provided(a, ZmRole::SendToRemote, choice, b),
    }
}

/// A transfer whose state machine is running: the role is known, the
/// machine exists and the session has not ended.
pub open spec fn running_machine(s: ZmodemSession) -> bool {
    !s.done_spec() && s.role_spec() is Some && s.has_machine()
}

/// The transfer `b` follows on from the transfer in `a`.
pub open spec fn session_advanced_from(a: Option<ZmodemSession>, b: ZmodemSession) -> bool {
    a matches Some(s) && session_advanced(s, b)
}

} // verus!
