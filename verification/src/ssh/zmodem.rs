//! ZMODEM (rz/sz) interception: spotting the handshake frame in the inbound
//! SSH stream and telling which way the transfer goes.

use vstd::prelude::*;
use zmodem2::{Action, Event};
use crate::text::{find_bytes, find_first};
use crate::ssh::zmodem_handover::lemma_handed_same_wire;

verus! {

/// Which side sends the file.
#[derive(Debug, Clone, Copy, PartialEq, Eq, Structural)]
pub enum ZmRole {
    /// The remote ran `rz`: a local file is uploaded.
    SendToRemote,
    /// The remote ran `sz`: a file is downloaded.
    ReceiveFromRemote,
}

/// What a transfer reports to the UI.
#[derive(Debug)]
pub enum ZmEvent {
    /// The transfer starts (the file path was chosen).
    Started { filename: String, total: u64, role: ZmRole },
    Progress { filename: String, transferred: u64, total: u64, role: ZmRole },
    Completed { filename: String, role: ZmRole, saved_to: Option<String> },
    /// The transfer was cancelled (typically by dismissing the dialog).
    Cancelled,
    /// The UI must ask where to save the incoming file.
    NeedSavePath { suggested_name: String },
    /// The UI must ask which file to upload.
    NeedFileToSend,
    Error { message: String },
}

/// The ZHEX frame start `*`, `*`, ZDLE (0x18), `B`; two ASCII hex digits of
/// the frame type follow.
pub open spec fn trigger() -> Seq<u8> {
    seq![0x2au8, 0x2au8, 0x18u8, 0x42u8]
}

/// One byte through the trigger matcher that has matched `m` trigger bytes:
/// the count goes up on the next trigger byte; otherwise a `*` leaves the
/// longest start of the trigger that the stream now ends with (`**` after
/// `**`, else `*`), and anything else restarts at 0.
pub open spec fn matcher_step(m: nat, b: u8) -> nat {
    if m < 4 && b == trigger()[m as int] {
        m + 1
    } else if b == 0x2au8 {
        if m == 2 {
            2
        } else {
            1
        }
    } else {
        0
    }
}

/// Feeding `data` to a matcher in state `m`: the index at which the trigger
/// completes (the matcher then restarts at 0 and stops reading), or `None`
/// and the state after the last byte.
pub open spec fn detect(m: nat, data: Seq<u8>) -> (Option<int>, nat)
    decreases data.len(),
{
    if data.len() == 0 {
        (None, m)
    } else {
        let m2 = matcher_step(m, data[0]);
        if m2 == 4 {
            (Some(0), 0)
        } else {
            let rest = detect(m2, data.drop_first());
            (
                match rest.0 {
                    Some(i) => Some(i + 1),
                    None => None,
                },
                rest.1,
            )
        }
    }
}

/// Sliding-window matcher for the ZMODEM trigger in the inbound stream.
pub struct ZmodemDetector {
    matched: usize,
}

impl ZmodemDetector {
    /// The number of trigger bytes matched so far.
    pub closed spec fn state(&self) -> nat {
        self.matched as nat
    }

    pub closed spec fn wf(&self) -> bool {
        self.matched < 4
    }

    pub fn new() -> (r: Self)
        ensures
            r.wf(),
            r.state() == 0,
    {
        ZmodemDetector { matched: 0 }
    }

    pub fn reset(&mut self)
        ensures
            final(self).wf(),
            final(self).state() == 0,
    {
        self.matched = 0;
    }

    /// Reads `data` until the trigger completes: its index in `data` (the
    /// bytes up to it belong to the transfer, not to the terminal), or
    /// `None` when it does not complete within `data`.
    pub fn feed(&mut self, data: &[u8]) -> (r: Option<usize>)
        requires
            old(self).wf(),
        ensures
            final(self).wf(),
            detect(old(self).state(), data@).0 == match r {
                Some(i) => Some(i as int),
                None => None::<int>,
            },
            final(self).state() == detect(old(self).state(), data@).1,
    {
        let ghost m0 = self.matched as nat;
        let trig: [u8; 4] = [0x2au8, 0x2au8, 0x18u8, 0x42u8];
        assert(trig@ == trigger());
        assert(data@.skip(0) =~= data@);
        let mut i: usize = 0;
        while i < data.len()
            invariant
                i <= data@.len(),
                self.matched < 4,
                m0 == old(self).state(),
                trig@ == trigger(),
                detect(m0, data@) == (
                    match detect(self.matched as nat, data@.skip(i as int)).0 {
                        Some(k) => Some(k + i),
                        None => None,
                    },
                    detect(self.matched as nat, data@.skip(i as int)).1,
                ),
            decreases data.len() - i,
        {
            let b = data[i];
            assert(data@.skip(i as int)[0] == b);
            assert(data@.skip(i as int).drop_first() =~= data@.skip(i + 1));
            if b == trig[self.matched] {
                self.matched = self.matched + 1;
                if self.matched == 4 {
                    self.matched = 0;
                    return Some(i);
                }
            } else {
                self.matched = if b == 0x2au8 {
                    if self.matched == 2 {
                        2
                    } else {
                        1
                    }
                } else {
                    0
                };
            }
            i = i + 1;
        }
        assert(data@.skip(i as int) =~= Seq::<u8>::empty());
        None
    }
}

proof fn lemma_detect_sound(m: nat, data: Seq<u8>)
    requires
        m < 4,
    ensures
        detect(m, data).0 matches Some(i) ==> {
            let c = trigger().take(m as int) + data;
            &&& 0 <= i < data.len()
            &&& m + i >= 3
            &&& c.subrange(m + i - 3, m + i + 1) == trigger()
        },
    decreases data.len(),
{
    if data.len() > 0 {
        let b = data[0];
        let rest = data.drop_first();
        let m2 = matcher_step(m, b);
        let c = trigger().take(m as int) + data;
        if m2 == 4 {
            assert(c.subrange(m as int - 3, m as int + 1) =~= trigger());
        } else {
            lemma_detect_sound(m2, rest);
            if let Some(j) = detect(m2, rest).0 {
                let c2 = trigger().take(m2 as int) + rest;
                if m < 4 && b == trigger()[m as int] {
                    assert(c2 =~= c);
                } else if b == 0x2au8 {
                    assert(c2 =~= c.skip(m + 1 - m2));
                    assert(c.subrange(m + j + 1 - 3, m + j + 1 + 1) =~= c2.subrange(m2 + j - 3, m2 + j + 1));
                } else {
                    assert(c2 =~= c.skip(m as int + 1));
                    assert(c.subrange(m + j + 1 - 3, m + j + 1 + 1) =~= c2.subrange(j - 3, j + 1));
                }
            }
        }
    }
}

/// A fresh detector reports only the end of a true trigger: the four bytes
/// up to the reported index are `*`, `*`, ZDLE, `B`.
pub proof fn law_detector_reports_trigger(data: Seq<u8>)
    ensures
        detect(0, data).0 matches Some(i) ==> 3 <= i < data.len() && data.subrange(i - 3, i + 1)
            == trigger(),
{
    lemma_detect_sound(0, data);
    assert(trigger().take(0) + data =~= data);
}

/// Where a buffered stream starts a ZMODEM session: the first trigger, once
/// the two hex digits of the frame type after it have arrived, and the role.
/// Frame type `00` (ZRQINIT) means the remote runs `sz`, so the file is
/// received; any other type (`01`, ZRINIT: the remote runs `rz`) means a
/// file is sent.
pub open spec fn spec_resolve_role(buf: Seq<u8>) -> Option<(int, ZmRole)> {
    match find_first(buf, trigger()) {
        None => None,
        Some(p) => if buf.len() < p + 6 {
            None
        } else {
            Some(
                (
                    p,
                    if buf[p + 5] == 0x30u8 {
                        ZmRole::ReceiveFromRemote
                    } else {
                        ZmRole::SendToRemote
                    },
                ),
            )
        },
    }
}

pub fn resolve_role(buf: &[u8]) -> (r: Option<(usize, ZmRole)>)
    ensures
        spec_resolve_role(buf@) == match r {
            Some((p, role)) => Some((p as int, role)),
            None => None::<(int, ZmRole)>,
        },
{
    let trig: [u8; 4] = [0x2au8, 0x2au8, 0x18u8, 0x42u8];
    assert(trig@ == trigger());
    let p = match find_bytes(buf, &trig) {
        Some(p) => p,
        None => {
            return None;
        },
    };
    proof {
        assert(crate::text::occurs_at(buf@, trigger(), p as int)) by {
            lemma_find_first_occurs(buf@, trigger());
        }
    }
    if buf.len() - p < 6 {
        return None;
    }
    let role = if buf[p + 5] == 0x30u8 {
        ZmRole::ReceiveFromRemote
    } else {
        ZmRole::SendToRemote
    };
    Some((p, role))
}

proof fn lemma_find_from_occurs(h: Seq<u8>, n: Seq<u8>, i: int)
    ensures
        crate::text::find_from(h, n, i) matches Some(p) ==> crate::text::occurs_at(h, n, p),
    decreases h.len() + 1 - i,
{
    if !(i < 0 || i + n.len() > h.len()) && !crate::text::occurs_at(h, n, i) {
        lemma_find_from_occurs(h, n, i + 1);
    }
}

proof fn lemma_find_first_occurs(h: Seq<u8>, n: Seq<u8>)
    ensures
        find_first(h, n) matches Some(p) ==> crate::text::occurs_at(h, n, p),
{
    lemma_find_from_occurs(h, n, 0);
}

#[verifier::external_type_specification]
#[verifier::external_body]
pub struct ExZmodemReceiver(zmodem2::Receiver);

#[verifier::external_type_specification]
#[verifier::external_body]
pub struct ExZmodemSender(zmodem2::Sender);

/// What the ZMODEM state machine asks for next (`zmodem2::Action`, its
/// events flattened in).
#[derive(Debug)]
pub enum MachineStep {
    /// Bytes to send to the remote side.
    WriteWire(Vec<u8>),
    /// File bytes to read and submit (sender).
    ReadFile { offset: u32, max_len: usize },
    /// Received file bytes to persist (receiver).
    WriteFile(Vec<u8>),
    FileStarted { name: String, size: Option<u32> },
    FileCompleted,
    SessionCompleted,
    Aborted,
    OtherEvent,
    Idle,
    OtherAction,
}

/// A machine step as values: what `poll` handed out, with the bytes and
/// names it carries.
pub enum StepView {
    WriteWire(Seq<u8>),
    ReadFile { offset: u32, max_len: usize },
    WriteFile(Seq<u8>),
    FileStarted { name: Seq<char>, size: Option<u32> },
    FileCompleted,
    SessionCompleted,
    Aborted,
    OtherEvent,
    Idle,
    OtherAction,
}

impl View for MachineStep {
    type V = StepView;

    open spec fn view(&self) -> StepView {
        match self {
            MachineStep::WriteWire(b) => StepView::WriteWire(b@),
            MachineStep::ReadFile { offset, max_len } => StepView::ReadFile { offset: *offset, max_len: *max_len },
            MachineStep::WriteFile(b) => StepView::WriteFile(b@),
            MachineStep::FileStarted { name, size } => StepView::FileStarted { name: name@, size: *size },
            MachineStep::FileCompleted => StepView::FileCompleted,
            MachineStep::SessionCompleted => StepView::SessionCompleted,
            MachineStep::Aborted => StepView::Aborted,
            MachineStep::OtherEvent => StepView::OtherEvent,
            MachineStep::Idle => StepView::Idle,
            MachineStep::OtherAction => StepView::OtherAction,
        }
    }
}

/// The step the next `poll` of a receiver hands out: a function of the
/// machine's state (the frames it decoded and the output it queued).
pub uninterp spec fn receiver_next_step(r: zmodem2::Receiver) -> StepView;

/// The step the next `poll` of a sender hands out: a function of the
/// machine's state.
pub uninterp spec fn sender_next_step(s: zmodem2::Sender) -> StepView;

/// zmodem2's cancel sequence: ten CAN bytes, then ten backspaces.
pub open spec fn abort_sequence() -> Seq<u8> {
    Seq::new(10, |i: int| 0x18u8) + Seq::new(10, |i: int| 0x08u8)
}

/// Calls `zmodem2::Receiver::new`; the error is given by its `Display`.
#[verifier::external_body]
fn receiver_new() -> (r: Result<zmodem2::Receiver, String>) {
    zmodem2::Receiver::new().map_err(|e| e.to_string())
}

/// Calls `zmodem2::Sender::new`; the error is given by its `Display`.
#[verifier::external_body]
fn sender_new() -> (r: Result<zmodem2::Sender, String>) {
    zmodem2::Sender::new().map_err(|e| e.to_string())
}

/// Calls `zmodem2::Receiver::poll` and copies the action out: the step is
/// the one the machine's state determines (named by the spec function
/// above), with its bytes and names copied. What the state is, is not stated:
/// the machine is opaque here.
#[verifier::external_body]
fn receiver_poll(r: &mut zmodem2::Receiver) -> (s: MachineStep)
    ensures
        s@ == receiver_next_step(*old(r)),
{
    match r.poll() {
        Action::WriteWire(b) => MachineStep::WriteWire(b.to_vec()),
        Action::ReadFile { offset, max_len } => MachineStep::ReadFile { offset: offset.get(), max_len },
        Action::WriteFile(b) => MachineStep::WriteFile(b.to_vec()),
        Action::Event(Event::FileStarted(i)) => MachineStep::FileStarted {
            name: String::from_utf8_lossy(i.name).into_owned(),
            size: i.size.map(|p| p.get()),
        },
        Action::Event(Event::FileCompleted) => MachineStep::FileCompleted,
        Action::Event(Event::SessionCompleted) => MachineStep::SessionCompleted,
        Action::Event(Event::Aborted) => MachineStep::Aborted,
        Action::Event(_) => MachineStep::OtherEvent,
        Action::Idle => MachineStep::Idle,
        _ => MachineStep::OtherAction,
    }
}

/// Calls `zmodem2::Sender::poll` and copies the action out: the step is
/// the one the machine's state determines (named by the spec function
/// above), with its bytes and names copied. What the state is, is not stated:
/// the machine is opaque here.
#[verifier::external_body]
fn sender_poll(s: &mut zmodem2::Sender) -> (r: MachineStep)
    ensures
        r@ == sender_next_step(*old(s)),
{
    match s.poll() {
        Action::WriteWire(b) => MachineStep::WriteWire(b.to_vec()),
        Action::ReadFile { offset, max_len } => MachineStep::ReadFile { offset: offset.get(), max_len },
        Action::WriteFile(b) => MachineStep::WriteFile(b.to_vec()),
        Action::Event(Event::FileStarted(i)) => MachineStep::FileStarted {
            name: String::from_utf8_lossy(i.name).into_owned(),
            size: i.size.map(|p| p.get()),
        },
        Action::Event(Event::FileCompleted) => MachineStep::FileCompleted,
        Action::Event(Event::SessionCompleted) => MachineStep::SessionCompleted,
        Action::Event(Event::Aborted) => MachineStep::Aborted,
        Action::Event(_) => MachineStep::OtherEvent,
        Action::Idle => MachineStep::Idle,
        _ => MachineStep::OtherAction,
    }
}

/// Calls `zmodem2::Receiver::submit_wire` on `data[from..]`: how many of
/// those bytes the machine consumed (at most all of them), or the protocol error's `Display`.
#[verifier::external_body]
fn receiver_submit_wire(r: &mut zmodem2::Receiver, data: &[u8], from: usize) -> (n: Result<usize, String>)
    requires
        from <= data@.len(),
    ensures
        n matches Ok(k) ==> k <= data@.len() - from,
{
    r.submit_wire(&data[from..]).map_err(|e| e.to_string())
}

/// Calls `zmodem2::Sender::submit_wire` on `data[from..]`: how many of
/// those bytes the machine consumed (at most all of them), or the protocol error's `Display`.
#[verifier::external_body]
fn sender_submit_wire(s: &mut zmodem2::Sender, data: &[u8], from: usize) -> (n: Result<usize, String>)
    requires
        from <= data@.len(),
    ensures
        n matches Ok(k) ==> k <= data@.len() - from,
{
    s.submit_wire(&data[from..]).map_err(|e| e.to_string())
}

/// Calls `zmodem2::Receiver::wire_written`.
#[verifier::external_body]
fn receiver_wire_written(r: &mut zmodem2::Receiver, n: usize) {
    r.wire_written(n)
}

/// Calls `zmodem2::Sender::wire_written`.
#[verifier::external_body]
fn sender_wire_written(s: &mut zmodem2::Sender, n: usize) {
    s.wire_written(n)
}

/// Calls `zmodem2::Receiver::file_written`; the error is given by its
/// `Display`.
#[verifier::external_body]
fn receiver_file_written(r: &mut zmodem2::Receiver, n: usize) -> (res: Result<(), String>) {
    r.file_written(n).map_err(|e| e.to_string())
}

/// Calls `zmodem2::Receiver::abort` (its result, whether the abort event
/// could be queued, is not used). zmodem2 drops the unwritten output and
/// queues its cancel sequence, which the next `poll` hands out first as
/// `WriteWire`.
#[verifier::external_body]
fn receiver_abort(r: &mut zmodem2::Receiver)
    ensures
        receiver_next_step(*final(r)) == StepView::WriteWire(abort_sequence()),
{
    let _ = r.abort();
}

/// Calls `zmodem2::Sender::abort`. zmodem2 drops the unwritten output and
/// queues its cancel sequence, which the next `poll` hands out first as
/// `WriteWire`.
#[verifier::external_body]
fn sender_abort(s: &mut zmodem2::Sender)
    ensures
        sender_next_step(*final(s)) == StepView::WriteWire(abort_sequence()),
{
    s.abort()
}

/// Calls `zmodem2::Sender::start_file` with `FileInfo::new` of the name's
/// bytes and the size; the error is given by its `Display`.
#[verifier::external_body]
fn sender_start_file(s: &mut zmodem2::Sender, name: &str, size: u32) -> (res: Result<(), String>) {
    let info = zmodem2::FileInfo::new(name.as_bytes(), Some(zmodem2::Position::new(size)));
    s.start_file(info).map_err(|e| e.to_string())
}

/// Calls `zmodem2::Sender::finish`; the error is given by its `Display`.
#[verifier::external_body]
fn sender_finish(s: &mut zmodem2::Sender) -> (res: Result<(), String>) {
    s.finish().map_err(|e| e.to_string())
}

/// Calls `zmodem2::Sender::submit_file`; the error is given by its
/// `Display`.
#[verifier::external_body]
fn sender_submit_file(s: &mut zmodem2::Sender, data: &[u8]) -> (res: Result<(), String>) {
    s.submit_file(data).map_err(|e| e.to_string())
}

/// File work the caller performs for a transfer and reports back.
#[derive(Debug)]
pub enum FileRequest {
    /// Append these received bytes to the save file.
    Write(Vec<u8>),
    /// Read up to `max_len` bytes of the upload file at `offset`.
    Read { offset: u64, max_len: usize },
}

/// What came of opening the file the user chose.
#[derive(Debug)]
pub enum OpenedFile {
    /// Opened: its path, its file name (`file` when it has none) and, for an
    /// upload, its size (0 when unknown).
    Opened { path: String, name: String, size: u64 },
    /// Could not be opened or created.
    Failed { path: String, error: String },
}

/// A failed read of the upload file.
#[derive(Debug)]
pub enum ReadFailure {
    Seek(String),
    Read(String),
}

/// How many machine steps one call drives at most; a call that reaches it
/// leaves the rest to `resume` (see `needs_resume`).
pub const POLL_BUDGET: u32 = 1048576;

/// The eight CAN bytes and the backspace that abort a transfer when the
/// state machine has nothing of its own to send.
pub open spec fn abort_fallback() -> Seq<u8> {
    seq![0x18u8, 0x18u8, 0x18u8, 0x18u8, 0x18u8, 0x18u8, 0x18u8, 0x18u8, 0x08u8]
}

/// A ZMODEM transfer inside the SSH stream: it feeds the wire bytes to the
/// `zmodem2` state machine of its role, collects what must be sent back and
/// what the UI must be told, and asks the caller for the file work (opening,
/// reading, writing) that the transfer needs.
pub struct ZmodemSession {
    role: Option<ZmRole>,
    initial_buf: Vec<u8>,
    /// Wire bytes the machine could not take yet; submitted again first.
    pending_wire: Vec<u8>,
    receiver: Option<zmodem2::Receiver>,
    sender: Option<zmodem2::Sender>,
    /// Whether the caller holds the open transfer file.
    file_open: bool,
    file_request: Option<FileRequest>,
    /// A write or a read was handed out and its outcome is awaited.
    awaiting_write: bool,
    awaiting_read: bool,
    /// Length of the write handed out.
    write_len: usize,
    /// Offset of the read handed out.
    read_offset: u64,
    saved_to: Option<String>,
    filename: String,
    total: u64,
    transferred: u64,
    outgoing: Vec<u8>,
    events: Vec<ZmEvent>,
    done: bool,
    cancelled: bool,
    /// The machine reported the session complete; the closing bytes are
    /// being flushed.
    closing: bool,
    stalled: bool,
    /// Every wire byte the state machine has taken so far, in order.
    wire_taken: Ghost<Seq<u8>>,
    send_prompt_emitted: bool,
    recv_prompt_emitted: bool,
}

impl ZmodemSession {
    /// Ended by a cancel, an abort or an error only when ended.
    pub closed spec fn inv(&self) -> bool {
        self.cancelled ==> self.done
    }

    pub closed spec fn done_spec(&self) -> bool {
        self.done
    }

    pub closed spec fn cancelled_spec(&self) -> bool {
        self.cancelled
    }

    /// The UI events not yet taken.
    pub closed spec fn events_spec(&self) -> Seq<ZmEvent> {
        self.events@
    }

    /// The bytes for the remote side not yet taken.
    pub closed spec fn outgoing_spec(&self) -> Seq<u8> {
        self.outgoing@
    }

    pub closed spec fn role_spec(&self) -> Option<ZmRole> {
        self.role
    }

    /// The stream read while the role is not known yet.
    pub closed spec fn buffered_spec(&self) -> Seq<u8> {
        self.initial_buf@
    }

    /// The step the session's machine hands out next (`None` without a
    /// machine).
    pub closed spec fn next_step_view(&self) -> Option<StepView> {
        match self.receiver {
            Some(r) => Some(receiver_next_step(r)),
            None => match self.sender {
                Some(sd) => Some(sender_next_step(sd)),
                None => None,
            },
        }
    }

    pub closed spec fn has_machine(&self) -> bool {
        self.receiver is Some || self.sender is Some
    }

    pub closed spec fn file_open_spec(&self) -> bool {
        self.file_open
    }

    /// Every wire byte the state machine has taken so far, in order.
    pub closed spec fn wire_taken_spec(&self) -> Seq<u8> {
        self.wire_taken@
    }

    /// A call stopped at the poll budget.
    pub closed spec fn stalled_spec(&self) -> bool {
        self.stalled
    }

    /// Wire bytes held back until the machine can take them.
    pub closed spec fn pending_spec(&self) -> Seq<u8> {
        self.pending_wire@
    }

    /// The file work handed out next by `take_file_request`.
    pub closed spec fn file_request_spec(&self) -> Option<FileRequest> {
        self.file_request
    }

    /// A write was handed out and its outcome is awaited.
    pub closed spec fn awaiting_write_spec(&self) -> bool {
        self.awaiting_write
    }

    /// A read was handed out and its outcome is awaited.
    pub closed spec fn awaiting_read_spec(&self) -> bool {
        self.awaiting_read
    }

    /// The bytes that aborting the session queues for the remote side: each
    /// machine's cancel sequence, or eight CAN and a backspace without a
    /// machine.
    pub closed spec fn abort_output(&self) -> Seq<u8> {
        let rb = if self.receiver is Some { abort_sequence() } else { Seq::<u8>::empty() };
        let sb = if self.sender is Some { abort_sequence() } else { Seq::<u8>::empty() };
        if self.receiver is None && self.sender is None {
            abort_fallback()
        } else {
            rb + sb
        }
    }

    /// The session with the budget stop cleared.
    pub closed spec fn unstalled(self) -> ZmodemSession {
        ZmodemSession { stalled: false, ..self }
    }

    /// The session with its file work taken.
    pub closed spec fn without_file_request(self) -> ZmodemSession {
        ZmodemSession { file_request: None, ..self }
    }

    /// The transfer waits on a file path and the UI has not been asked yet:
    /// a download whose file name is known, or an upload.
    pub closed spec fn prompt_due(&self) -> bool {
        &&& !self.done
        &&& !self.file_open
        &&& !self.closing
        &&& match self.role {
            Some(ZmRole::ReceiveFromRemote) => self.filename@.len() > 0 && !self.recv_prompt_emitted,
            Some(ZmRole::SendToRemote) => !self.send_prompt_emitted,
            None => false,
        }
    }

    /// The request for a file path: where to save the download (its name
    /// suggested), or which file to upload.
    pub closed spec fn prompt_event(&self) -> ZmEvent {
        if self.role == Some(ZmRole::ReceiveFromRemote) {
            ZmEvent::NeedSavePath { suggested_name: self.filename }
        } else {
            ZmEvent::NeedFileToSend
        }
    }

    /// The progress reported when the write handed out succeeded.
    pub closed spec fn write_progress(&self) -> ZmEvent {
        ZmEvent::Progress {
            filename: self.filename,
            transferred: self.transferred.saturating_add(self.write_len as u64),
            total: self.total,
            role: ZmRole::ReceiveFromRemote,
        }
    }

    /// The progress reported when `n` bytes read at the read's offset were
    /// taken by the machine.
    pub closed spec fn read_progress(&self, n: u64) -> ZmEvent {
        ZmEvent::Progress {
            filename: self.filename,
            transferred: self.read_offset.saturating_add(n),
            total: self.total,
            role: ZmRole::SendToRemote,
        }
    }
}

/// Between two states of a session nothing reported is lost (events and
/// outgoing bytes only grow), and an ended session, a cancel and a resolved
/// role stay. It holds of a session and itself: nothing need have changed.
pub open spec fn session_advanced(a: ZmodemSession, b: ZmodemSession) -> bool {
    &&& a.events_spec().is_prefix_of(b.events_spec())
    &&& a.outgoing_spec().is_prefix_of(b.outgoing_spec())
    &&& (a.done_spec() ==> b.done_spec())
    &&& (a.cancelled_spec() ==> b.cancelled_spec())
    &&& (a.role_spec() is Some ==> b.role_spec() == a.role_spec())
    &&& b.inv()
}

/// `a` with the state machines of `b` (whose inner state only zmodem2 sees).
pub closed spec fn with_machines_of(a: ZmodemSession, b: ZmodemSession) -> ZmodemSession {
    ZmodemSession { receiver: b.receiver, sender: b.sender, ..a }
}

/// The role a completion is reported for (a download when none is known).
pub closed spec fn completion_role(a: ZmodemSession) -> ZmRole {
    match a.role {
        Some(x) => x,
        None => ZmRole::ReceiveFromRemote,
    }
}

/// The completion event of the transfer in `a`.
pub closed spec fn completion_event(a: ZmodemSession) -> ZmEvent {
    ZmEvent::Completed { filename: a.filename, role: completion_role(a), saved_to: a.saved_to }
}

/// What the machine having nothing more to do does: a session whose
/// completion was reported ends (file closed; a completion event unless the
/// last event is one), and `r` tells whether that happened; otherwise
/// nothing changes.
pub closed spec fn stopped(a: ZmodemSession, b: ZmodemSession, r: bool) -> bool {
    let last_completed = a.events@.len() > 0 && a.events@.last() is Completed;
    &&& r == (a.closing && !a.done)
    &&& !r ==> b == with_machines_of(a, b)
    &&& r ==> {
        &&& b.events@ == if last_completed { a.events@ } else { a.events@.push(completion_event(a)) }
        &&& (if last_completed { b.filename == a.filename } else { b.filename@.len() == 0 })
        &&& b == (ZmodemSession {
            done: true,
            closing: false,
            file_open: false,
            events: b.events,
            filename: b.filename,
            ..with_machines_of(a, b)
        })
    }
}

/// The session ended with the error `msg`: the machines are aborted and
/// gone, what they had to send (or eight CAN and a backspace when they had
/// nothing) is queued, and nothing else changes.
pub closed spec fn cancelled_with(a: ZmodemSession, b: ZmodemSession, msg: Seq<char>) -> bool {
    &&& b.events@.len() == a.events@.len() + 1
    &&& b.events@.drop_last() == a.events@
    &&& b.events@.last() matches ZmEvent::Error { message } && message@ == msg
    &&& b.outgoing@ == a.outgoing@ + a.abort_output()
    &&& a.outgoing@.is_prefix_of(b.outgoing@)
    &&& b.outgoing@.len() > a.outgoing@.len()
    &&& (a.receiver is None && a.sender is None ==> b.outgoing@ == a.outgoing@ + abort_fallback())
    &&& b == (ZmodemSession {
        events: b.events,
        outgoing: b.outgoing,
        done: true,
        cancelled: true,
        receiver: None,
        sender: None,
        ..a
    })
}

/// The file finished: its completion is reported, the file is closed, the
/// file name and saved path are cleared.
pub closed spec fn file_completed(a: ZmodemSession, b: ZmodemSession) -> bool {
    &&& b.events@ == a.events@.push(completion_event(a))
    &&& b.filename@.len() == 0
    &&& b == (ZmodemSession {
        file_open: false,
        events: b.events,
        filename: b.filename,
        saved_to: None,
        ..with_machines_of(a, b)
    })
}

/// `a` after a write of `chunk` is handed out, when the file is open and no
/// write is awaited.
pub closed spec fn write_handed_out(a: ZmodemSession, chunk: Vec<u8>) -> ZmodemSession {
    if a.file_open && !a.awaiting_write {
        ZmodemSession {
            write_len: chunk@.len() as usize,
            file_request: Some(FileRequest::Write(chunk)),
            awaiting_write: true,
            ..a
        }
    } else {
        a
    }
}

/// `a` after a read at `offset` of up to `max_len` bytes is handed out, when
/// the file is open and no read is awaited.
pub closed spec fn read_handed_out(a: ZmodemSession, offset: u32, max_len: usize) -> ZmodemSession {
    if a.file_open && !a.awaiting_read {
        ZmodemSession {
            read_offset: offset as u64,
            file_request: Some(FileRequest::Read { offset: offset as u64, max_len }),
            awaiting_read: true,
            ..a
        }
    } else {
        a
    }
}

/// How one step of the state machine changes the session from `a` to `b`,
/// and whether it was progress (`r`: poll again). Which machines are present
/// does not change except by an abort.
pub closed spec fn step_applied(a: ZmodemSession, step: MachineStep, b: ZmodemSession, r: bool) -> bool {
    match step {
        MachineStep::WriteWire(bytes) => {
            &&& r
            &&& b.outgoing@ == a.outgoing@ + bytes@
            &&& b == (ZmodemSession { outgoing: b.outgoing, ..with_machines_of(a, b) })
            &&& (b.receiver is Some) == (a.receiver is Some)
            &&& (b.sender is Some) == (a.sender is Some)
        },
        MachineStep::WriteFile(chunk) => {
            &&& stopped(write_handed_out(a, chunk), b, r)
            &&& (b.receiver is Some) == (a.receiver is Some)
            &&& (b.sender is Some) == (a.sender is Some)
        },
        MachineStep::ReadFile { offset, max_len } => {
            &&& stopped(read_handed_out(a, offset, max_len), b, r)
            &&& (b.receiver is Some) == (a.receiver is Some)
            &&& (b.sender is Some) == (a.sender is Some)
        },
        MachineStep::FileStarted { name, size } => {
            &&& r
            &&& b == if a.role == Some(ZmRole::ReceiveFromRemote) {
                ZmodemSession {
                    filename: name,
                    total: match size {
                        Some(z) => z as u64,
                        None => 0,
                    },
                    recv_prompt_emitted: false,
                    ..with_machines_of(a, b)
                }
            } else {
                with_machines_of(a, b)
            }
            &&& (b.receiver is Some) == (a.receiver is Some)
            &&& (b.sender is Some) == (a.sender is Some)
        },
        MachineStep::FileCompleted => {
            &&& r
            &&& file_completed(a, b)
            &&& (b.receiver is Some) == (a.receiver is Some)
            &&& (b.sender is Some) == (a.sender is Some)
        },
        MachineStep::SessionCompleted => {
            &&& r
            &&& b == (ZmodemSession { closing: true, ..with_machines_of(a, b) })
            &&& (b.receiver is Some) == (a.receiver is Some)
            &&& (b.sender is Some) == (a.sender is Some)
        },
        MachineStep::Aborted => r && cancelled_with(a, b, "传输被对手中止"@),
        MachineStep::OtherEvent => {
            &&& r
            &&& b == with_machines_of(a, b)
            &&& (b.receiver is Some) == (a.receiver is Some)
            &&& (b.sender is Some) == (a.sender is Some)
        },
        _ => {
            &&& stopped(a, b, r)
            &&& (b.receiver is Some) == (a.receiver is Some)
            &&& (b.sender is Some) == (a.sender is Some)
        },
    }
}

/// A step acts alike on two sessions that differ only in the inner state of
/// their machines.
proof fn lemma_step_applied_machines(a0: ZmodemSession, a1: ZmodemSession, step: MachineStep, b: ZmodemSession, r: bool)
    requires
        a1 == with_machines_of(a0, a1),
        (a1.receiver is Some) == (a0.receiver is Some),
        (a1.sender is Some) == (a0.sender is Some),
        step_applied(a1, step, b, r),
    ensures
        step_applied(a0, step, b, r),
{
    assert(with_machines_of(a1, b) == with_machines_of(a0, b));
    match step {
        MachineStep::WriteFile(chunk) => {
            assert(with_machines_of(write_handed_out(a1, chunk), b) == with_machines_of(write_handed_out(a0, chunk), b));
        },
        MachineStep::ReadFile { offset, max_len } => {
            assert(with_machines_of(read_handed_out(a1, offset, max_len), b)
                == with_machines_of(read_handed_out(a0, offset, max_len), b));
        },
        MachineStep::Aborted => {
            assert((ZmodemSession {
                events: b.events,
                outgoing: b.outgoing,
                done: true,
                cancelled: true,
                receiver: None,
                sender: None,
                ..a1
            }) == (ZmodemSession {
                events: b.events,
                outgoing: b.outgoing,
                done: true,
                cancelled: true,
                receiver: None,
                sender: None,
                ..a0
            }));
        },
        _ => {},
    }
}

/// The bytes that abort the transfer were queued for the remote side: what
/// the machines had to send, or eight CAN and a backspace without machines.
pub open spec fn abort_queued(a: ZmodemSession, b: ZmodemSession) -> bool {
    &&& b.outgoing_spec() == a.outgoing_spec() + a.abort_output()
    &&& a.outgoing_spec().is_prefix_of(b.outgoing_spec())
    &&& b.outgoing_spec().len() > a.outgoing_spec().len()
    &&& !a.has_machine() ==> b.outgoing_spec() == a.outgoing_spec() + abort_fallback()
    &&& !b.has_machine()
}

/// The chosen file was opened: a download records where it is saved, opens
/// the file and reports the start (with the size announced by the remote
/// side); an upload opens the file, records its name and size, and reports
/// the start once the sender accepted the file, or ends with an error.
pub closed spec fn file_chosen(a: ZmodemSession, role: ZmRole, path: String, name: String, size: u64, b: ZmodemSession) -> bool {
    match role {
        ZmRole::ReceiveFromRemote => {
            &&& b.events@ == a.events@.push(ZmEvent::Started { filename: name, total: a.total, role })
            &&& b == (ZmodemSession {
                saved_to: Some(path),
                file_open: true,
                filename: name,
                events: b.events,
                ..a
            })
        },
        ZmRole::SendToRemote => {
            let opened = ZmodemSession { file_open: true, total: size, filename: name, ..a };
            ||| {
                &&& b.events@ == a.events@.push(ZmEvent::Started { filename: name, total: size, role })
                &&& b == (ZmodemSession { events: b.events, sender: b.sender, ..opened })
                &&& (b.sender is Some) == (a.sender is Some)
            }
            ||| {
                &&& a.sender is Some
                &&& b.events@.len() == a.events@.len() + 1
                &&& b.events@.drop_last() == a.events@
                &&& b.events@.last() is Error
                &&& b == (ZmodemSession {
                    events: b.events,
                    outgoing: b.outgoing,
                    done: true,
                    cancelled: true,
                    receiver: None,
                    sender: None,
                    ..opened
                })
            }
        },
    }
}

/// The session ended with an error event carrying `msg`, after everything
/// reported before.
pub open spec fn ended_with_error(a: ZmodemSession, b: ZmodemSession, msg: Seq<char>) -> bool {
    &&& b.done_spec()
    &&& b.cancelled_spec()
    &&& b.events_spec().len() > 0
    &&& b.events_spec().drop_last() == a.events_spec()
    &&& b.events_spec().last() matches ZmEvent::Error { message } && message@ == msg
}

/// The session ended with some error event after everything reported before.
pub open spec fn ended_with_some_error(a: ZmodemSession, b: ZmodemSession) -> bool {
    &&& b.done_spec()
    &&& b.cancelled_spec()
    &&& b.events_spec().len() > 0
    &&& b.events_spec().drop_last() == a.events_spec()
    &&& b.events_spec().last() is Error
}

/// The bytes `w` were handed to the state machine from `a` to `b`: it took
/// a first part of them, in order, and the rest is held back for the next
/// submission (or dropped, when the session ended).
pub open spec fn handed_to_machine(a: ZmodemSession, w: Seq<u8>, b: ZmodemSession) -> bool {
    exists|p: int| {
        &&& 0 <= p <= w.len()
        &&& b.wire_taken_spec() == a.wire_taken_spec() + w.take(p)
        &&& (b.done_spec() || b.pending_spec() == w.skip(p))
    }
}

/// What [`ZmodemSession::resume`] does, from `a` to `b`.
pub open spec fn resumed(a: ZmodemSession, b: ZmodemSession) -> bool {
    &&& session_advanced(a, b)
    &&& a.done_spec() ==> b == a
    &&& !a.done_spec() && a.pending_spec().len() == 0 && a.prompt_due() ==> {
        &&& b.events_spec() == a.events_spec().push(a.prompt_event())
        &&& b.outgoing_spec() == a.outgoing_spec()
        &&& b.done_spec() == a.done_spec()
        &&& !b.prompt_due()
        &&& !b.stalled_spec()
        &&& b.file_request_spec() == a.file_request_spec()
    }
    &&& !a.done_spec() && a.has_machine() ==> handed_to_machine(a, a.pending_spec(), b)
    &&& !a.done_spec() && !a.has_machine() ==> {
        &&& !b.stalled_spec()
        &&& b.pending_spec().len() == 0
        &&& b.outgoing_spec() == a.outgoing_spec()
        &&& b.events_spec() == (if a.prompt_due() { a.events_spec().push(a.prompt_event()) } else { a.events_spec() })
    }
}

/// What [`ZmodemSession::complete_file_write`] does with `result`, from `a`
/// to `b`.
pub open spec fn write_completed(a: ZmodemSession, result: Result<(), String>, b: ZmodemSession) -> bool {
    &&& session_advanced(a, b)
    &&& (!a.awaiting_write_spec() || a.done_spec()) ==> b == a
    &&& a.awaiting_write_spec() && !a.done_spec() ==> match result {
        Err(e) => ended_with_error(a, b, "写入文件失败: "@ + e@),
        Ok(_) => {
            &&& a.events_spec().push(a.write_progress()).is_prefix_of(b.events_spec())
            &&& a.has_machine() ==> (b.done_spec() && b.cancelled_spec()) || handed_to_machine(a, a.pending_spec(), b)
        },
    }
}

/// What [`ZmodemSession::complete_file_read`] does with `result`, from `a`
/// to `b`.
pub open spec fn read_completed(a: ZmodemSession, result: Result<Vec<u8>, ReadFailure>, b: ZmodemSession) -> bool {
    &&& session_advanced(a, b)
    &&& (!a.awaiting_read_spec() || a.done_spec()) ==> b == a
    &&& a.awaiting_read_spec() && !a.done_spec() ==> match result {
        Err(ReadFailure::Seek(e)) => ended_with_error(a, b, "seek 失败: "@ + e@),
        Err(ReadFailure::Read(e)) => ended_with_error(a, b, "读取文件失败: "@ + e@),
        Ok(buf) => if buf@.len() == 0 {
            &&& b.events_spec() == a.events_spec()
            &&& b.outgoing_spec() == a.outgoing_spec()
            &&& b.done_spec() == a.done_spec()
            &&& !b.awaiting_read_spec()
        } else {
            &&& (ended_with_some_error(a, b) || a.events_spec().push(a.read_progress(buf@.len() as u64)).is_prefix_of(
                b.events_spec(),
            ))
            &&& a.has_machine() ==> ended_with_some_error(a, b) || handed_to_machine(a, a.pending_spec(), b)
        },
    }
}

pub(crate) proof fn lemma_advanced_trans(a: ZmodemSession, b: ZmodemSession, c: ZmodemSession)
    requires
        session_advanced(a, b),
        session_advanced(b, c),
    ensures
        session_advanced(a, c),
{
    assert(a.events_spec() =~= c.events_spec().subrange(0, a.events_spec().len() as int)) by {
        assert(a.events_spec() =~= b.events_spec().subrange(0, a.events_spec().len() as int));
        assert(b.events_spec() =~= c.events_spec().subrange(0, b.events_spec().len() as int));
    }
    assert(a.outgoing_spec() =~= c.outgoing_spec().subrange(0, a.outgoing_spec().len() as int)) by {
        assert(a.outgoing_spec() =~= b.outgoing_spec().subrange(0, a.outgoing_spec().len() as int));
        assert(b.outgoing_spec() =~= c.outgoing_spec().subrange(0, b.outgoing_spec().len() as int));
    }
}

fn concat2(a: &str, b: &str) -> (r: String)
    ensures
        r@ == a@ + b@,
{
    let mut s = a.to_owned();
    s.append(b);
    s
}

fn concat4(a: &str, b: &str, c: &str, d: &str) -> (r: String)
    ensures
        r@ == a@ + b@ + c@ + d@,
{
    let mut s = a.to_owned();
    s.append(b);
    s.append(c);
    s.append(d);
    s
}

pub(crate) fn append_bytes(out: &mut Vec<u8>, b: &[u8])
    ensures
        final(out)@ == old(out)@ + b@,
{
    let mut i: usize = 0;
    let ghost start = out@;
    while i < b.len()
        invariant
            i <= b@.len(),
            out@ == start + b@.take(i as int),
        decreases b.len() - i,
    {
        out.push(b[i]);
        assert(b@.take(i + 1) =~= b@.take(i as int).push(b@[i as int]));
        i = i + 1;
    }
    assert(b@.take(b@.len() as int) =~= b@);
}

impl ZmodemSession {
    /// A session that has seen nothing yet.
    pub fn new() -> (r: Self)
        ensures
            r.inv(),
            r.role_spec() is None,
            !r.done_spec(),
            !r.cancelled_spec(),
            r.events_spec().len() == 0,
            r.outgoing_spec().len() == 0,
            r.buffered_spec().len() == 0,
            !r.has_machine(),
    {
        ZmodemSession {
            role: None,
            initial_buf: Vec::new(),
            pending_wire: Vec::new(),
            receiver: None,
            sender: None,
            file_open: false,
            file_request: None,
            awaiting_write: false,
            awaiting_read: false,
            write_len: 0,
            read_offset: 0,
            saved_to: None,
            filename: String::new(),
            total: 0,
            transferred: 0,
            outgoing: Vec::new(),
            events: Vec::new(),
            done: false,
            cancelled: false,
            closing: false,
            stalled: false,
            wire_taken: Ghost(Seq::empty()),
            send_prompt_emitted: false,
            recv_prompt_emitted: false,
        }
    }

    pub fn role(&self) -> (r: Option<ZmRole>)
        ensures
            r == self.role_spec(),
    {
        self.role
    }

    pub fn is_done(&self) -> (r: bool)
        ensures
            r == self.done_spec(),
    {
        self.done
    }

    /// Whether the session ended by a cancel, an abort or an error rather
    /// than by completing the closing handshake.
    pub fn was_cancelled(&self) -> (r: bool)
        ensures
            r == self.cancelled_spec(),
    {
        self.cancelled
    }

    /// Whether the caller should keep the transfer file open.
    pub fn file_open(&self) -> (r: bool)
        ensures
            r == self.file_open_spec(),
    {
        self.file_open
    }

    /// Whether a call stopped at the poll budget with work left: call
    /// `resume` again.
    pub fn needs_resume(&self) -> (r: bool)
        ensures
            r == (self.stalled_spec() && !self.done_spec()),
    {
        self.stalled && !self.done
    }

    /// Takes the UI events reported so far.
    pub fn pop_events(&mut self) -> (r: Vec<ZmEvent>)
        requires
            old(self).inv(),
        ensures
            r@ == old(self).events_spec(),
            final(self).events_spec().len() == 0,
            final(self).outgoing_spec() == old(self).outgoing_spec(),
            final(self).done_spec() == old(self).done_spec(),
            final(self).cancelled_spec() == old(self).cancelled_spec(),
            final(self).role_spec() == old(self).role_spec(),
            final(self).inv(),
    {
        let mut out: Vec<ZmEvent> = Vec::new();
        std::mem::swap(&mut out, &mut self.events);
        out
    }

    /// Takes the bytes to write to the SSH channel.
    pub fn drain_outgoing(&mut self) -> (r: Vec<u8>)
        requires
            old(self).inv(),
        ensures
            r@ == old(self).outgoing_spec(),
            final(self).outgoing_spec().len() == 0,
            final(self).events_spec() == old(self).events_spec(),
            final(self).done_spec() == old(self).done_spec(),
            final(self).cancelled_spec() == old(self).cancelled_spec(),
            final(self).role_spec() == old(self).role_spec(),
            final(self).inv(),
    {
        let mut out: Vec<u8> = Vec::new();
        std::mem::swap(&mut out, &mut self.outgoing);
        out
    }

    /// Takes the file work the transfer waits for, if any.
    pub fn take_file_request(&mut self) -> (r: Option<FileRequest>)
        requires
            old(self).inv(),
        ensures
            session_advanced(*old(self), *final(self)),
            final(self).events_spec() == old(self).events_spec(),
            final(self).outgoing_spec() == old(self).outgoing_spec(),
            final(self).done_spec() == old(self).done_spec(),
            r == old(self).file_request_spec(),
            *final(self) == old(self).without_file_request(),
    {
        let r = self.file_request.take();
        proof {
            assert(old(self).events_spec() =~= self.events_spec().subrange(0, old(self).events_spec().len() as int));
            assert(old(self).outgoing_spec() =~= self.outgoing_spec().subrange(0, old(self).outgoing_spec().len() as int));
        }
        r
    }

    /// Ends the session: aborts the state machine, queues its abort bytes
    /// (or eight CAN and a backspace when it has none) and reports `ev`.
    fn cancel_with_event(&mut self, ev: ZmEvent)
        requires
            old(self).inv(),
        ensures
            final(self).events_spec() == old(self).events_spec().push(ev),
            final(self).done_spec(),
            final(self).cancelled_spec(),
            final(self).role_spec() == old(self).role_spec(),
            !final(self).has_machine(),
            old(self).outgoing_spec().is_prefix_of(final(self).outgoing_spec()),
            final(self).outgoing_spec().len() > old(self).outgoing_spec().len(),
            !old(self).has_machine() ==> final(self).outgoing_spec() == old(self).outgoing_spec() + abort_fallback(),
            final(self).outgoing_spec() == old(self).outgoing_spec() + old(self).abort_output(),
            final(self).inv(),
            *final(self) == (ZmodemSession {
                events: final(self).events,
                outgoing: final(self).outgoing,
                done: true,
                cancelled: true,
                receiver: None,
                sender: None,
                ..*old(self)
            }),
    {
        let mut to_send: Vec<u8> = Vec::new();
        match self.receiver.take() {
            Some(mut r) => {
                receiver_abort(&mut r);
                match receiver_poll(&mut r) {
                    MachineStep::WriteWire(b) => {
                        let n = b.len();
                        append_bytes(&mut to_send, b.as_slice());
                        if n > 0 {
                            receiver_wire_written(&mut r, n);
                        }
                    },
                    _ => {},
                }
            },
            None => {},
        }
        match self.sender.take() {
            Some(mut s) => {
                sender_abort(&mut s);
                match sender_poll(&mut s) {
                    MachineStep::WriteWire(b) => {
                        let n = b.len();
                        append_bytes(&mut to_send, b.as_slice());
                        if n > 0 {
                            sender_wire_written(&mut s, n);
                        }
                    },
                    _ => {},
                }
            },
            None => {},
        }
        if to_send.len() == 0 {
            let mut k: usize = 0;
            while k < 8
                invariant
                    k <= 8,
                    to_send@ == Seq::new(k as nat, |i: int| 0x18u8),
                decreases 8 - k,
            {
                to_send.push(0x18u8);
                assert(to_send@ =~= Seq::new((k + 1) as nat, |i: int| 0x18u8));
                k = k + 1;
            }
            to_send.push(0x08u8);
            assert(to_send@ =~= abort_fallback());
        }
        let ghost before = self.outgoing@;
        self.outgoing.append(&mut to_send);
        self.events.push(ev);
        self.done = true;
        self.cancelled = true;
        assert(before =~= self.outgoing@.subrange(0, before.len() as int));
    }

    fn cancel(&mut self, msg: String)
        requires
            old(self).inv(),
        ensures
            final(self).events_spec() == old(self).events_spec().push(ZmEvent::Error { message: msg }),
            old(self).events_spec().is_prefix_of(final(self).events_spec()),
            final(self).done_spec(),
            final(self).cancelled_spec(),
            final(self).role_spec() == old(self).role_spec(),
            old(self).outgoing_spec().is_prefix_of(final(self).outgoing_spec()),
            final(self).inv(),
            cancelled_with(*old(self), *final(self), msg@),
    {
        self.cancel_with_event(ZmEvent::Error { message: msg });
    }
}

impl ZmodemSession {
    /// The machine has nothing more to do for now. A session whose
    /// completion was reported ends here: the file is closed and, unless the
    /// last event already is one, a completion is reported.
    fn stop(&mut self) -> (r: bool)
        requires
            old(self).inv(),
        ensures
            session_advanced(*old(self), *final(self)),
            stopped(*old(self), *final(self), r),
            final(self).receiver == old(self).receiver,
            final(self).sender == old(self).sender,
    {
        let ghost s0 = *self;
        if self.closing && !self.done {
            self.file_open = false;
            let last_completed = self.events.len() > 0 && matches!(self.events[self.events.len() - 1], ZmEvent::Completed { .. });
            if !last_completed {
                let mut fname = String::new();
                std::mem::swap(&mut fname, &mut self.filename);
                let saved = match &self.saved_to {
                    Some(p) => Some(p.clone()),
                    None => None,
                };
                let role = match self.role {
                    Some(r) => r,
                    None => ZmRole::ReceiveFromRemote,
                };
                self.events.push(ZmEvent::Completed { filename: fname, role, saved_to: saved });
            }
            self.closing = false;
            self.done = true;
            proof {
                assert(s0.events_spec() =~= self.events_spec().subrange(0, s0.events_spec().len() as int));
                assert(s0.outgoing_spec() =~= self.outgoing_spec().subrange(0, s0.outgoing_spec().len() as int));
            }
            return true;
        }
        proof {
            assert(s0.events_spec() =~= self.events_spec().subrange(0, s0.events_spec().len() as int));
            assert(s0.outgoing_spec() =~= self.outgoing_spec().subrange(0, s0.outgoing_spec().len() as int));
        }
        false
    }

    /// Asks the state machine of the role for its next step; none without
    /// one.
    fn next_step(&mut self) -> (r: Option<MachineStep>)
        requires
            old(self).inv(),
        ensures
            r is Some <==> old(self).has_machine(),
            match r {
                Some(st) => old(self).next_step_view() == Some(st@),
                None => old(self).next_step_view() is None,
            },
            final(self).receiver is Some == old(self).receiver is Some,
            final(self).sender is Some == old(self).sender is Some,
            *final(self) == (ZmodemSession { receiver: final(self).receiver, sender: final(self).sender, ..*old(self) }),
            final(self).events_spec() == old(self).events_spec(),
            final(self).outgoing_spec() == old(self).outgoing_spec(),
            final(self).done_spec() == old(self).done_spec(),
            final(self).cancelled_spec() == old(self).cancelled_spec(),
            final(self).role_spec() == old(self).role_spec(),
            final(self).inv(),
    {
        match self.receiver.take() {
            Some(mut r) => {
                let st = receiver_poll(&mut r);
                self.receiver = Some(r);
                Some(st)
            },
            None => match self.sender.take() {
                Some(mut sd) => {
                    let st = sender_poll(&mut sd);
                    self.sender = Some(sd);
                    Some(st)
                },
                None => None,
            },
        }
    }

    fn on_write_wire(&mut self, b: Vec<u8>)
        requires
            old(self).inv(),
        ensures
            session_advanced(*old(self), *final(self)),
            final(self).outgoing@ == old(self).outgoing@ + b@,
            final(self).receiver is Some == old(self).receiver is Some,
            final(self).sender is Some == old(self).sender is Some,
            *final(self) == (ZmodemSession {
                outgoing: final(self).outgoing,
                receiver: final(self).receiver,
                sender: final(self).sender,
                ..*old(self)
            }),
    {
        let ghost s0 = *self;
        let n = b.len();
        append_bytes(&mut self.outgoing, b.as_slice());
        match self.receiver.take() {
            Some(mut r) => {
                receiver_wire_written(&mut r, n);
                self.receiver = Some(r);
            },
            None => match self.sender.take() {
                Some(mut sd) => {
                    sender_wire_written(&mut sd, n);
                    self.sender = Some(sd);
                },
                None => {},
            },
        }
        proof {
            assert(s0.events_spec() =~= self.events_spec().subrange(0, s0.events_spec().len() as int));
            assert(s0.outgoing_spec() =~= self.outgoing_spec().subrange(0, s0.outgoing_spec().len() as int));
        }
    }

    fn on_file_completed(&mut self)
        requires
            old(self).inv(),
        ensures
            session_advanced(*old(self), *final(self)),
            final(self).events@ == old(self).events@.push(ZmEvent::Completed {
                filename: old(self).filename,
                role: match old(self).role {
                    Some(x) => x,
                    None => ZmRole::ReceiveFromRemote,
                },
                saved_to: old(self).saved_to,
            }),
            final(self).filename@.len() == 0,
            final(self).sender is Some == old(self).sender is Some,
            *final(self) == (ZmodemSession {
                file_open: false,
                events: final(self).events,
                filename: final(self).filename,
                saved_to: None,
                sender: final(self).sender,
                ..*old(self)
            }),
    {
        let ghost s0 = *self;
        self.file_open = false;
        let saved = match &self.saved_to {
            Some(p) => Some(p.clone()),
            None => None,
        };
        let mut fname = String::new();
        std::mem::swap(&mut fname, &mut self.filename);
        let role = match self.role {
            Some(r) => r,
            None => ZmRole::ReceiveFromRemote,
        };
        self.events.push(ZmEvent::Completed { filename: fname, role, saved_to: saved });
        self.saved_to = None;
        match self.sender.take() {
            Some(mut sd) => {
                let _ = sender_finish(&mut sd);
                self.sender = Some(sd);
            },
            None => {},
        }
        proof {
            assert(s0.events_spec() =~= self.events_spec().subrange(0, s0.events_spec().len() as int));
            assert(s0.outgoing_spec() =~= self.outgoing_spec().subrange(0, s0.outgoing_spec().len() as int));
        }
    }

    /// Nothing reported changes, only the transfer's bookkeeping.
    proof fn lemma_same_reports(a: ZmodemSession, b: ZmodemSession)
        requires
            a.inv(),
            b.events_spec() == a.events_spec(),
            b.outgoing_spec() == a.outgoing_spec(),
            b.done_spec() == a.done_spec(),
            b.cancelled_spec() == a.cancelled_spec(),
            b.role_spec() == a.role_spec(),
        ensures
            session_advanced(a, b),
    {
        assert(a.events_spec() =~= b.events_spec().subrange(0, a.events_spec().len() as int));
        assert(a.outgoing_spec() =~= b.outgoing_spec().subrange(0, a.outgoing_spec().len() as int));
    }

    /// Asks the state machine for its next step and handles it completely
    /// (see [`ZmodemSession::apply_step`]). True when that was progress (poll
    /// again); false when the machine is idle or waits for something from
    /// outside: more wire bytes, a file path, or the file work handed out by
    /// `take_file_request` (zmodem2 offers an unanswered file step again, so
    /// nothing is lost). Without a machine there is no step.
    fn poll_once(&mut self) -> (r: bool)
        requires
            old(self).inv(),
        ensures
            session_advanced(*old(self), *final(self)),
            !old(self).has_machine() ==> !r && *final(self) == *old(self),
            old(self).has_machine() ==> exists|st: MachineStep|
                old(self).next_step_view() == Some(st@) && #[trigger] step_applied(*old(self), st, *final(self), r),
            final(self).pending_wire == old(self).pending_wire,
            final(self).wire_taken == old(self).wire_taken,
            old(self).has_machine() ==> final(self).has_machine() || final(self).done,
    {
        let ghost s0 = *self;
        let step = match self.next_step() {
            Some(st) => st,
            None => {
                proof {
                    Self::lemma_same_reports(s0, *self);
                }
                return false;
            },
        };
        let ghost s1 = *self;
        let ghost st = step;
        proof {
            Self::lemma_same_reports(s0, s1);
        }
        let r = self.apply_step(step);
        proof {
            lemma_advanced_trans(s0, s1, *self);
            lemma_step_applied_machines(s0, s1, st, *self, r);
        }
        r
    }

    /// Handles one step of the state machine: bytes for the remote side are
    /// queued and the machine told they went out; file bytes to write, or a
    /// file range to read, are handed out as file work (when the file is open
    /// and none is awaited); a file's start (download) records its name and
    /// size and allows asking for a save path again; a finished file reports
    /// its completion; the end of the session starts closing; an abort by
    /// the remote side ends the session with an error; an idle machine stops
    /// (see `stopped`). True when the step was progress.
    #[verifier::rlimit(50)]
    pub fn apply_step(&mut self, step: MachineStep) -> (r: bool)
        requires
            old(self).inv(),
        ensures
            session_advanced(*old(self), *final(self)),
            step_applied(*old(self), step, *final(self), r),
            final(self).pending_spec() == old(self).pending_spec(),
            final(self).wire_taken_spec() == old(self).wire_taken_spec(),
            old(self).has_machine() ==> final(self).has_machine() || final(self).done_spec(),
    {
        let ghost s0 = *self;
        let ghost s1 = *self;
        proof {
            Self::lemma_same_reports(s0, s1);
        }
        match step {
            MachineStep::WriteWire(b) => {
                self.on_write_wire(b);
                proof {
                    lemma_advanced_trans(s0, s1, *self);
                }
                true
            },
            MachineStep::WriteFile(chunk) => {
                if self.file_open && !self.awaiting_write {
                    self.write_len = chunk.len();
                    self.file_request = Some(FileRequest::Write(chunk));
                    self.awaiting_write = true;
                }
                let ghost s2 = *self;
                proof {
                    Self::lemma_same_reports(s1, s2);
                    lemma_advanced_trans(s0, s1, s2);
                }
                let r = self.stop();
                proof {
                    lemma_advanced_trans(s0, s2, *self);
                }
                r
            },
            MachineStep::ReadFile { offset, max_len } => {
                if self.file_open && !self.awaiting_read {
                    self.read_offset = offset as u64;
                    self.file_request = Some(FileRequest::Read { offset: offset as u64, max_len });
                    self.awaiting_read = true;
                }
                let ghost s2 = *self;
                proof {
                    Self::lemma_same_reports(s1, s2);
                    lemma_advanced_trans(s0, s1, s2);
                }
                let r = self.stop();
                proof {
                    lemma_advanced_trans(s0, s2, *self);
                }
                r
            },
            MachineStep::FileStarted { name, size } => {
                if self.role == Some(ZmRole::ReceiveFromRemote) {
                    self.filename = name;
                    self.total = match size {
                        Some(z) => z as u64,
                        None => 0,
                    };
                    self.recv_prompt_emitted = false;
                }
                proof {
                    Self::lemma_same_reports(s1, *self);
                    lemma_advanced_trans(s0, s1, *self);
                }
                true
            },
            MachineStep::FileCompleted => {
                self.on_file_completed();
                proof {
                    lemma_advanced_trans(s0, s1, *self);
                }
                true
            },
            MachineStep::SessionCompleted => {
                self.closing = true;
                proof {
                    Self::lemma_same_reports(s1, *self);
                    lemma_advanced_trans(s0, s1, *self);
                }
                true
            },
            MachineStep::Aborted => {
                self.cancel("传输被对手中止".to_owned());
                proof {
                    Self::lemma_cancel_advances(s1, *self);
                    lemma_advanced_trans(s0, s1, *self);
                }
                true
            },
            MachineStep::OtherEvent => {
                proof {
                    lemma_advanced_trans(s0, s1, *self);
                }
                true
            },
            MachineStep::Idle | MachineStep::OtherAction => {
                let r = self.stop();
                proof {
                    lemma_advanced_trans(s0, s1, *self);
                }
                r
            },
        }
    }

    proof fn lemma_cancel_advances(a: ZmodemSession, b: ZmodemSession)
        requires
            a.inv(),
            b.inv(),
            a.events_spec().is_prefix_of(b.events_spec()),
            a.outgoing_spec().is_prefix_of(b.outgoing_spec()),
            b.done_spec(),
            b.cancelled_spec(),
            b.role_spec() == a.role_spec(),
        ensures
            session_advanced(a, b),
    {
    }
}

impl ZmodemSession {
    /// The transfer waits on a file path and the UI has not been asked yet.
    fn should_prompt_for_file(&self) -> (r: bool)
        ensures
            r == self.prompt_due(),
    {
        if self.done || self.file_open || self.closing {
            return false;
        }
        match self.role {
            Some(ZmRole::ReceiveFromRemote) => !self.filename.as_str().is_empty() && !self.recv_prompt_emitted,
            Some(ZmRole::SendToRemote) => !self.send_prompt_emitted,
            None => false,
        }
    }

    /// Drives the state machine until it is idle or waits for something
    /// from outside. When it waits on a file path, the UI is asked for one
    /// (once) and the loop returns; `resume` continues after the answer.
    fn run(&mut self)
        requires
            old(self).inv(),
        ensures
            session_advanced(*old(self), *final(self)),
            old(self).done ==> *final(self) == *old(self),
            !old(self).done && old(self).prompt_due() ==> {
                &&& final(self).events@ == old(self).events@.push(old(self).prompt_event())
                &&& !final(self).prompt_due()
                &&& *final(self) == (ZmodemSession {
                    events: final(self).events,
                    recv_prompt_emitted: final(self).recv_prompt_emitted,
                    send_prompt_emitted: final(self).send_prompt_emitted,
                    ..*old(self)
                })
            },
            !old(self).done && !old(self).prompt_due() && !old(self).has_machine() ==> *final(self) == *old(self),
            final(self).pending_wire == old(self).pending_wire,
            final(self).wire_taken == old(self).wire_taken,
    {
        let ghost s0 = *self;
        proof {
            Self::lemma_same_reports(s0, s0);
        }
        if self.done {
            return;
        }
        let mut budget: u32 = POLL_BUDGET;
        loop
            invariant
                s0 == *old(self),
                session_advanced(s0, *self),
                self.inv(),
                !s0.done,
                (s0.prompt_due() || !s0.has_machine()) ==> *self == s0 && budget == POLL_BUDGET,
                self.pending_wire == s0.pending_wire,
                self.wire_taken == s0.wire_taken,
            decreases budget,
        {
            if self.done {
                return;
            }
            if self.should_prompt_for_file() {
                let ghost before = *self;
                if self.role == Some(ZmRole::ReceiveFromRemote) {
                    let suggested = self.filename.clone();
                    self.events.push(ZmEvent::NeedSavePath { suggested_name: suggested });
                    self.recv_prompt_emitted = true;
                } else {
                    self.events.push(ZmEvent::NeedFileToSend);
                    self.send_prompt_emitted = true;
                }
                proof {
                    assert(before.events_spec() =~= self.events_spec().subrange(0, before.events_spec().len() as int));
                    assert(before.outgoing_spec() =~= self.outgoing_spec().subrange(0, before.outgoing_spec().len() as int));
                    lemma_advanced_trans(s0, before, *self);
                }
                return;
            }
            if budget == 0 {
                let ghost before = *self;
                self.stalled = true;
                proof {
                    Self::lemma_same_reports(before, *self);
                    lemma_advanced_trans(s0, before, *self);
                }
                return;
            }
            budget = budget - 1;
            let ghost before = *self;
            let progressed = self.poll_once();
            proof {
                lemma_advanced_trans(s0, before, *self);
            }
            if !progressed {
                return;
            }
        }
    }

    /// Keeps polling while that makes progress, within `budget` steps.
    fn flush(&mut self, budget: &mut u32)
        requires
            old(self).inv(),
        ensures
            session_advanced(*old(self), *final(self)),
            *final(budget) <= *old(budget),
            *old(budget) == 0 ==> *final(self) == (ZmodemSession { stalled: true, ..*old(self) }),
            *old(budget) > 0 && (old(self).done || !old(self).has_machine()) ==> *final(self) == *old(self)
                && *final(budget) + 1 >= *old(budget),
            final(self).pending_wire == old(self).pending_wire,
            final(self).wire_taken == old(self).wire_taken,
            old(self).has_machine() ==> final(self).has_machine() || final(self).done,
    {
        let ghost s0 = *self;
        proof {
            Self::lemma_same_reports(s0, s0);
        }
        while *budget > 0 && !self.done
            invariant
                s0 == *old(self),
                session_advanced(s0, *self),
                self.inv(),
                *budget <= *old(budget),
                *old(budget) == 0 ==> *self == s0 && *budget == 0,
                *old(budget) > 0 && (s0.done || !s0.has_machine()) ==> *self == s0 && *budget == *old(budget),
                self.pending_wire == s0.pending_wire,
                self.wire_taken == s0.wire_taken,
                s0.has_machine() ==> self.has_machine() || self.done,
            decreases *budget,
        {
            *budget = *budget - 1;
            let ghost before = *self;
            let progressed = self.poll_once();
            proof {
                lemma_advanced_trans(s0, before, *self);
            }
            if !progressed {
                return;
            }
        }
        if *budget == 0 {
            let ghost before = *self;
            self.stalled = true;
            proof {
                Self::lemma_same_reports(before, *self);
                lemma_advanced_trans(s0, before, *self);
            }
        }
    }

    /// Submits `data[from..]` to the state machine, driving it before,
    /// between and after the submissions. Bytes it cannot take while it
    /// waits on something from outside, or when the poll budget runs out, are
    /// kept for the next submission; bytes after the session ended are
    /// dropped.
    fn submit_wire(&mut self, data: &[u8], from: usize)
        requires
            old(self).inv(),
            from <= data@.len(),
        ensures
            session_advanced(*old(self), *final(self)),
            old(self).done || !old(self).has_machine() ==> *final(self) == *old(self),
            old(self).has_machine() ==> exists|p: int| {
                &&& from <= p <= data@.len()
                &&& final(self).wire_taken@ == old(self).wire_taken@ + data@.subrange(from as int, p)
                &&& (final(self).done || final(self).pending_wire@ == old(self).pending_wire@ + data@.subrange(
                    p,
                    data@.len() as int,
                ))
            },
    {
        let ghost s0 = *self;
        let mut budget: u32 = POLL_BUDGET;
        self.flush(&mut budget);
        let mut pos: usize = from;
        while pos < data.len() && !self.done && budget > 0
            invariant
                s0 == *old(self),
                session_advanced(s0, *self),
                self.inv(),
                from <= pos <= data@.len(),
                s0.done || !s0.has_machine() ==> *self == s0,
                self.wire_taken@ == s0.wire_taken@ + data@.subrange(from as int, pos as int),
                self.pending_wire == s0.pending_wire,
                s0.has_machine() ==> self.has_machine() || self.done,
                s0.done || !s0.has_machine() ==> budget > 0,
            decreases budget,
        {
            budget = budget - 1;
            let ghost before = *self;
            let consumed = match self.receiver.take() {
                Some(mut r) => {
                    let res = receiver_submit_wire(&mut r, data, pos);
                    self.receiver = Some(r);
                    res
                },
                None => match self.sender.take() {
                    Some(mut sd) => {
                        let res = sender_submit_wire(&mut sd, data, pos);
                        self.sender = Some(sd);
                        res
                    },
                    None => {
                        proof {
                            Self::lemma_same_reports(before, *self);
                            lemma_advanced_trans(s0, before, *self);
                        }
                        return;
                    },
                },
            };
            proof {
                Self::lemma_same_reports(before, *self);
                lemma_advanced_trans(s0, before, *self);
            }
            let ghost mid = *self;
            match consumed {
                Err(e) => {
                    self.cancel(concat2("ZMODEM 协议错误: ", e.as_str()));
                    proof {
                        Self::lemma_cancel_advances(mid, *self);
                        lemma_advanced_trans(s0, mid, *self);
                    }
                    return;
                },
                Ok(n) => {
                    if n == 0 {
                        let ghost w0 = self.wire_taken@;
                        let progressed = self.poll_once();
                        proof {
                            lemma_advanced_trans(s0, mid, *self);
                        }
                        if !progressed {
                            let ghost b2 = *self;
                            append_from(&mut self.pending_wire, data, pos);
                            proof {
                                Self::lemma_same_reports(b2, *self);
                                lemma_advanced_trans(s0, b2, *self);
                            }
                            return;
                        }
                    } else {
                        let ghost w = self.wire_taken@ + data@.subrange(pos as int, (pos + n) as int);
                        assert(w =~= s0.wire_taken@ + data@.subrange(from as int, (pos + n) as int));
                        self.wire_taken = Ghost(w);
                        pos = pos + n;
                        self.flush(&mut budget);
                        proof {
                            lemma_advanced_trans(s0, mid, *self);
                        }
                    }
                },
            }
        }
        if pos < data.len() && !self.done {
            let ghost b2 = *self;
            append_from(&mut self.pending_wire, data, pos);
            self.stalled = true;
            proof {
                Self::lemma_same_reports(b2, *self);
                lemma_advanced_trans(s0, b2, *self);
            }
        }
        proof {
            assert(data@.subrange(data@.len() as int, data@.len() as int) =~= Seq::<u8>::empty());
            assert(s0.pending_wire@ + Seq::<u8>::empty() =~= s0.pending_wire@);
        }
    }
}

fn append_from(out: &mut Vec<u8>, data: &[u8], from: usize)
    requires
        from <= data@.len(),
    ensures
        final(out)@ == old(out)@ + data@.subrange(from as int, data@.len() as int),
{
    let ghost start = out@;
    let mut i: usize = from;
    while i < data.len()
        invariant
            from <= i <= data@.len(),
            out@ == start + data@.subrange(from as int, i as int),
        decreases data.len() - i,
    {
        out.push(data[i]);
        assert(data@.subrange(from as int, i + 1) =~= data@.subrange(from as int, i as int).push(data@[i as int]));
        i = i + 1;
    }
}

impl ZmodemSession {
    /// Looks for the handshake in what was read so far and, once the frame
    /// type is in, fixes the role and starts its state machine (a machine
    /// that fails to start ends the session with an error event). Returns
    /// where the ZMODEM frame starts.
    fn try_resolve_role(&mut self) -> (r: Option<usize>)
        requires
            old(self).inv(),
            old(self).role_spec() is None,
        ensures
            session_advanced(*old(self), *final(self)),
            final(self).buffered_spec() == old(self).buffered_spec(),
            match spec_resolve_role(old(self).buffered_spec()) {
                None => r is None && *final(self) == *old(self),
                Some((p, role)) => r == Some(p as usize) && final(self).role_spec() == Some(role),
            },
    {
        let ghost s0 = *self;
        match resolve_role(self.initial_buf.as_slice()) {
            None => {
                proof {
                    Self::lemma_same_reports(s0, *self);
                }
                None
            },
            Some((p, role)) => {
                self.role = Some(role);
                match role {
                    ZmRole::ReceiveFromRemote => match receiver_new() {
                        Ok(r) => {
                            self.receiver = Some(r);
                        },
                        Err(e) => {
                            self.events.push(ZmEvent::Error { message: concat2("ZMODEM receiver init 失败: ", e.as_str()) });
                            self.done = true;
                        },
                    },
                    ZmRole::SendToRemote => match sender_new() {
                        Ok(sd) => {
                            self.sender = Some(sd);
                        },
                        Err(e) => {
                            self.events.push(ZmEvent::Error { message: concat2("ZMODEM sender init 失败: ", e.as_str()) });
                            self.done = true;
                        },
                    },
                }
                proof {
                    assert(s0.events_spec() =~= self.events_spec().subrange(0, s0.events_spec().len() as int));
                    assert(s0.outgoing_spec() =~= self.outgoing_spec().subrange(0, s0.outgoing_spec().len() as int));
                }
                Some(p)
            },
        }
    }

    /// Feeds bytes read from the SSH channel. Until the role is known they
    /// are buffered, and the part before the handshake (echoed terminal
    /// text) is never given to the state machine; after that they go to the
    /// machine behind any bytes it could not take earlier. An ended session
    /// ignores them.
    pub fn feed(&mut self, data: &[u8])
        requires
            old(self).inv(),
        ensures
            session_advanced(*old(self), *final(self)),
            old(self).done_spec() ==> *final(self) == *old(self),
            !old(self).done_spec() && old(self).role_spec() is None ==> match spec_resolve_role(
                old(self).buffered_spec() + data@,
            ) {
                None => final(self).role_spec() is None && final(self).buffered_spec() == old(
                    self,
                ).buffered_spec() + data@ && final(self).events_spec() == old(self).events_spec()
                    && final(self).outgoing_spec() == old(self).outgoing_spec() && !final(self).done_spec(),
                Some((p, role)) => final(self).role_spec() == Some(role),
            },
            !old(self).done_spec() && old(self).role_spec() is Some && data@.len() == 0
                && old(self).pending_spec().len() == 0 ==> *final(self) == old(self).unstalled(),
            !old(self).done_spec() && old(self).role_spec() is Some && !old(self).has_machine() ==> {
                &&& !final(self).stalled_spec()
                &&& final(self).pending_spec().len() == 0
                &&& final(self).outgoing_spec() == old(self).outgoing_spec()
                &&& !final(self).done_spec()
                &&& final(self).events_spec() == if (data@.len() > 0 || old(self).pending_spec().len() > 0)
                    && old(self).prompt_due() {
                    old(self).events_spec().push(old(self).prompt_event())
                } else {
                    old(self).events_spec()
                }
            },
            !old(self).done_spec() && old(self).role_spec() is Some && old(self).has_machine() ==> handed_to_machine(
                *old(self),
                old(self).pending_spec() + data@,
                *final(self),
            ),
    {
        let ghost s0 = *self;
        proof {
            Self::lemma_same_reports(s0, s0);
        }
        if self.done {
            return;
        }
        let mut resolved_now = false;
        let mut skip_prefix: usize = 0;
        if self.role.is_none() {
            append_bytes(&mut self.initial_buf, data);
            let ghost s1 = *self;
            proof {
                Self::lemma_same_reports(s0, s1);
            }
            match self.try_resolve_role() {
                Some(p) => {
                    skip_prefix = p;
                    resolved_now = true;
                    proof {
                        lemma_advanced_trans(s0, s1, *self);
                    }
                },
                None => {
                    return;
                },
            }
        }
        let ghost s2 = *self;
        self.stalled = false;
        proof {
            Self::lemma_same_reports(s2, *self);
            lemma_advanced_trans(s0, s2, *self);
        }
        if resolved_now {
            let ghost s3 = *self;
            let mut initial: Vec<u8> = Vec::new();
            std::mem::swap(&mut initial, &mut self.initial_buf);
            proof {
                Self::lemma_same_reports(s3, *self);
                lemma_advanced_trans(s0, s3, *self);
            }
            if initial.len() > skip_prefix {
                let ghost s4 = *self;
                self.submit_wire(initial.as_slice(), skip_prefix);
                let ghost s5 = *self;
                self.run();
                proof {
                    lemma_advanced_trans(s4, s5, *self);
                    lemma_advanced_trans(s0, s4, *self);
                }
            }
        } else if data.len() > 0 || self.pending_wire.len() > 0 {
            let ghost s3 = *self;
            let ghost w = s0.pending_wire@ + data@;
            let ghost mut pw: int = 0;
            if self.pending_wire.len() == 0 {
                self.submit_wire(data, 0);
                proof {
                    assert(w =~= data@);
                    if s3.has_machine() {
                        let p = choose|p: int| {
                            &&& 0 <= p <= data@.len()
                            &&& self.wire_taken@ == s3.wire_taken@ + data@.subrange(0, p)
                            &&& (self.done || self.pending_wire@ == s3.pending_wire@ + data@.subrange(p, data@.len() as int))
                        };
                        assert(data@.subrange(0, p) =~= w.take(p));
                        assert(s3.pending_wire@ + data@.subrange(p, data@.len() as int) =~= w.skip(p));
                        pw = p;
                    }
                }
            } else {
                let mut combined: Vec<u8> = Vec::new();
                std::mem::swap(&mut combined, &mut self.pending_wire);
                append_bytes(&mut combined, data);
                let ghost s3b = *self;
                proof {
                    Self::lemma_same_reports(s3, s3b);
                    assert(combined@ =~= w);
                }
                self.submit_wire(combined.as_slice(), 0);
                proof {
                    lemma_advanced_trans(s3, s3b, *self);
                    if s3b.has_machine() {
                        let p = choose|p: int| {
                            &&& 0 <= p <= combined@.len()
                            &&& self.wire_taken@ == s3b.wire_taken@ + combined@.subrange(0, p)
                            &&& (self.done || self.pending_wire@ == s3b.pending_wire@ + combined@.subrange(p, combined@.len() as int))
                        };
                        assert(combined@.subrange(0, p) =~= w.take(p));
                        assert(s3b.pending_wire@ + combined@.subrange(p, combined@.len() as int) =~= w.skip(p));
                        pw = p;
                    }
                }
            }
            let ghost s4 = *self;
            self.run();
            proof {
                lemma_advanced_trans(s3, s4, *self);
                lemma_advanced_trans(s0, s3, *self);
                if s0.has_machine() {
                    assert(0 <= pw <= w.len() && self.wire_taken@ == s0.wire_taken@ + w.take(pw)
                        && (self.done || self.pending_wire@ == w.skip(pw)));
                    assert(handed_to_machine(s0, w, *self));
                }
            }
        } else {
            proof {
                assert((s0.pending_wire@ + data@).take(0) =~= Seq::<u8>::empty());
                assert((s0.pending_wire@ + data@).skip(0) =~= Seq::<u8>::empty());
                assert(self.wire_taken@ =~= s0.wire_taken@ + Seq::<u8>::empty());
                if !s0.done && s0.role is Some {
                    assert(self.pending_wire@ == (s0.pending_wire@ + data@).skip(0));
                    assert(handed_to_machine(s0, s0.pending_wire@ + data@, *self));
                }
            }
        }
    }

    /// Continues after a file path was provided or a call stopped at the
    /// poll budget: first the wire bytes held back, then the state machine.
    pub fn resume(&mut self)
        requires
            old(self).inv(),
        ensures
            session_advanced(*old(self), *final(self)),
            old(self).done_spec() ==> *final(self) == *old(self),
            resumed(*old(self), *final(self)),
    {
        let ghost s0 = *self;
        proof {
            Self::lemma_same_reports(s0, s0);
        }
        if self.done {
            return;
        }
        self.stalled = false;
        let mut pending: Vec<u8> = Vec::new();
        std::mem::swap(&mut pending, &mut self.pending_wire);
        let ghost s1 = *self;
        proof {
            Self::lemma_same_reports(s0, s1);
        }
        let ghost w = s0.pending_wire@;
        let ghost mut pw: int = 0;
        if pending.len() > 0 {
            self.submit_wire(pending.as_slice(), 0);
            proof {
                if s1.has_machine() {
                    let p = choose|p: int| {
                        &&& 0 <= p <= pending@.len()
                        &&& self.wire_taken@ == s1.wire_taken@ + pending@.subrange(0, p)
                        &&& (self.done || self.pending_wire@ == s1.pending_wire@ + pending@.subrange(p, pending@.len() as int))
                    };
                    assert(pending@.subrange(0, p) =~= w.take(p));
                    assert(s1.pending_wire@ + pending@.subrange(p, pending@.len() as int) =~= w.skip(p));
                    pw = p;
                }
            }
        } else {
            proof {
                assert(w.take(0) =~= Seq::<u8>::empty());
                assert(self.wire_taken@ =~= s0.wire_taken@ + w.take(0));
                assert(w.skip(0) =~= self.pending_wire@);
            }
        }
        let ghost s2 = *self;
        proof {
            if pending.len() == 0 {
                Self::lemma_same_reports(s1, s2);
            }
            lemma_advanced_trans(s0, s1, s2);
        }
        self.run();
        proof {
            lemma_advanced_trans(s0, s2, *self);
            if s0.has_machine() {
                assert(0 <= pw <= w.len() && self.wire_taken@ == s0.wire_taken@ + w.take(pw)
                    && (self.done || self.pending_wire@ == w.skip(pw)));
                assert(handed_to_machine(s0, w, *self));
            }
        }
    }
}

/// The error reported when the chosen file cannot be created (download) or
/// opened (upload).
pub open spec fn open_failure_message(role: ZmRole, path: Seq<char>, error: Seq<char>) -> Seq<char> {
    (if role == ZmRole::ReceiveFromRemote {
        "无法创建文件 "@
    } else {
        "无法打开文件 "@
    }) + path + ": "@ + error
}

impl ZmodemSession {
    fn provide_path(&mut self, choice: Option<OpenedFile>, for_role: ZmRole)
        requires
            old(self).inv(),
        ensures
            session_advanced(*old(self), *final(self)),
            choice is None ==> final(self).events_spec() == old(self).events_spec().push(ZmEvent::Cancelled)
                && final(self).done_spec() && final(self).cancelled_spec(),
            choice is None ==> abort_queued(*old(self), *final(self)),
            choice is Some && choice->0 is Failed ==> abort_queued(*old(self), *final(self)),
            choice matches Some(OpenedFile::Failed { path, error }) ==> {
                &&& final(self).done_spec()
                &&& final(self).cancelled_spec()
                &&& final(self).events_spec().drop_last() == old(self).events_spec()
                &&& final(self).events_spec().last() matches ZmEvent::Error { message }
                &&& message@ == open_failure_message(for_role, path@, error@)
            },
            choice matches Some(OpenedFile::Opened { path, name, size }) ==> file_chosen(*old(self), for_role, path, name, size, *final(self)),
    {
        let ghost s0 = *self;
        match choice {
            None => {
                self.cancel_with_event(ZmEvent::Cancelled);
                proof {
                    Self::lemma_cancel_advances(s0, *self);
                }
            },
            Some(OpenedFile::Failed { path, error }) => {
                let head = if for_role == ZmRole::ReceiveFromRemote { "无法创建文件 " } else { "无法打开文件 " };
                let msg = concat4(head, path.as_str(), ": ", error.as_str());
                self.cancel(msg);
                proof {
                    Self::lemma_cancel_advances(s0, *self);
                    assert(self.events_spec().drop_last() =~= s0.events_spec());
                }
            },
            Some(OpenedFile::Opened { path, name, size }) => {
                match for_role {
                    ZmRole::ReceiveFromRemote => {
                        self.saved_to = Some(path);
                        self.file_open = true;
                        self.filename = name.clone();
                        self.events.push(ZmEvent::Started { filename: name, total: self.total, role: ZmRole::ReceiveFromRemote });
                        proof {
                            assert(s0.events_spec() =~= self.events_spec().subrange(0, s0.events_spec().len() as int));
                            assert(s0.outgoing_spec() =~= self.outgoing_spec().subrange(0, s0.outgoing_spec().len() as int));
                        }
                    },
                    ZmRole::SendToRemote => {
                        self.file_open = true;
                        self.total = size;
                        self.filename = name.clone();
                        let size32: u32 = if size > 0xffff_ffffu64 { 0xffff_ffffu32 } else { size as u32 };
                        let started = match self.sender.take() {
                            Some(mut sd) => {
                                let res = sender_start_file(&mut sd, name.as_str(), size32);
                                self.sender = Some(sd);
                                res
                            },
                            None => Ok(()),
                        };
                        let ghost s1 = *self;
                        proof {
                            Self::lemma_same_reports(s0, s1);
                        }
                        match started {
                            Err(e) => {
                                self.cancel(concat2("start_file 失败: ", e.as_str()));
                                proof {
                                    Self::lemma_cancel_advances(s1, *self);
                                    lemma_advanced_trans(s0, s1, *self);
                                }
                            },
                            Ok(()) => {
                                self.events.push(ZmEvent::Started { filename: name, total: size, role: ZmRole::SendToRemote });
                                proof {
                                    assert(s0.events_spec() =~= self.events_spec().subrange(0, s0.events_spec().len() as int));
                                    assert(s0.outgoing_spec() =~= self.outgoing_spec().subrange(0, s0.outgoing_spec().len() as int));
                                }
                            },
                        }
                    },
                }
            },
        }
    }

    /// Answers a `NeedSavePath` request: the save file the caller created,
    /// the failure to create it, or `None` to cancel the transfer. Call
    /// `resume` afterwards.
    pub fn provide_save_path(&mut self, choice: Option<OpenedFile>)
        requires
            old(self).inv(),
        ensures
            session_advanced(*old(self), *final(self)),
            choice is None ==> final(self).events_spec() == old(self).events_spec().push(ZmEvent::Cancelled)
                && final(self).done_spec() && final(self).cancelled_spec(),
            choice is None ==> abort_queued(*old(self), *final(self)),
            choice is Some && choice->0 is Failed ==> abort_queued(*old(self), *final(self)),
            choice matches Some(OpenedFile::Failed { path, error }) ==> {
                &&& final(self).done_spec()
                &&& final(self).cancelled_spec()
                &&& final(self).events_spec().drop_last() == old(self).events_spec()
                &&& final(self).events_spec().last() matches ZmEvent::Error { message }
                &&& message@ == open_failure_message(ZmRole::ReceiveFromRemote, path@, error@)
            },
            choice matches Some(OpenedFile::Opened { path, name, size }) ==> file_chosen(*old(self), ZmRole::ReceiveFromRemote, path, name, size, *final(self)),
    {
        self.provide_path(choice, ZmRole::ReceiveFromRemote);
    }

    /// Answers a `NeedFileToSend` request: the upload file the caller opened,
    /// the failure to open it, or `None` to cancel the transfer. Call
    /// `resume` afterwards.
    pub fn provide_file_to_send(&mut self, choice: Option<OpenedFile>)
        requires
            old(self).inv(),
        ensures
            session_advanced(*old(self), *final(self)),
            choice is None ==> final(self).events_spec() == old(self).events_spec().push(ZmEvent::Cancelled)
                && final(self).done_spec() && final(self).cancelled_spec(),
            choice is None ==> abort_queued(*old(self), *final(self)),
            choice is Some && choice->0 is Failed ==> abort_queued(*old(self), *final(self)),
            choice matches Some(OpenedFile::Failed { path, error }) ==> {
                &&& final(self).done_spec()
                &&& final(self).cancelled_spec()
                &&& final(self).events_spec().drop_last() == old(self).events_spec()
                &&& final(self).events_spec().last() matches ZmEvent::Error { message }
                &&& message@ == open_failure_message(ZmRole::SendToRemote, path@, error@)
            },
            choice matches Some(OpenedFile::Opened { path, name, size }) ==> file_chosen(*old(self), ZmRole::SendToRemote, path, name, size, *final(self)),
    {
        self.provide_path(choice, ZmRole::SendToRemote);
    }

    /// Reports how the write handed out by `take_file_request` went. On
    /// success the progress is reported, the machine is told and the
    /// transfer continues; a failure ends it with an error. Ignored when no
    /// write is awaited.
    pub fn complete_file_write(&mut self, result: Result<(), String>)
        requires
            old(self).inv(),
        ensures
            session_advanced(*old(self), *final(self)),
            write_completed(*old(self), result, *final(self)),
    {
        let ghost s0 = *self;
        proof {
            Self::lemma_same_reports(s0, s0);
        }
        if !self.awaiting_write || self.done {
            return;
        }
        self.awaiting_write = false;
        match result {
            Err(e) => {
                self.cancel(concat2("写入文件失败: ", e.as_str()));
                proof {
                    Self::lemma_cancel_advances(s0, *self);
                }
            },
            Ok(()) => {
                let n = self.write_len;
                self.transferred = self.transferred.saturating_add(n as u64);
                self.events.push(ZmEvent::Progress {
                    filename: self.filename.clone(),
                    transferred: self.transferred,
                    total: self.total,
                    role: ZmRole::ReceiveFromRemote,
                });
                let written = match self.receiver.take() {
                    Some(mut r) => {
                        let res = receiver_file_written(&mut r, n);
                        self.receiver = Some(r);
                        res
                    },
                    None => Ok(()),
                };
                let ghost s1 = *self;
                proof {
                    assert(s0.events_spec() =~= self.events_spec().subrange(0, s0.events_spec().len() as int));
                    assert(s0.outgoing_spec() =~= self.outgoing_spec().subrange(0, s0.outgoing_spec().len() as int));
                }
                match written {
                    Err(e) => {
                        self.cancel(concat2("file_written: ", e.as_str()));
                        proof {
                            Self::lemma_cancel_advances(s1, *self);
                            lemma_advanced_trans(s0, s1, *self);
                        }
                    },
                    Ok(()) => {
                        self.resume();
                        proof {
                            lemma_advanced_trans(s0, s1, *self);
                            if s0.has_machine() {
                                lemma_handed_same_wire(s0, s1, s1.pending_spec(), *self);
                            }
                        }
                    },
                }
            },
        }
    }

    /// Reports how the read handed out by `take_file_request` went: the
    /// bytes read are submitted and the transfer continues (at end of file
    /// the machine is asked to finish); a failure ends the transfer with an
    /// error. Ignored when no read is awaited.
    pub fn complete_file_read(&mut self, result: Result<Vec<u8>, ReadFailure>)
        requires
            old(self).inv(),
        ensures
            session_advanced(*old(self), *final(self)),
            read_completed(*old(self), result, *final(self)),
    {
        let ghost s0 = *self;
        proof {
            Self::lemma_same_reports(s0, s0);
        }
        if !self.awaiting_read || self.done {
            return;
        }
        self.awaiting_read = false;
        match result {
            Err(ReadFailure::Seek(e)) => {
                self.cancel(concat2("seek 失败: ", e.as_str()));
                proof {
                    Self::lemma_cancel_advances(s0, *self);
                }
            },
            Err(ReadFailure::Read(e)) => {
                self.cancel(concat2("读取文件失败: ", e.as_str()));
                proof {
                    Self::lemma_cancel_advances(s0, *self);
                }
            },
            Ok(buf) => {
                if buf.len() == 0 {
                    match self.sender.take() {
                        Some(mut sd) => {
                            let _ = sender_finish(&mut sd);
                            self.sender = Some(sd);
                        },
                        None => {},
                    }
                    proof {
                        Self::lemma_same_reports(s0, *self);
                    }
                    return;
                }
                let submitted = match self.sender.take() {
                    Some(mut sd) => {
                        let res = sender_submit_file(&mut sd, buf.as_slice());
                        self.sender = Some(sd);
                        res
                    },
                    None => Ok(()),
                };
                let ghost s1 = *self;
                proof {
                    Self::lemma_same_reports(s0, s1);
                }
                match submitted {
                    Err(e) => {
                        self.cancel(concat2("submit_file: ", e.as_str()));
                        proof {
                            Self::lemma_cancel_advances(s1, *self);
                            lemma_advanced_trans(s0, s1, *self);
                        }
                    },
                    Ok(()) => {
                        self.transferred = self.read_offset.saturating_add(buf.len() as u64);
                        self.events.push(ZmEvent::Progress {
                            filename: self.filename.clone(),
                            transferred: self.transferred,
                            total: self.total,
                            role: ZmRole::SendToRemote,
                        });
                        let ghost s2 = *self;
                        proof {
                            assert(s1.events_spec() =~= self.events_spec().subrange(0, s1.events_spec().len() as int));
                            assert(s1.outgoing_spec() =~= self.outgoing_spec().subrange(0, s1.outgoing_spec().len() as int));
                            lemma_advanced_trans(s0, s1, s2);
                        }
                        self.resume();
                        proof {
                            lemma_advanced_trans(s0, s2, *self);
                            if s0.has_machine() {
                                lemma_handed_same_wire(s0, s2, s2.pending_spec(), *self);
                            }
                        }
                    },
                }
            },
        }
    }
}

/// What a cancelled session sends: with a state machine, the machine's
/// abort bytes (ten CAN, then ten backspaces) come first; without one, eight
/// CAN and a backspace.
pub proof fn lemma_abort_output_bytes(s: ZmodemSession)
    ensures
        !s.has_machine() ==> s.abort_output() == abort_fallback(),
        s.has_machine() ==> abort_sequence().is_prefix_of(s.abort_output()),
{
    if s.has_machine() {
        assert(s.abort_output().take(abort_sequence().len() as int) =~= abort_sequence());
    }
}

} // verus!
