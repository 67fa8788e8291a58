use verve::ssh::zmodem::{FileRequest, MachineStep, OpenedFile, ZmEvent, ZmRole, ZmodemSession};

/// Serves the session's file work from memory, as the application does with
/// a real file.
fn serve_files(session: &mut ZmodemSession, upload: &[u8], download: &mut Vec<u8>) {
    for _ in 0..1000 {
        match session.take_file_request() {
            Some(FileRequest::Write(chunk)) => {
                download.extend_from_slice(&chunk);
                session.complete_file_write(Ok(()));
            }
            Some(FileRequest::Read { offset, max_len }) => {
                let off = offset as usize;
                let end = (off + max_len).min(upload.len());
                let data = if off < upload.len() { upload[off..end].to_vec() } else { Vec::new() };
                session.complete_file_read(Ok(data));
            }
            None => {
                if session.needs_resume() {
                    session.resume();
                } else {
                    return;
                }
            }
        }
    }
}

#[test]
fn upload_runs_closing_handshake_to_completion() {
    let mut remote = zmodem2::Receiver::new().unwrap();
    let zrinit = match remote.poll() {
        zmodem2::Action::WriteWire(b) => b.to_vec(),
        _ => panic!("receiver must start by emitting ZRINIT"),
    };
    remote.wire_written(zrinit.len());

    let mut session = ZmodemSession::new();
    session.feed(&zrinit);
    assert_eq!(session.role(), Some(ZmRole::SendToRemote));
    let events = session.pop_events();
    assert!(events.iter().any(|e| matches!(e, ZmEvent::NeedFileToSend)));

    let payload: Vec<u8> = (0..20_000u32).map(|i| (i % 251) as u8).collect();
    session.provide_file_to_send(Some(OpenedFile::Opened {
        path: "/tmp/upload.bin".into(),
        name: "upload.bin".into(),
        size: payload.len() as u64,
    }));
    session.resume();
    let mut sink = Vec::new();
    serve_files(&mut session, &payload, &mut sink);

    let mut received: Vec<u8> = Vec::new();
    let mut remote_done = false;
    let mut to_remote: Vec<u8> = Vec::new();
    for _ in 0..100_000 {
        to_remote.extend_from_slice(&session.drain_outgoing());
        while !to_remote.is_empty() {
            match remote.submit_wire(&to_remote) {
                Ok(0) => break,
                Ok(n) => {
                    to_remote.drain(..n);
                }
                Err(e) => panic!("remote protocol error: {e}"),
            }
        }
        loop {
            match remote.poll() {
                zmodem2::Action::WriteWire(b) => {
                    let bytes = b.to_vec();
                    remote.wire_written(bytes.len());
                    session.feed(&bytes);
                    serve_files(&mut session, &payload, &mut sink);
                }
                zmodem2::Action::WriteFile(chunk) => {
                    received.extend_from_slice(chunk);
                    let n = chunk.len();
                    remote.file_written(n).unwrap();
                }
                zmodem2::Action::Event(zmodem2::Event::SessionCompleted) => {
                    remote_done = true;
                }
                zmodem2::Action::Event(_) => {}
                _ => break,
            }
        }
        if session.is_done() {
            break;
        }
    }

    assert!(session.is_done(), "session must run to completion");
    assert!(!session.was_cancelled());
    assert!(remote_done, "remote rz must receive the full closing handshake (ZFIN + OO)");
    assert_eq!(received, payload, "file content must survive the upload");
    let events = session.pop_events();
    assert!(events.iter().any(|e| matches!(e, ZmEvent::Completed { .. })));
}

#[test]
fn download_resolves_role_and_completes() {
    let mut remote = zmodem2::Sender::new().unwrap();
    let zrqinit = match remote.poll() {
        zmodem2::Action::WriteWire(b) => b.to_vec(),
        _ => panic!("sender must start by emitting ZRQINIT"),
    };
    remote.wire_written(zrqinit.len());

    let mut session = ZmodemSession::new();
    session.feed(&zrqinit);
    assert_eq!(session.role(), Some(ZmRole::ReceiveFromRemote));

    let payload: Vec<u8> = (0..12_345u32).map(|i| (i % 233) as u8).collect();
    remote
        .start_file(zmodem2::FileInfo::new(b"download.bin", Some(zmodem2::Position::new(payload.len() as u32))))
        .unwrap();

    let mut on_disk: Vec<u8> = Vec::new();
    let mut remote_done = false;
    let mut to_session: Vec<u8> = Vec::new();
    let mut saw_name = String::new();
    for _ in 0..100_000 {
        for ev in session.pop_events() {
            if let ZmEvent::NeedSavePath { suggested_name } = ev {
                saw_name = suggested_name;
                session.provide_save_path(Some(OpenedFile::Opened {
                    path: "/tmp/download.bin".into(),
                    name: "download.bin".into(),
                    size: 0,
                }));
                session.resume();
                serve_files(&mut session, &[], &mut on_disk);
            }
        }
        loop {
            match remote.poll() {
                zmodem2::Action::WriteWire(b) => {
                    to_session.extend_from_slice(b);
                    let n = b.len();
                    remote.wire_written(n);
                }
                zmodem2::Action::ReadFile { offset, max_len } => {
                    let off = offset.get() as usize;
                    let end = (off + max_len).min(payload.len());
                    remote.submit_file(&payload[off..end]).unwrap();
                }
                zmodem2::Action::Event(zmodem2::Event::FileCompleted) => {
                    remote.finish().unwrap();
                }
                zmodem2::Action::Event(zmodem2::Event::SessionCompleted) => {
                    remote_done = true;
                }
                zmodem2::Action::Event(_) => {}
                _ => break,
            }
        }
        if !to_session.is_empty() {
            let data = std::mem::take(&mut to_session);
            session.feed(&data);
            serve_files(&mut session, &[], &mut on_disk);
        }
        let out = session.drain_outgoing();
        if !out.is_empty() {
            let mut slice = &out[..];
            while !slice.is_empty() {
                match remote.submit_wire(slice) {
                    Ok(0) => break,
                    Ok(n) => slice = &slice[n..],
                    Err(e) => panic!("remote sender protocol error: {e}"),
                }
            }
        }
        if session.is_done() && remote_done {
            break;
        }
    }

    assert_eq!(saw_name, "download.bin");
    assert!(session.is_done(), "download session must complete");
    assert!(!session.was_cancelled(), "clean download is not a cancel");
    assert!(remote_done, "remote sz must see our ZFIN reply and finish (SessionCompleted)");
    assert_eq!(on_disk, payload, "downloaded content must match");
}

#[test]
fn cancel_marks_was_cancelled() {
    let mut remote = zmodem2::Receiver::new().unwrap();
    let zrinit = match remote.poll() {
        zmodem2::Action::WriteWire(b) => b.to_vec(),
        _ => panic!("receiver must start by emitting ZRINIT"),
    };
    remote.wire_written(zrinit.len());

    let mut session = ZmodemSession::new();
    session.feed(&zrinit);
    assert_eq!(session.role(), Some(ZmRole::SendToRemote));
    session.provide_file_to_send(None);
    assert!(session.is_done());
    assert!(session.was_cancelled());
    let out = session.drain_outgoing();
    assert!(
        out.windows(9).any(|w| w == [0x18, 0x18, 0x18, 0x18, 0x18, 0x18, 0x18, 0x18, 0x08]),
        "abort sequence must be emitted, got {out:?}"
    );
}

#[test]
fn failed_open_reports_error_and_ends() {
    let mut session = ZmodemSession::new();
    session.feed(b"**\x18B0100000023be50\r\n");
    assert_eq!(session.role(), Some(ZmRole::SendToRemote));
    session.pop_events();
    session.provide_file_to_send(Some(OpenedFile::Failed { path: "/x/y".into(), error: "denied".into() }));
    assert!(session.is_done() && session.was_cancelled());
    let events = session.pop_events();
    assert!(matches!(events.last(), Some(ZmEvent::Error { message }) if message == "无法打开文件 /x/y: denied"));
}

#[test]
fn bytes_before_the_handshake_are_only_buffered() {
    let mut session = ZmodemSession::new();
    session.feed(b"$ rz\r\n");
    assert_eq!(session.role(), None);
    assert!(!session.is_done());
    assert!(session.pop_events().is_empty());
    assert!(session.drain_outgoing().is_empty());
    session.feed(b"**\x18B0");
    assert_eq!(session.role(), None);
    session.feed(b"0");
    assert_eq!(session.role(), Some(ZmRole::ReceiveFromRemote));
}

#[test]
fn ended_session_ignores_input() {
    let mut session = ZmodemSession::new();
    session.feed(b"**\x18B01");
    session.provide_file_to_send(None);
    let _ = session.drain_outgoing();
    let _ = session.pop_events();
    session.feed(b"more bytes");
    session.resume();
    assert!(session.drain_outgoing().is_empty());
    assert!(session.pop_events().is_empty());
}

#[test]
fn apply_step_handles_each_step() {
    let mut s = ZmodemSession::new();
    assert!(s.apply_step(MachineStep::WriteWire(vec![1, 2, 3])));
    assert_eq!(s.drain_outgoing(), vec![1, 2, 3]);
    assert!(s.apply_step(MachineStep::OtherEvent));
    // Nothing is open yet: file work is not handed out, and the idle
    // machine does not end a session that is not closing.
    assert!(!s.apply_step(MachineStep::WriteFile(vec![9])));
    assert!(s.take_file_request().is_none());
    assert!(s.apply_step(MachineStep::SessionCompleted));
    assert!(!s.is_done());
    assert!(s.apply_step(MachineStep::Idle));
    assert!(s.is_done());
    assert!(!s.was_cancelled());
    let events = s.pop_events();
    assert!(matches!(events.last(), Some(ZmEvent::Completed { .. })));
}

#[test]
fn remote_abort_step_ends_with_error() {
    let mut s = ZmodemSession::new();
    assert!(s.apply_step(MachineStep::Aborted));
    assert!(s.is_done() && s.was_cancelled());
    assert_eq!(s.drain_outgoing(), vec![0x18, 0x18, 0x18, 0x18, 0x18, 0x18, 0x18, 0x18, 0x08]);
    assert!(matches!(s.pop_events().last(), Some(ZmEvent::Error { .. })));
}

#[test]
fn cancel_with_machine_sends_its_abort_bytes_last() {
    let mut remote = zmodem2::Receiver::new().unwrap();
    let zrinit = match remote.poll() {
        zmodem2::Action::WriteWire(b) => b.to_vec(),
        _ => panic!("receiver must start by emitting ZRINIT"),
    };
    let mut session = ZmodemSession::new();
    session.feed(&zrinit);
    let before = session.drain_outgoing();
    session.provide_file_to_send(None);
    let out = session.drain_outgoing();
    let mut expected = vec![0x18u8; 10];
    expected.extend_from_slice(&[0x08u8; 10]);
    assert_eq!(out, expected, "after {before:?}");
}

