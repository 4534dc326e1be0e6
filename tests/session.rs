use netclient::config::{peer_hostname, remote_endpoint, request_text, Ipv4Addr, REMOTE_PORT, SOCKET_TIMEOUT_MS};
use netclient::scheduler::{CycleAction, CycleEvent, RetryScheduler};
use netclient::session::{run_attempt, AttemptOutcome, FailedStep, SessionAction, SessionAttempt, SessionEvent};

/// What an output sink receives while a driver performs `acts` over the
/// chunks that a stub transport hands out in order.
fn sink_output(acts: &[SessionAction], chunks: &[&[u8]]) -> (String, usize) {
    let mut text = String::new();
    let mut separators = 0;
    let mut next_chunk = 0;
    for a in acts {
        match a {
            SessionAction::ForwardAndRead(n) => {
                let chunk = chunks[next_chunk];
                next_chunk += 1;
                text.push_str(&String::from_utf8_lossy(&chunk[..*n]));
            }
            SessionAction::Finish { separator: true, .. } => separators += 1,
            _ => {}
        }
    }
    (text, separators)
}

fn count(acts: &[SessionAction], pred: fn(&SessionAction) -> bool) -> usize {
    acts.iter().filter(|a| pred(a)).count()
}

#[test]
fn completed_attempt_streams_response_then_separator() {
    let body: &[u8] = b"HTTP/1.1 200 OK\r\n\r\nhi";
    let evs = vec![
        SessionEvent::SocketOpened,
        SessionEvent::Connected,
        SessionEvent::SessionReady,
        SessionEvent::HandshakeDone,
        SessionEvent::RequestWritten,
        SessionEvent::Received(body.len()),
        SessionEvent::EndOfStream,
    ];
    let acts = run_attempt(&evs);
    assert_eq!(
        acts,
        vec![
            SessionAction::OpenSocket { timeout_ms: 10000 },
            SessionAction::Connect,
            SessionAction::SetUpSession,
            SessionAction::Handshake,
            SessionAction::WriteRequest,
            SessionAction::Read,
            SessionAction::ForwardAndRead(21),
            SessionAction::Finish { outcome: AttemptOutcome::Completed, separator: true },
        ]
    );
    let (text, seps) = sink_output(&acts, &[body]);
    assert_eq!(text, "HTTP/1.1 200 OK\r\n\r\nhi");
    assert_eq!(seps, 1);
}

#[test]
fn refused_connect_fails_without_handshake_or_write() {
    let acts = run_attempt(&vec![SessionEvent::SocketOpened, SessionEvent::ConnectFailed]);
    assert_eq!(
        acts,
        vec![
            SessionAction::OpenSocket { timeout_ms: SOCKET_TIMEOUT_MS },
            SessionAction::Connect,
            SessionAction::Finish { outcome: AttemptOutcome::Failed(FailedStep::Connect), separator: false },
        ]
    );
    assert_eq!(count(&acts, |a| matches!(a, SessionAction::Handshake | SessionAction::WriteRequest)), 0);

    // The next attempt comes only after the post-attempt and pre-attempt delays.
    let (mut sched, first) = RetryScheduler::new();
    assert_eq!(first, CycleAction::Delay(1000));
    assert_eq!(sched.on_event(CycleEvent::DelayElapsed), CycleAction::StartAttempt);
    assert_eq!(sched.on_event(CycleEvent::AttemptFinished), CycleAction::Delay(3000));
    assert_eq!(sched.on_event(CycleEvent::DelayElapsed), CycleAction::Delay(1000));
    assert_eq!(sched.on_event(CycleEvent::DelayElapsed), CycleAction::StartAttempt);
}

#[test]
fn read_error_mid_stream_keeps_forwarded_bytes() {
    let first: &[u8] = b"HTTP/1.1 200 OK\r\n";
    let evs = vec![
        SessionEvent::SocketOpened,
        SessionEvent::Connected,
        SessionEvent::SessionReady,
        SessionEvent::HandshakeDone,
        SessionEvent::RequestWritten,
        SessionEvent::Received(first.len()),
        SessionEvent::ReadFailed,
    ];
    let acts = run_attempt(&evs);
    assert_eq!(
        *acts.last().unwrap(),
        SessionAction::Finish { outcome: AttemptOutcome::Failed(FailedStep::Read), separator: true }
    );
    let (text, seps) = sink_output(&acts, &[first]);
    assert_eq!(text, "HTTP/1.1 200 OK\r\n");
    assert_eq!(seps, 1);
}

#[test]
fn every_outcome_opens_one_socket_and_releases_once() {
    let full = [
        SessionEvent::SocketOpened,
        SessionEvent::Connected,
        SessionEvent::SessionReady,
        SessionEvent::HandshakeDone,
        SessionEvent::RequestWritten,
        SessionEvent::Received(5),
        SessionEvent::EndOfStream,
    ];
    let failures = [
        SessionEvent::ConnectFailed,
        SessionEvent::ConnectFailed,
        SessionEvent::SessionSetupFailed,
        SessionEvent::HandshakeFailed,
        SessionEvent::WriteFailed,
        SessionEvent::ReadFailed,
        SessionEvent::ReadFailed,
    ];
    for cut in 0..full.len() {
        let mut evs: Vec<SessionEvent> = full[..cut].to_vec();
        evs.push(failures[cut]);
        // Later reports change nothing.
        evs.push(SessionEvent::Connected);
        evs.push(SessionEvent::EndOfStream);
        let acts = run_attempt(&evs);
        assert_eq!(count(&acts, |a| matches!(a, SessionAction::OpenSocket { .. })), 1);
        assert_eq!(count(&acts, |a| matches!(a, SessionAction::Finish { .. })), 1);
        assert_eq!(acts[acts.len() - 1], SessionAction::Idle);
        assert_eq!(acts[acts.len() - 2], SessionAction::Idle);
    }
}

#[test]
fn failed_steps_are_reported_and_separator_follows_read_loop_only() {
    let base = [
        SessionEvent::SocketOpened,
        SessionEvent::Connected,
        SessionEvent::SessionReady,
        SessionEvent::HandshakeDone,
        SessionEvent::RequestWritten,
    ];
    let expected = [
        (FailedStep::Connect, false),
        (FailedStep::Connect, false),
        (FailedStep::SessionSetup, false),
        (FailedStep::Handshake, false),
        (FailedStep::Write, false),
        (FailedStep::Read, true),
    ];
    for (cut, (step, sep)) in expected.iter().enumerate() {
        let mut evs: Vec<SessionEvent> = base[..cut].to_vec();
        evs.push(SessionEvent::ReadFailed);
        let acts = run_attempt(&evs);
        assert_eq!(
            *acts.last().unwrap(),
            SessionAction::Finish { outcome: AttemptOutcome::Failed(*step), separator: *sep }
        );
    }
}

#[test]
fn zero_byte_read_ends_the_stream_cleanly() {
    let mut attempt = SessionAttempt::start().0;
    for ev in [
        SessionEvent::SocketOpened,
        SessionEvent::Connected,
        SessionEvent::SessionReady,
        SessionEvent::HandshakeDone,
        SessionEvent::RequestWritten,
    ] {
        attempt.on_event(ev);
    }
    assert!(!attempt.is_finished());
    assert_eq!(attempt.on_event(SessionEvent::Received(3)), SessionAction::ForwardAndRead(3));
    assert_eq!(
        attempt.on_event(SessionEvent::Received(0)),
        SessionAction::Finish { outcome: AttemptOutcome::Completed, separator: true }
    );
    assert!(attempt.is_finished());
    assert_eq!(attempt.on_event(SessionEvent::Received(4)), SessionAction::Idle);
}

#[test]
fn unexpected_event_fails_the_step_in_progress() {
    let (mut attempt, first) = SessionAttempt::start();
    assert_eq!(first, SessionAction::OpenSocket { timeout_ms: 10000 });
    assert_eq!(attempt.on_event(SessionEvent::SocketOpened), SessionAction::Connect);
    assert_eq!(attempt.on_event(SessionEvent::Connected), SessionAction::SetUpSession);
    assert_eq!(
        attempt.on_event(SessionEvent::HandshakeDone),
        SessionAction::Finish { outcome: AttemptOutcome::Failed(FailedStep::SessionSetup), separator: false }
    );
}

#[test]
fn fixed_endpoint_name_and_request() {
    let ep = remote_endpoint();
    assert_eq!(ep.addr, Ipv4Addr::new(192, 168, 2, 21));
    assert_eq!(ep.port, 443);
    assert_eq!(REMOTE_PORT, 443);
    assert_eq!(peer_hostname(), "nas.0d0a.com");
    assert_eq!(request_text(), "GET /ui/ HTTP/1.0\r\nHost: nas.0d0a.com\r\n\r\n");
}
