use netclient::config::Ipv4Addr;
use netclient::gate::{run_gate, ConnectivityGate, GateAction, LinkSnapshot};
use netclient::scheduler::{CycleAction, CycleEvent, RetryScheduler};
use netclient::session::{AttemptOutcome, FailedStep, SessionAction, SessionAttempt, SessionEvent};
use netclient::supervisor::{WifiAction, WifiEvent, WifiSupervisor};

fn snap(link_up: bool, lease: Option<Ipv4Addr>) -> LinkSnapshot {
    LinkSnapshot { link_up, lease }
}

#[test]
fn gate_waits_for_link_then_lease() {
    let ip = Ipv4Addr::new(192, 168, 2, 50);
    let ss = vec![
        snap(false, None),
        snap(false, Some(ip)),
        snap(true, None),
        snap(true, None),
        snap(true, Some(ip)),
        snap(true, Some(ip)),
    ];
    assert_eq!(run_gate(&ss), Some((4, ip)));
}

#[test]
fn gate_stays_closed_without_link() {
    let ip = Ipv4Addr::new(10, 0, 0, 2);
    let ss = vec![snap(false, Some(ip)), snap(false, Some(ip)), snap(false, None)];
    assert_eq!(run_gate(&ss), None);
    assert_eq!(run_gate(&vec![]), None);
}

#[test]
fn gate_opens_on_first_reading_with_both() {
    let ip = Ipv4Addr::new(10, 0, 0, 2);
    assert_eq!(run_gate(&vec![snap(true, Some(ip))]), Some((0, ip)));
}

#[test]
fn gate_polls_at_fixed_interval_and_does_not_recheck_link() {
    let ip = Ipv4Addr::new(10, 0, 0, 7);
    let mut gate = ConnectivityGate::new();
    assert_eq!(gate.observe(snap(false, None)), GateAction::PollAfter(500));
    assert_eq!(gate.observe(snap(true, None)), GateAction::PollAfter(500));
    // Link dropped again, but only the lease is checked from here on.
    assert_eq!(gate.observe(snap(false, Some(ip))), GateAction::Proceed(ip));
    assert_eq!(gate.observe(snap(false, None)), GateAction::Proceed(ip));
}

#[test]
fn scheduler_paces_attempts() {
    let (mut sched, first) = RetryScheduler::new();
    assert_eq!(first, CycleAction::Delay(1000));
    // Spurious reports do not shorten a delay or start a second attempt.
    assert_eq!(sched.on_event(CycleEvent::AttemptFinished), CycleAction::Wait);
    assert_eq!(sched.on_event(CycleEvent::DelayElapsed), CycleAction::StartAttempt);
    assert_eq!(sched.on_event(CycleEvent::DelayElapsed), CycleAction::Wait);
    assert_eq!(sched.on_event(CycleEvent::AttemptFinished), CycleAction::Delay(3000));
    assert_eq!(sched.on_event(CycleEvent::AttemptFinished), CycleAction::Wait);
    assert_eq!(sched.on_event(CycleEvent::DelayElapsed), CycleAction::Delay(1000));
    assert_eq!(sched.on_event(CycleEvent::DelayElapsed), CycleAction::StartAttempt);
}

#[test]
fn supervisor_reconnects_after_disassociation() {
    let (mut sup, first) = WifiSupervisor::new();
    assert_eq!(first, WifiAction::QueryAssociation);
    assert_eq!(sup.on_event(WifiEvent::Association(true)), WifiAction::WaitForDisassociation);
    for _ in 0..3 {
        assert_eq!(sup.on_event(WifiEvent::Disassociated), WifiAction::Delay(5000));
        assert_eq!(sup.on_event(WifiEvent::DelayElapsed), WifiAction::QueryStarted);
        assert_eq!(sup.on_event(WifiEvent::Started(true)), WifiAction::Connect);
        assert_eq!(sup.on_event(WifiEvent::ConnectDone), WifiAction::QueryAssociation);
        assert_eq!(sup.on_event(WifiEvent::Association(true)), WifiAction::WaitForDisassociation);
    }
}

#[test]
fn supervisor_starts_radio_once_and_retries_failed_connects() {
    let (mut sup, _) = WifiSupervisor::new();
    assert_eq!(sup.on_event(WifiEvent::Association(false)), WifiAction::QueryStarted);
    assert_eq!(sup.on_event(WifiEvent::Started(false)), WifiAction::ConfigureAndStart);
    assert_eq!(sup.on_event(WifiEvent::StartDone), WifiAction::Connect);
    for _ in 0..3 {
        assert_eq!(sup.on_event(WifiEvent::ConnectFailed), WifiAction::Delay(5000));
        assert_eq!(sup.on_event(WifiEvent::DelayElapsed), WifiAction::QueryAssociation);
        assert_eq!(sup.on_event(WifiEvent::Association(false)), WifiAction::QueryStarted);
        assert_eq!(sup.on_event(WifiEvent::Started(true)), WifiAction::Connect);
    }
    assert_eq!(sup.on_event(WifiEvent::ConnectDone), WifiAction::QueryAssociation);
}

#[test]
fn supervisor_backs_off_after_failed_start_and_ignores_stray_events() {
    let (mut sup, _) = WifiSupervisor::new();
    assert_eq!(sup.on_event(WifiEvent::Disassociated), WifiAction::Wait);
    assert_eq!(sup.on_event(WifiEvent::Association(false)), WifiAction::QueryStarted);
    assert_eq!(sup.on_event(WifiEvent::Started(false)), WifiAction::ConfigureAndStart);
    assert_eq!(sup.on_event(WifiEvent::StartFailed), WifiAction::Delay(5000));
    assert_eq!(sup.on_event(WifiEvent::DelayElapsed), WifiAction::QueryAssociation);
}

#[test]
fn disassociation_during_attempt_recovers_independently() {
    let (mut sup, _) = WifiSupervisor::new();
    sup.on_event(WifiEvent::Association(true));
    let (mut sched, _) = RetryScheduler::new();
    assert_eq!(sched.on_event(CycleEvent::DelayElapsed), CycleAction::StartAttempt);

    let (mut attempt, _) = SessionAttempt::start();
    for ev in [
        SessionEvent::SocketOpened,
        SessionEvent::Connected,
        SessionEvent::SessionReady,
        SessionEvent::HandshakeDone,
        SessionEvent::RequestWritten,
    ] {
        attempt.on_event(ev);
    }
    assert_eq!(attempt.on_event(SessionEvent::Received(8)), SessionAction::ForwardAndRead(8));

    // The radio drops mid-read; the two machines react on their own.
    assert_eq!(sup.on_event(WifiEvent::Disassociated), WifiAction::Delay(5000));
    assert_eq!(
        attempt.on_event(SessionEvent::ReadFailed),
        SessionAction::Finish { outcome: AttemptOutcome::Failed(FailedStep::Read), separator: true }
    );
    assert_eq!(sched.on_event(CycleEvent::AttemptFinished), CycleAction::Delay(3000));
    assert_eq!(sup.on_event(WifiEvent::DelayElapsed), WifiAction::QueryStarted);
    assert_eq!(sched.on_event(CycleEvent::DelayElapsed), CycleAction::Delay(1000));
    assert_eq!(sched.on_event(CycleEvent::DelayElapsed), CycleAction::StartAttempt);

    // The next attempt fails fast while the link is still down.
    let (mut next, _) = SessionAttempt::start();
    next.on_event(SessionEvent::SocketOpened);
    assert_eq!(
        next.on_event(SessionEvent::ConnectFailed),
        SessionAction::Finish { outcome: AttemptOutcome::Failed(FailedStep::Connect), separator: false }
    );
    assert_eq!(sup.on_event(WifiEvent::Started(true)), WifiAction::Connect);
    assert_eq!(sup.on_event(WifiEvent::ConnectDone), WifiAction::QueryAssociation);
}
