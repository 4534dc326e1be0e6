//! One session attempt: open a transport socket, connect, set up and run the
//! secure handshake, write the request, stream the response, release.
//!
//! Every failure ends the attempt through the same release path; nothing
//! that goes wrong in one attempt is fatal to the process.

use vstd::prelude::*;
use crate::config::SOCKET_TIMEOUT_MS;

verus! {

/// The step of an attempt at which it failed.
#[derive(Clone, Copy, Debug, PartialEq, Eq, Structural)]
pub enum FailedStep {
    Connect,
    SessionSetup,
    Handshake,
    Write,
    Read,
}

/// How an attempt ended.
#[derive(Clone, Copy, Debug, PartialEq, Eq, Structural)]
pub enum AttemptOutcome {
    /// The peer closed the stream cleanly after the response.
    Completed,
    Failed(FailedStep),
}

/// Where an attempt stands, awaiting the outcome of its last action.
#[derive(Clone, Copy, Debug, PartialEq, Eq, Structural)]
pub enum SessionPhase {
    OpeningSocket,
    Connecting,
    SettingUpSession,
    Handshaking,
    Writing,
    Reading,
    Finished(AttemptOutcome),
}

/// What the driver reports back after performing an action.
#[derive(Clone, Copy, Debug, PartialEq, Eq, Structural)]
pub enum SessionEvent {
    SocketOpened,
    Connected,
    ConnectFailed,
    SessionReady,
    SessionSetupFailed,
    HandshakeDone,
    HandshakeFailed,
    RequestWritten,
    WriteFailed,
    /// A read filled this many bytes of the receive chunk; zero bytes is the
    /// transport's own way of saying that the stream has ended.
    Received(usize),
    EndOfStream,
    ReadFailed,
}

/// What the driver must do next.
#[derive(Clone, Copy, Debug, PartialEq, Eq, Structural)]
pub enum SessionAction {
    /// Construct the transport socket over the two shared buffers, with the
    /// given idle/connect timeout.
    OpenSocket { timeout_ms: u64 },
    /// Connect the socket to the fixed remote endpoint.
    Connect,
    /// Wrap the socket in a client secure session: latest protocol version,
    /// peer verified against the fixed host name, trust anchor as sole root.
    SetUpSession,
    Handshake,
    /// Write the whole fixed request.
    WriteRequest,
    /// Read the next chunk of the response.
    Read,
    /// Forward the first `n` bytes of the chunk just read to the output,
    /// then read again.
    ForwardAndRead(usize),
    /// Emit the separator if asked, drop the secure session and the socket,
    /// and report the outcome. The buffers are free again afterwards.
    Finish { outcome: AttemptOutcome, separator: bool },
    /// The attempt is over: nothing to do.
    Idle,
}

/// The read loop was entered for these outcomes, so the output gets a
/// separator after them.
pub open spec fn separator_after(outcome: AttemptOutcome) -> bool {
    match outcome {
        AttemptOutcome::Completed => true,
        AttemptOutcome::Failed(step) => step == FailedStep::Read,
    }
}

pub open spec fn finish(outcome: AttemptOutcome) -> (SessionPhase, SessionAction) {
    (SessionPhase::Finished(outcome),
     SessionAction::Finish { outcome, separator: separator_after(outcome) })
}

/// The transition of an attempt. An event other than the one that the
/// phase awaits counts as a failure of the step in progress.
pub open spec fn session_step(phase: SessionPhase, ev: SessionEvent) -> (SessionPhase, SessionAction) {
    match phase {
        SessionPhase::OpeningSocket => if ev == SessionEvent::SocketOpened {
            (SessionPhase::Connecting, SessionAction::Connect)
        } else {
            finish(AttemptOutcome::Failed(FailedStep::Connect))
        },
        SessionPhase::Connecting => if ev == SessionEvent::Connected {
            (SessionPhase::SettingUpSession, SessionAction::SetUpSession)
        } else {
            finish(AttemptOutcome::Failed(FailedStep::Connect))
        },
        SessionPhase::SettingUpSession => if ev == SessionEvent::SessionReady {
            (SessionPhase::Handshaking, SessionAction::Handshake)
        } else {
            finish(AttemptOutcome::Failed(FailedStep::SessionSetup))
        },
        SessionPhase::Handshaking => if ev == SessionEvent::HandshakeDone {
            (SessionPhase::Writing, SessionAction::WriteRequest)
        } else {
            finish(AttemptOutcome::Failed(FailedStep::Handshake))
        },
        SessionPhase::Writing => if ev == SessionEvent::RequestWritten {
            (SessionPhase::Reading, SessionAction::Read)
        } else {
            finish(AttemptOutcome::Failed(FailedStep::Write))
        },
        SessionPhase::Reading => match ev {
            SessionEvent::Received(n) => if n > 0 {
                (SessionPhase::Reading, SessionAction::ForwardAndRead(n))
            } else {
                finish(AttemptOutcome::Completed)
            },
            SessionEvent::EndOfStream => finish(AttemptOutcome::Completed),
            _ => finish(AttemptOutcome::Failed(FailedStep::Read)),
        },
        SessionPhase::Finished(o) => (SessionPhase::Finished(o), SessionAction::Idle),
    }
}

pub open spec fn initial_action() -> SessionAction {
    SessionAction::OpenSocket { timeout_ms: SOCKET_TIMEOUT_MS }
}

/// One attempt in progress.
pub struct SessionAttempt {
    pub phase: SessionPhase,
}

impl SessionAttempt {
    /// A fresh attempt, together with its first action: open the socket.
    pub fn start() -> (r: (SessionAttempt, SessionAction))
        ensures
            r.0.phase == SessionPhase::OpeningSocket,
            r.1 == initial_action(),
    {
        (SessionAttempt { phase: SessionPhase::OpeningSocket },
         SessionAction::OpenSocket { timeout_ms: SOCKET_TIMEOUT_MS })
    }

    fn finish_with(&mut self, outcome: AttemptOutcome) -> (a: SessionAction)
        ensures
            (final(self).phase, a) == finish(outcome),
    {
        let separator = match outcome {
            AttemptOutcome::Completed => true,
            AttemptOutcome::Failed(step) => match step {
                FailedStep::Read => true,
                _ => false,
            },
        };
        self.phase = SessionPhase::Finished(outcome);
        SessionAction::Finish { outcome, separator }
    }

    /// Takes the outcome of the last action and returns the next one.
    pub fn on_event(&mut self, ev: SessionEvent) -> (a: SessionAction)
        ensures
            (final(self).phase, a) == session_step(old(self).phase, ev),
    {
        match self.phase {
            SessionPhase::OpeningSocket => match ev {
                SessionEvent::SocketOpened => {
                    self.phase = SessionPhase::Connecting;
                    SessionAction::Connect
                },
                _ => self.finish_with(AttemptOutcome::Failed(FailedStep::Connect)),
            },
            SessionPhase::Connecting => match ev {
                SessionEvent::Connected => {
                    self.phase = SessionPhase::SettingUpSession;
                    SessionAction::SetUpSession
                },
                _ => self.finish_with(AttemptOutcome::Failed(FailedStep::Connect)),
            },
            SessionPhase::SettingUpSession => match ev {
                SessionEvent::SessionReady => {
                    self.phase = SessionPhase::Handshaking;
                    SessionAction::Handshake
                },
                _ => self.finish_with(AttemptOutcome::Failed(FailedStep::SessionSetup)),
            },
            SessionPhase::Handshaking => match ev {
                SessionEvent::HandshakeDone => {
                    self.phase = SessionPhase::Writing;
                    SessionAction::WriteRequest
                },
                _ => self.finish_with(AttemptOutcome::Failed(FailedStep::Handshake)),
            },
            SessionPhase::Writing => match ev {
                SessionEvent::RequestWritten => {
                    self.phase = SessionPhase::Reading;
                    SessionAction::Read
                },
                _ => self.finish_with(AttemptOutcome::Failed(FailedStep::Write)),
            },
            SessionPhase::Reading => match ev {
                SessionEvent::Received(n) => if n > 0 {
                    SessionAction::ForwardAndRead(n)
                } else {
                    self.finish_with(AttemptOutcome::Completed)
                },
                SessionEvent::EndOfStream => self.finish_with(AttemptOutcome::Completed),
                _ => self.finish_with(AttemptOutcome::Failed(FailedStep::Read)),
            },
            SessionPhase::Finished(_) => SessionAction::Idle,
        }
    }

    /// The attempt has ended and released its resources.
    pub fn is_finished(&self) -> (r: bool)
        ensures
            r == (self.phase is Finished),
    {
        match self.phase {
            SessionPhase::Finished(_) => true,
            _ => false,
        }
    }
}

/// Phase of an attempt after it has taken `evs` in order.
pub open spec fn phase_after(evs: Seq<SessionEvent>) -> SessionPhase
    decreases evs.len(),
{
    if evs.len() == 0 {
        SessionPhase::OpeningSocket
    } else {
        session_step(phase_after(evs.drop_last()), evs.last()).0
    }
}

/// Every action an attempt issues while it takes `evs` in order, its first
/// action included.
pub open spec fn actions_of(evs: Seq<SessionEvent>) -> Seq<SessionAction>
    decreases evs.len(),
{
    if evs.len() == 0 {
        seq![initial_action()]
    } else {
        actions_of(evs.drop_last()).push(session_step(phase_after(evs.drop_last()), evs.last()).1)
    }
}

/// Number of socket constructions among `acts`.
pub open spec fn socket_opens(acts: Seq<SessionAction>) -> nat
    decreases acts.len(),
{
    if acts.len() == 0 {
        0
    } else {
        socket_opens(acts.drop_last()) + if acts.last() is OpenSocket { 1nat } else { 0nat }
    }
}

/// Number of releases among `acts`.
pub open spec fn releases(acts: Seq<SessionAction>) -> nat
    decreases acts.len(),
{
    if acts.len() == 0 {
        0
    } else {
        releases(acts.drop_last()) + if acts.last() is Finish { 1nat } else { 0nat }
    }
}

/// The secure session is never touched: no setup, handshake or write.
pub open spec fn no_session_work(acts: Seq<SessionAction>) -> bool {
    forall|i: int| 0 <= i < acts.len() ==> !(acts[i] is SetUpSession) && !(acts[i] is Handshake)
        && !(acts[i] is WriteRequest)
}

/// Runs one attempt over a recorded series of outcomes and returns the
/// actions it issued, its first action included.
pub fn run_attempt(evs: &Vec<SessionEvent>) -> (r: Vec<SessionAction>)
    ensures
        r@ == actions_of(evs@),
{
    let (mut attempt, first) = SessionAttempt::start();
    let mut acts: Vec<SessionAction> = Vec::new();
    acts.push(first);
    let mut i: usize = 0;
    while i < evs.len()
        invariant
            i <= evs.len(),
            attempt.phase == phase_after(evs@.take(i as int)),
            acts@ == actions_of(evs@.take(i as int)),
        decreases evs.len() - i,
    {
        assert(evs@.take(i as int + 1).drop_last() =~= evs@.take(i as int));
        let a = attempt.on_event(evs[i]);
        acts.push(a);
        i = i + 1;
    }
    assert(evs@.take(evs.len() as int) =~= evs@);
    acts
}

/// Each attempt constructs exactly one socket, whatever happens to it, and
/// releases socket and session at most once; once it has finished it has
/// released them exactly once, so the two buffers are free for the next
/// attempt.
pub proof fn lemma_one_socket_one_release(evs: Seq<SessionEvent>)
    ensures
        socket_opens(actions_of(evs)) == 1,
        releases(actions_of(evs)) == if phase_after(evs) is Finished { 1nat } else { 0nat },
    decreases evs.len(),
{
    let acts = actions_of(evs);
    if evs.len() == 0 {
        assert(acts.drop_last() =~= Seq::<SessionAction>::empty());
        assert(acts.last() == initial_action());
        assert(socket_opens(acts.drop_last()) == 0);
        assert(releases(acts.drop_last()) == 0);
    } else {
        lemma_one_socket_one_release(evs.drop_last());
        lemma_step_shape(phase_after(evs.drop_last()), evs.last());
        assert(acts.drop_last() =~= actions_of(evs.drop_last()));
        assert(acts.last() == session_step(phase_after(evs.drop_last()), evs.last()).1);
    }
}

/// No transition opens a socket, and a transition releases exactly when it
/// ends the attempt.
proof fn lemma_step_shape(phase: SessionPhase, ev: SessionEvent)
    ensures
        !(session_step(phase, ev).1 is OpenSocket),
        (session_step(phase, ev).1 is Finish) == (!(phase is Finished)
            && session_step(phase, ev).0 is Finished),
        phase is Finished ==> session_step(phase, ev).0 == phase,
{
}

/// After a finished attempt every further action is `Idle`.
proof fn lemma_idle_after_finish(pre: Seq<SessionEvent>, rest: Seq<SessionEvent>)
    requires
        phase_after(pre) is Finished,
    ensures
        phase_after(pre + rest) == phase_after(pre),
        actions_of(pre + rest).len() == actions_of(pre).len() + rest.len(),
        actions_of(pre + rest).take(actions_of(pre).len() as int) == actions_of(pre),
        forall|i: int| actions_of(pre).len() <= i < actions_of(pre + rest).len()
            ==> actions_of(pre + rest)[i] == SessionAction::Idle,
    decreases rest.len(),
{
    if rest.len() == 0 {
        assert(pre + rest =~= pre);
        assert(actions_of(pre).take(actions_of(pre).len() as int) =~= actions_of(pre));
    } else {
        let shorter = rest.drop_last();
        lemma_idle_after_finish(pre, shorter);
        assert((pre + rest).drop_last() =~= pre + shorter);
        assert((pre + rest).last() == rest.last());
        let a = actions_of(pre + shorter);
        assert(actions_of(pre + rest) == a.push(SessionAction::Idle));
        assert(actions_of(pre + rest).take(actions_of(pre).len() as int)
            =~= a.take(actions_of(pre).len() as int));
    }
}

/// A refused connect ends the attempt at once: whatever is reported later,
/// no secure session is set up, no handshake run and nothing written, and
/// the socket is released exactly once.
pub proof fn lemma_refused_connect_skips_session(rest: Seq<SessionEvent>)
    ensures
        ({
            let evs = seq![SessionEvent::SocketOpened, SessionEvent::ConnectFailed] + rest;
            &&& phase_after(evs) == SessionPhase::Finished(AttemptOutcome::Failed(FailedStep::Connect))
            &&& no_session_work(actions_of(evs))
            &&& socket_opens(actions_of(evs)) == 1
            &&& releases(actions_of(evs)) == 1
        }),
{
    let pre = seq![SessionEvent::SocketOpened, SessionEvent::ConnectFailed];
    assert(pre.drop_last() =~= seq![SessionEvent::SocketOpened]);
    assert(pre.drop_last().drop_last() =~= Seq::<SessionEvent>::empty());
    let e1 = seq![SessionEvent::SocketOpened];
    assert(e1.drop_last() =~= Seq::<SessionEvent>::empty());
    assert(actions_of(e1.drop_last()) == seq![initial_action()]);
    assert(phase_after(e1.drop_last()) == SessionPhase::OpeningSocket);
    assert(e1.last() == SessionEvent::SocketOpened);
    assert(pre.last() == SessionEvent::ConnectFailed);
    assert(phase_after(e1) == SessionPhase::Connecting);
    assert(actions_of(e1) =~= seq![initial_action(), SessionAction::Connect]);
    let p = actions_of(pre);
    assert(p =~= seq![initial_action(), SessionAction::Connect,
        SessionAction::Finish { outcome: AttemptOutcome::Failed(FailedStep::Connect), separator: false }]);
    lemma_idle_after_finish(pre, rest);
    let evs = pre + rest;
    let acts = actions_of(evs);
    assert forall|i: int| 0 <= i < acts.len() implies !(acts[i] is SetUpSession) && !(acts[i] is Handshake)
        && !(acts[i] is WriteRequest) by {
        if i < p.len() {
            assert(acts[i] == acts.take(p.len() as int)[i]);
        }
    }
    lemma_one_socket_one_release(evs);
}

} // verus!
