//! The radio supervisor: keeps the station associated with its access
//! point for the life of the process, reconnecting after every
//! disassociation and retrying failed connects after a fixed delay.

use vstd::prelude::*;
use crate::config::RECONNECT_DELAY_MS;

verus! {

#[derive(Clone, Copy, Debug, PartialEq, Eq, Structural)]
pub enum WifiPhase {
    /// About to read whether the radio is associated.
    Observing,
    /// Associated; waiting for the radio to signal a disassociation.
    AwaitingDisassociation,
    /// Waiting out the debounce delay after a disassociation.
    Debouncing,
    /// Asking the radio whether it has been started.
    CheckingStarted,
    /// Applying the client credentials and starting the radio.
    Starting,
    /// A connect request is in flight.
    Connecting,
    /// Waiting out the delay after a failed start or connect.
    BackingOff,
}

#[derive(Clone, Copy, Debug, PartialEq, Eq, Structural)]
pub enum WifiEvent {
    /// Answer to `QueryAssociation`: whether the station is associated.
    Association(bool),
    /// The radio signalled a disassociation.
    Disassociated,
    DelayElapsed,
    /// Answer to `QueryStarted`: whether the radio reports itself started.
    Started(bool),
    StartDone,
    StartFailed,
    ConnectDone,
    ConnectFailed,
}

#[derive(Clone, Copy, Debug, PartialEq, Eq, Structural)]
pub enum WifiAction {
    QueryAssociation,
    WaitForDisassociation,
    /// Sleep this many milliseconds, then report `DelayElapsed`.
    Delay(u64),
    QueryStarted,
    /// Apply the client credentials and start the radio.
    ConfigureAndStart,
    /// Issue an associate request.
    Connect,
    /// Keep waiting for what is in progress.
    Wait,
}

/// The transition of the supervisor. There is no final phase, and an event
/// that the phase does not await changes nothing.
pub open spec fn wifi_step(phase: WifiPhase, ev: WifiEvent) -> (WifiPhase, WifiAction) {
    match (phase, ev) {
        (WifiPhase::Observing, WifiEvent::Association(true)) =>
            (WifiPhase::AwaitingDisassociation, WifiAction::WaitForDisassociation),
        (WifiPhase::Observing, WifiEvent::Association(false)) =>
            (WifiPhase::CheckingStarted, WifiAction::QueryStarted),
        (WifiPhase::AwaitingDisassociation, WifiEvent::Disassociated) =>
            (WifiPhase::Debouncing, WifiAction::Delay(RECONNECT_DELAY_MS)),
        (WifiPhase::Debouncing, WifiEvent::DelayElapsed) =>
            (WifiPhase::CheckingStarted, WifiAction::QueryStarted),
        (WifiPhase::CheckingStarted, WifiEvent::Started(true)) =>
            (WifiPhase::Connecting, WifiAction::Connect),
        (WifiPhase::CheckingStarted, WifiEvent::Started(false)) =>
            (WifiPhase::Starting, WifiAction::ConfigureAndStart),
        (WifiPhase::Starting, WifiEvent::StartDone) =>
            (WifiPhase::Connecting, WifiAction::Connect),
        (WifiPhase::Starting, WifiEvent::StartFailed) =>
            (WifiPhase::BackingOff, WifiAction::Delay(RECONNECT_DELAY_MS)),
        (WifiPhase::Connecting, WifiEvent::ConnectDone) =>
            (WifiPhase::Observing, WifiAction::QueryAssociation),
        (WifiPhase::Connecting, WifiEvent::ConnectFailed) =>
            (WifiPhase::BackingOff, WifiAction::Delay(RECONNECT_DELAY_MS)),
        (WifiPhase::BackingOff, WifiEvent::DelayElapsed) =>
            (WifiPhase::Observing, WifiAction::QueryAssociation),
        _ => (phase, WifiAction::Wait),
    }
}

pub struct WifiSupervisor {
    pub phase: WifiPhase,
}

impl WifiSupervisor {
    /// A supervisor at the top of its loop, and its first action.
    pub fn new() -> (r: (WifiSupervisor, WifiAction))
        ensures
            r.0.phase == WifiPhase::Observing,
            r.1 == WifiAction::QueryAssociation,
    {
        (WifiSupervisor { phase: WifiPhase::Observing }, WifiAction::QueryAssociation)
    }

    /// Takes what the radio or the timer reported and returns what to do next.
    pub fn on_event(&mut self, ev: WifiEvent) -> (a: WifiAction)
        ensures
            (final(self).phase, a) == wifi_step(old(self).phase, ev),
    {
        let (p, a) = match (self.phase, ev) {
            (WifiPhase::Observing, WifiEvent::Association(associated)) => if associated {
                (WifiPhase::AwaitingDisassociation, WifiAction::WaitForDisassociation)
            } else {
                (WifiPhase::CheckingStarted, WifiAction::QueryStarted)
            },
            (WifiPhase::AwaitingDisassociation, WifiEvent::Disassociated) =>
                (WifiPhase::Debouncing, WifiAction::Delay(RECONNECT_DELAY_MS)),
            (WifiPhase::Debouncing, WifiEvent::DelayElapsed) =>
                (WifiPhase::CheckingStarted, WifiAction::QueryStarted),
            (WifiPhase::CheckingStarted, WifiEvent::Started(started)) => if started {
                (WifiPhase::Connecting, WifiAction::Connect)
            } else {
                (WifiPhase::Starting, WifiAction::ConfigureAndStart)
            },
            (WifiPhase::Starting, WifiEvent::StartDone) =>
                (WifiPhase::Connecting, WifiAction::Connect),
            (WifiPhase::Starting, WifiEvent::StartFailed) =>
                (WifiPhase::BackingOff, WifiAction::Delay(RECONNECT_DELAY_MS)),
            (WifiPhase::Connecting, WifiEvent::ConnectDone) =>
                (WifiPhase::Observing, WifiAction::QueryAssociation),
            (WifiPhase::Connecting, WifiEvent::ConnectFailed) =>
                (WifiPhase::BackingOff, WifiAction::Delay(RECONNECT_DELAY_MS)),
            (WifiPhase::BackingOff, WifiEvent::DelayElapsed) =>
                (WifiPhase::Observing, WifiAction::QueryAssociation),
            _ => (self.phase, WifiAction::Wait),
        };
        self.phase = p;
        a
    }
}

/// Whether `ev` is how the radio or timer answers `a`, when a start, if
/// one is asked for, succeeds. Connect requests may succeed or fail.
pub open spec fn answers(a: WifiAction, ev: WifiEvent) -> bool {
    match a {
        WifiAction::QueryAssociation => ev is Association,
        WifiAction::WaitForDisassociation => ev == WifiEvent::Disassociated,
        WifiAction::Delay(_) => ev == WifiEvent::DelayElapsed,
        WifiAction::QueryStarted => ev is Started,
        WifiAction::ConfigureAndStart => ev == WifiEvent::StartDone,
        WifiAction::Connect => ev == WifiEvent::ConnectDone || ev == WifiEvent::ConnectFailed,
        WifiAction::Wait => false,
    }
}

/// The action that a phase is waiting on the answer to.
pub open spec fn awaited_action(p: WifiPhase) -> WifiAction {
    match p {
        WifiPhase::Observing => WifiAction::QueryAssociation,
        WifiPhase::AwaitingDisassociation => WifiAction::WaitForDisassociation,
        WifiPhase::Debouncing => WifiAction::Delay(RECONNECT_DELAY_MS),
        WifiPhase::CheckingStarted => WifiAction::QueryStarted,
        WifiPhase::Starting => WifiAction::ConfigureAndStart,
        WifiPhase::Connecting => WifiAction::Connect,
        WifiPhase::BackingOff => WifiAction::Delay(RECONNECT_DELAY_MS),
    }
}

pub open spec fn wifi_phase_after(evs: Seq<WifiEvent>) -> WifiPhase
    decreases evs.len(),
{
    if evs.len() == 0 {
        WifiPhase::Observing
    } else {
        wifi_step(wifi_phase_after(evs.drop_last()), evs.last()).0
    }
}

/// Every action the supervisor issues while it takes `evs` in order, its
/// first action included: `wifi_actions_of(evs)[k]` is what it asked for
/// just before `evs[k]` came.
pub open spec fn wifi_actions_of(evs: Seq<WifiEvent>) -> Seq<WifiAction>
    decreases evs.len(),
{
    if evs.len() == 0 {
        seq![WifiAction::QueryAssociation]
    } else {
        wifi_actions_of(evs.drop_last()).push(wifi_step(wifi_phase_after(evs.drop_last()), evs.last()).1)
    }
}

/// Each event of `evs` answers the action issued just before it.
pub open spec fn answered_run(evs: Seq<WifiEvent>) -> bool
    decreases evs.len(),
{
    if evs.len() == 0 {
        true
    } else {
        answered_run(evs.drop_last()) && answers(wifi_actions_of(evs.drop_last()).last(), evs.last())
    }
}

proof fn lemma_actions_len(evs: Seq<WifiEvent>)
    ensures
        wifi_actions_of(evs).len() == evs.len() + 1,
    decreases evs.len(),
{
    if evs.len() > 0 {
        lemma_actions_len(evs.drop_last());
    }
}

/// In an answered run the last action is the one the phase awaits.
proof fn lemma_answered_run_awaits(evs: Seq<WifiEvent>)
    requires
        answered_run(evs),
    ensures
        wifi_actions_of(evs).last() == awaited_action(wifi_phase_after(evs)),
    decreases evs.len(),
{
    if evs.len() > 0 {
        lemma_answered_run_awaits(evs.drop_last());
    }
}

/// Actions of a prefix are a prefix of the actions, and a prefix of an
/// answered run is answered.
proof fn lemma_prefix(evs: Seq<WifiEvent>, m: int)
    requires
        0 <= m <= evs.len(),
    ensures
        wifi_actions_of(evs.take(m)) == wifi_actions_of(evs).take(m + 1),
        answered_run(evs) ==> answered_run(evs.take(m)),
    decreases evs.len() - m,
{
    lemma_actions_len(evs);
    if m == evs.len() {
        assert(evs.take(m) =~= evs);
        assert(wifi_actions_of(evs).take(m + 1) =~= wifi_actions_of(evs));
    } else {
        let pre = evs.drop_last();
        lemma_prefix(pre, m);
        assert(pre.take(m) =~= evs.take(m));
        assert(wifi_actions_of(evs).drop_last() =~= wifi_actions_of(pre));
        assert(wifi_actions_of(pre).take(m + 1) =~= wifi_actions_of(evs).take(m + 1));
    }
}

/// Action issued right after event `k` of an answered run, from the phase
/// that the run had reached before it.
proof fn lemma_action_at(evs: Seq<WifiEvent>, k: int)
    requires
        0 <= k < evs.len(),
        answered_run(evs),
    ensures
        wifi_actions_of(evs)[k] == awaited_action(wifi_phase_after(evs.take(k))),
        wifi_actions_of(evs)[k + 1] == wifi_step(wifi_phase_after(evs.take(k)), evs[k]).1,
        wifi_actions_of(evs)[k + 1] == awaited_action(wifi_step(wifi_phase_after(evs.take(k)), evs[k]).0),
        wifi_phase_after(evs.take(k + 1)) == wifi_step(wifi_phase_after(evs.take(k)), evs[k]).0,
        answers(wifi_actions_of(evs)[k], evs[k]),
{
    lemma_actions_len(evs);
    lemma_prefix(evs, k);
    lemma_prefix(evs, k + 1);
    lemma_actions_len(evs.take(k));
    lemma_answered_run_awaits(evs.take(k));
    lemma_answered_run_awaits(evs.take(k + 1));
    let t = evs.take(k + 1);
    assert(t.drop_last() =~= evs.take(k));
    assert(t.last() == evs[k]);
    assert(wifi_actions_of(evs)[k] == wifi_actions_of(evs).take(k + 1)[k]);
    assert(wifi_actions_of(evs)[k + 1] == wifi_actions_of(evs).take(k + 2)[k + 1]);
}

/// The supervisor never stops: in every answered run its last action is
/// one that some event answers, never `Wait`. After a disassociation it
/// schedules the reconnect delay, and once that delay has elapsed a connect
/// request follows with no further delay, within one more answered action
/// (two if the radio has to be started first). A failed connect schedules
/// the same delay, never a longer one, and leads back to the top of the
/// loop.
pub proof fn lemma_reconnects_after_disassociation(evs: Seq<WifiEvent>, i: int)
    requires
        answered_run(evs),
        0 <= i < evs.len(),
    ensures
        wifi_actions_of(evs).last() != WifiAction::Wait,
        ({
            let acts = wifi_actions_of(evs);
            &&& evs[i] == WifiEvent::Disassociated ==> {
                &&& acts[i + 1] == WifiAction::Delay(RECONNECT_DELAY_MS)
                &&& i + 1 < evs.len() ==> acts[i + 2] == WifiAction::QueryStarted
                &&& i + 2 < evs.len() ==> (acts[i + 3] == WifiAction::Connect
                    || acts[i + 3] == WifiAction::ConfigureAndStart)
                &&& i + 3 < evs.len() && acts[i + 3] == WifiAction::ConfigureAndStart
                    ==> acts[i + 4] == WifiAction::Connect
            }
            &&& evs[i] == WifiEvent::ConnectFailed ==> {
                &&& acts[i + 1] == WifiAction::Delay(RECONNECT_DELAY_MS)
                &&& i + 1 < evs.len() ==> acts[i + 2] == WifiAction::QueryAssociation
            }
        }),
{
    lemma_answered_run_awaits(evs);
    lemma_action_at(evs, i);
    if i + 1 < evs.len() {
        lemma_action_at(evs, i + 1);
    }
    if i + 2 < evs.len() {
        lemma_action_at(evs, i + 2);
    }
    if i + 3 < evs.len() {
        lemma_action_at(evs, i + 3);
    }
}

} // verus!
