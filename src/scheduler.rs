//! Pacing of the main loop: a fixed delay before each session attempt and a
//! fixed delay after each one, whatever its outcome. No attempt limit, no
//! backoff growth: the loop runs forever.

use vstd::prelude::*;
use crate::config::{PRE_ATTEMPT_DELAY_MS, POST_ATTEMPT_DELAY_MS};

verus! {

#[derive(Clone, Copy, Debug, PartialEq, Eq, Structural)]
pub enum CyclePhase {
    /// Waiting out the delay before the next attempt.
    BeforeAttempt,
    /// One attempt is running.
    Attempting,
    /// Waiting out the delay after the last attempt.
    AfterAttempt,
}

#[derive(Clone, Copy, Debug, PartialEq, Eq, Structural)]
pub enum CycleEvent {
    DelayElapsed,
    /// The running attempt has finished and released its resources.
    AttemptFinished,
}

#[derive(Clone, Copy, Debug, PartialEq, Eq, Structural)]
pub enum CycleAction {
    /// Sleep this many milliseconds, then report `DelayElapsed`.
    Delay(u64),
    /// Run one session attempt to its end, then report `AttemptFinished`.
    StartAttempt,
    /// Keep waiting for what is in progress.
    Wait,
}

/// The transition of the main loop. An event that the phase does not await
/// changes nothing.
pub open spec fn cycle_step(phase: CyclePhase, ev: CycleEvent) -> (CyclePhase, CycleAction) {
    match (phase, ev) {
        (CyclePhase::BeforeAttempt, CycleEvent::DelayElapsed) =>
            (CyclePhase::Attempting, CycleAction::StartAttempt),
        (CyclePhase::Attempting, CycleEvent::AttemptFinished) =>
            (CyclePhase::AfterAttempt, CycleAction::Delay(POST_ATTEMPT_DELAY_MS)),
        (CyclePhase::AfterAttempt, CycleEvent::DelayElapsed) =>
            (CyclePhase::BeforeAttempt, CycleAction::Delay(PRE_ATTEMPT_DELAY_MS)),
        _ => (phase, CycleAction::Wait),
    }
}

pub open spec fn first_cycle_action() -> CycleAction {
    CycleAction::Delay(PRE_ATTEMPT_DELAY_MS)
}

/// The main loop's scheduler.
pub struct RetryScheduler {
    pub phase: CyclePhase,
}

impl RetryScheduler {
    /// A scheduler that has run no attempt yet, and its first action: the
    /// delay before the first attempt.
    pub fn new() -> (r: (RetryScheduler, CycleAction))
        ensures
            r.0.phase == CyclePhase::BeforeAttempt,
            r.1 == first_cycle_action(),
    {
        (RetryScheduler { phase: CyclePhase::BeforeAttempt }, CycleAction::Delay(PRE_ATTEMPT_DELAY_MS))
    }

    /// Takes what just happened and returns what to do next.
    pub fn on_event(&mut self, ev: CycleEvent) -> (a: CycleAction)
        ensures
            (final(self).phase, a) == cycle_step(old(self).phase, ev),
    {
        match (self.phase, ev) {
            (CyclePhase::BeforeAttempt, CycleEvent::DelayElapsed) => {
                self.phase = CyclePhase::Attempting;
                CycleAction::StartAttempt
            },
            (CyclePhase::Attempting, CycleEvent::AttemptFinished) => {
                self.phase = CyclePhase::AfterAttempt;
                CycleAction::Delay(POST_ATTEMPT_DELAY_MS)
            },
            (CyclePhase::AfterAttempt, CycleEvent::DelayElapsed) => {
                self.phase = CyclePhase::BeforeAttempt;
                CycleAction::Delay(PRE_ATTEMPT_DELAY_MS)
            },
            _ => CycleAction::Wait,
        }
    }
}

pub open spec fn cycle_phase_after(evs: Seq<CycleEvent>) -> CyclePhase
    decreases evs.len(),
{
    if evs.len() == 0 {
        CyclePhase::BeforeAttempt
    } else {
        cycle_step(cycle_phase_after(evs.drop_last()), evs.last()).0
    }
}

/// Every action the scheduler issues while it takes `evs` in order, its
/// first action included.
pub open spec fn cycle_actions_of(evs: Seq<CycleEvent>) -> Seq<CycleAction>
    decreases evs.len(),
{
    if evs.len() == 0 {
        seq![first_cycle_action()]
    } else {
        cycle_actions_of(evs.drop_last()).push(
            cycle_step(cycle_phase_after(evs.drop_last()), evs.last()).1)
    }
}

/// Whether `acts` holds an attempt start.
pub open spec fn has_started(acts: Seq<CycleAction>) -> bool {
    exists|i: int| 0 <= i < acts.len() && acts[i] == CycleAction::StartAttempt
}

/// Milliseconds of delay in `acts` after its last attempt start (all of
/// them if it holds none).
pub open spec fn delay_since_start(acts: Seq<CycleAction>) -> int
    decreases acts.len(),
{
    if acts.len() == 0 {
        0
    } else {
        match acts.last() {
            CycleAction::StartAttempt => 0,
            CycleAction::Delay(ms) => delay_since_start(acts.drop_last()) + ms,
            CycleAction::Wait => delay_since_start(acts.drop_last()),
        }
    }
}

/// The delay owed before an attempt start: the pre-attempt delay before the
/// first, the post-attempt and pre-attempt delays after any other.
pub open spec fn required_gap(started: bool) -> int {
    if started {
        POST_ATTEMPT_DELAY_MS + PRE_ATTEMPT_DELAY_MS
    } else {
        PRE_ATTEMPT_DELAY_MS as int
    }
}

/// Every attempt start in `acts` comes after at least the owed delay since
/// the previous start (or since the beginning).
pub open spec fn well_paced(acts: Seq<CycleAction>) -> bool
    decreases acts.len(),
{
    if acts.len() == 0 {
        true
    } else {
        &&& well_paced(acts.drop_last())
        &&& acts.last() == CycleAction::StartAttempt ==>
            delay_since_start(acts.drop_last()) >= required_gap(has_started(acts.drop_last()))
    }
}

proof fn lemma_has_started_push(acts: Seq<CycleAction>, a: CycleAction)
    ensures
        has_started(acts.push(a)) == (has_started(acts) || a == CycleAction::StartAttempt),
{
    let p = acts.push(a);
    if has_started(acts) {
        let i = choose|i: int| 0 <= i < acts.len() && acts[i] == CycleAction::StartAttempt;
        assert(p[i] == acts[i]);
    }
    if a == CycleAction::StartAttempt {
        assert(p[acts.len() as int] == a);
    }
    if has_started(p) {
        let i = choose|i: int| 0 <= i < p.len() && p[i] == CycleAction::StartAttempt;
        if i < acts.len() {
            assert(acts[i] == p[i]);
        }
    }
}

proof fn lemma_pacing_invariant(evs: Seq<CycleEvent>)
    ensures
        well_paced(cycle_actions_of(evs)),
        cycle_phase_after(evs) == CyclePhase::BeforeAttempt ==> delay_since_start(cycle_actions_of(evs))
            >= required_gap(has_started(cycle_actions_of(evs))),
        cycle_phase_after(evs) == CyclePhase::AfterAttempt ==> delay_since_start(cycle_actions_of(evs))
            >= POST_ATTEMPT_DELAY_MS && has_started(cycle_actions_of(evs)),
        cycle_phase_after(evs) == CyclePhase::Attempting ==> has_started(cycle_actions_of(evs)),
        delay_since_start(cycle_actions_of(evs)) >= 0,
    decreases evs.len(),
{
    let acts = cycle_actions_of(evs);
    if evs.len() == 0 {
        assert(acts.drop_last() =~= Seq::<CycleAction>::empty());
        assert(delay_since_start(acts.drop_last()) == 0);
        assert(!has_started(acts));
        assert(well_paced(acts.drop_last()));
    } else {
        let pre = evs.drop_last();
        lemma_pacing_invariant(pre);
        let a = cycle_step(cycle_phase_after(pre), evs.last()).1;
        assert(acts == cycle_actions_of(pre).push(a));
        assert(acts.drop_last() =~= cycle_actions_of(pre));
        lemma_has_started_push(cycle_actions_of(pre), a);
        assert(acts.last() == a);
    }
}

/// Before the first attempt the scheduler has delayed at least the
/// pre-attempt delay, and between the end of one attempt and the start of
/// the next at least the post-attempt delay (and the pre-attempt delay on
/// top), for every series of events.
pub proof fn lemma_attempts_are_spaced(evs: Seq<CycleEvent>)
    ensures
        well_paced(cycle_actions_of(evs)),
{
    lemma_pacing_invariant(evs);
}

/// Number of attempt starts among `acts`.
pub open spec fn starts(acts: Seq<CycleAction>) -> nat
    decreases acts.len(),
{
    if acts.len() == 0 {
        0
    } else {
        starts(acts.drop_last()) + if acts.last() == CycleAction::StartAttempt { 1nat } else { 0nat }
    }
}

/// Number of post-attempt delays among `acts`: one for each attempt that
/// the scheduler has seen finish.
pub open spec fn attempts_ended(acts: Seq<CycleAction>) -> nat
    decreases acts.len(),
{
    if acts.len() == 0 {
        0
    } else {
        attempts_ended(acts.drop_last()) + if acts.last() == CycleAction::Delay(POST_ATTEMPT_DELAY_MS) {
            1nat
        } else {
            0nat
        }
    }
}

/// At most one attempt runs at a time: every attempt started has been seen
/// to finish, but the one running now, so the shared buffers are never
/// handed to two attempts at once.
pub proof fn lemma_one_attempt_at_a_time(evs: Seq<CycleEvent>)
    ensures
        starts(cycle_actions_of(evs)) == attempts_ended(cycle_actions_of(evs))
            + if cycle_phase_after(evs) == CyclePhase::Attempting { 1nat } else { 0nat },
    decreases evs.len(),
{
    let acts = cycle_actions_of(evs);
    if evs.len() == 0 {
        assert(acts.drop_last() =~= Seq::<CycleAction>::empty());
        assert(starts(acts.drop_last()) == 0);
        assert(attempts_ended(acts.drop_last()) == 0);
    } else {
        lemma_one_attempt_at_a_time(evs.drop_last());
        assert(acts.drop_last() =~= cycle_actions_of(evs.drop_last()));
        assert(acts.last() == cycle_step(cycle_phase_after(evs.drop_last()), evs.last()).1);
    }
}

} // verus!
