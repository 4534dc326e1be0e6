//! ConnectivityGate, which holds the main flow until the network is usable: first the
//! radio link must be up, then an address lease must be present. Each check
//! that fails is repeated after a fixed poll interval, indefinitely.

use vstd::prelude::*;
use crate::config::{Ipv4Addr, LINK_POLL_INTERVAL_MS};

verus! {

/// What one poll of the network stack reads.
#[derive(Clone, Copy, Debug, PartialEq, Eq, Structural)]
pub struct LinkSnapshot {
    pub link_up: bool,
    /// The leased IPv4 address, if one has been obtained.
    pub lease: Option<Ipv4Addr>,
}

#[derive(Clone, Copy, Debug, PartialEq, Eq, Structural)]
pub enum GatePhase {
    AwaitingLink,
    AwaitingLease,
    /// The network is usable; it holds the leased address.
    Open(Ipv4Addr),
}

#[derive(Clone, Copy, Debug, PartialEq, Eq, Structural)]
pub enum GateAction {
    /// Sleep this many milliseconds and poll again.
    PollAfter(u64),
    /// Go on: the network is usable at this address.
    Proceed(Ipv4Addr),
}

/// One poll. Once the link is up the lease is checked at once, on the same
/// reading; the link is not checked again after that.
pub open spec fn gate_step(phase: GatePhase, s: LinkSnapshot) -> (GatePhase, GateAction) {
    match phase {
        GatePhase::AwaitingLink => if !s.link_up {
            (GatePhase::AwaitingLink, GateAction::PollAfter(LINK_POLL_INTERVAL_MS))
        } else {
            match s.lease {
                Some(a) => (GatePhase::Open(a), GateAction::Proceed(a)),
                None => (GatePhase::AwaitingLease, GateAction::PollAfter(LINK_POLL_INTERVAL_MS)),
            }
        },
        GatePhase::AwaitingLease => match s.lease {
            Some(a) => (GatePhase::Open(a), GateAction::Proceed(a)),
            None => (GatePhase::AwaitingLease, GateAction::PollAfter(LINK_POLL_INTERVAL_MS)),
        },
        GatePhase::Open(a) => (GatePhase::Open(a), GateAction::Proceed(a)),
    }
}

pub struct ConnectivityGate {
    pub phase: GatePhase,
}

impl ConnectivityGate {
    pub fn new() -> (r: ConnectivityGate)
        ensures
            r.phase == GatePhase::AwaitingLink,
    {
        ConnectivityGate { phase: GatePhase::AwaitingLink }
    }

    /// Takes one reading of the stack and says whether to go on or to poll
    /// again.
    pub fn observe(&mut self, s: LinkSnapshot) -> (a: GateAction)
        ensures
            (final(self).phase, a) == gate_step(old(self).phase, s),
    {
        match self.phase {
            GatePhase::AwaitingLink => {
                if !s.link_up {
                    GateAction::PollAfter(LINK_POLL_INTERVAL_MS)
                } else {
                    match s.lease {
                        Some(a) => {
                            self.phase = GatePhase::Open(a);
                            GateAction::Proceed(a)
                        },
                        None => {
                            self.phase = GatePhase::AwaitingLease;
                            GateAction::PollAfter(LINK_POLL_INTERVAL_MS)
                        },
                    }
                }
            },
            GatePhase::AwaitingLease => match s.lease {
                Some(a) => {
                    self.phase = GatePhase::Open(a);
                    GateAction::Proceed(a)
                },
                None => GateAction::PollAfter(LINK_POLL_INTERVAL_MS),
            },
            GatePhase::Open(a) => GateAction::Proceed(a),
        }
    }
}

/// Phase of a ConnectivityGate after the readings `ss`, in order.
pub open spec fn gate_phase_after(ss: Seq<LinkSnapshot>) -> GatePhase
    decreases ss.len(),
{
    if ss.len() == 0 {
        GatePhase::AwaitingLink
    } else {
        gate_step(gate_phase_after(ss.drop_last()), ss.last()).0
    }
}

/// Polls a ConnectivityGate over a series of readings and returns the index of the
/// reading on which it opened, with the leased address, or `None` if it is
/// still closed after all of them.
pub fn run_gate(ss: &Vec<LinkSnapshot>) -> (r: Option<(usize, Ipv4Addr)>)
    ensures
        match r {
            Some((k, a)) => k < ss@.len() && gate_phase_after(ss@.take(k as int + 1)) == GatePhase::Open(a)
                && !(gate_phase_after(ss@.take(k as int)) is Open),
            None => !(gate_phase_after(ss@) is Open),
        },
{
    let mut gate = ConnectivityGate::new();
    let mut i: usize = 0;
    while i < ss.len()
        invariant
            i <= ss.len(),
            gate.phase == gate_phase_after(ss@.take(i as int)),
            !(gate.phase is Open),
        decreases ss.len() - i,
    {
        assert(ss@.take(i as int + 1).drop_last() =~= ss@.take(i as int));
        match gate.observe(ss[i]) {
            GateAction::Proceed(a) => {
                return Some((i, a));
            },
            GateAction::PollAfter(_) => {},
        }
        i = i + 1;
    }
    assert(ss@.take(ss.len() as int) =~= ss@);
    None
}

proof fn lemma_gate_history(ss: Seq<LinkSnapshot>)
    ensures
        gate_phase_after(ss) == GatePhase::AwaitingLease ==> exists|i: int| 0 <= i < ss.len() && ss[i].link_up,
        gate_phase_after(ss) is Open ==> exists|i: int, j: int| 0 <= i <= j < ss.len() && ss[i].link_up
            && ss[j].lease == Some(gate_phase_after(ss)->Open_0),
    decreases ss.len(),
{
    if ss.len() > 0 {
        let pre = ss.drop_last();
        lemma_gate_history(pre);
        let n = ss.len() - 1;
        assert(ss.last() == ss[n]);
        match gate_phase_after(pre) {
            GatePhase::AwaitingLink => {
                if ss[n].link_up {
                    assert(0 <= n <= n < ss.len() && ss[n].link_up);
                }
            },
            GatePhase::AwaitingLease => {
                let i = choose|i: int| 0 <= i < pre.len() && pre[i].link_up;
                assert(ss[i] == pre[i]);
            },
            GatePhase::Open(_) => {
                let (i, j) = choose|i: int, j: int| 0 <= i <= j < pre.len() && pre[i].link_up
                    && pre[j].lease == Some(gate_phase_after(pre)->Open_0);
                assert(ss[i] == pre[i] && ss[j] == pre[j]);
            },
        }
    }
}

proof fn lemma_gate_stays_open(ss: Seq<LinkSnapshot>, k: int)
    requires
        0 <= k <= ss.len(),
        gate_phase_after(ss.take(k)) is Open,
    ensures
        gate_phase_after(ss) is Open,
    decreases ss.len() - k,
{
    if k < ss.len() {
        assert(ss.take(k + 1).drop_last() =~= ss.take(k));
        lemma_gate_stays_open(ss, k + 1);
    } else {
        assert(ss.take(k) =~= ss);
    }
}

/// ConnectivityGate opens only after a reading with the link up, followed (on that
/// reading or later) by a reading with a lease, and it then holds that
/// lease's address. It opens at the latest on the first reading where link
/// and lease are present together, and stays open from then on.
pub proof fn lemma_gate_opens_when_usable(ss: Seq<LinkSnapshot>)
    ensures
        gate_phase_after(ss) is Open ==> exists|i: int, j: int| 0 <= i <= j < ss.len() && ss[i].link_up
            && ss[j].lease == Some(gate_phase_after(ss)->Open_0),
        forall|k: int| 0 <= k < ss.len() && ss[k].link_up && ss[k].lease is Some
            ==> gate_phase_after(ss.take(k + 1)) is Open,
        (exists|k: int| 0 <= k < ss.len() && ss[k].link_up && ss[k].lease is Some)
            ==> gate_phase_after(ss) is Open,
{
    lemma_gate_history(ss);
    assert forall|k: int| 0 <= k < ss.len() && ss[k].link_up && ss[k].lease is Some
        implies gate_phase_after(ss.take(k + 1)) is Open by {
        assert(ss.take(k + 1).drop_last() =~= ss.take(k));
        assert(ss.take(k + 1).last() == ss[k]);
    }
    if exists|k: int| 0 <= k < ss.len() && ss[k].link_up && ss[k].lease is Some {
        let k = choose|k: int| 0 <= k < ss.len() && ss[k].link_up && ss[k].lease is Some;
        lemma_gate_stays_open(ss, k + 1);
    }
}

} // verus!
