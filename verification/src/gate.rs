//! Connection admission: one live connection per peer and a configurable total.

use vstd::prelude::*;

use crate::tally::{after_acquire, after_release, count_of, release_undoes_acquire, CapHit, PeerTally};

verus! {

/// Concurrent connections one peer may hold.
pub const MAX_CONNS_PER_PEER: u32 = 1;

/// Caps in force for an admission.
#[derive(Debug, Clone, Copy, PartialEq, Eq)]
pub struct GateLimits {
    pub per_peer: u32,
    pub total: u32,
}

impl GateLimits {
    /// Caps from the configured total (at least one); per peer is fixed.
    pub fn from_config(total: u32) -> (l: Self)
        ensures
            l.per_peer == MAX_CONNS_PER_PEER,
            l.total == if total >= 1 { total } else { 1 },
    {
        GateLimits { per_peer: MAX_CONNS_PER_PEER, total: if total >= 1 { total } else { 1 } }
    }
}

/// Which cap refused a connection.
#[derive(Debug, Clone, Copy, PartialEq, Eq)]
pub enum ConnLimit {
    Total,
    PerPeer,
}

impl ConnLimit {
    /// Audit label of the cap ("total" or "per-peer").
    pub fn label(&self) -> (s: &'static str)
        ensures
            *self == ConnLimit::Total ==> s@ == "total"@,
            *self == ConnLimit::PerPeer ==> s@ == "per-peer"@,
    {
        match self {
            ConnLimit::Total => "total",
            ConnLimit::PerPeer => "per-peer",
        }
    }
}

/// Refusal of a connection: the cap that was reached, for the denied frame.
#[derive(Debug, Clone, Copy, PartialEq, Eq)]
pub struct ConnCapReached {
    pub cap: u32,
}

/// Live connection counts.
pub struct ConnGate {
    tally: PeerTally,
}

impl ConnGate {
    /// Counts are well formed.
    pub closed spec fn wf(&self) -> bool {
        self.tally.wf()
    }

    /// Connections held per peer.
    pub closed spec fn counts(&self) -> Map<Seq<char>, nat> {
        self.tally.counts()
    }

    /// Connections held in total.
    pub closed spec fn total(&self) -> nat {
        self.tally.total()
    }

    /// An empty gate.
    pub fn new() -> (g: Self)
        ensures
            g.wf(),
            g.counts() == Map::<Seq<char>, nat>::empty(),
            g.total() == 0,
    {
        ConnGate { tally: PeerTally::new() }
    }

    /// Connections currently held by `peer`.
    pub fn held_by(&self, peer: &str) -> (n: u32)
        requires
            self.wf(),
        ensures
            n as nat == count_of(self.counts(), peer@),
    {
        self.tally.held_by(peer)
    }

    /// Admits one connection for `peer` under `limits`; the total cap is
    /// checked first. A refusal names the cap and which one it was.
    pub fn try_acquire(&mut self, peer: &str, limits: GateLimits) -> (r: Result<(), (ConnCapReached, ConnLimit)>)
        requires
            old(self).wf(),
        ensures
            final(self).wf(),
            old(self).total() >= limits.total
                ==> r == Err::<(), (ConnCapReached, ConnLimit)>((ConnCapReached { cap: limits.total }, ConnLimit::Total)),
            old(self).total() < limits.total && count_of(old(self).counts(), peer@) >= limits.per_peer
                ==> r == Err::<(), (ConnCapReached, ConnLimit)>((ConnCapReached { cap: limits.per_peer }, ConnLimit::PerPeer)),
            old(self).total() < limits.total && count_of(old(self).counts(), peer@) < limits.per_peer ==> r is Ok,
            r is Ok ==> final(self).counts() == after_acquire(old(self).counts(), peer@)
                && final(self).total() == old(self).total() + 1,
            r is Err ==> final(self).counts() == old(self).counts() && final(self).total() == old(self).total(),
    {
        match self.tally.try_acquire(peer, limits.per_peer, limits.total) {
            Ok(()) => Ok(()),
            Err(CapHit::Total) => Err((ConnCapReached { cap: limits.total }, ConnLimit::Total)),
            Err(CapHit::PerPeer) => Err((ConnCapReached { cap: limits.per_peer }, ConnLimit::PerPeer)),
        }
    }

    /// Gives back one connection of `peer`.
    pub fn release(&mut self, peer: &str)
        requires
            old(self).wf(),
        ensures
            final(self).wf(),
            final(self).counts() == after_release(old(self).counts(), peer@),
            final(self).total() == if old(self).total() == 0 {
                0
            } else {
                (old(self).total() - 1) as nat
            },
    {
        self.tally.release(peer);
    }
}

/// One admitted connection: holds its peer until released.
pub struct ConnGuard {
    peer: String,
}

impl ConnGuard {
    /// The peer this guard counts against.
    pub closed spec fn peer(&self) -> Seq<char> {
        self.peer@
    }

    /// Admits a connection for `peer` on `gate` under `limits`.
    pub fn acquire(gate: &mut ConnGate, peer: &str, limits: GateLimits) -> (r: Result<ConnGuard, (ConnCapReached, ConnLimit)>)
        requires
            old(gate).wf(),
        ensures
            final(gate).wf(),
            old(gate).total() >= limits.total
                ==> (r matches Err((c, ConnLimit::Total)) && c.cap == limits.total),
            old(gate).total() < limits.total && count_of(old(gate).counts(), peer@) >= limits.per_peer
                ==> (r matches Err((c, ConnLimit::PerPeer)) && c.cap == limits.per_peer),
            old(gate).total() < limits.total && count_of(old(gate).counts(), peer@) < limits.per_peer ==> r is Ok,
            r matches Ok(g) ==> g.peer() == peer@ && final(gate).counts() == after_acquire(old(gate).counts(), peer@)
                && final(gate).total() == old(gate).total() + 1,
            r is Err ==> final(gate).counts() == old(gate).counts() && final(gate).total() == old(gate).total(),
    {
        match gate.try_acquire(peer, limits) {
            Ok(()) => Ok(ConnGuard { peer: peer.to_owned() }),
            Err(e) => Err(e),
        }
    }

    /// Ends the connection: its admission goes back to `gate`.
    pub fn release(self, gate: &mut ConnGate)
        requires
            old(gate).wf(),
        ensures
            final(gate).wf(),
            final(gate).counts() == after_release(old(gate).counts(), self.peer()),
            final(gate).total() == if old(gate).total() == 0 {
                0
            } else {
                (old(gate).total() - 1) as nat
            },
    {
        gate.release(self.peer.as_str());
    }
}

/// Releasing a connection just after taking it restores the counts and the
/// total, so every later admission is decided as before.
pub proof fn conn_release_undoes_acquire(g: ConnGate, p: Seq<char>)
    ensures
        after_release(after_acquire(g.counts(), p), p) == g.counts(),
        (if g.total() + 1 == 0 {
            0
        } else {
            (g.total() + 1 - 1) as nat
        }) == g.total(),
{
    g.tally.counts_are_positive();
    release_undoes_acquire(g.counts(), g.total(), p);
}

} // verus!
