//! Task admission (at most a few concurrent tasks per peer, a host-wide cap
//! across peers). Acquire counts one task for a peer; the guard's release
//! gives it back.

use vstd::prelude::*;

use crate::tally::{after_acquire, after_release, count_of, release_undoes_acquire, CapHit, PeerTally};

verus! {

/// Concurrent tasks one peer may hold.
pub const TASKS_PER_PEER_MAX: u32 = 4;
/// Concurrent tasks across all peers (guards the host against process exhaustion).
pub const TASKS_TOTAL_MAX: u32 = 32;

/// Which cap refused a task.
#[derive(Debug, Clone, Copy, PartialEq, Eq)]
pub enum TaskCapKind {
    PerPeer,
    Total,
}

/// Host-wide task admission counts.
pub struct TaskGate {
    tally: PeerTally,
}

impl TaskGate {
    /// Counts are well formed and within both caps.
    pub closed spec fn wf(&self) -> bool {
        &&& self.tally.wf()
        &&& self.tally.total() <= TASKS_TOTAL_MAX
        &&& forall|p: Seq<char>| #[trigger] self.tally.counts().contains_key(p) ==> self.tally.counts()[p] <= TASKS_PER_PEER_MAX
    }

    /// Tasks held per peer.
    pub closed spec fn counts(&self) -> Map<Seq<char>, nat> {
        self.tally.counts()
    }

    /// Tasks held in total.
    pub closed spec fn total(&self) -> nat {
        self.tally.total()
    }

    /// An empty gate.
    pub fn new() -> (g: Self)
        ensures
            g.wf(),
            g.counts() == Map::<Seq<char>, nat>::empty(),
            g.total() == 0,
    {
        TaskGate { tally: PeerTally::new() }
    }

    /// Tasks currently held by `peer`.
    pub fn held_by(&self, peer: &str) -> (n: u32)
        requires
            self.wf(),
        ensures
            n as nat == count_of(self.counts(), peer@),
    {
        self.tally.held_by(peer)
    }

    /// Tasks currently held in total.
    pub fn total_held(&self) -> (n: u32)
        ensures
            n as nat == self.total(),
    {
        self.tally.total_held()
    }

    /// Admits one more task for `peer`; the total cap is checked before the
    /// per-peer cap.
    pub fn try_acquire(&mut self, peer: &str) -> (r: Result<(), TaskCapKind>)
        requires
            old(self).wf(),
        ensures
            final(self).wf(),
            old(self).total() >= TASKS_TOTAL_MAX ==> r == Err::<(), TaskCapKind>(TaskCapKind::Total),
            old(self).total() < TASKS_TOTAL_MAX && count_of(old(self).counts(), peer@) >= TASKS_PER_PEER_MAX
                ==> r == Err::<(), TaskCapKind>(TaskCapKind::PerPeer),
            old(self).total() < TASKS_TOTAL_MAX && count_of(old(self).counts(), peer@) < TASKS_PER_PEER_MAX
                ==> r is Ok,
            r is Ok ==> final(self).counts() == after_acquire(old(self).counts(), peer@)
                && final(self).total() == old(self).total() + 1,
            r is Err ==> final(self).counts() == old(self).counts() && final(self).total() == old(self).total(),
    {
        let r = self.tally.try_acquire(peer, TASKS_PER_PEER_MAX, TASKS_TOTAL_MAX);
        proof {
            let m = self.tally.counts();
            assert forall|p: Seq<char>| #[trigger] m.contains_key(p) implies m[p] <= TASKS_PER_PEER_MAX by {
                if r is Ok && p == peer@ {
                    assert(count_of(old(self).tally.counts(), peer@) < TASKS_PER_PEER_MAX);
                } else {
                    assert(old(self).tally.counts().contains_key(p));
                }
            }
        }
        match r {
            Ok(()) => Ok(()),
            Err(CapHit::Total) => Err(TaskCapKind::Total),
            Err(CapHit::PerPeer) => Err(TaskCapKind::PerPeer),
        }
    }

    /// Gives back one task of `peer`.
    pub fn release(&mut self, peer: &str)
        requires
            old(self).wf(),
        ensures
            final(self).wf(),
            final(self).counts() == after_release(old(self).counts(), peer@),
            final(self).total() == if old(self).total() == 0 {
                0
            } else {
                (old(self).total() - 1) as nat
            },
    {
        self.tally.release(peer);
        proof {
            let m = self.tally.counts();
            let o = old(self).tally.counts();
            assert forall|p: Seq<char>| #[trigger] m.contains_key(p) implies m[p] <= TASKS_PER_PEER_MAX by {
                assert(o.contains_key(p));
            }
        }
    }
}

/// One admitted task: holds its peer until released.
pub struct TaskGuard {
    peer: String,
}

impl TaskGuard {
    /// The peer this guard counts against.
    pub closed spec fn peer(&self) -> Seq<char> {
        self.peer@
    }

    /// Admits a task for `peer` on `gate`; on success the guard remembers the peer.
    pub fn acquire(gate: &mut TaskGate, peer: &str) -> (r: Result<TaskGuard, TaskCapKind>)
        requires
            old(gate).wf(),
        ensures
            final(gate).wf(),
            old(gate).total() >= TASKS_TOTAL_MAX ==> r matches Err(TaskCapKind::Total),
            old(gate).total() < TASKS_TOTAL_MAX && count_of(old(gate).counts(), peer@) >= TASKS_PER_PEER_MAX
                ==> r matches Err(TaskCapKind::PerPeer),
            old(gate).total() < TASKS_TOTAL_MAX && count_of(old(gate).counts(), peer@) < TASKS_PER_PEER_MAX
                ==> r is Ok,
            r matches Ok(g) ==> g.peer() == peer@ && final(gate).counts() == after_acquire(old(gate).counts(), peer@)
                && final(gate).total() == old(gate).total() + 1,
            r is Err ==> final(gate).counts() == old(gate).counts() && final(gate).total() == old(gate).total(),
    {
        match gate.try_acquire(peer) {
            Ok(()) => Ok(TaskGuard { peer: peer.to_owned() }),
            Err(kind) => Err(kind),
        }
    }

    /// Ends the task: its admission goes back to `gate`.
    pub fn release(self, gate: &mut TaskGate)
        requires
            old(gate).wf(),
        ensures
            final(gate).wf(),
            final(gate).counts() == after_release(old(gate).counts(), self.peer()),
            final(gate).total() == if old(gate).total() == 0 {
                0
            } else {
                (old(gate).total() - 1) as nat
            },
    {
        gate.release(self.peer.as_str());
    }
}

/// Releasing a task slot just after taking it restores the counts and the
/// total, so every later admission is decided as before.
pub proof fn task_release_undoes_acquire(g: TaskGate, p: Seq<char>)
    ensures
        after_release(after_acquire(g.counts(), p), p) == g.counts(),
        (if g.total() + 1 == 0 {
            0
        } else {
            (g.total() + 1 - 1) as nat
        }) == g.total(),
{
    g.tally.counts_are_positive();
    release_undoes_acquire(g.counts(), g.total(), p);
}

} // verus!
