//! Per-peer and total admission counting shared by the task gate and the
//! connection gate: a list of (peer, held) rows without repeated peers and
//! without zero rows, plus a running total.

use vstd::prelude::*;

verus! {

/// Which cap refused an admission.
#[derive(Debug, Clone, Copy, PartialEq, Eq)]
pub enum CapHit {
    PerPeer,
    Total,
}

struct PeerRow {
    peer: String,
    held: u32,
}

/// Admission counts per peer and in total.
pub struct PeerTally {
    rows: Vec<PeerRow>,
    total: u32,
}

/// Count held by `p` in a map of counts (absent = 0).
pub open spec fn count_of(m: Map<Seq<char>, nat>, p: Seq<char>) -> nat {
    if m.contains_key(p) {
        m[p]
    } else {
        0
    }
}

/// Counts after one more admission for `p`.
pub open spec fn after_acquire(m: Map<Seq<char>, nat>, p: Seq<char>) -> Map<Seq<char>, nat> {
    m.insert(p, count_of(m, p) + 1)
}

/// Counts after one release for `p`: the row drops out when it reaches zero;
/// a release for a peer without a row changes nothing.
pub open spec fn after_release(m: Map<Seq<char>, nat>, p: Seq<char>) -> Map<Seq<char>, nat> {
    if m.contains_key(p) {
        if m[p] <= 1 {
            m.remove(p)
        } else {
            m.insert(p, (m[p] - 1) as nat)
        }
    } else {
        m
    }
}

/// Every key of the count map holds at least one admission.
pub open spec fn counts_positive(m: Map<Seq<char>, nat>) -> bool {
    forall|p: Seq<char>| #[trigger] m.contains_key(p) ==> m[p] >= 1
}

spec fn held_in(s: Seq<PeerRow>, p: Seq<char>) -> nat
    decreases s.len(),
{
    if s.len() == 0 {
        0
    } else if s.last().peer@ == p {
        s.last().held as nat
    } else {
        held_in(s.drop_last(), p)
    }
}

spec fn rows_distinct(s: Seq<PeerRow>) -> bool {
    forall|i: int, j: int| 0 <= i < s.len() && 0 <= j < s.len() && i != j ==> s[i].peer@ != s[j].peer@
}

spec fn rows_positive(s: Seq<PeerRow>) -> bool {
    forall|i: int| 0 <= i < s.len() ==> #[trigger] s[i].held >= 1
}

proof fn lemma_held_absent(s: Seq<PeerRow>, p: Seq<char>)
    requires
        forall|i: int| 0 <= i < s.len() ==> #[trigger] s[i].peer@ != p,
    ensures
        held_in(s, p) == 0,
    decreases s.len(),
{
    if s.len() > 0 {
        assert(s.last().peer@ != p);
        lemma_held_absent(s.drop_last(), p);
    }
}

proof fn lemma_held_present(s: Seq<PeerRow>, i: int)
    requires
        rows_distinct(s),
        0 <= i < s.len(),
    ensures
        held_in(s, s[i].peer@) == s[i].held,
    decreases s.len(),
{
    if i < s.len() - 1 {
        assert(s.last().peer@ != s[i].peer@);
        assert(s.drop_last()[i] == s[i]);
        lemma_held_present(s.drop_last(), i);
    }
}

proof fn lemma_held_positive(s: Seq<PeerRow>, p: Seq<char>)
    requires
        rows_distinct(s),
        rows_positive(s),
    ensures
        held_in(s, p) > 0 <==> exists|i: int| 0 <= i < s.len() && s[i].peer@ == p,
    decreases s.len(),
{
    if s.len() > 0 {
        lemma_held_positive(s.drop_last(), p);
        let n = s.len() - 1;
        if s.last().peer@ == p {
            assert(s[n].held >= 1);
        } else {
            if exists|i: int| 0 <= i < s.len() && s[i].peer@ == p {
                let i = choose|i: int| 0 <= i < s.len() && s[i].peer@ == p;
                assert(i != n);
                assert(s.drop_last()[i] == s[i]);
            }
            if exists|i: int| 0 <= i < s.drop_last().len() && s.drop_last()[i].peer@ == p {
                let i = choose|i: int| 0 <= i < s.drop_last().len() && s.drop_last()[i].peer@ == p;
                assert(s[i] == s.drop_last()[i]);
            }
        }
    }
}

proof fn lemma_held_update(s: Seq<PeerRow>, i: int, r: PeerRow, p: Seq<char>)
    requires
        rows_distinct(s),
        0 <= i < s.len(),
        r.peer@ == s[i].peer@,
    ensures
        held_in(s.update(i, r), p) == if p == r.peer@ {
            r.held as nat
        } else {
            held_in(s, p)
        },
    decreases s.len(),
{
    let u = s.update(i, r);
    if i == s.len() - 1 {
        assert(u.drop_last() =~= s.drop_last());
    } else {
        assert(u.drop_last() =~= s.drop_last().update(i, r));
        assert(s.last().peer@ != s[i].peer@);
        lemma_held_update(s.drop_last(), i, r, p);
    }
}

proof fn lemma_held_remove(s: Seq<PeerRow>, i: int, p: Seq<char>)
    requires
        rows_distinct(s),
        0 <= i < s.len(),
    ensures
        held_in(s.remove(i), p) == if p == s[i].peer@ {
            0
        } else {
            held_in(s, p)
        },
    decreases s.len(),
{
    let u = s.remove(i);
    if i == s.len() - 1 {
        assert(u =~= s.drop_last());
        if p == s[i].peer@ {
            assert forall|k: int| 0 <= k < u.len() implies #[trigger] u[k].peer@ != p by {
                assert(u[k] == s[k]);
            }
            lemma_held_absent(u, p);
        }
    } else {
        assert(u.drop_last() =~= s.drop_last().remove(i));
        assert(s.last().peer@ != s[i].peer@);
        assert(u.last() == s.last());
        lemma_held_remove(s.drop_last(), i, p);
    }
}

impl PeerTally {
    /// The rows name each peer once and hold at least one admission each.
    pub closed spec fn wf(&self) -> bool {
        rows_distinct(self.rows@) && rows_positive(self.rows@)
    }

    /// Admissions held per peer (peers with none are absent).
    pub closed spec fn counts(&self) -> Map<Seq<char>, nat> {
        Map::new(|p: Seq<char>| held_in(self.rows@, p) > 0, |p: Seq<char>| held_in(self.rows@, p))
    }

    /// The running total.
    pub closed spec fn total(&self) -> nat {
        self.total as nat
    }

    /// Every peer in the count map holds at least one admission.
    pub proof fn counts_are_positive(&self)
        ensures
            counts_positive(self.counts()),
    {
    }

    /// An empty tally.
    pub fn new() -> (t: Self)
        ensures
            t.wf(),
            t.counts() == Map::<Seq<char>, nat>::empty(),
            t.total() == 0,
    {
        let t = PeerTally { rows: Vec::new(), total: 0 };
        assert(t.counts() =~= Map::<Seq<char>, nat>::empty());
        t
    }

    fn find(&self, peer: &String) -> (r: Option<usize>)
        requires
            self.wf(),
        ensures
            match r {
                Some(i) => i < self.rows@.len() && self.rows@[i as int].peer@ == peer@,
                None => forall|i: int| 0 <= i < self.rows@.len() ==> #[trigger] self.rows@[i].peer@ != peer@,
            },
    {
        let mut i: usize = 0;
        while i < self.rows.len()
            invariant
                i <= self.rows@.len(),
                forall|k: int| 0 <= k < i ==> #[trigger] self.rows@[k].peer@ != peer@,
            decreases self.rows@.len() - i,
        {
            if self.rows[i].peer == *peer {
                return Some(i);
            }
            i = i + 1;
        }
        None
    }

    /// Admissions currently held by `peer`.
    pub fn held_by(&self, peer: &str) -> (n: u32)
        requires
            self.wf(),
        ensures
            n as nat == count_of(self.counts(), peer@),
    {
        let key = peer.to_owned();
        match self.find(&key) {
            Some(i) => {
                proof {
                    lemma_held_present(self.rows@, i as int);
                }
                self.rows[i].held
            },
            None => {
                proof {
                    lemma_held_absent(self.rows@, peer@);
                }
                0
            },
        }
    }

    /// The running total.
    pub fn total_held(&self) -> (n: u32)
        ensures
            n as nat == self.total(),
    {
        self.total
    }

    /// Admits one more for `peer` unless the total cap or the per-peer cap is
    /// already reached (the total cap is checked first).
    pub fn try_acquire(&mut self, peer: &str, per_peer_cap: u32, total_cap: u32) -> (r: Result<(), CapHit>)
        requires
            old(self).wf(),
        ensures
            final(self).wf(),
            old(self).total() >= total_cap ==> r == Err::<(), CapHit>(CapHit::Total),
            old(self).total() < total_cap && count_of(old(self).counts(), peer@) >= per_peer_cap
                ==> r == Err::<(), CapHit>(CapHit::PerPeer),
            old(self).total() < total_cap && count_of(old(self).counts(), peer@) < per_peer_cap
                ==> r is Ok,
            r is Ok ==> final(self).counts() == after_acquire(old(self).counts(), peer@)
                && final(self).total() == old(self).total() + 1,
            r is Err ==> final(self).counts() == old(self).counts() && final(self).total() == old(self).total(),
    {
        if self.total >= total_cap {
            return Err(CapHit::Total);
        }
        let key = peer.to_owned();
        let found = self.find(&key);
        let ghost before = self.rows@;
        match found {
            Some(i) => {
                proof {
                    lemma_held_present(before, i as int);
                }
                let held = self.rows[i].held;
                if held >= per_peer_cap {
                    return Err(CapHit::PerPeer);
                }
                let row = PeerRow { peer: key, held: held + 1 };
                self.rows.set(i, row);
                self.total = self.total + 1;
                proof {
                    assert(self.rows@ == before.update(i as int, row));
                    assert forall|p: Seq<char>| #![auto] held_in(self.rows@, p) == (if p == peer@ {
                        held as nat + 1
                    } else {
                        held_in(before, p)
                    }) by {
                        lemma_held_update(before, i as int, row, p);
                    }
                    assert(self.counts() =~= after_acquire(old(self).counts(), peer@));
                }
                Ok(())
            },
            None => {
                proof {
                    lemma_held_absent(before, peer@);
                }
                if 0 >= per_peer_cap {
                    return Err(CapHit::PerPeer);
                }
                let row = PeerRow { peer: key, held: 1 };
                self.rows.push(row);
                self.total = self.total + 1;
                proof {
                    assert(self.rows@ == before.push(row));
                    assert forall|p: Seq<char>| #![auto] held_in(self.rows@, p) == (if p == peer@ {
                        1nat
                    } else {
                        held_in(before, p)
                    }) by {
                        assert(self.rows@.drop_last() =~= before);
                    }
                    assert(self.counts() =~= after_acquire(old(self).counts(), peer@));
                }
                Ok(())
            },
        }
    }

    /// Releases one admission for `peer`: the total drops by one (never below
    /// zero) and the peer's row drops by one, leaving when it reaches zero.
    pub fn release(&mut self, peer: &str)
        requires
            old(self).wf(),
        ensures
            final(self).wf(),
            final(self).counts() == after_release(old(self).counts(), peer@),
            final(self).total() == if old(self).total() == 0 {
                0
            } else {
                (old(self).total() - 1) as nat
            },
    {
        self.total = if self.total == 0 {
            0
        } else {
            self.total - 1
        };
        let key = peer.to_owned();
        let found = self.find(&key);
        let ghost before = self.rows@;
        proof {
            lemma_held_positive(before, peer@);
        }
        match found {
            Some(i) => {
                proof {
                    lemma_held_present(before, i as int);
                }
                let held = self.rows[i].held;
                if held <= 1 {
                    self.rows.remove(i);
                    proof {
                        assert(self.rows@ == before.remove(i as int));
                        assert forall|p: Seq<char>| #![auto] held_in(self.rows@, p) == (if p == peer@ {
                            0
                        } else {
                            held_in(before, p)
                        }) by {
                            lemma_held_remove(before, i as int, p);
                        }
                        assert forall|a: int, b: int|
                            0 <= a < self.rows@.len() && 0 <= b < self.rows@.len() && a != b implies
                            self.rows@[a].peer@ != self.rows@[b].peer@ by {
                            let a2 = if a < i { a } else { a + 1 };
                            let b2 = if b < i { b } else { b + 1 };
                            assert(self.rows@[a] == before[a2]);
                            assert(self.rows@[b] == before[b2]);
                        }
                        assert forall|a: int| 0 <= a < self.rows@.len() implies #[trigger] self.rows@[a].held >= 1 by {
                            let a2 = if a < i { a } else { a + 1 };
                            assert(self.rows@[a] == before[a2]);
                        }
                        assert(self.counts() =~= after_release(old(self).counts(), peer@));
                    }
                } else {
                    let row = PeerRow { peer: key, held: held - 1 };
                    self.rows.set(i, row);
                    proof {
                        assert(self.rows@ == before.update(i as int, row));
                        assert forall|p: Seq<char>| #![auto] held_in(self.rows@, p) == (if p == peer@ {
                            (held - 1) as nat
                        } else {
                            held_in(before, p)
                        }) by {
                            lemma_held_update(before, i as int, row, p);
                        }
                        assert(self.counts() =~= after_release(old(self).counts(), peer@));
                    }
                }
            },
            None => {
                proof {
                    lemma_held_absent(before, peer@);
                    assert(self.counts() =~= after_release(old(self).counts(), peer@));
                }
            },
        }
    }
}

/// Releasing right after a granted admission gives back the counts the tally
/// had before that admission, and the same total.
pub proof fn release_undoes_acquire(m: Map<Seq<char>, nat>, t: nat, p: Seq<char>)
    requires
        counts_positive(m),
    ensures
        after_release(after_acquire(m, p), p) == m,
        (if t + 1 == 0 {
            0
        } else {
            (t + 1 - 1) as nat
        }) == t,
{
    let a = after_acquire(m, p);
    if m.contains_key(p) {
        assert(a[p] == m[p] + 1);
        assert(after_release(a, p) =~= m);
    } else {
        assert(after_release(a, p) =~= m);
    }
}

/// Caps hold across admissions: a granted admission (below both caps) leaves
/// the peer's count and the total within them, and no other peer's count
/// moves.
pub proof fn admission_stays_within_caps(m: Map<Seq<char>, nat>, t: nat, p: Seq<char>, q: Seq<char>, per_peer: nat, total: nat)
    requires
        count_of(m, p) < per_peer,
        t < total,
        q != p,
    ensures
        count_of(after_acquire(m, p), p) <= per_peer,
        t + 1 <= total,
        count_of(after_acquire(m, p), q) == count_of(m, q),
{
}

} // verus!
