//! The ticket book of child slots: each child belongs to the bridge and is
//! recorded under a ticket bound to the peer it was spawned for. A client
//! that drops keeps its child for the reattach window; a reattach must show
//! the ticket from the same peer (a ticket from another device is refused);
//! a peer reconnecting without a ticket supersedes its stale slots.
//!
//! The host keeps each slot's control channel beside this book, by ticket.

use vstd::prelude::*;
use vstd::string::*;

use crate::text::str_eq;

verus! {

broadcast use vstd::string::group_string_axioms;

/// One slot: its ticket and the peer it is bound to.
#[derive(Debug, Clone, PartialEq, Eq)]
pub struct SlotRecord {
    pub ticket: u128,
    pub peer: String,
}

/// Ticket to slot records, tickets distinct, in insertion order.
pub struct SlotBook {
    slots: Vec<SlotRecord>,
}

/// Abstract slots: (ticket, peer).
pub open spec fn slots_view(v: Seq<SlotRecord>) -> Seq<(u128, Seq<char>)> {
    v.map_values(|r: SlotRecord| (r.ticket, r.peer@))
}

/// No two slots share a ticket.
pub open spec fn tickets_distinct(s: Seq<(u128, Seq<char>)>) -> bool {
    forall|i: int, j: int| 0 <= i < j < s.len() ==> #[trigger] s[i].0 != #[trigger] s[j].0
}

/// A slot with this ticket is bound to this peer.
pub open spec fn bound(s: Seq<(u128, Seq<char>)>, ticket: u128, peer: Seq<char>) -> bool {
    exists|i: int| 0 <= i < s.len() && s[i].0 == ticket && s[i].1 == peer
}

/// Some slot has this ticket.
pub open spec fn has_ticket(s: Seq<(u128, Seq<char>)>, ticket: u128) -> bool {
    exists|i: int| 0 <= i < s.len() && s[i].0 == ticket
}

impl View for SlotBook {
    type V = Seq<(u128, Seq<char>)>;

    closed spec fn view(&self) -> Seq<(u128, Seq<char>)> {
        slots_view(self.slots@)
    }
}

impl SlotBook {
    /// Tickets are distinct.
    pub closed spec fn wf(&self) -> bool {
        tickets_distinct(self@)
    }

    /// An empty book.
    pub fn new() -> (b: Self)
        ensures
            b.wf(),
            b@ == Seq::<(u128, Seq<char>)>::empty(),
    {
        let b = SlotBook { slots: Vec::new() };
        assert(b@ =~= Seq::<(u128, Seq<char>)>::empty());
        b
    }

    fn find(&self, ticket: u128) -> (r: Option<usize>)
        ensures
            match r {
                Some(i) => i < self@.len() && self@[i as int].0 == ticket,
                None => !has_ticket(self@, ticket),
            },
    {
        let mut i: usize = 0;
        while i < self.slots.len()
            invariant
                i <= self.slots@.len(),
                forall|k: int| 0 <= k < i ==> #[trigger] self@[k].0 != ticket,
            decreases self.slots@.len() - i,
        {
            assert(self@[i as int].0 == self.slots@[i as int].ticket);
            if self.slots[i].ticket == ticket {
                return Some(i);
            }
            i = i + 1;
        }
        None
    }

    /// Records a slot; a slot already under this ticket is rebound.
    pub fn insert(&mut self, ticket: u128, peer: &str)
        requires
            old(self).wf(),
        ensures
            final(self).wf(),
            final(self)@ == if has_ticket(old(self)@, ticket) {
                old(self)@.update(choose|i: int| 0 <= i < old(self)@.len() && old(self)@[i].0 == ticket, (ticket, peer@))
            } else {
                old(self)@.push((ticket, peer@))
            },
    {
        match self.find(ticket) {
            Some(i) => {
                proof {
                    let c = choose|k: int| 0 <= k < old(self)@.len() && old(self)@[k].0 == ticket;
                    if c != i as int {
                        if c < i {
                            assert(old(self)@[c].0 != old(self)@[i as int].0);
                        } else {
                            assert(old(self)@[i as int].0 != old(self)@[c].0);
                        }
                    }
                }
                self.slots.set(i, SlotRecord { ticket, peer: peer.to_owned() });
                assert(self@ =~= old(self)@.update(i as int, (ticket, peer@)));
            },
            None => {
                self.slots.push(SlotRecord { ticket, peer: peer.to_owned() });
                assert(self@ =~= old(self)@.push((ticket, peer@)));
            },
        }
    }

    /// Whether the ticket exists and is bound to this peer.
    pub fn validate(&self, ticket: u128, peer: &str) -> (r: bool)
        requires
            self.wf(),
        ensures
            r == bound(self@, ticket, peer@),
    {
        match self.find(ticket) {
            Some(i) => {
                let ok = str_eq(self.slots[i].peer.as_str(), peer);
                proof {
                    if bound(self@, ticket, peer@) {
                        let k = choose|k: int| 0 <= k < self@.len() && self@[k].0 == ticket && self@[k].1 == peer@;
                        if k != i as int {
                            if k < i {
                                assert(self@[k].0 != self@[i as int].0);
                            } else {
                                assert(self@[i as int].0 != self@[k].0);
                            }
                        }
                    }
                }
                ok
            },
            None => false,
        }
    }

    /// Drops every slot of `peer`; returns their tickets (to be shut down).
    pub fn supersede(&mut self, peer: &str) -> (r: Vec<u128>)
        requires
            old(self).wf(),
        ensures
            final(self).wf(),
            final(self)@ == old(self)@.filter(|s: (u128, Seq<char>)| s.1 != peer@),
            r@ == old(self)@.filter(|s: (u128, Seq<char>)| s.1 == peer@).map_values(|s: (u128, Seq<char>)| s.0),
    {
        let ghost s = self@;
        let ghost keep = |x: (u128, Seq<char>)| x.1 != peer@;
        let ghost gone = |x: (u128, Seq<char>)| x.1 == peer@;
        let ghost f = |x: (u128, Seq<char>)| x.0;
        let mut kept: Vec<SlotRecord> = Vec::new();
        let mut stale: Vec<u128> = Vec::new();
        let mut i: usize = 0;
        while i < self.slots.len()
            invariant
                s == self@,
                keep == (|x: (u128, Seq<char>)| x.1 != peer@),
                gone == (|x: (u128, Seq<char>)| x.1 == peer@),
                f == (|x: (u128, Seq<char>)| x.0),
                i <= self.slots@.len(),
                slots_view(kept@) == s.take(i as int).filter(keep),
                stale@ == s.take(i as int).filter(gone).map_values(f),
            decreases self.slots@.len() - i,
        {
            proof {
                assert(s.take(i + 1) =~= s.take(i as int).push(s[i as int]));
                s.take(i as int).lemma_filter_push(s[i as int], keep);
                s.take(i as int).lemma_filter_push(s[i as int], gone);
            }
            let rec = &self.slots[i];
            assert(s[i as int] == (rec.ticket, rec.peer@));
            if str_eq(rec.peer.as_str(), peer) {
                let ghost fl = s.take(i as int).filter(gone);
                stale.push(rec.ticket);
                assert(fl.push(s[i as int]).map_values(f) =~= fl.map_values(f).push(rec.ticket));
            } else {
                let ghost before = slots_view(kept@);
                kept.push(SlotRecord { ticket: rec.ticket, peer: rec.peer.clone() });
                assert(slots_view(kept@) =~= before.push(s[i as int]));
            }
            i = i + 1;
        }
        assert(s.take(s.len() as int) =~= s);
        self.slots = kept;
        proof {
            lemma_filter_keeps_distinct(s, keep);
        }
        stale
    }

    /// Drops the slot of this ticket (its router ended).
    pub fn remove(&mut self, ticket: u128)
        requires
            old(self).wf(),
        ensures
            final(self).wf(),
            final(self)@ == old(self)@.filter(|s: (u128, Seq<char>)| s.0 != ticket),
    {
        let ghost s = self@;
        let ghost keep = |x: (u128, Seq<char>)| x.0 != ticket;
        let mut kept: Vec<SlotRecord> = Vec::new();
        let mut i: usize = 0;
        while i < self.slots.len()
            invariant
                s == self@,
                keep == (|x: (u128, Seq<char>)| x.0 != ticket),
                i <= self.slots@.len(),
                slots_view(kept@) == s.take(i as int).filter(keep),
            decreases self.slots@.len() - i,
        {
            proof {
                assert(s.take(i + 1) =~= s.take(i as int).push(s[i as int]));
                s.take(i as int).lemma_filter_push(s[i as int], keep);
            }
            let rec = &self.slots[i];
            assert(s[i as int] == (rec.ticket, rec.peer@));
            if rec.ticket != ticket {
                let ghost before = slots_view(kept@);
                kept.push(SlotRecord { ticket: rec.ticket, peer: rec.peer.clone() });
                assert(slots_view(kept@) =~= before.push(s[i as int]));
            }
            i = i + 1;
        }
        assert(s.take(s.len() as int) =~= s);
        self.slots = kept;
        proof {
            lemma_filter_keeps_distinct(s, keep);
        }
    }

    /// Empties the book (the bridge is stopping); returns every ticket.
    pub fn drain(&mut self) -> (r: Vec<u128>)
        requires
            old(self).wf(),
        ensures
            final(self).wf(),
            final(self)@ == Seq::<(u128, Seq<char>)>::empty(),
            r@ == old(self)@.map_values(|s: (u128, Seq<char>)| s.0),
    {
        let ghost s = self@;
        let mut r: Vec<u128> = Vec::new();
        let mut i: usize = 0;
        while i < self.slots.len()
            invariant
                s == self@,
                i <= self.slots@.len(),
                r@ == s.take(i as int).map_values(|x: (u128, Seq<char>)| x.0),
            decreases self.slots@.len() - i,
        {
            assert(s[i as int].0 == self.slots@[i as int].ticket);
            r.push(self.slots[i].ticket);
            assert(s.take(i + 1).map_values(|x: (u128, Seq<char>)| x.0) =~= s.take(i as int).map_values(
                |x: (u128, Seq<char>)| x.0,
            ).push(s[i as int].0));
            i = i + 1;
        }
        assert(s.take(s.len() as int) =~= s);
        self.slots = Vec::new();
        assert(self@ =~= Seq::<(u128, Seq<char>)>::empty());
        r
    }
}

proof fn lemma_filter_keeps_distinct(s: Seq<(u128, Seq<char>)>, p: spec_fn((u128, Seq<char>)) -> bool)
    requires
        tickets_distinct(s),
    ensures
        tickets_distinct(s.filter(p)),
    decreases s.len(),
{
    reveal(Seq::filter);
    if s.len() > 0 {
        let t = s.drop_last();
        assert(tickets_distinct(t)) by {
            assert forall|i: int, j: int| 0 <= i < j < t.len() implies #[trigger] t[i].0 != #[trigger] t[j].0 by {
                assert(t[i] == s[i] && t[j] == s[j]);
            }
        }
        lemma_filter_keeps_distinct(t, p);
        if p(s.last()) {
            let f = t.filter(p);
            assert forall|i: int, j: int| 0 <= i < j < f.push(s.last()).len() implies #[trigger] f.push(s.last())[i].0
                != #[trigger] f.push(s.last())[j].0 by {
                if j == f.len() {
                    t.lemma_filter_pred(p, i);
                    assert(f.contains(f[i]));
                    t.lemma_filter_contains_rev(p, f[i]);
                    let k = choose|k: int| 0 <= k < t.len() && t[k] == f[i];
                    assert(s[k] == t[k]);
                    assert(s[k].0 != s[s.len() - 1].0);
                } else {
                    assert(f.push(s.last())[i] == f[i] && f.push(s.last())[j] == f[j]);
                }
            }
        }
    }
}

/// A ticket from another device is refused: a slot bound to one peer never
/// validates for another.
pub proof fn ticket_binds_its_peer(s: Seq<(u128, Seq<char>)>, ticket: u128, owner: Seq<char>, other: Seq<char>)
    requires
        tickets_distinct(s),
        bound(s, ticket, owner),
        other != owner,
    ensures
        !bound(s, ticket, other),
{
    let i = choose|i: int| 0 <= i < s.len() && s[i].0 == ticket && s[i].1 == owner;
    if bound(s, ticket, other) {
        let j = choose|j: int| 0 <= j < s.len() && s[j].0 == ticket && s[j].1 == other;
        if i < j {
            assert(s[i].0 != s[j].0);
        } else if j < i {
            assert(s[j].0 != s[i].0);
        }
    }
}

/// After a supersede no slot of the peer is left, and every other peer
/// keeps exactly its slots.
pub proof fn supersede_clears_peer(s: Seq<(u128, Seq<char>)>, peer: Seq<char>, ticket: u128, other: Seq<char>)
    ensures
        !bound(s.filter(|x: (u128, Seq<char>)| x.1 != peer), ticket, peer),
        other != peer ==> (bound(s.filter(|x: (u128, Seq<char>)| x.1 != peer), ticket, other) == bound(s, ticket, other)),
{
    let keep = |x: (u128, Seq<char>)| x.1 != peer;
    let t = s.filter(keep);
    if bound(t, ticket, peer) {
        let i = choose|i: int| 0 <= i < t.len() && t[i].0 == ticket && t[i].1 == peer;
        s.lemma_filter_pred(keep, i);
    }
    if other != peer {
        if bound(s, ticket, other) {
            let i = choose|i: int| 0 <= i < s.len() && s[i].0 == ticket && s[i].1 == other;
            s.lemma_filter_contains(keep, i);
            let j = choose|j: int| 0 <= j < t.len() && t[j] == s[i];
            assert(t[j].0 == ticket && t[j].1 == other);
        }
        if bound(t, ticket, other) {
            let i = choose|i: int| 0 <= i < t.len() && t[i].0 == ticket && t[i].1 == other;
            assert(t.contains(t[i]));
            s.lemma_filter_contains_rev(keep, t[i]);
            let j = choose|j: int| 0 <= j < s.len() && s[j] == t[i];
            assert(s[j].0 == ticket && s[j].1 == other);
        }
    }
}

} // verus!
