//! The online peer set and the attribution of an inbound stream: with
//! exactly one peer online the stream is that peer's; with none, the host
//! waits a little for the connection event; with several, attribution fails
//! at once (better a wrong refusal than a wrong identity).

use vstd::prelude::*;
use vstd::string::*;

use crate::text::str_eq;

verus! {

broadcast use vstd::string::group_string_axioms;

/// Peers currently connected, each once, in connection order.
pub struct PeerBook {
    peers: Vec<String>,
}

/// No peer appears twice.
pub open spec fn peers_distinct(s: Seq<Seq<char>>) -> bool {
    forall|i: int, j: int| 0 <= i < j < s.len() ==> #[trigger] s[i] != #[trigger] s[j]
}

/// The set without `peer`.
pub open spec fn without(s: Seq<Seq<char>>, peer: Seq<char>) -> Seq<Seq<char>> {
    s.filter(|p: Seq<char>| p != peer)
}

impl View for PeerBook {
    type V = Seq<Seq<char>>;

    closed spec fn view(&self) -> Seq<Seq<char>> {
        self.peers@.map_values(|p: String| p@)
    }
}

/// Who an inbound stream belongs to.
#[derive(Debug, Clone, PartialEq, Eq)]
pub enum Attribution {
    /// The one peer online.
    Peer(String),
    /// No peer online yet.
    Nobody,
    /// Several peers online: refused.
    Ambiguous,
}

impl PeerBook {
    pub closed spec fn wf(&self) -> bool {
        peers_distinct(self@)
    }

    /// An empty set.
    pub fn new() -> (b: Self)
        ensures
            b.wf(),
            b@ == Seq::<Seq<char>>::empty(),
    {
        let b = PeerBook { peers: Vec::new() };
        assert(b@ =~= Seq::<Seq<char>>::empty());
        b
    }

    fn position(&self, peer: &str) -> (r: Option<usize>)
        ensures
            match r {
                Some(i) => i < self@.len() && self@[i as int] == peer@,
                None => !self@.contains(peer@),
            },
    {
        let mut i: usize = 0;
        while i < self.peers.len()
            invariant
                i <= self.peers@.len(),
                forall|k: int| 0 <= k < i ==> #[trigger] self@[k] != peer@,
            decreases self.peers@.len() - i,
        {
            assert(self@[i as int] == self.peers@[i as int]@);
            if str_eq(self.peers[i].as_str(), peer) {
                return Some(i);
            }
            i = i + 1;
        }
        None
    }

    /// A peer connected (a second event for it changes nothing).
    pub fn insert(&mut self, peer: &str)
        requires
            old(self).wf(),
        ensures
            final(self).wf(),
            final(self)@ == if old(self)@.contains(peer@) {
                old(self)@
            } else {
                old(self)@.push(peer@)
            },
    {
        if self.position(peer).is_none() {
            let ghost before = self@;
            self.peers.push(peer.to_owned());
            assert(self@ =~= before.push(peer@));
            assert forall|i: int, j: int| 0 <= i < j < self@.len() implies #[trigger] self@[i] != #[trigger] self@[j] by {
                if j == before.len() {
                    assert(before[i] == self@[i]);
                } else {
                    assert(before[i] == self@[i] && before[j] == self@[j]);
                }
            }
        }
    }

    /// A peer disconnected.
    pub fn remove(&mut self, peer: &str)
        requires
            old(self).wf(),
        ensures
            final(self).wf(),
            final(self)@ == without(old(self)@, peer@),
    {
        match self.position(peer) {
            Some(i) => {
                let ghost s = self@;
                self.peers.remove(i);
                assert(self@ =~= s.remove(i as int));
                proof {
                    lemma_remove_is_filter(s, peer@, i as int);
                }
                assert forall|a: int, b: int| 0 <= a < b < self@.len() implies #[trigger] self@[a] != #[trigger] self@[b] by {
                    let ia = if a < i { a } else { a + 1 };
                    let ib = if b < i { b } else { b + 1 };
                    assert(self@[a] == s[ia] && self@[b] == s[ib]);
                }
            },
            None => {
                proof {
                    lemma_filter_absent(self@, peer@);
                }
            },
        }
    }

    /// The connected peers.
    pub fn connected(&self) -> (r: Vec<String>)
        ensures
            r@.map_values(|p: String| p@) == self@,
    {
        let mut r: Vec<String> = Vec::new();
        let mut i: usize = 0;
        while i < self.peers.len()
            invariant
                i <= self.peers@.len(),
                r@.map_values(|p: String| p@) == self@.take(i as int),
            decreases self.peers@.len() - i,
        {
            let ghost before = r@.map_values(|p: String| p@);
            r.push(self.peers[i].clone());
            assert(r@.map_values(|p: String| p@) =~= before.push(self@[i as int]));
            assert(self@.take(i + 1) =~= self@.take(i as int).push(self@[i as int]));
            i = i + 1;
        }
        assert(self@.take(self@.len() as int) =~= self@);
        r
    }

    /// Attributes an inbound stream: only a single online peer is trusted.
    pub fn attribute(&self) -> (r: Attribution)
        ensures
            self@.len() == 0 ==> r == Attribution::Nobody,
            self@.len() == 1 ==> (r matches Attribution::Peer(p) && p@ == self@[0]),
            self@.len() > 1 ==> r == Attribution::Ambiguous,
    {
        if self.peers.len() == 0 {
            Attribution::Nobody
        } else if self.peers.len() == 1 {
            Attribution::Peer(self.peers[0].clone())
        } else {
            Attribution::Ambiguous
        }
    }
}

proof fn lemma_filter_absent(s: Seq<Seq<char>>, peer: Seq<char>)
    requires
        !s.contains(peer),
    ensures
        without(s, peer) == s,
    decreases s.len(),
{
    reveal(Seq::filter);
    if s.len() > 0 {
        assert(!s.drop_last().contains(peer)) by {
            if s.drop_last().contains(peer) {
                let k = choose|k: int| 0 <= k < s.drop_last().len() && s.drop_last()[k] == peer;
                assert(s[k] == peer);
            }
        }
        lemma_filter_absent(s.drop_last(), peer);
        assert(s.last() != peer) by {
            if s.last() == peer {
                assert(s[s.len() - 1] == peer);
            }
        }
        assert(s.drop_last().push(s.last()) =~= s);
    }
}

proof fn lemma_remove_is_filter(s: Seq<Seq<char>>, peer: Seq<char>, i: int)
    requires
        peers_distinct(s),
        0 <= i < s.len(),
        s[i] == peer,
    ensures
        s.remove(i) == without(s, peer),
    decreases s.len(),
{
    reveal(Seq::filter);
    let t = s.drop_last();
    if i == s.len() - 1 {
        assert(!t.contains(peer)) by {
            if t.contains(peer) {
                let k = choose|k: int| 0 <= k < t.len() && t[k] == peer;
                assert(s[k] == s[i]);
            }
        }
        lemma_filter_absent(t, peer);
        assert(s.remove(i) =~= t);
    } else {
        assert(peers_distinct(t)) by {
            assert forall|a: int, b: int| 0 <= a < b < t.len() implies #[trigger] t[a] != #[trigger] t[b] by {
                assert(t[a] == s[a] && t[b] == s[b]);
            }
        }
        lemma_remove_is_filter(t, peer, i);
        assert(s.last() != peer) by {
            assert(s[s.len() - 1] != s[i]);
        }
        assert(s.remove(i) =~= t.remove(i).push(s.last()));
    }
}

} // verus!
