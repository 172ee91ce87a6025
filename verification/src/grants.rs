//! Private agent grants: the (agent, peer) pairs the owner has authorized.
//! Default deny: a remote peer outside the list neither sees nor talks to a
//! private agent. Granting twice is a no-op; the list has a size cap.

use vstd::prelude::*;

use crate::agents::contains_string;
use crate::text::{decimal, push_decimal, push_str};

verus! {

/// Grant file name (relative to the data directory).
pub const GRANTS_FILE: &'static str = "a2a-grants.json";
/// Most grants the list holds.
pub const GRANTS_MAX: usize = 256;

/// One grant: this peer may use this agent.
#[derive(Debug, Clone, PartialEq, Eq)]
pub struct GrantEntry {
    pub agent_id: String,
    pub peer: String,
    pub granted_at: u64,
}

/// Abstract grant.
pub struct GrantView {
    pub agent_id: Seq<char>,
    pub peer: Seq<char>,
    pub granted_at: u64,
}

impl View for GrantEntry {
    type V = GrantView;

    open spec fn view(&self) -> GrantView {
        GrantView { agent_id: self.agent_id@, peer: self.peer@, granted_at: self.granted_at }
    }
}

impl GrantEntry {
    /// A field-by-field copy.
    pub fn copy(&self) -> (r: Self)
        ensures
            r@ == self@,
    {
        GrantEntry { agent_id: self.agent_id.clone(), peer: self.peer.clone(), granted_at: self.granted_at }
    }
}

/// Abstract grants of a list.
pub open spec fn grants_view(v: Seq<GrantEntry>) -> Seq<GrantView> {
    v.map_values(|g: GrantEntry| g@)
}

/// Abstract strings of a list.
pub open spec fn strings_view(v: Seq<String>) -> Seq<Seq<char>> {
    v.map_values(|s: String| s@)
}

/// The grant is for this agent and this peer.
pub open spec fn grant_is(g: GrantView, agent_id: Seq<char>, peer: Seq<char>) -> bool {
    g.agent_id == agent_id && g.peer == peer
}

/// Some grant is for this agent and this peer.
pub open spec fn granted(s: Seq<GrantView>, agent_id: Seq<char>, peer: Seq<char>) -> bool {
    exists|i: int| 0 <= i < s.len() && grant_is(s[i], agent_id, peer)
}

/// Message of a refused grant when the list is full.
pub open spec fn full_message() -> Seq<char> {
    "grant store full ("@ + decimal(GRANTS_MAX as nat) + ")"@
}

/// Granted (agent, peer) pairs in grant order.
pub struct GrantStore {
    grants: Vec<GrantEntry>,
}

impl View for GrantStore {
    type V = Seq<GrantView>;

    closed spec fn view(&self) -> Seq<GrantView> {
        grants_view(self.grants@)
    }
}

impl GrantStore {
    /// An empty list.
    pub fn new() -> (s: Self)
        ensures
            s@ == Seq::<GrantView>::empty(),
    {
        let s = GrantStore { grants: Vec::new() };
        assert(s@ =~= Seq::<GrantView>::empty());
        s
    }

    /// A list holding the given grants (as loaded from disk).
    pub fn from_grants(grants: Vec<GrantEntry>) -> (s: Self)
        ensures
            s@ == grants_view(grants@),
    {
        GrantStore { grants }
    }

    /// Grants `peer` the agent `agent_id` at `now`. An existing grant for the
    /// pair is kept as it is (success); a new one is refused when the list is full.
    pub fn grant(&mut self, agent_id: &str, peer: &str, now: u64) -> (r: Result<(), String>)
        ensures
            granted(old(self)@, agent_id@, peer@) || old(self)@.len() < GRANTS_MAX ==> r is Ok && final(self)@
                == after_grant(old(self)@, agent_id@, peer@, now),
            !granted(old(self)@, agent_id@, peer@) && old(self)@.len() >= GRANTS_MAX
                ==> (r matches Err(m) && m@ == full_message()) && final(self)@ == old(self)@,
    {
        if self.is_granted(agent_id, peer) {
            return Ok(());
        }
        if self.grants.len() >= GRANTS_MAX {
            let mut m = String::new();
            push_str(&mut m, "grant store full (");
            push_decimal(&mut m, GRANTS_MAX as u64);
            push_str(&mut m, ")");
            return Err(m);
        }
        let g = GrantEntry { agent_id: agent_id.to_owned(), peer: peer.to_owned(), granted_at: now };
        let ghost gv = g@;
        self.grants.push(g);
        assert(self@ =~= old(self)@.push(gv));
        Ok(())
    }

    /// Withdraws the grant of this pair; tells whether one was there.
    pub fn revoke(&mut self, agent_id: &str, peer: &str) -> (removed: bool)
        ensures
            final(self)@ == old(self)@.filter(|g: GrantView| !grant_is(g, agent_id@, peer@)),
            removed == granted(old(self)@, agent_id@, peer@),
    {
        let a = agent_id.to_owned();
        let p = peer.to_owned();
        let ghost pred = |g: GrantView| !grant_is(g, agent_id@, peer@);
        let ghost s = self@;
        let mut kept: Vec<GrantEntry> = Vec::new();
        let mut removed = false;
        let mut rest: Vec<GrantEntry> = Vec::new();
        std::mem::swap(&mut rest, &mut self.grants);
        let ghost orig = rest@;
        let _ = rest.len();
        let mut i: usize = 0;
        while rest.len() > 0
            invariant
                a@ == agent_id@,
                p@ == peer@,
                pred == (|g: GrantView| !grant_is(g, agent_id@, peer@)),
                s == grants_view(orig),
                i + rest@.len() == orig.len(),
                orig.len() <= usize::MAX,
                rest@ == orig.skip(i as int),
                grants_view(kept@) == s.take(i as int).filter(pred),
                removed == granted(s.take(i as int), agent_id@, peer@),
            decreases rest@.len(),
        {
            let g = rest.remove(0);
            proof {
                assert(g == orig[i as int]);
                assert(s.take(i + 1) =~= s.take(i as int).push(g@));
                s.take(i as int).lemma_filter_push(g@, pred);
                assert(rest@ =~= orig.skip(i + 1));
                if granted(s.take(i + 1), agent_id@, peer@) && !grant_is(g@, agent_id@, peer@) {
                    let t = s.take(i + 1);
                    let k = choose|k: int| 0 <= k < t.len() && grant_is(#[trigger] t[k], agent_id@, peer@);
                    assert(k < i);
                    assert(s.take(i as int)[k] == s.take(i + 1)[k]);
                }
                if granted(s.take(i as int), agent_id@, peer@) {
                    let t = s.take(i as int);
                    let k = choose|k: int| 0 <= k < t.len() && grant_is(#[trigger] t[k], agent_id@, peer@);
                    assert(s.take(i + 1)[k] == s.take(i as int)[k]);
                }
                if grant_is(g@, agent_id@, peer@) {
                    assert(s.take(i + 1)[i as int] == g@);
                }
            }
            if g.agent_id == a && g.peer == p {
                removed = true;
            } else {
                let ghost before = kept@;
                let ghost gv = g@;
                kept.push(g);
                assert(grants_view(kept@) =~= grants_view(before).push(gv));
            }
            i = i + 1;
        }
        self.grants = kept;
        assert(s.take(i as int) =~= s);
        removed
    }

    /// Withdraws every grant of an agent; tells how many there were.
    pub fn revoke_agent(&mut self, agent_id: &str) -> (removed: usize)
        ensures
            final(self)@ == old(self)@.filter(|g: GrantView| g.agent_id != agent_id@),
            removed == old(self)@.len() - final(self)@.len(),
    {
        let a = agent_id.to_owned();
        let ghost pred = |g: GrantView| g.agent_id != agent_id@;
        let ghost s = self@;
        let mut kept: Vec<GrantEntry> = Vec::new();
        let mut rest: Vec<GrantEntry> = Vec::new();
        std::mem::swap(&mut rest, &mut self.grants);
        let ghost orig = rest@;
        let _ = rest.len();
        let mut i: usize = 0;
        let mut removed: usize = 0;
        while rest.len() > 0
            invariant
                a@ == agent_id@,
                pred == (|g: GrantView| g.agent_id != agent_id@),
                s == grants_view(orig),
                i + rest@.len() == orig.len(),
                orig.len() <= usize::MAX,
                rest@ == orig.skip(i as int),
                grants_view(kept@) == s.take(i as int).filter(pred),
                removed + kept@.len() == i,
            decreases rest@.len(),
        {
            let g = rest.remove(0);
            proof {
                assert(g == orig[i as int]);
                assert(s.take(i + 1) =~= s.take(i as int).push(g@));
                s.take(i as int).lemma_filter_push(g@, pred);
                assert(rest@ =~= orig.skip(i + 1));
            }
            if g.agent_id == a {
                removed = removed + 1;
            } else {
                let ghost before = kept@;
                let ghost gv = g@;
                kept.push(g);
                assert(grants_view(kept@) =~= grants_view(before).push(gv));
            }
            i = i + 1;
        }
        self.grants = kept;
        assert(s.take(i as int) =~= s);
        removed
    }

    /// Whether this peer is granted this agent.
    pub fn is_granted(&self, agent_id: &str, peer: &str) -> (r: bool)
        ensures
            r == granted(self@, agent_id@, peer@),
    {
        let a = agent_id.to_owned();
        let p = peer.to_owned();
        let mut i: usize = 0;
        while i < self.grants.len()
            invariant
                a@ == agent_id@,
                p@ == peer@,
                i <= self.grants@.len(),
                forall|k: int| 0 <= k < i ==> !grant_is(#[trigger] self@[k], agent_id@, peer@),
            decreases self.grants@.len() - i,
        {
            if self.grants[i].agent_id == a && self.grants[i].peer == p {
                assert(grant_is(self@[i as int], agent_id@, peer@));
                return true;
            }
            i = i + 1;
        }
        false
    }

    /// The peers granted an agent, each once.
    pub fn peers_for(&self, agent_id: &str) -> (r: Vec<String>)
        ensures
            forall|x: Seq<char>| strings_view(r@).contains(x) <==> exists|i: int| 0 <= i < self@.len()
                && #[trigger] self@[i].agent_id == agent_id@ && self@[i].peer == x,
            forall|i: int, j: int| 0 <= i < j < r@.len() ==> r@[i]@ != r@[j]@,
    {
        let a = agent_id.to_owned();
        let mut r: Vec<String> = Vec::new();
        let mut i: usize = 0;
        while i < self.grants.len()
            invariant
                a@ == agent_id@,
                i <= self.grants@.len(),
                forall|x: Seq<char>| strings_view(r@).contains(x) <==> exists|k: int| 0 <= k < i
                    && #[trigger] self@[k].agent_id == agent_id@ && self@[k].peer == x,
                forall|k: int, l: int| 0 <= k < l < r@.len() ==> r@[k]@ != r@[l]@,
            decreases self.grants@.len() - i,
        {
            proof {
                assert(self@[i as int] == self.grants@[i as int]@);
            }
            let hit = self.grants[i].agent_id == a;
            let dup = if hit {
                contains_string(&r, &self.grants[i].peer)
            } else {
                false
            };
            let ghost before = r@;
            let ghost bv = strings_view(before);
            let ghost gi = self@[i as int];
            if hit && !dup {
                let peer = self.grants[i].peer.clone();
                r.push(peer);
                proof {
                    assert(strings_view(r@) =~= bv.push(peer@));
                    assert forall|k: int| 0 <= k < before.len() implies before[k]@ != peer@ by {
                        assert(bv[k] == before[k]@);
                        if before[k]@ == peer@ {
                            assert(bv.contains(peer@));
                        }
                    }
                    assert(r@[before.len() as int] == peer);
                    assert forall|k: int, l: int| 0 <= k < l < r@.len() implies r@[k]@ != r@[l]@ by {
                        if l < before.len() {
                            assert(r@[k] == before[k]);
                            assert(r@[l] == before[l]);
                        } else {
                            assert(r@[k] == before[k]);
                        }
                    }
                }
            }
            proof {
                let rv = strings_view(r@);
                assert forall|x: Seq<char>| rv.contains(x) <==> exists|k: int| 0 <= k < i + 1
                    && #[trigger] self@[k].agent_id == agent_id@ && self@[k].peer == x by {
                    if rv.contains(x) {
                        let m = choose|m: int| 0 <= m < rv.len() && #[trigger] rv[m] == x;
                        if m < bv.len() {
                            assert(bv[m] == x);
                            assert(bv.contains(x));
                            let k = choose|k: int| 0 <= k < i && #[trigger] self@[k].agent_id == agent_id@ && self@[k].peer == x;
                            assert(0 <= k < i + 1);
                        } else {
                            assert(gi.agent_id == agent_id@ && gi.peer == x);
                        }
                    }
                    if exists|k: int| 0 <= k < i + 1 && #[trigger] self@[k].agent_id == agent_id@ && self@[k].peer == x {
                        let k = choose|k: int| 0 <= k < i + 1 && #[trigger] self@[k].agent_id == agent_id@ && self@[k].peer == x;
                        if k < i {
                            assert(bv.contains(x));
                            let m = choose|m: int| 0 <= m < bv.len() && #[trigger] bv[m] == x;
                            assert(rv[m] == x);
                        } else {
                            assert(gi.peer == x);
                            if dup {
                                assert(bv.contains(x));
                                let m = choose|m: int| 0 <= m < bv.len() && #[trigger] bv[m] == x;
                                assert(rv[m] == x);
                            } else {
                                assert(rv[bv.len() as int] == x);
                            }
                        }
                    }
                }
            }
            i = i + 1;
        }
        r
    }

    /// The agents granted to a peer, in grant order.
    pub fn agents_for_peer(&self, peer: &str) -> (r: Vec<String>)
        ensures
            strings_view(r@) == self@.filter(|g: GrantView| g.peer == peer@).map_values(|g: GrantView| g.agent_id),
    {
        let p = peer.to_owned();
        let ghost pred = |g: GrantView| g.peer == peer@;
        let ghost f = |g: GrantView| g.agent_id;
        let mut r: Vec<String> = Vec::new();
        let mut i: usize = 0;
        while i < self.grants.len()
            invariant
                p@ == peer@,
                pred == (|g: GrantView| g.peer == peer@),
                f == (|g: GrantView| g.agent_id),
                i <= self.grants@.len(),
                strings_view(r@) == self@.take(i as int).filter(pred).map_values(f),
            decreases self.grants@.len() - i,
        {
            proof {
                assert(self@.take(i + 1) =~= self@.take(i as int).push(self@[i as int]));
                self@.take(i as int).lemma_filter_push(self@[i as int], pred);
                assert(self@[i as int] == self.grants@[i as int]@);
            }
            if self.grants[i].peer == p {
                let ghost before = r@;
                let ghost fl = self@.take(i as int).filter(pred);
                let a = self.grants[i].agent_id.clone();
                r.push(a);
                assert(strings_view(r@) =~= strings_view(before).push(a@));
                assert(fl.push(self@[i as int]).map_values(f) =~= fl.map_values(f).push(a@));
            }
            i = i + 1;
        }
        assert(self@.take(self.grants@.len() as int) =~= self@);
        r
    }

    /// All grants in grant order.
    pub fn list(&self) -> (r: Vec<GrantEntry>)
        ensures
            grants_view(r@) == self@,
    {
        let mut r: Vec<GrantEntry> = Vec::new();
        let mut i: usize = 0;
        while i < self.grants.len()
            invariant
                i <= self.grants@.len(),
                grants_view(r@) == self@.take(i as int),
            decreases self.grants@.len() - i,
        {
            let g = self.grants[i].copy();
            let ghost before = r@;
            r.push(g);
            assert(grants_view(r@) =~= grants_view(before).push(g@));
            assert(self@.take(i + 1) =~= self@.take(i as int).push(self@[i as int]));
            i = i + 1;
        }
        assert(self@.take(self.grants@.len() as int) =~= self@);
        r
    }
}


/// The list after granting `peer` the agent `agent_id` at `now` (when there
/// is room): unchanged if the pair is already granted, else the new grant
/// appended.
pub open spec fn after_grant(s: Seq<GrantView>, agent_id: Seq<char>, peer: Seq<char>, now: u64) -> Seq<GrantView> {
    if granted(s, agent_id, peer) {
        s
    } else {
        s.push(GrantView { agent_id, peer, granted_at: now })
    }
}

/// A successful grant is in force: `is_granted` answers yes for the pair.
pub proof fn grant_then_granted(s: Seq<GrantView>, agent_id: Seq<char>, peer: Seq<char>, now: u64)
    ensures
        granted(after_grant(s, agent_id, peer, now), agent_id, peer),
{
    if !granted(s, agent_id, peer) {
        let t = after_grant(s, agent_id, peer, now);
        assert(grant_is(t[t.len() - 1], agent_id, peer));
    }
}

/// Granting a pair twice is the same as granting it once, whatever the time
/// of the second grant.
pub proof fn grant_is_idempotent(s: Seq<GrantView>, agent_id: Seq<char>, peer: Seq<char>, now: u64, later: u64)
    ensures
        after_grant(after_grant(s, agent_id, peer, now), agent_id, peer, later) == after_grant(s, agent_id, peer, now),
{
    grant_then_granted(s, agent_id, peer, now);
}

/// A grant leaves every other pair as it was.
pub proof fn grant_keeps_other_pairs(
    s: Seq<GrantView>,
    agent_id: Seq<char>,
    peer: Seq<char>,
    now: u64,
    other_agent: Seq<char>,
    other_peer: Seq<char>,
)
    requires
        !(other_agent == agent_id && other_peer == peer),
    ensures
        granted(after_grant(s, agent_id, peer, now), other_agent, other_peer) == granted(s, other_agent, other_peer),
{
    let t = after_grant(s, agent_id, peer, now);
    if granted(s, other_agent, other_peer) {
        let i = choose|i: int| 0 <= i < s.len() && grant_is(s[i], other_agent, other_peer);
        assert(t[i] == s[i]);
    }
    if granted(t, other_agent, other_peer) {
        let i = choose|i: int| 0 <= i < t.len() && grant_is(t[i], other_agent, other_peer);
        assert(s[i] == t[i]);
    }
}

/// After revoking a pair no grant of it remains, and every other pair is
/// granted exactly as before.
pub proof fn revoke_then_not_granted(
    s: Seq<GrantView>,
    agent_id: Seq<char>,
    peer: Seq<char>,
    other_agent: Seq<char>,
    other_peer: Seq<char>,
)
    ensures
        !granted(s.filter(|g: GrantView| !grant_is(g, agent_id, peer)), agent_id, peer),
        !(other_agent == agent_id && other_peer == peer) ==> granted(
            s.filter(|g: GrantView| !grant_is(g, agent_id, peer)),
            other_agent,
            other_peer,
        ) == granted(s, other_agent, other_peer),
{
    let pred = |g: GrantView| !grant_is(g, agent_id, peer);
    let t = s.filter(pred);
    if granted(t, agent_id, peer) {
        let i = choose|i: int| 0 <= i < t.len() && grant_is(t[i], agent_id, peer);
        s.lemma_filter_pred(pred, i);
    }
    if !(other_agent == agent_id && other_peer == peer) {
        if granted(s, other_agent, other_peer) {
            let i = choose|i: int| 0 <= i < s.len() && grant_is(s[i], other_agent, other_peer);
            s.lemma_filter_contains(pred, i);
            let j = choose|j: int| 0 <= j < t.len() && t[j] == s[i];
            assert(grant_is(t[j], other_agent, other_peer));
        }
        if granted(t, other_agent, other_peer) {
            let i = choose|i: int| 0 <= i < t.len() && grant_is(t[i], other_agent, other_peer);
            assert(t.contains(t[i]));
            s.lemma_filter_contains_rev(pred, t[i]);
            let j = choose|j: int| 0 <= j < s.len() && s[j] == t[i];
            assert(grant_is(s[j], other_agent, other_peer));
        }
    }
}

/// Withdrawing an agent leaves no peer granted it.
pub proof fn revoke_agent_clears_agent(s: Seq<GrantView>, agent_id: Seq<char>, peer: Seq<char>)
    ensures
        !granted(s.filter(|g: GrantView| g.agent_id != agent_id), agent_id, peer),
{
    let pred = |g: GrantView| g.agent_id != agent_id;
    let t = s.filter(pred);
    if granted(t, agent_id, peer) {
        let i = choose|i: int| 0 <= i < t.len() && grant_is(t[i], agent_id, peer);
        s.lemma_filter_pred(pred, i);
    }
}

} // verus!
