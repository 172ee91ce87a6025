//! Invitation book: each invitation is keyed by a one-time nonce and moves
//! from pending to accepted or rejected; pending invitations of an agent go
//! away when the agent is withdrawn. The book has a size cap.

use vstd::prelude::*;

use crate::text::{decimal, push_decimal, push_str};

verus! {

/// Invitation file name (relative to the data directory).
pub const INVITES_FILE: &'static str = "a2a-invites.json";
/// Most invitations the book holds.
pub const INVITES_MAX: usize = 256;

/// Where an invitation stands.
#[derive(Debug, Clone, Copy, PartialEq, Eq, Structural)]
pub enum InviteStatus {
    /// Waiting for the receipt.
    Pending,
    /// Receipt registered.
    Accepted,
    /// Declined.
    Rejected,
    /// Past its expiry.
    Expired,
}

/// Name of a status as printed in messages.
pub open spec fn status_name(s: InviteStatus) -> Seq<char> {
    match s {
        InviteStatus::Pending => "Pending"@,
        InviteStatus::Accepted => "Accepted"@,
        InviteStatus::Rejected => "Rejected"@,
        InviteStatus::Expired => "Expired"@,
    }
}

impl InviteStatus {
    /// Name of the status as printed in messages.
    pub fn name(&self) -> (s: &'static str)
        ensures
            s@ == status_name(*self),
    {
        match self {
            InviteStatus::Pending => "Pending",
            InviteStatus::Accepted => "Accepted",
            InviteStatus::Rejected => "Rejected",
            InviteStatus::Expired => "Expired",
        }
    }
}

/// One invitation, keyed by its nonce.
#[derive(Debug, Clone, PartialEq, Eq)]
pub struct InviteEntry {
    pub nonce: String,
    pub agent_id: String,
    pub host_peer: String,
    pub invitee_peer: String,
    /// Validity end (unix seconds).
    pub expiry: u64,
    /// Issue time (unix seconds).
    pub issued_at: u64,
    pub status: InviteStatus,
    /// Receipt signature, filled on acceptance.
    pub receipt_sig: Option<String>,
}

/// Abstract invitation.
pub struct InviteView {
    pub nonce: Seq<char>,
    pub agent_id: Seq<char>,
    pub host_peer: Seq<char>,
    pub invitee_peer: Seq<char>,
    pub expiry: u64,
    pub issued_at: u64,
    pub status: InviteStatus,
    pub receipt_sig: Option<Seq<char>>,
}

/// Abstract optional string.
pub open spec fn opt_view(o: Option<String>) -> Option<Seq<char>> {
    match o {
        Some(s) => Some(s@),
        None => None,
    }
}

impl View for InviteEntry {
    type V = InviteView;

    open spec fn view(&self) -> InviteView {
        InviteView {
            nonce: self.nonce@,
            agent_id: self.agent_id@,
            host_peer: self.host_peer@,
            invitee_peer: self.invitee_peer@,
            expiry: self.expiry,
            issued_at: self.issued_at,
            status: self.status,
            receipt_sig: opt_view(self.receipt_sig),
        }
    }
}

impl InviteEntry {
    /// A field-by-field copy.
    pub fn copy(&self) -> (r: Self)
        ensures
            r@ == self@,
    {
        InviteEntry {
            nonce: self.nonce.clone(),
            agent_id: self.agent_id.clone(),
            host_peer: self.host_peer.clone(),
            invitee_peer: self.invitee_peer.clone(),
            expiry: self.expiry,
            issued_at: self.issued_at,
            status: self.status,
            receipt_sig: match &self.receipt_sig {
                Some(s) => Some(s.clone()),
                None => None,
            },
        }
    }
}

/// Abstract invitations of a list.
pub open spec fn invites_view(v: Seq<InviteEntry>) -> Seq<InviteView> {
    v.map_values(|e: InviteEntry| e@)
}

/// Some invitation carries this nonce.
pub open spec fn has_nonce(s: Seq<InviteView>, nonce: Seq<char>) -> bool {
    exists|i: int| 0 <= i < s.len() && s[i].nonce == nonce
}

/// Index of the first invitation with this nonce.
pub open spec fn first_with_nonce(s: Seq<InviteView>, nonce: Seq<char>, i: int) -> bool {
    &&& 0 <= i < s.len()
    &&& s[i].nonce == nonce
    &&& forall|k: int| 0 <= k < i ==> s[k].nonce != nonce
}

/// Message: the nonce is taken.
pub open spec fn used_message(nonce: Seq<char>) -> Seq<char> {
    "nonce already used: "@ + nonce
}

/// Message: the book is full.
pub open spec fn full_message() -> Seq<char> {
    "invite store full ("@ + decimal(INVITES_MAX as nat) + ")"@
}

/// Message: no invitation has the nonce.
pub open spec fn not_found_message(nonce: Seq<char>) -> Seq<char> {
    "nonce not found: "@ + nonce
}

/// Message: the invitation is no longer pending.
pub open spec fn not_pending_message(nonce: Seq<char>, status: InviteStatus) -> Seq<char> {
    "nonce "@ + nonce + " not pending (status="@ + status_name(status) + ")"@
}

/// The invitation is a pending one of this agent.
pub open spec fn pending_of_agent(e: InviteView, agent_id: Seq<char>) -> bool {
    e.agent_id == agent_id && e.status == InviteStatus::Pending
}

/// Invitations in insertion order.
pub struct InviteStore {
    invites: Vec<InviteEntry>,
}

impl View for InviteStore {
    type V = Seq<InviteView>;

    closed spec fn view(&self) -> Seq<InviteView> {
        invites_view(self.invites@)
    }
}

impl InviteStore {
    /// An empty book.
    pub fn new() -> (s: Self)
        ensures
            s@ == Seq::<InviteView>::empty(),
    {
        let s = InviteStore { invites: Vec::new() };
        assert(s@ =~= Seq::<InviteView>::empty());
        s
    }

    /// A book holding the given invitations (as loaded from disk).
    pub fn from_invites(invites: Vec<InviteEntry>) -> (s: Self)
        ensures
            s@ == invites_view(invites@),
    {
        InviteStore { invites }
    }

    fn find(&self, nonce: &str) -> (r: Option<usize>)
        ensures
            match r {
                Some(i) => first_with_nonce(self@, nonce@, i as int),
                None => !has_nonce(self@, nonce@),
            },
    {
        let key = nonce.to_owned();
        let mut i: usize = 0;
        while i < self.invites.len()
            invariant
                i <= self.invites@.len(),
                key@ == nonce@,
                forall|k: int| 0 <= k < i ==> #[trigger] self@[k].nonce != nonce@,
            decreases self.invites@.len() - i,
        {
            if self.invites[i].nonce == key {
                return Some(i);
            }
            i = i + 1;
        }
        None
    }

    /// Records an invitation. Its nonce must be new (checked first) and the
    /// book must have room.
    pub fn insert(&mut self, entry: InviteEntry) -> (r: Result<(), String>)
        ensures
            has_nonce(old(self)@, entry@.nonce) ==> (r matches Err(m) && m@ == used_message(entry@.nonce))
                && final(self)@ == old(self)@,
            !has_nonce(old(self)@, entry@.nonce) && old(self)@.len() >= INVITES_MAX
                ==> (r matches Err(m) && m@ == full_message()) && final(self)@ == old(self)@,
            !has_nonce(old(self)@, entry@.nonce) && old(self)@.len() < INVITES_MAX
                ==> r is Ok && final(self)@ == old(self)@.push(entry@),
    {
        if self.find(entry.nonce.as_str()).is_some() {
            let mut m = String::new();
            push_str(&mut m, "nonce already used: ");
            push_str(&mut m, entry.nonce.as_str());
            return Err(m);
        }
        if self.invites.len() >= INVITES_MAX {
            let mut m = String::new();
            push_str(&mut m, "invite store full (");
            push_decimal(&mut m, INVITES_MAX as u64);
            push_str(&mut m, ")");
            return Err(m);
        }
        let ghost ev = entry@;
        self.invites.push(entry);
        assert(self@ =~= old(self)@.push(ev));
        Ok(())
    }

    fn settle(&mut self, nonce: &str, status: InviteStatus, receipt_sig: Option<String>) -> (r: Result<(), String>)
        ensures
            !has_nonce(old(self)@, nonce@) ==> (r matches Err(m) && m@ == not_found_message(nonce@))
                && final(self)@ == old(self)@,
            has_nonce(old(self)@, nonce@) ==> exists|i: int| first_with_nonce(old(self)@, nonce@, i) && if old(self)@[i].status
                != InviteStatus::Pending {
                (r matches Err(m) && m@ == not_pending_message(nonce@, old(self)@[i].status)) && final(self)@ == old(self)@
            } else {
                r is Ok && final(self)@ == old(self)@.update(
                    i,
                    InviteView {
                        status,
                        receipt_sig: match receipt_sig {
                            Some(s) => Some(s@),
                            None => old(self)@[i].receipt_sig,
                        },
                        ..old(self)@[i]
                    },
                )
            },
    {
        match self.find(nonce) {
            None => {
                let mut m = String::new();
                push_str(&mut m, "nonce not found: ");
                push_str(&mut m, nonce);
                Err(m)
            },
            Some(i) => {
                let current = self.invites[i].status;
                if current != InviteStatus::Pending {
                    let mut m = String::new();
                    push_str(&mut m, "nonce ");
                    push_str(&mut m, nonce);
                    push_str(&mut m, " not pending (status=");
                    push_str(&mut m, current.name());
                    push_str(&mut m, ")");
                    assert(m@ =~= not_pending_message(nonce@, old(self)@[i as int].status));
                    return Err(m);
                }
                let mut e = self.invites.remove(i);
                e.status = status;
                match receipt_sig {
                    Some(s) => {
                        e.receipt_sig = Some(s);
                    },
                    None => {},
                }
                let ghost ev = e@;
                self.invites.insert(i, e);
                assert(self@ =~= old(self)@.update(i as int, ev));
                Ok(())
            },
        }
    }

    /// Marks the invitation accepted and records the receipt signature; the
    /// nonce must exist and be pending.
    pub fn accept(&mut self, nonce: &str, receipt_sig: &str) -> (r: Result<(), String>)
        ensures
            !has_nonce(old(self)@, nonce@) ==> (r matches Err(m) && m@ == not_found_message(nonce@))
                && final(self)@ == old(self)@,
            has_nonce(old(self)@, nonce@) ==> exists|i: int| first_with_nonce(old(self)@, nonce@, i) && if old(self)@[i].status
                != InviteStatus::Pending {
                (r matches Err(m) && m@ == not_pending_message(nonce@, old(self)@[i].status)) && final(self)@ == old(self)@
            } else {
                r is Ok && final(self)@ == old(self)@.update(
                    i,
                    InviteView { status: InviteStatus::Accepted, receipt_sig: Some(receipt_sig@), ..old(self)@[i] },
                )
            },
    {
        self.settle(nonce, InviteStatus::Accepted, Some(receipt_sig.to_owned()))
    }

    /// Marks the invitation rejected; the nonce must exist and be pending.
    pub fn reject(&mut self, nonce: &str) -> (r: Result<(), String>)
        ensures
            !has_nonce(old(self)@, nonce@) ==> (r matches Err(m) && m@ == not_found_message(nonce@))
                && final(self)@ == old(self)@,
            has_nonce(old(self)@, nonce@) ==> exists|i: int| first_with_nonce(old(self)@, nonce@, i) && if old(self)@[i].status
                != InviteStatus::Pending {
                (r matches Err(m) && m@ == not_pending_message(nonce@, old(self)@[i].status)) && final(self)@ == old(self)@
            } else {
                r is Ok && final(self)@ == old(self)@.update(i, InviteView { status: InviteStatus::Rejected, ..old(self)@[i] })
            },
    {
        self.settle(nonce, InviteStatus::Rejected, None)
    }

    /// Drops every pending invitation of an agent; tells how many went.
    pub fn revoke_agent(&mut self, agent_id: &str) -> (removed: usize)
        ensures
            final(self)@ == old(self)@.filter(|e: InviteView| !pending_of_agent(e, agent_id@)),
            removed == old(self)@.len() - final(self)@.len(),
    {
        let a = agent_id.to_owned();
        let ghost pred = |e: InviteView| !pending_of_agent(e, agent_id@);
        let ghost s = self@;
        let mut kept: Vec<InviteEntry> = Vec::new();
        let mut rest: Vec<InviteEntry> = Vec::new();
        std::mem::swap(&mut rest, &mut self.invites);
        let ghost orig = rest@;
        let _ = rest.len();
        let mut i: usize = 0;
        let mut removed: usize = 0;
        while rest.len() > 0
            invariant
                a@ == agent_id@,
                pred == (|e: InviteView| !pending_of_agent(e, agent_id@)),
                s == invites_view(orig),
                i + rest@.len() == orig.len(),
                orig.len() <= usize::MAX,
                rest@ == orig.skip(i as int),
                invites_view(kept@) == s.take(i as int).filter(pred),
                removed + kept@.len() == i,
            decreases rest@.len(),
        {
            let e = rest.remove(0);
            proof {
                assert(e == orig[i as int]);
                assert(s.take(i + 1) =~= s.take(i as int).push(e@));
                s.take(i as int).lemma_filter_push(e@, pred);
                assert(rest@ =~= orig.skip(i + 1));
            }
            if e.agent_id == a && e.status == InviteStatus::Pending {
                removed = removed + 1;
            } else {
                let ghost before = kept@;
                let ghost ev = e@;
                kept.push(e);
                assert(invites_view(kept@) =~= invites_view(before).push(ev));
            }
            i = i + 1;
        }
        self.invites = kept;
        assert(s.take(i as int) =~= s);
        removed
    }

    /// Pending invitations addressed to this invitee, in book order.
    pub fn pending_for_invitee(&self, invitee_peer: &str) -> (r: Vec<InviteEntry>)
        ensures
            invites_view(r@) == self@.filter(
                |e: InviteView| e.invitee_peer == invitee_peer@ && e.status == InviteStatus::Pending,
            ),
    {
        let p = invitee_peer.to_owned();
        let ghost pred = |e: InviteView| e.invitee_peer == invitee_peer@ && e.status == InviteStatus::Pending;
        let mut r: Vec<InviteEntry> = Vec::new();
        let mut i: usize = 0;
        while i < self.invites.len()
            invariant
                p@ == invitee_peer@,
                pred == (|e: InviteView| e.invitee_peer == invitee_peer@ && e.status == InviteStatus::Pending),
                i <= self.invites@.len(),
                invites_view(r@) == self@.take(i as int).filter(pred),
            decreases self.invites@.len() - i,
        {
            proof {
                assert(self@.take(i + 1) =~= self@.take(i as int).push(self@[i as int]));
                self@.take(i as int).lemma_filter_push(self@[i as int], pred);
                assert(self@[i as int] == self.invites@[i as int]@);
            }
            if self.invites[i].invitee_peer == p && self.invites[i].status == InviteStatus::Pending {
                let e = self.invites[i].copy();
                let ghost before = r@;
                r.push(e);
                assert(invites_view(r@) =~= invites_view(before).push(e@));
            }
            i = i + 1;
        }
        assert(self@.take(self.invites@.len() as int) =~= self@);
        r
    }

    /// Invitations issued by this host, in book order.
    pub fn sent_by_host(&self, host_peer: &str) -> (r: Vec<InviteEntry>)
        ensures
            invites_view(r@) == self@.filter(|e: InviteView| e.host_peer == host_peer@),
    {
        let p = host_peer.to_owned();
        let ghost pred = |e: InviteView| e.host_peer == host_peer@;
        let mut r: Vec<InviteEntry> = Vec::new();
        let mut i: usize = 0;
        while i < self.invites.len()
            invariant
                p@ == host_peer@,
                pred == (|e: InviteView| e.host_peer == host_peer@),
                i <= self.invites@.len(),
                invites_view(r@) == self@.take(i as int).filter(pred),
            decreases self.invites@.len() - i,
        {
            proof {
                assert(self@.take(i + 1) =~= self@.take(i as int).push(self@[i as int]));
                self@.take(i as int).lemma_filter_push(self@[i as int], pred);
                assert(self@[i as int] == self.invites@[i as int]@);
            }
            if self.invites[i].host_peer == p {
                let e = self.invites[i].copy();
                let ghost before = r@;
                r.push(e);
                assert(invites_view(r@) =~= invites_view(before).push(e@));
            }
            i = i + 1;
        }
        assert(self@.take(self.invites@.len() as int) =~= self@);
        r
    }

    /// Whether the nonce has already been used by an invitation.
    pub fn is_nonce_used(&self, nonce: &str) -> (r: bool)
        ensures
            r == has_nonce(self@, nonce@),
    {
        self.find(nonce).is_some()
    }

    /// All invitations in book order.
    pub fn list(&self) -> (r: Vec<InviteEntry>)
        ensures
            invites_view(r@) == self@,
    {
        let mut r: Vec<InviteEntry> = Vec::new();
        let mut i: usize = 0;
        while i < self.invites.len()
            invariant
                i <= self.invites@.len(),
                invites_view(r@) == self@.take(i as int),
            decreases self.invites@.len() - i,
        {
            let e = self.invites[i].copy();
            let ghost before = r@;
            r.push(e);
            assert(invites_view(r@) =~= invites_view(before).push(e@));
            assert(self@.take(i + 1) =~= self@.take(i as int).push(self@[i as int]));
            i = i + 1;
        }
        assert(self@.take(self.invites@.len() as int) =~= self@);
        r
    }
}


/// No two invitations share a nonce.
pub open spec fn nonces_distinct(s: Seq<InviteView>) -> bool {
    forall|i: int, j: int| 0 <= i < j < s.len() ==> #[trigger] s[i].nonce != #[trigger] s[j].nonce
}

/// Nonces are one-time: recording an invitation with a new nonce keeps the
/// nonces of the book distinct (an old nonce is refused by `insert`).
pub proof fn insert_keeps_nonces_distinct(s: Seq<InviteView>, e: InviteView)
    requires
        nonces_distinct(s),
        !has_nonce(s, e.nonce),
    ensures
        nonces_distinct(s.push(e)),
{
    assert forall|i: int, j: int| 0 <= i < j < s.push(e).len() implies #[trigger] s.push(e)[i].nonce
        != #[trigger] s.push(e)[j].nonce by {
        if j == s.len() {
            assert(s.push(e)[i] == s[i]);
        } else {
            assert(s.push(e)[i] == s[i] && s.push(e)[j] == s[j]);
        }
    }
}

/// An invitation is settled once: after its acceptance the nonce still
/// names it, and it is no longer pending, so a second receipt is refused.
pub proof fn accepted_invite_is_settled(s: Seq<InviteView>, nonce: Seq<char>, i: int, receipt_sig: Seq<char>)
    requires
        first_with_nonce(s, nonce, i),
    ensures
        first_with_nonce(
            s.update(i, InviteView { status: InviteStatus::Accepted, receipt_sig: Some(receipt_sig), ..s[i] }),
            nonce,
            i,
        ),
        s.update(i, InviteView { status: InviteStatus::Accepted, receipt_sig: Some(receipt_sig), ..s[i] })[i].status
            != InviteStatus::Pending,
{
}

} // verus!
