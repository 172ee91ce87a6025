//! The card phase of `/a2a/1`: which definitions a requester may see, what
//! each request frame is answered, and the two invitation frames (an owner
//! issues an invitation; the invitee returns a signed receipt that turns it
//! into a grant). Visibility fails closed: a remote peer sees the public
//! agents and the private ones granted to it, never a local one.
//!
//! Parsing frames, signing cards and checking signatures is the host's
//! part; their results are handed in here.

use vstd::prelude::*;
use vstd::string::*;

use crate::audit::{AuditEvent, AuditView};
use crate::agents::{defs_view, is_visible, AgentDef, AgentDefView, AgentStore, Visibility, TTL_DEFAULT_SECS};
use crate::grants::{granted, GrantStore, GrantView};
use crate::invites::{
    has_nonce, first_with_nonce, invites_view, full_message, not_found_message, not_pending_message,
    InviteEntry, InviteStatus, InviteStore, InviteView, INVITES_MAX,
};
use crate::text::{push_str, str_eq};

verus! {

broadcast use vstd::string::group_string_axioms;

/// Seconds between subscription heartbeats: half the card lifetime, so a
/// subscriber sees two heartbeats per card lifetime.
pub fn heartbeat_interval() -> (secs: u64)
    ensures
        secs == TTL_DEFAULT_SECS / 2,
{
    TTL_DEFAULT_SECS / 2
}

/// The agent ids granted to `peer`, in grant order.
pub open spec fn granted_ids(grants: Seq<GrantView>, peer: Seq<char>) -> Seq<Seq<char>> {
    grants.filter(|g: GrantView| g.peer == peer).map_values(|g: GrantView| g.agent_id)
}

/// The definitions a requester sees, in book order: the owner sees every
/// enabled one; a remote peer the enabled public ones and those granted to it.
pub open spec fn visible_spec(
    agents: Seq<AgentDefView>,
    grants: Seq<GrantView>,
    peer: Seq<char>,
    requester_is_owner: bool,
) -> Seq<AgentDefView> {
    let ids = if requester_is_owner { Seq::<Seq<char>>::empty() } else { granted_ids(grants, peer) };
    agents.filter(|d: AgentDefView| is_visible(d, requester_is_owner, ids))
}

/// The definitions whose cards a requester sees.
pub fn visible_definitions(agents: &AgentStore, grants: &GrantStore, peer: &str, requester_is_owner: bool) -> (r: Vec<
    AgentDef,
>)
    ensures
        defs_view(r@) == visible_spec(agents@, grants@, peer@, requester_is_owner),
{
    let granted_list: Vec<String> = if requester_is_owner {
        Vec::new()
    } else {
        grants.agents_for_peer(peer)
    };
    let r = agents.visible_defs(requester_is_owner, &granted_list);
    proof {
        let ids = if requester_is_owner { Seq::<Seq<char>>::empty() } else { granted_ids(grants@, peer@) };
        assert(granted_list@.map_values(|g: String| g@) =~= ids);
    }
    r
}

/// A request frame of the card phase.
#[derive(Debug, Clone, PartialEq, Eq)]
pub enum CardRequest {
    /// List the visible cards.
    List,
    /// The visible card of one agent.
    Get { agent_id: String },
    /// Subscribe to pushes.
    Subscribe,
    /// An owner's invitation request.
    InviteRequest,
    /// An invitee's receipt.
    InviteReceipt,
    /// A frame only a server may send.
    ServerOnly,
    /// An error frame.
    Error,
}

/// What the host does with a card request.
#[derive(Debug, Clone, PartialEq, Eq)]
pub enum CardAction {
    /// Answer with the signed cards of these definitions.
    Cards(Vec<AgentDef>),
    /// Answer with an error frame.
    Refuse { code: String, message: String },
    /// Register the subscriber, confirm, then push the cards of these.
    Subscribe(Vec<AgentDef>),
    /// Handle the invitation request.
    InviteRequest,
    /// Handle the receipt.
    InviteReceipt,
    /// A protocol violation: audit it and answer nothing.
    Violation,
    /// Answer nothing.
    Silent,
}

/// Abstract card action.
pub enum CardActionView {
    Cards(Seq<AgentDefView>),
    Refuse { code: Seq<char>, message: Seq<char> },
    Subscribe(Seq<AgentDefView>),
    InviteRequest,
    InviteReceipt,
    Violation,
    Silent,
}

impl View for CardAction {
    type V = CardActionView;

    open spec fn view(&self) -> CardActionView {
        match self {
            CardAction::Cards(v) => CardActionView::Cards(defs_view(v@)),
            CardAction::Refuse { code, message } => CardActionView::Refuse { code: code@, message: message@ },
            CardAction::Subscribe(v) => CardActionView::Subscribe(defs_view(v@)),
            CardAction::InviteRequest => CardActionView::InviteRequest,
            CardAction::InviteReceipt => CardActionView::InviteReceipt,
            CardAction::Violation => CardActionView::Violation,
            CardAction::Silent => CardActionView::Silent,
        }
    }
}

/// Message of a `get` for an agent the requester cannot see.
pub open spec fn not_visible_message(agent_id: Seq<char>) -> Seq<char> {
    "agent "@ + agent_id + " 不可见或不存在"@
}

/// The answer to a card request.
pub open spec fn dispatch_spec(
    agents: Seq<AgentDefView>,
    grants: Seq<GrantView>,
    peer: Seq<char>,
    requester_is_owner: bool,
    req: CardRequest,
) -> CardActionView {
    let visible = visible_spec(agents, grants, peer, requester_is_owner);
    match req {
        CardRequest::List => CardActionView::Cards(visible),
        CardRequest::Get { agent_id } => {
            let found = visible.filter(|d: AgentDefView| d.agent_id == agent_id@);
            if found.len() == 0 {
                CardActionView::Refuse { code: "not-found"@, message: not_visible_message(agent_id@) }
            } else {
                CardActionView::Cards(found)
            }
        },
        CardRequest::Subscribe => CardActionView::Subscribe(visible),
        CardRequest::InviteRequest => CardActionView::InviteRequest,
        CardRequest::InviteReceipt => CardActionView::InviteReceipt,
        CardRequest::ServerOnly => CardActionView::Violation,
        CardRequest::Error => CardActionView::Silent,
    }
}

fn with_id(defs: Vec<AgentDef>, agent_id: &str) -> (r: Vec<AgentDef>)
    ensures
        defs_view(r@) == defs_view(defs@).filter(|d: AgentDefView| d.agent_id == agent_id@),
{
    let ghost pred = |d: AgentDefView| d.agent_id == agent_id@;
    let ghost dv = defs_view(defs@);
    let mut r: Vec<AgentDef> = Vec::new();
    let mut i: usize = 0;
    while i < defs.len()
        invariant
            i <= defs@.len(),
            dv == defs_view(defs@),
            pred == (|d: AgentDefView| d.agent_id == agent_id@),
            defs_view(r@) == dv.take(i as int).filter(pred),
        decreases defs@.len() - i,
    {
        proof {
            assert(dv.take(i + 1) =~= dv.take(i as int).push(dv[i as int]));
            dv.take(i as int).lemma_filter_push(dv[i as int], pred);
        }
        let d = &defs[i];
        if str_eq(d.agent_id.as_str(), agent_id) {
            let c = d.copy();
            let ghost before = r@;
            r.push(c);
            assert(defs_view(r@) =~= defs_view(before).push(c@));
        }
        i = i + 1;
    }
    assert(dv.take(defs@.len() as int) =~= dv);
    r
}

/// Decides the answer to a card request.
pub fn dispatch(agents: &AgentStore, grants: &GrantStore, peer: &str, requester_is_owner: bool, req: &CardRequest) -> (r:
    CardAction)
    ensures
        r@ == dispatch_spec(agents@, grants@, peer@, requester_is_owner, *req),
{
    match req {
        CardRequest::List => CardAction::Cards(visible_definitions(agents, grants, peer, requester_is_owner)),
        CardRequest::Get { agent_id } => {
            let visible = visible_definitions(agents, grants, peer, requester_is_owner);
            let found = with_id(visible, agent_id.as_str());
            if found.len() == 0 {
                let mut message = String::new();
                push_str(&mut message, "agent ");
                push_str(&mut message, agent_id.as_str());
                push_str(&mut message, " 不可见或不存在");
                CardAction::Refuse { code: "not-found".to_owned(), message }
            } else {
                CardAction::Cards(found)
            }
        },
        CardRequest::Subscribe => CardAction::Subscribe(visible_definitions(agents, grants, peer, requester_is_owner)),
        CardRequest::InviteRequest => CardAction::InviteRequest,
        CardRequest::InviteReceipt => CardAction::InviteReceipt,
        CardRequest::ServerOnly => CardAction::Violation,
        CardRequest::Error => CardAction::Silent,
    }
}

/// What a parsed invitation frame carries, with the result of checking its
/// signature and time window (`verify_error`: the checker's message).
#[derive(Debug, Clone, PartialEq, Eq)]
pub struct InviteFrameFacts {
    pub nonce: String,
    pub agent_id: String,
    pub invitee_peer: String,
    pub expiry: u64,
    pub issued_at: u64,
    pub verify_error: Option<String>,
}

/// Answer to an invitation request: issued (the host returns the frame), or
/// refused with an error code and a message.
#[derive(Debug, Clone, PartialEq, Eq)]
pub enum InviteReply {
    Issued,
    Refused { error: String, message: String },
}

/// Abstract invitation answer.
pub enum InviteReplyView {
    Issued,
    Refused { error: Seq<char>, message: Seq<char> },
}

impl View for InviteReply {
    type V = InviteReplyView;

    open spec fn view(&self) -> InviteReplyView {
        match self {
            InviteReply::Issued => InviteReplyView::Issued,
            InviteReply::Refused { error, message } => InviteReplyView::Refused { error: error@, message: message@ },
        }
    }
}

/// The invitation recorded for an issued frame.
pub open spec fn issued_entry(f: InviteFrameFacts, host_peer: Seq<char>) -> InviteView {
    InviteView {
        nonce: f.nonce@,
        agent_id: f.agent_id@,
        host_peer,
        invitee_peer: f.invitee_peer@,
        expiry: f.expiry,
        issued_at: f.issued_at,
        status: InviteStatus::Pending,
        receipt_sig: None,
    }
}

/// The answer to an invitation request, and the book after it.
pub open spec fn invite_request_spec(
    book: Seq<InviteView>,
    host_peer: Seq<char>,
    requester_is_owner: bool,
    frame: Result<InviteFrameFacts, String>,
) -> (InviteReplyView, Seq<InviteView>) {
    if !requester_is_owner {
        (InviteReplyView::Refused { error: "denied"@, message: "only owner can create invites"@ }, book)
    } else {
        match frame {
            Err(e) => (InviteReplyView::Refused { error: "bad-invite"@, message: "invite parse error: "@ + e@ }, book),
            Ok(f) => match f.verify_error {
                Some(e) => (InviteReplyView::Refused { error: "bad-invite"@, message: "invite verify error: "@ + e@ }, book),
                None => if has_nonce(book, f.nonce@) {
                    (InviteReplyView::Refused { error: "nonce-used"@, message: "nonce already used"@ }, book)
                } else if book.len() >= INVITES_MAX {
                    (
                        InviteReplyView::Refused {
                            error: "store-error"@,
                            message: "invite store error: "@ + full_message(),
                        },
                        book,
                    )
                } else {
                    (InviteReplyView::Issued, book.push(issued_entry(f, host_peer)))
                },
            },
        }
    }
}

/// Handles an invitation request: only the owner may invite; the frame must
/// parse and verify; its nonce must be new; the pending invitation is then
/// recorded and the frame is handed back.
pub fn handle_invite_request(
    invites: &mut InviteStore,
    host_peer: &str,
    peer: &str,
    requester_is_owner: bool,
    frame: Result<InviteFrameFacts, String>,
) -> (r: (InviteReply, Option<AuditEvent>))
    ensures
        (r.0@, final(invites)@) == invite_request_spec(old(invites)@, host_peer@, requester_is_owner, frame),
        match r.1 {
            Some(e) => !requester_is_owner && e@ == (AuditView::A2aDenied {
                peer: peer@,
                detail: "non-owner invite request rejected"@,
            }),
            None => requester_is_owner,
        },
{
    let event = if requester_is_owner {
        None
    } else {
        Some(AuditEvent::A2aDenied { peer: peer.to_owned(), detail: "non-owner invite request rejected".to_owned() })
    };
    (decide_invite_request(invites, host_peer, requester_is_owner, frame), event)
}

fn decide_invite_request(
    invites: &mut InviteStore,
    host_peer: &str,
    requester_is_owner: bool,
    frame: Result<InviteFrameFacts, String>,
) -> (r: InviteReply)
    ensures
        (r@, final(invites)@) == invite_request_spec(old(invites)@, host_peer@, requester_is_owner, frame),
{
    if !requester_is_owner {
        return InviteReply::Refused {
            error: "denied".to_owned(),
            message: "only owner can create invites".to_owned(),
        };
    }
    let f = match frame {
        Ok(f) => f,
        Err(e) => {
            let mut message = String::new();
            push_str(&mut message, "invite parse error: ");
            push_str(&mut message, e.as_str());
            return InviteReply::Refused { error: "bad-invite".to_owned(), message };
        },
    };
    if let Some(e) = &f.verify_error {
        let mut message = String::new();
        push_str(&mut message, "invite verify error: ");
        push_str(&mut message, e.as_str());
        return InviteReply::Refused { error: "bad-invite".to_owned(), message };
    }
    if invites.is_nonce_used(f.nonce.as_str()) {
        return InviteReply::Refused { error: "nonce-used".to_owned(), message: "nonce already used".to_owned() };
    }
    let ghost fv = issued_entry(f, host_peer@);
    let entry = InviteEntry {
        nonce: f.nonce,
        agent_id: f.agent_id,
        host_peer: host_peer.to_owned(),
        invitee_peer: f.invitee_peer,
        expiry: f.expiry,
        issued_at: f.issued_at,
        status: InviteStatus::Pending,
        receipt_sig: None,
    };
    assert(entry@ == fv);
    match invites.insert(entry) {
        Ok(()) => InviteReply::Issued,
        Err(e) => {
            let mut message = String::new();
            push_str(&mut message, "invite store error: ");
            push_str(&mut message, e.as_str());
            InviteReply::Refused { error: "store-error".to_owned(), message }
        },
    }
}

/// Answer to a receipt: accepted, or not with a message.
#[derive(Debug, Clone, PartialEq, Eq)]
pub struct ReceiptReply {
    pub ok: bool,
    pub message: Option<String>,
}

pub open spec fn opt_text(o: Option<String>) -> Option<Seq<char>> {
    match o {
        Some(s) => Some(s@),
        None => None,
    }
}

/// A refused receipt answer with this message.
pub open spec fn refused_receipt(r: ReceiptReply, message: Seq<char>) -> bool {
    !r.ok && opt_text(r.message) == Some(message)
}

/// Finds the invitation a receipt answers: the receipt must parse (`nonce`:
/// its nonce, or the parser's message) and name a recorded invitation.
pub fn receipt_target(invites: &InviteStore, nonce: Result<String, String>) -> (r: Result<InviteEntry, ReceiptReply>)
    ensures
        nonce matches Err(e) ==> (r matches Err(reply) && refused_receipt(reply, "receipt parse error: "@ + e@)),
        nonce matches Ok(n) ==> if has_nonce(invites@, n@) {
            r matches Ok(entry) && exists|i: int| first_with_nonce(invites@, n@, i) && entry@ == invites@[i]
        } else {
            r matches Err(reply) && refused_receipt(reply, "nonce not found"@)
        },
{
    let n = match nonce {
        Ok(n) => n,
        Err(e) => {
            let mut message = String::new();
            push_str(&mut message, "receipt parse error: ");
            push_str(&mut message, e.as_str());
            return Err(ReceiptReply { ok: false, message: Some(message) });
        },
    };
    let all = invites.list();
    let ghost book = invites@;
    let mut i: usize = 0;
    while i < all.len()
        invariant
            book == invites@,
            nonce matches Ok(x) && x@ == n@,
            invites_view(all@) == book,
            i <= all@.len(),
            forall|k: int| 0 <= k < i ==> #[trigger] book[k].nonce != n@,
        decreases all@.len() - i,
    {
        assert(book[i as int] == all@[i as int]@);
        if str_eq(all[i].nonce.as_str(), n.as_str()) {
            let entry = all[i].copy();
            assert(first_with_nonce(book, n@, i as int));
            return Ok(entry);
        }
        i = i + 1;
    }
    Err(ReceiptReply { ok: false, message: Some("nonce not found".to_owned()) })
}

/// Completes a receipt for `invite`: the receipt's signature must verify
/// (`verify_error`: the checker's message), its signer must be the invitee;
/// the invitation is then accepted with the receipt signature and the
/// invitee is granted the agent.
pub fn complete_receipt(
    invites: &mut InviteStore,
    grants: &mut GrantStore,
    invite: &InviteEntry,
    verify_error: Option<String>,
    signer_peer: &str,
    receipt_sig: &str,
    now: u64,
) -> (r: ReceiptReply)
    ensures
        verify_error matches Some(e) ==> refused_receipt(r, "receipt verify error: "@ + e@) && final(invites)@ == old(
            invites,
        )@ && final(grants)@ == old(grants)@,
        verify_error is None && signer_peer@ != invite.invitee_peer@ ==> refused_receipt(
            r,
            "receipt signer mismatch invitee"@,
        ) && final(invites)@ == old(invites)@ && final(grants)@ == old(grants)@,
        r.ok ==> verify_error is None && signer_peer@ == invite.invitee_peer@ && r.message is None,
        r.ok ==> granted(final(grants)@, invite.agent_id@, invite.invitee_peer@),
        r.ok ==> final(grants)@ == if granted(old(grants)@, invite.agent_id@, invite.invitee_peer@) {
            old(grants)@
        } else {
            old(grants)@.push(GrantView { agent_id: invite.agent_id@, peer: invite.invitee_peer@, granted_at: now })
        },
        r.ok ==> exists|i: int| first_with_nonce(old(invites)@, invite.nonce@, i) && old(invites)@[i].status
            == InviteStatus::Pending && final(invites)@ == old(invites)@.update(
            i,
            InviteView { status: InviteStatus::Accepted, receipt_sig: Some(receipt_sig@), ..old(invites)@[i] },
        ),
        verify_error is None && signer_peer@ == invite.invitee_peer@ ==> {
            &&& !has_nonce(old(invites)@, invite.nonce@) ==> refused_receipt(
                r,
                "accept error: "@ + not_found_message(invite.nonce@),
            ) && final(grants)@ == old(grants)@ && final(invites)@ == old(invites)@
            &&& has_nonce(old(invites)@, invite.nonce@) ==> exists|i: int| first_with_nonce(old(invites)@, invite.nonce@, i)
                && if old(invites)@[i].status != InviteStatus::Pending {
                refused_receipt(r, "accept error: "@ + not_pending_message(invite.nonce@, old(invites)@[i].status))
                    && final(grants)@ == old(grants)@ && final(invites)@ == old(invites)@
            } else if !granted(old(grants)@, invite.agent_id@, invite.invitee_peer@) && old(grants)@.len()
                >= crate::grants::GRANTS_MAX {
                &&& refused_receipt(r, "grant error: "@ + crate::grants::full_message())
                &&& final(grants)@ == old(grants)@
                &&& final(invites)@ == old(invites)@.update(
                    i,
                    InviteView { status: InviteStatus::Accepted, receipt_sig: Some(receipt_sig@), ..old(invites)@[i] },
                )
            } else {
                r.ok
            }
        },
{
    if let Some(e) = verify_error {
        let mut message = String::new();
        push_str(&mut message, "receipt verify error: ");
        push_str(&mut message, e.as_str());
        return ReceiptReply { ok: false, message: Some(message) };
    }
    if !str_eq(signer_peer, invite.invitee_peer.as_str()) {
        return ReceiptReply { ok: false, message: Some("receipt signer mismatch invitee".to_owned()) };
    }
    if let Err(e) = invites.accept(invite.nonce.as_str(), receipt_sig) {
        let mut message = String::new();
        push_str(&mut message, "accept error: ");
        push_str(&mut message, e.as_str());
        return ReceiptReply { ok: false, message: Some(message) };
    }
    let ghost before = grants@;
    if let Err(e) = grants.grant(invite.agent_id.as_str(), invite.invitee_peer.as_str(), now) {
        let mut message = String::new();
        push_str(&mut message, "grant error: ");
        push_str(&mut message, e.as_str());
        return ReceiptReply { ok: false, message: Some(message) };
    }
    proof {
        if !granted(before, invite.agent_id@, invite.invitee_peer@) {
            assert(crate::grants::grant_is(grants@[grants@.len() - 1], invite.agent_id@, invite.invitee_peer@));
        }
    }
    ReceiptReply { ok: true, message: None }
}

/// A subscription starts from the same cards a listing shows the same
/// requester: a subscriber is never shown less (or more) than it may list.
pub proof fn subscribe_snapshot_is_the_listing(
    agents: Seq<AgentDefView>,
    grants: Seq<GrantView>,
    peer: Seq<char>,
    requester_is_owner: bool,
)
    ensures
        dispatch_spec(agents, grants, peer, requester_is_owner, CardRequest::Subscribe) matches CardActionView::Subscribe(
            s,
        ) && dispatch_spec(agents, grants, peer, requester_is_owner, CardRequest::List) matches CardActionView::Cards(l)
            && s == l,
{
}

/// A remote peer that holds a grant for an enabled private agent sees that
/// agent's card, both when it lists and when it subscribes; so does every
/// enabled public agent.
pub proof fn granted_private_cards_are_offered(
    agents: Seq<AgentDefView>,
    grants: Seq<GrantView>,
    peer: Seq<char>,
    i: int,
)
    requires
        0 <= i < agents.len(),
        agents[i].enabled,
        agents[i].visibility == Visibility::Public || (agents[i].visibility == Visibility::Private && exists|j: int|
            0 <= j < grants.len() && grants[j].peer == peer && grants[j].agent_id == agents[i].agent_id),
    ensures
        dispatch_spec(agents, grants, peer, false, CardRequest::Subscribe) matches CardActionView::Subscribe(s)
            && s.contains(agents[i]),
        dispatch_spec(agents, grants, peer, false, CardRequest::List) matches CardActionView::Cards(l) && l.contains(
            agents[i],
        ),
{
    let ids = granted_ids(grants, peer);
    if agents[i].visibility == Visibility::Private {
        let j = choose|j: int|
            0 <= j < grants.len() && grants[j].peer == peer && grants[j].agent_id == agents[i].agent_id;
        let gp = |g: GrantView| g.peer == peer;
        grants.lemma_filter_contains(gp, j);
        let f = grants.filter(gp);
        let k = choose|k: int| 0 <= k < f.len() && f[k] == grants[j];
        assert(ids[k] == agents[i].agent_id);
        assert(ids.contains(agents[i].agent_id));
    }
    let pred = |d: AgentDefView| is_visible(d, false, ids);
    assert(pred(agents[i]));
    agents.lemma_filter_contains(pred, i);
}

} // verus!
