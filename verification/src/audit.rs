//! Audit events: connection established or denied, gate refusals, child exit
//! all leave a trace. An event carries the peer id, an error code and what
//! happened, never policy details or credentials.

use vstd::prelude::*;
use vstd::string::*;

verus! {

broadcast use vstd::string::group_string_axioms;

/// One audit event.
#[derive(Debug, Clone, PartialEq, Eq)]
pub enum AuditEvent {
    /// Refused at the handshake (not in the policy table, bad handshake,
    /// unattributable peer).
    ConnDenied { peer: String, code: String },
    /// Refused by a resource gate; `limit` tells total from per-peer.
    GateDenied { peer: String, code: String, limit: &'static str },
    /// Connection established: `ready` sent, child spawned.
    ConnEstablished { peer: String, conn: String },
    /// The child could not be spawned.
    SpawnFailed { peer: String, conn: String, detail: String },
    /// The client's stream closed (entry of the exit ladder).
    ClientGone { peer: String, conn: String },
    /// The child exited; `detail` holds its status or a kill after grace.
    SubprocessExit { peer: String, conn: String, detail: String },
    /// A refused A2A card-phase request (server-only frame, non-owner
    /// invitation, unparsable first frame).
    A2aDenied { peer: String, detail: String },
    /// A refused A2A task; `detail` tells the peer-level or agent-level reason.
    A2aTaskDenied { peer: String, detail: String },
}

/// The kind label of an event.
pub open spec fn kind_text(e: AuditEvent) -> Seq<char> {
    match e {
        AuditEvent::ConnDenied { .. } => "conn-denied"@,
        AuditEvent::GateDenied { .. } => "gate-denied"@,
        AuditEvent::ConnEstablished { .. } => "conn-established"@,
        AuditEvent::SpawnFailed { .. } => "spawn-failed"@,
        AuditEvent::ClientGone { .. } => "client-gone"@,
        AuditEvent::SubprocessExit { .. } => "subprocess-exit"@,
        AuditEvent::A2aDenied { .. } => "a2a-denied"@,
        AuditEvent::A2aTaskDenied { .. } => "a2a-task-denied"@,
    }
}

/// The peer an event is about.
pub open spec fn peer_text(e: AuditEvent) -> Seq<char> {
    match e {
        AuditEvent::ConnDenied { peer, .. } => peer@,
        AuditEvent::GateDenied { peer, .. } => peer@,
        AuditEvent::ConnEstablished { peer, .. } => peer@,
        AuditEvent::SpawnFailed { peer, .. } => peer@,
        AuditEvent::ClientGone { peer, .. } => peer@,
        AuditEvent::SubprocessExit { peer, .. } => peer@,
        AuditEvent::A2aDenied { peer, .. } => peer@,
        AuditEvent::A2aTaskDenied { peer, .. } => peer@,
    }
}

/// The error code of an event (`-` for events without one).
pub open spec fn code_text(e: AuditEvent) -> Seq<char> {
    match e {
        AuditEvent::ConnDenied { code, .. } => code@,
        AuditEvent::GateDenied { code, .. } => code@,
        _ => "-"@,
    }
}

/// Abstract event: every field by its text.
pub enum AuditView {
    ConnDenied { peer: Seq<char>, code: Seq<char> },
    GateDenied { peer: Seq<char>, code: Seq<char>, limit: Seq<char> },
    ConnEstablished { peer: Seq<char>, conn: Seq<char> },
    SpawnFailed { peer: Seq<char>, conn: Seq<char>, detail: Seq<char> },
    ClientGone { peer: Seq<char>, conn: Seq<char> },
    SubprocessExit { peer: Seq<char>, conn: Seq<char>, detail: Seq<char> },
    A2aDenied { peer: Seq<char>, detail: Seq<char> },
    A2aTaskDenied { peer: Seq<char>, detail: Seq<char> },
}

impl View for AuditEvent {
    type V = AuditView;

    open spec fn view(&self) -> AuditView {
        match self {
            AuditEvent::ConnDenied { peer, code } => AuditView::ConnDenied { peer: peer@, code: code@ },
            AuditEvent::GateDenied { peer, code, limit } => AuditView::GateDenied {
                peer: peer@,
                code: code@,
                limit: limit@,
            },
            AuditEvent::ConnEstablished { peer, conn } => AuditView::ConnEstablished { peer: peer@, conn: conn@ },
            AuditEvent::SpawnFailed { peer, conn, detail } => AuditView::SpawnFailed {
                peer: peer@,
                conn: conn@,
                detail: detail@,
            },
            AuditEvent::ClientGone { peer, conn } => AuditView::ClientGone { peer: peer@, conn: conn@ },
            AuditEvent::SubprocessExit { peer, conn, detail } => AuditView::SubprocessExit {
                peer: peer@,
                conn: conn@,
                detail: detail@,
            },
            AuditEvent::A2aDenied { peer, detail } => AuditView::A2aDenied { peer: peer@, detail: detail@ },
            AuditEvent::A2aTaskDenied { peer, detail } => AuditView::A2aTaskDenied { peer: peer@, detail: detail@ },
        }
    }
}

/// Abstract events of a list.
pub open spec fn events_view(v: Seq<AuditEvent>) -> Seq<AuditView> {
    v.map_values(|e: AuditEvent| e@)
}

impl AuditEvent {
    /// The kind label (the `event` field of the structured record).
    pub fn kind(&self) -> (s: &'static str)
        ensures
            s@ == kind_text(*self),
    {
        match self {
            AuditEvent::ConnDenied { .. } => "conn-denied",
            AuditEvent::GateDenied { .. } => "gate-denied",
            AuditEvent::ConnEstablished { .. } => "conn-established",
            AuditEvent::SpawnFailed { .. } => "spawn-failed",
            AuditEvent::ClientGone { .. } => "client-gone",
            AuditEvent::SubprocessExit { .. } => "subprocess-exit",
            AuditEvent::A2aDenied { .. } => "a2a-denied",
            AuditEvent::A2aTaskDenied { .. } => "a2a-task-denied",
        }
    }

    /// The peer the event is about.
    pub fn peer(&self) -> (s: &str)
        ensures
            s@ == peer_text(*self),
    {
        match self {
            AuditEvent::ConnDenied { peer, .. } => peer.as_str(),
            AuditEvent::GateDenied { peer, .. } => peer.as_str(),
            AuditEvent::ConnEstablished { peer, .. } => peer.as_str(),
            AuditEvent::SpawnFailed { peer, .. } => peer.as_str(),
            AuditEvent::ClientGone { peer, .. } => peer.as_str(),
            AuditEvent::SubprocessExit { peer, .. } => peer.as_str(),
            AuditEvent::A2aDenied { peer, .. } => peer.as_str(),
            AuditEvent::A2aTaskDenied { peer, .. } => peer.as_str(),
        }
    }

    /// The error code, or `-` for events without one.
    pub fn code(&self) -> (s: &str)
        ensures
            s@ == code_text(*self),
    {
        match self {
            AuditEvent::ConnDenied { code, .. } => code.as_str(),
            AuditEvent::GateDenied { code, .. } => code.as_str(),
            _ => "-",
        }
    }

    /// A field-by-field copy.
    pub fn copy(&self) -> (r: Self)
        ensures
            r@ == self@,
    {
        match self {
            AuditEvent::ConnDenied { peer, code } => AuditEvent::ConnDenied { peer: peer.clone(), code: code.clone() },
            AuditEvent::GateDenied { peer, code, limit } => AuditEvent::GateDenied {
                peer: peer.clone(),
                code: code.clone(),
                limit: *limit,
            },
            AuditEvent::ConnEstablished { peer, conn } => AuditEvent::ConnEstablished {
                peer: peer.clone(),
                conn: conn.clone(),
            },
            AuditEvent::SpawnFailed { peer, conn, detail } => AuditEvent::SpawnFailed {
                peer: peer.clone(),
                conn: conn.clone(),
                detail: detail.clone(),
            },
            AuditEvent::ClientGone { peer, conn } => AuditEvent::ClientGone { peer: peer.clone(), conn: conn.clone() },
            AuditEvent::SubprocessExit { peer, conn, detail } => AuditEvent::SubprocessExit {
                peer: peer.clone(),
                conn: conn.clone(),
                detail: detail.clone(),
            },
            AuditEvent::A2aDenied { peer, detail } => AuditEvent::A2aDenied { peer: peer.clone(), detail: detail.clone() },
            AuditEvent::A2aTaskDenied { peer, detail } => AuditEvent::A2aTaskDenied {
                peer: peer.clone(),
                detail: detail.clone(),
            },
        }
    }
}

/// Where audit events go. An implementation must neither block nor panic.
pub trait AuditSink {
    fn record(&mut self, event: AuditEvent);
}

/// An in-memory sink that keeps every event in order, for assertions.
pub struct CaptureAudit {
    events: Vec<AuditEvent>,
}

impl View for CaptureAudit {
    type V = Seq<AuditView>;

    open spec fn view(&self) -> Seq<AuditView> {
        events_view(self.recorded())
    }
}

impl CaptureAudit {
    /// The recorded events, oldest first.
    pub closed spec fn recorded(&self) -> Seq<AuditEvent> {
        self.events@
    }

    /// An empty capture.
    pub fn new() -> (c: Self)
        ensures
            c@ == Seq::<AuditView>::empty(),
    {
        let c = CaptureAudit { events: Vec::new() };
        assert(c@ =~= Seq::<AuditView>::empty());
        c
    }

    /// The recorded events, oldest first.
    pub fn snapshot(&self) -> (r: Vec<AuditEvent>)
        ensures
            events_view(r@) == self@,
    {
        let mut r: Vec<AuditEvent> = Vec::new();
        let mut i: usize = 0;
        while i < self.events.len()
            invariant
                i <= self.events@.len(),
                events_view(r@) == events_view(self.events@.take(i as int)),
            decreases self.events@.len() - i,
        {
            let e = self.events[i].copy();
            let ghost before = r@;
            r.push(e);
            assert(events_view(r@) =~= events_view(before).push(e@));
            assert(events_view(self.events@.take(i + 1)) =~= events_view(self.events@.take(i as int)).push(
                self.events@[i as int]@,
            ));
            i = i + 1;
        }
        assert(self.events@.take(self.events@.len() as int) =~= self.events@);
        r
    }

    /// Whether some recorded event satisfies `pred`.
    pub fn contains<F: Fn(&AuditEvent) -> bool>(&self, pred: F) -> (r: bool)
        requires
            forall|e: &AuditEvent| #[trigger] pred.requires((e,)),
        ensures
            r ==> exists|i: int| 0 <= i < self.recorded().len() && pred.ensures((&self.recorded()[i],), true),
            !r ==> forall|i: int| 0 <= i < self.recorded().len() ==> pred.ensures((&self.recorded()[i],), false),
    {
        let mut i: usize = 0;
        while i < self.events.len()
            invariant
                i <= self.events@.len(),
                forall|e: &AuditEvent| #[trigger] pred.requires((e,)),
                forall|k: int| 0 <= k < i ==> pred.ensures((&self.events@[k],), false),
            decreases self.events@.len() - i,
        {
            let hit = pred(&self.events[i]);
            if hit {
                assert(pred.ensures((&self.recorded()[i as int],), true));
                return true;
            }
            i = i + 1;
        }
        false
    }
}

impl AuditSink for CaptureAudit {
    /// Appends the event.
    fn record(&mut self, event: AuditEvent)
        ensures
            final(self)@ == old(self)@.push(event@),
    {
        self.events.push(event);
        assert(self@ =~= old(self)@.push(event@));
    }
}

} // verus!
