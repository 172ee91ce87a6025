//! The ACP connection router: one per child, it owns the routing of the
//! child's output. Attached, output goes to the client (the permission
//! waterfall intercepts on the way). Detached, the reattach window runs:
//! `session/update` lines are cached, permission requests are answered
//! reject-once (nobody is there to ask), and the window's end or a dead
//! child leads to the exit ladder. Before the first attach, output is held
//! back and flushed on attach, never dropped.
//!
//! The host runs the loop (child lines, control messages, deadlines) and
//! carries out the [`RouterAction`]s in order.

use vstd::prelude::*;
use vstd::string::*;
use std::collections::VecDeque;

use crate::bridge::{deadline_of, line_request, Outstanding};
use crate::permission::{
    classify, decide, decide_spec, is_permission_request, rejected_response, rejected_text, AskRoute, Decision,
    DecisionView, RpcMessage,
};
use crate::reattach::{
    announcement_text, calls, flatten, pushed, is_method, is_response, is_response_spec, is_session_update, replay_announcement,
    update_session_key, UpdateCache,
};

verus! {

broadcast use {vstd::string::group_string_axioms, vstd::std_specs::vecdeque::group_vec_dequeue_axioms};

/// What the host does for the router.
#[derive(Debug, Clone, PartialEq, Eq)]
pub enum RouterAction {
    /// Write this answer line to the child.
    AnswerChild(String),
    /// Send this line to the client.
    ToClient(Vec<u8>),
    /// Audit a permission action with the request id.
    AuditPermission { action: &'static str, id: String },
    /// Audit an accepted reattach and how many lines were replayed.
    AuditReplay { replayed: usize },
}

/// Abstract action.
pub enum ActionView {
    AnswerChild(Seq<char>),
    ToClient(Seq<u8>),
    AuditPermission { action: Seq<char>, id: Seq<char> },
    AuditReplay { replayed: nat },
}

impl View for RouterAction {
    type V = ActionView;

    open spec fn view(&self) -> ActionView {
        match self {
            RouterAction::AnswerChild(s) => ActionView::AnswerChild(s@),
            RouterAction::ToClient(b) => ActionView::ToClient(b@),
            RouterAction::AuditPermission { action, id } => ActionView::AuditPermission { action: action@, id: id@ },
            RouterAction::AuditReplay { replayed } => ActionView::AuditReplay { replayed: *replayed as nat },
        }
    }
}

/// Abstract actions of a list.
pub open spec fn actions_view(v: Seq<RouterAction>) -> Seq<ActionView> {
    v.map_values(|a: RouterAction| a@)
}

/// Why a router stops.
#[derive(Debug, Clone, Copy, PartialEq, Eq, Structural)]
pub enum RouterExit {
    Shutdown,
    WindowExpired,
    ChildGone,
    Guardrail,
}

/// Routing state of one child.
pub struct Router {
    attached: bool,
    replay_pending: bool,
    ever_attached: bool,
    window_deadline: Option<u64>,
    outstanding: Vec<Outstanding>,
    premain: VecDeque<Vec<u8>>,
    cache: UpdateCache,
}

/// Abstract routing state.
pub struct RouterView {
    /// A client output is attached.
    pub attached: bool,
    /// Reattached, and the replay waits for the client's `initialize`.
    pub replay_pending: bool,
    /// A client was attached at least once.
    pub ever_attached: bool,
    /// End of the reattach window, once opened.
    pub window_deadline: Option<u64>,
    /// Forwarded permission requests: (id, deadline).
    pub outstanding: Seq<(Seq<char>, u64)>,
    /// Output held back before the first attach.
    pub premain: Seq<Seq<u8>>,
    /// Cached updates per session.
    pub cache: Seq<(Seq<char>, Seq<Vec<u8>>)>,
    /// The cache's byte cap per session.
    pub cache_limit: nat,
}

impl View for Router {
    type V = RouterView;

    closed spec fn view(&self) -> RouterView {
        RouterView {
            attached: self.attached,
            replay_pending: self.replay_pending,
            ever_attached: self.ever_attached,
            window_deadline: self.window_deadline,
            outstanding: self.outstanding@.map_values(|o: Outstanding| (o.id@, o.deadline)),
            premain: self.premain@.map_values(|b: Vec<u8>| b@),
            cache: self.cache.entries(),
            cache_limit: self.cache.limit(),
        }
    }
}

/// The reattach window runs: no client output, or the replay still waits.
pub open spec fn window_active(v: RouterView) -> bool {
    !v.attached || v.replay_pending
}

/// Where a plain child line goes: held back before the first attach, sent
/// when attached, dropped in the window.
pub open spec fn forward_spec(v: RouterView, bytes: Seq<u8>) -> (RouterView, Seq<ActionView>) {
    if !v.ever_attached {
        (RouterView { premain: v.premain.push(bytes), ..v }, Seq::empty())
    } else if v.attached {
        (v, seq![ActionView::ToClient(bytes)])
    } else {
        (v, Seq::empty())
    }
}

/// The answer and audit of a request the router answers itself.
pub open spec fn local_answer(answer: Seq<char>, action: Seq<char>, id: Seq<char>) -> Seq<ActionView> {
    seq![ActionView::AnswerChild(answer), ActionView::AuditPermission { action, id }]
}

/// Reject-once answers, with their audits, for forwarded requests.
pub open spec fn reject_all(o: Seq<(Seq<char>, u64)>, action: Seq<char>) -> Seq<ActionView>
    decreases o.len(),
{
    if o.len() == 0 {
        Seq::empty()
    } else {
        reject_all(o.drop_last(), action) + local_answer(rejected_text(o.last().0), action, o.last().0)
    }
}

impl Router {
    /// The router's invariant: a well-formed update cache.
    pub closed spec fn wf(&self) -> bool {
        self.cache.wf()
    }

    /// A router for a freshly spawned child: detached, never attached.
    pub fn new() -> (r: Self)
        ensures
            r.wf(),
            !r@.attached && !r@.replay_pending && !r@.ever_attached,
            r@.window_deadline is None,
            r@.outstanding.len() == 0 && r@.premain.len() == 0 && r@.cache.len() == 0,
            r@.cache_limit == crate::reattach::SESSION_UPDATE_CACHE_LIMIT,
    {
        let r = Router {
            attached: false,
            replay_pending: false,
            ever_attached: false,
            window_deadline: None,
            outstanding: Vec::new(),
            premain: VecDeque::new(),
            cache: UpdateCache::new(),
        };
        assert(r@.outstanding =~= Seq::<(Seq<char>, u64)>::empty());
        assert(r@.premain =~= Seq::<Seq<u8>>::empty());
        r
    }

    fn forward(&mut self, bytes: Vec<u8>, actions: &mut Vec<RouterAction>)
        requires
            old(self).wf(),
        ensures
            final(self).wf(),
            final(self)@ == forward_spec(old(self)@, bytes@).0,
            actions_view(final(actions)@) == actions_view(old(actions)@) + forward_spec(old(self)@, bytes@).1,
    {
        let ghost a0 = actions_view(actions@);
        let ghost bv = bytes@;
        if !self.ever_attached {
            let ghost p = self.premain@;
            self.premain.push_back(bytes);
            assert(self@.premain =~= old(self)@.premain.push(bv));
            assert(self@ =~= forward_spec(old(self)@, bv).0);
            assert(actions_view(actions@) =~= a0 + Seq::<ActionView>::empty());
        } else if self.attached {
            actions.push(RouterAction::ToClient(bytes));
            assert(actions_view(actions@) =~= a0 + seq![ActionView::ToClient(bv)]);
        } else {
            assert(actions_view(actions@) =~= a0 + Seq::<ActionView>::empty());
        }
    }

    fn answer_locally(actions: &mut Vec<RouterAction>, answer: String, action: &'static str, id: &str)
        ensures
            actions_view(final(actions)@) == actions_view(old(actions)@) + local_answer(answer@, action@, id@),
    {
        let ghost a0 = actions_view(actions@);
        let ghost av = answer@;
        actions.push(RouterAction::AnswerChild(answer));
        actions.push(RouterAction::AuditPermission { action, id: id.to_owned() });
        assert(actions_view(actions@) =~= a0 + local_answer(av, action@, id@));
    }

    /// A line from the child (`msg`: what it reads as, None when it is not
    /// JSON). A permission request goes through the waterfall of the
    /// grant's ask route: answered at once, forwarded with a deadline of
    /// `now + timeout` when a client is attached, or answered reject-once
    /// when none is. A `session/update` in the window (after a first attach)
    /// is cached under its session. Anything else is forwarded.
    pub fn on_child_line(
        &mut self,
        bytes: Vec<u8>,
        msg: Option<&RpcMessage>,
        route: AskRoute,
        now: u64,
        timeout: u64,
    ) -> (actions: Vec<RouterAction>)
        requires
            old(self).wf(),
            old(self)@.cache_limit + bytes@.len() <= usize::MAX,
        ensures
            final(self).wf(),
            final(self)@.cache_limit == old(self)@.cache_limit,
            msg is None ==> (final(self)@, actions_view(actions@)) == forward_spec(old(self)@, bytes@),
            msg matches Some(m) ==> is_permission_request(*m) ==> match decide_spec(line_request(*m), route, true) {
                DecisionView::AutoAllow(t) => final(self)@ == old(self)@ && actions_view(actions@) == local_answer(
                    t,
                    "auto-allowed"@,
                    m.id->0@,
                ),
                DecisionView::OwnerLocal(t) => final(self)@ == old(self)@ && actions_view(actions@) == local_answer(
                    t,
                    "owner-local"@,
                    m.id->0@,
                ),
                DecisionView::Forward => if !old(self)@.attached {
                    final(self)@ == old(self)@ && actions_view(actions@) == local_answer(
                        rejected_text(m.id->0@),
                        "unanswered-rejected"@,
                        m.id->0@,
                    )
                } else {
                    let v = RouterView {
                        outstanding: old(self)@.outstanding.push((m.id->0@, deadline_of(now, timeout))),
                        ..old(self)@
                    };
                    final(self)@ == forward_spec(v, bytes@).0 && actions_view(actions@) == seq![
                        ActionView::AuditPermission { action: "forwarded"@, id: m.id->0@ },
                    ] + forward_spec(v, bytes@).1
                },
            },
            msg matches Some(m) ==> (!is_permission_request(*m) && calls(*m, "session/update"@) && old(self)@.ever_attached
                && window_active(old(self)@) ==> actions@.len() == 0 && final(self)@.attached == old(self)@.attached
                && final(self)@.replay_pending == old(self)@.replay_pending && final(self)@.outstanding == old(
                self,
            )@.outstanding && final(self)@.premain == old(self)@.premain && final(self)@.window_deadline == old(
                self,
            )@.window_deadline && match m.session_id {
                None => final(self)@.cache == old(self)@.cache,
                Some(sid) => exists|d: nat| pushed(old(self)@.cache, sid@, bytes, old(self)@.cache_limit, final(self)@.cache, d),
            }),
            msg matches Some(m) ==> (!is_permission_request(*m) && !(calls(*m, "session/update"@)
                && old(self)@.ever_attached && window_active(old(self)@)) ==> (final(self)@, actions_view(actions@))
                == forward_spec(old(self)@, bytes@)),
    {
        let mut actions: Vec<RouterAction> = Vec::new();
        assert(actions_view(actions@) =~= Seq::<ActionView>::empty());
        let m = match msg {
            None => {
                self.forward(bytes, &mut actions);
                assert(actions_view(actions@) =~= forward_spec(old(self)@, bytes@).1);
                return actions;
            },
            Some(m) => m,
        };
        if let Some(req) = classify(m) {
            assert(req@ == line_request(*m));
            match decide(&req, route) {
                Decision::AutoAllow(response) => {
                    Self::answer_locally(&mut actions, response, "auto-allowed", req.id.as_str());
                },
                Decision::OwnerLocal(response) => {
                    Self::answer_locally(&mut actions, response, "owner-local", req.id.as_str());
                },
                Decision::Forward => {
                    if !self.attached {
                        let response = rejected_response(req.id.as_str());
                        Self::answer_locally(&mut actions, response, "unanswered-rejected", req.id.as_str());
                    } else {
                        let ghost before = self@.outstanding;
                        let deadline = now.saturating_add(timeout);
                        assert(deadline == deadline_of(now, timeout));
                        let ghost idv = req.id@;
                        actions.push(RouterAction::AuditPermission { action: "forwarded", id: req.id.clone() });
                        self.outstanding.push(Outstanding { id: req.id, deadline });
                        assert(self@.outstanding =~= before.push((idv, deadline)));
                        let ghost a1 = actions_view(actions@);
                        assert(a1 =~= seq![ActionView::AuditPermission { action: "forwarded"@, id: idv }]);
                        self.forward(bytes, &mut actions);
                    }
                },
            }
            return actions;
        }
        if is_session_update(m) && self.ever_attached && (!self.attached || self.replay_pending) {
            match update_session_key(m) {
                Some(session) => {
                    let dropped = self.cache.push(session, bytes);
                    assert(pushed(old(self)@.cache, session@, bytes, old(self)@.cache_limit, self@.cache, dropped as nat));
                },
                None => {},
            }
            return actions;
        }
        self.forward(bytes, &mut actions);
        assert(actions_view(actions@) =~= forward_spec(old(self)@, bytes@).1);
        actions
    }

    /// Attaches a client output (`defer`: a reattach whose replay waits for
    /// the client's `initialize`). The window closes; held-back output is
    /// flushed first.
    pub fn attach(&mut self, defer: bool) -> (actions: Vec<RouterAction>)
        requires
            old(self).wf(),
        ensures
            final(self).wf(),
            final(self)@ == (RouterView {
                attached: true,
                replay_pending: defer,
                ever_attached: true,
                window_deadline: None,
                premain: Seq::empty(),
                ..old(self)@
            }),
            actions_view(actions@) == old(self)@.premain.map_values(|b: Seq<u8>| ActionView::ToClient(b)),
    {
        self.attached = true;
        self.window_deadline = None;
        self.replay_pending = defer;
        self.ever_attached = true;
        let ghost p = old(self)@.premain;
        let mut actions: Vec<RouterAction> = Vec::new();
        let ghost mut k: int = 0;
        while self.premain.len() > 0
            invariant
                self.cache.wf(),
                self.cache == old(self).cache,
                self.attached && self.ever_attached && self.replay_pending == defer && self.window_deadline is None,
                self.outstanding == old(self).outstanding,
                0 <= k <= p.len(),
                self.premain@.map_values(|b: Vec<u8>| b@) == p.skip(k),
                actions_view(actions@) == p.take(k).map_values(|b: Seq<u8>| ActionView::ToClient(b)),
            decreases self.premain@.len(),
        {
            let ghost q = self.premain@;
            match self.premain.pop_front() {
                Some(line) => {
                    let ghost lv = line@;
                    proof {
                        assert(line == q[0]);
                        assert(q.len() > 0);
                        assert(q.map_values(|b: Vec<u8>| b@).len() == q.len());
                        assert(k < p.len());
                        assert(q.map_values(|b: Vec<u8>| b@)[0] == q[0]@);
                        assert(p.skip(k)[0] == p[k]);
                        assert(self.premain@ == q.drop_first());
                        assert(q.drop_first().map_values(|b: Vec<u8>| b@) =~= q.map_values(|b: Vec<u8>| b@).drop_first());
                        assert(p.skip(k).drop_first() =~= p.skip(k + 1));
                    }
                    let ghost before = actions_view(actions@);
                    actions.push(RouterAction::ToClient(line));
                    assert(actions_view(actions@) =~= before.push(ActionView::ToClient(lv)));
                    assert(p.take(k + 1) =~= p.take(k).push(p[k]));
                    assert(actions_view(actions@) =~= p.take(k + 1).map_values(|b: Seq<u8>| ActionView::ToClient(b)));
                    proof {
                        k = k + 1;
                    }
                },
                None => {},
            }
        }
        assert(p.skip(k).len() == 0);
        assert(p.take(k) =~= p);
        assert(self@.premain =~= Seq::<Seq<u8>>::empty());
        actions
    }

    fn reject_outstanding(&mut self, action: &'static str, actions: &mut Vec<RouterAction>)
        ensures
            final(self)@ == (RouterView { outstanding: Seq::empty(), ..old(self)@ }),
            final(self).cache == old(self).cache,
            actions_view(final(actions)@) == actions_view(old(actions)@) + reject_all(old(self)@.outstanding, action@),
    {
        let ghost o = old(self)@.outstanding;
        let ghost a0 = actions_view(actions@);
        let mut drained: Vec<Outstanding> = Vec::new();
        std::mem::swap(&mut drained, &mut self.outstanding);
        let mut i: usize = 0;
        while i < drained.len()
            invariant
                o == drained@.map_values(|x: Outstanding| (x.id@, x.deadline)),
                i <= drained@.len(),
                actions_view(actions@) == a0 + reject_all(o.take(i as int), action@),
            decreases drained@.len() - i,
        {
            let id = drained[i].id.as_str();
            let response = rejected_response(id);
            assert(o.take(i + 1).drop_last() =~= o.take(i as int));
            assert(o.take(i + 1).last() == o[i as int]);
            Self::answer_locally(actions, response, action, id);
            assert(a0 + reject_all(o.take(i + 1), action@) =~= a0 + reject_all(o.take(i as int), action@)
                + local_answer(rejected_text(o[i as int].0), action@, o[i as int].0));
            i = i + 1;
        }
        assert(o.take(o.len() as int) =~= o);
        assert(self@.outstanding =~= Seq::<(Seq<char>, u64)>::empty());
    }

    /// The client's stream closed: the window opens (its end set once at
    /// `now + window`), and every forwarded request is answered reject-once
    /// at once, since nobody is left to answer.
    pub fn enter_window(&mut self, now: u64, window: u64) -> (actions: Vec<RouterAction>)
        requires
            old(self).wf(),
        ensures
            final(self).wf(),
            final(self)@ == (RouterView {
                attached: false,
                replay_pending: false,
                outstanding: Seq::empty(),
                window_deadline: match old(self)@.window_deadline {
                    Some(d) => Some(d),
                    None => Some(deadline_of(now, window)),
                },
                ..old(self)@
            }),
            actions_view(actions@) == reject_all(old(self)@.outstanding, "unanswered-rejected"@),
    {
        self.attached = false;
        self.replay_pending = false;
        let mut actions: Vec<RouterAction> = Vec::new();
        assert(actions_view(actions@) =~= Seq::<ActionView>::empty());
        self.reject_outstanding("unanswered-rejected", &mut actions);
        if self.window_deadline.is_none() {
            self.window_deadline = Some(now.saturating_add(window));
        }
        actions
    }

    /// The replay after a reattach: the announcement with the count, then
    /// the cached lines (sessions by name, lines in arrival order); the
    /// cache is emptied. Nothing is sent without a client.
    pub fn replay_now(&mut self) -> (actions: Vec<RouterAction>)
        requires
            old(self).wf(),
        ensures
            final(self).wf(),
            final(self)@.attached == old(self)@.attached && !final(self)@.replay_pending,
            final(self)@.outstanding == old(self)@.outstanding && final(self)@.premain == old(self)@.premain,
            final(self)@.window_deadline == old(self)@.window_deadline,
            final(self)@.ever_attached == old(self)@.ever_attached,
            final(self)@.cache_limit == old(self)@.cache_limit,
            !old(self)@.attached ==> actions@.len() == 0 && final(self)@.cache == old(self)@.cache,
            old(self)@.attached ==> {
                let lines = flatten(old(self)@.cache);
                &&& actions@.len() == lines.len() + 2
                &&& actions@[0] matches RouterAction::ToClient(b) && b@ == announcement_text(lines.len())
                    .map_values(|c: char| c as u8)
                &&& forall|i: int| 0 <= i < lines.len() ==> ((#[trigger] actions@[i + 1]) matches RouterAction::ToClient(
                    b,
                ) && b@ == lines[i]@)
                &&& actions@[lines.len() + 1int] == RouterAction::AuditReplay { replayed: lines.len() as usize }
                &&& forall|i: int| 0 <= i < final(self)@.cache.len() ==> (#[trigger] final(self)@.cache[i]).1.len() == 0
            },
    {
        self.replay_pending = false;
        let mut actions: Vec<RouterAction> = Vec::new();
        if !self.attached {
            return actions;
        }
        let drained = self.cache.drain();
        let count = drained.len();
        let announcement = replay_announcement(count);
        actions.push(RouterAction::ToClient(ascii_bytes(announcement.as_str())));
        let mut i: usize = 0;
        while i < drained.len()
            invariant
                i <= drained@.len(),
                actions@.len() == i + 1,
                actions@[0] matches RouterAction::ToClient(b) && b@ == announcement_text(count as nat).map_values(
                    |c: char| c as u8,
                ),
                forall|k: int| 0 <= k < i ==> ((#[trigger] actions@[k + 1]) matches RouterAction::ToClient(b) && b@
                    == drained@[k]@),
            decreases drained@.len() - i,
        {
            actions.push(RouterAction::ToClient(drained[i].clone()));
            i = i + 1;
        }
        actions.push(RouterAction::AuditReplay { replayed: count });
        actions
    }

    /// A client line, once written to the child: the reattaching client's
    /// `initialize` triggers the replay; a response settles the forwarded
    /// request it answers.
    pub fn on_client_line(&mut self, msg: &RpcMessage) -> (actions: Vec<RouterAction>)
        requires
            old(self).wf(),
        ensures
            final(self).wf(),
            !(old(self)@.replay_pending && calls(*msg, "initialize"@)) ==> actions@.len() == 0,
            !(old(self)@.replay_pending && calls(*msg, "initialize"@)) && !is_response_spec(*msg) ==> final(self)@ == old(
                self,
            )@,
            !(old(self)@.replay_pending && calls(*msg, "initialize"@)) && is_response_spec(*msg) ==> final(self)@
                == (RouterView {
                outstanding: old(self)@.outstanding.filter(|o: (Seq<char>, u64)| o.0 != msg.id->0@),
                ..old(self)@
            }),
    {
        let mut actions: Vec<RouterAction> = Vec::new();
        if self.replay_pending && is_method(msg, "initialize") {
            actions = self.replay_now();
        }
        if is_response(msg) {
            match &msg.id {
                Some(id) => self.settle(id.as_str()),
                None => {},
            }
        }
        actions
    }

    fn settle(&mut self, id: &str)
        ensures
            final(self)@ == (RouterView {
                outstanding: old(self)@.outstanding.filter(|o: (Seq<char>, u64)| o.0 != id@),
                ..old(self)@
            }),
            final(self).cache == old(self).cache,
    {
        let ghost s = self@.outstanding;
        let ghost pred = |o: (Seq<char>, u64)| o.0 != id@;
        let mut kept: Vec<Outstanding> = Vec::new();
        let mut i: usize = 0;
        while i < self.outstanding.len()
            invariant
                s == self.outstanding@.map_values(|o: Outstanding| (o.id@, o.deadline)),
                pred == (|o: (Seq<char>, u64)| o.0 != id@),
                i <= self.outstanding@.len(),
                kept@.map_values(|o: Outstanding| (o.id@, o.deadline)) == s.take(i as int).filter(pred),
            decreases self.outstanding@.len() - i,
        {
            proof {
                assert(s.take(i + 1) =~= s.take(i as int).push(s[i as int]));
                s.take(i as int).lemma_filter_push(s[i as int], pred);
            }
            let o = &self.outstanding[i];
            if !crate::text::str_eq(o.id.as_str(), id) {
                let c = Outstanding { id: o.id.clone(), deadline: o.deadline };
                let ghost before = kept@.map_values(|o: Outstanding| (o.id@, o.deadline));
                kept.push(c);
                assert(kept@.map_values(|o: Outstanding| (o.id@, o.deadline)) =~= before.push(s[i as int]));
            }
            i = i + 1;
        }
        assert(s.take(s.len() as int) =~= s);
        self.outstanding = kept;
    }

    /// A deadline passed (`now`): forwarded requests past theirs are
    /// answered reject-once; a window past its end stops the router.
    pub fn on_deadline(&mut self, now: u64) -> (r: (Vec<RouterAction>, Option<RouterExit>))
        requires
            old(self).wf(),
        ensures
            final(self).wf(),
            final(self)@ == (RouterView {
                outstanding: old(self)@.outstanding.filter(|o: (Seq<char>, u64)| o.1 > now),
                ..old(self)@
            }),
            actions_view(r.0@) == reject_all(
                old(self)@.outstanding.filter(|o: (Seq<char>, u64)| o.1 <= now),
                "timeout-rejected"@,
            ),
            r.1 == (if old(self)@.window_deadline matches Some(d) && d <= now {
                Some(RouterExit::WindowExpired)
            } else {
                None
            }),
    {
        let ghost s = self@.outstanding;
        let ghost due_pred = |o: (Seq<char>, u64)| o.1 <= now;
        let ghost keep_pred = |o: (Seq<char>, u64)| o.1 > now;
        let mut kept: Vec<Outstanding> = Vec::new();
        let mut actions: Vec<RouterAction> = Vec::new();
        let mut i: usize = 0;
        while i < self.outstanding.len()
            invariant
                s == self.outstanding@.map_values(|o: Outstanding| (o.id@, o.deadline)),
                due_pred == (|o: (Seq<char>, u64)| o.1 <= now),
                keep_pred == (|o: (Seq<char>, u64)| o.1 > now),
                i <= self.outstanding@.len(),
                kept@.map_values(|o: Outstanding| (o.id@, o.deadline)) == s.take(i as int).filter(keep_pred),
                actions_view(actions@) == reject_all(s.take(i as int).filter(due_pred), "timeout-rejected"@),
            decreases self.outstanding@.len() - i,
        {
            proof {
                assert(s.take(i + 1) =~= s.take(i as int).push(s[i as int]));
                s.take(i as int).lemma_filter_push(s[i as int], keep_pred);
                s.take(i as int).lemma_filter_push(s[i as int], due_pred);
            }
            let o = &self.outstanding[i];
            if o.deadline <= now {
                let response = rejected_response(o.id.as_str());
                let ghost fl = s.take(i as int).filter(due_pred);
                Self::answer_locally(&mut actions, response, "timeout-rejected", o.id.as_str());
                assert(fl.push(s[i as int]).drop_last() =~= fl);
            } else {
                let c = Outstanding { id: o.id.clone(), deadline: o.deadline };
                let ghost before = kept@.map_values(|o: Outstanding| (o.id@, o.deadline));
                kept.push(c);
                assert(kept@.map_values(|o: Outstanding| (o.id@, o.deadline)) =~= before.push(s[i as int]));
            }
            i = i + 1;
        }
        assert(s.take(s.len() as int) =~= s);
        self.outstanding = kept;
        let expired = match self.window_deadline {
            Some(d) => d <= now,
            None => false,
        };
        (actions, if expired { Some(RouterExit::WindowExpired) } else { None })
    }

    /// The earliest deadline to wake up for: a forwarded request's or the
    /// window's end.
    pub fn next_deadline(&self) -> (r: Option<u64>)
        ensures
            r is None <==> self@.outstanding.len() == 0 && self@.window_deadline is None,
            r matches Some(d) ==> {
                &&& forall|i: int| 0 <= i < self@.outstanding.len() ==> d <= (#[trigger] self@.outstanding[i]).1
                &&& self@.window_deadline matches Some(w) ==> d <= w
                &&& (exists|i: int| 0 <= i < self@.outstanding.len() && d == self@.outstanding[i].1)
                    || self@.window_deadline == Some(d)
            },
    {
        let ghost s = self@.outstanding;
        let mut best: Option<u64> = self.window_deadline;
        let mut i: usize = 0;
        while i < self.outstanding.len()
            invariant
                s == self.outstanding@.map_values(|o: Outstanding| (o.id@, o.deadline)),
                s == self@.outstanding,
                i <= s.len(),
                best is None <==> i == 0 && self.window_deadline is None,
                best matches Some(d) ==> {
                    &&& forall|k: int| 0 <= k < i ==> d <= (#[trigger] s[k]).1
                    &&& self.window_deadline matches Some(w) ==> d <= w
                    &&& (exists|k: int| 0 <= k < i && d == s[k].1) || self.window_deadline == Some(d)
                },
            decreases s.len() - i,
        {
            let d = self.outstanding[i].deadline;
            assert(s[i as int].1 == d);
            best = match best {
                Some(b) => if d < b {
                    Some(d)
                } else {
                    Some(b)
                },
                None => Some(d),
            };
            i = i + 1;
        }
        best
    }
}

/// The bytes of an ASCII text.
fn ascii_bytes(s: &str) -> (r: Vec<u8>)
    ensures
        r@ == s@.map_values(|c: char| c as u8),
{
    let n = s.unicode_len();
    let mut r: Vec<u8> = Vec::new();
    let mut i: usize = 0;
    while i < n
        invariant
            n == s@.len(),
            i <= n,
            r@ == s@.take(i as int).map_values(|c: char| c as u8),
        decreases n - i,
    {
        let c = s.get_char(i);
        r.push(c as u8);
        assert(s@.take(i + 1) =~= s@.take(i as int).push(c));
        assert(r@ =~= s@.take(i + 1).map_values(|c: char| c as u8));
        i = i + 1;
    }
    assert(s@.take(n as int) =~= s@);
    r
}

/// Nothing the child says before the first attach is lost: it is held back
/// in order (and flushed by `attach`).
pub proof fn early_output_is_held(v: RouterView, bytes: Seq<u8>)
    requires
        !v.ever_attached,
    ensures
        forward_spec(v, bytes).0.premain == v.premain.push(bytes),
        forward_spec(v, bytes).1.len() == 0,
{
}

/// In the reattach window no plain child line reaches the client: a
/// detached router forwards nothing (updates are cached, the rest dropped).
pub proof fn detached_router_forwards_nothing(v: RouterView, bytes: Seq<u8>)
    requires
        !v.attached,
    ensures
        forward_spec(v, bytes).1.len() == 0,
{
}

} // verus!
