//! The task bridge's decisions: each task has its own child, driven as an
//! ACP client. Prompts queue up and go one at a time (`session/prompt`);
//! permission requests are settled inside the bridge by the visibility
//! matrix (never on the wire); a request that asks is answered reject-once
//! when its window passes. Cancel quiesces the child.
//!
//! The host runs the loop: it waits for a command, a child line or a tick,
//! hands the event to [`PromptCtx`] and carries out what comes back.

use vstd::prelude::*;
use vstd::string::*;
use std::collections::VecDeque;

use crate::permission::{
    allow_option_spec, classify, decide_scoped, decide_spec, is_permission_request, opt_chars, rejected_response,
    rejected_text, AskRoute, Decision, DecisionView, RequestView, RpcMessage,
};
use crate::chunk::{is_chunk_spec, is_chunk_update};
use crate::text::{decimal, push_decimal, str_eq};

verus! {

broadcast use {vstd::string::group_string_axioms, vstd::std_specs::vecdeque::group_vec_dequeue_axioms};

/// Host to bridge commands.
#[derive(Debug, Clone, PartialEq, Eq)]
pub enum BridgeCmd {
    /// Queue one more prompt (text already checked by the task service).
    Prompt(String),
    /// Cancel: quiesce the child, end as cancelled.
    Cancel,
}

/// How a task ends.
#[derive(Debug, Clone, Copy, PartialEq, Eq, Structural)]
pub enum TaskEnd {
    Completed,
    Cancelled,
    Failed,
}

/// A forwarded permission request waiting for its answer.
#[derive(Debug, Clone, PartialEq, Eq)]
pub struct Outstanding {
    /// JSON text of the request id.
    pub id: String,
    /// When it is answered reject-once (host clock, milliseconds).
    pub deadline: u64,
}

/// What the host does for the bridge.
#[derive(Debug, Clone, PartialEq, Eq)]
pub enum BridgeAction {
    /// Write a `session/prompt` request with this id and text.
    StartPrompt { id: u64, text: String },
    /// Write this line (an answer) to the child.
    Answer(String),
    /// Audit a permission action (`auto-allowed`, `owner-local`,
    /// `forwarded`) with the tool kind.
    AuditPermission { action: &'static str, tool_kind: String },
}

/// The ask route of a bridge: a local agent (the owner drives it) may ask
/// the GUI; a public or private one is driven by strangers and never may.
pub open spec fn ask_route_spec(visibility_local: bool) -> AskRoute {
    if visibility_local {
        AskRoute::RemoteGui
    } else {
        AskRoute::OwnerLocal
    }
}

/// The ask route for an agent's visibility.
pub fn ask_route(visibility_local: bool) -> (r: AskRoute)
    ensures
        r == ask_route_spec(visibility_local),
{
    if visibility_local {
        AskRoute::RemoteGui
    } else {
        AskRoute::OwnerLocal
    }
}

/// A public or private agent never forwards a permission request to the
/// remote GUI (a stranger approving `execute` would run code on the host).
pub proof fn remote_agents_never_forward(req: RequestView)
    ensures
        !(decide_spec(req, ask_route_spec(false), false) is Forward),
{
}

/// Prompt state of one task bridge: the next request id, the prompt queue,
/// the prompt in flight and the forwarded permission requests.
pub struct PromptCtx {
    next_id: u64,
    queue: VecDeque<String>,
    prompt_id: Option<u64>,
    outstanding: Vec<Outstanding>,
}

/// Abstract prompt state.
pub struct PromptView {
    pub next_id: u64,
    pub queue: Seq<Seq<char>>,
    pub prompt_id: Option<u64>,
    pub outstanding: Seq<(Seq<char>, u64)>,
}

impl View for PromptCtx {
    type V = PromptView;

    closed spec fn view(&self) -> PromptView {
        PromptView {
            next_id: self.next_id,
            queue: self.queue@.map_values(|s: String| s@),
            prompt_id: self.prompt_id,
            outstanding: self.outstanding@.map_values(|o: Outstanding| (o.id@, o.deadline)),
        }
    }
}

/// The id text a prompt with this number carries.
pub open spec fn id_text(id: u64) -> Seq<char> {
    decimal(id as nat)
}

/// The permission request a line carries.
pub open spec fn line_request(line: RpcMessage) -> RequestView {
    (line.id->0@, opt_chars(line.tool_kind), allow_option_spec(line.options))
}

/// `now + timeout`, capped at the clock's end.
pub open spec fn deadline_of(now: u64, timeout: u64) -> u64 {
    if now + timeout > u64::MAX {
        u64::MAX
    } else {
        (now + timeout) as u64
    }
}

/// The actions of a settled permission request: an audit of `action`,
/// then, for an answer, the answer line.
pub open spec fn permission_actions(a: Seq<BridgeAction>, action: Seq<char>, answer: Option<Seq<char>>) -> bool {
    &&& a.len() == if answer is Some { 2int } else { 1int }
    &&& a[0] matches BridgeAction::AuditPermission { action: x, .. } && x@ == action
    &&& answer matches Some(t) ==> (a[1] matches BridgeAction::Answer(y) && y@ == t)
}

/// The line answers the prompt in flight.
pub open spec fn answers_prompt(v: PromptView, line: RpcMessage) -> bool {
    v.prompt_id matches Some(p) && line.id matches Some(i) && i@ == id_text(p)
}

/// What a child line did.
#[derive(Debug, Clone, PartialEq, Eq)]
pub enum LineOutcome {
    /// Nothing more for the host to do (or only the actions).
    Continue,
    /// The line is a streaming chunk: map it and emit it.
    Chunk,
    /// The task is over.
    End(TaskEnd),
}

impl PromptCtx {
    /// A fresh bridge: ids start at 1, nothing queued or in flight.
    pub fn new() -> (c: Self)
        ensures
            c@.next_id == 1,
            c@.queue == Seq::<Seq<char>>::empty(),
            c@.prompt_id is None,
            c@.outstanding == Seq::<(Seq<char>, u64)>::empty(),
    {
        let c = PromptCtx { next_id: 1, queue: VecDeque::new(), prompt_id: None, outstanding: Vec::new() };
        assert(c@.queue =~= Seq::<Seq<char>>::empty());
        assert(c@.outstanding =~= Seq::<(Seq<char>, u64)>::empty());
        c
    }

    /// Hands out the next request id.
    pub fn take_id(&mut self) -> (id: u64)
        requires
            old(self)@.next_id < u64::MAX,
        ensures
            id == old(self)@.next_id,
            final(self)@ == (PromptView { next_id: (id + 1) as u64, ..old(self)@ }),
    {
        let id = self.next_id;
        self.next_id = self.next_id + 1;
        id
    }

    /// Starts the next queued prompt, if any: it takes the next id and is
    /// now the prompt in flight.
    pub fn start_prompt(&mut self) -> (r: Option<BridgeAction>)
        requires
            old(self)@.next_id < u64::MAX,
        ensures
            old(self)@.queue.len() == 0 ==> r is None && final(self)@ == old(self)@,
            old(self)@.queue.len() > 0 ==> {
                &&& r matches Some(BridgeAction::StartPrompt { id, text }) && id == old(self)@.next_id && text@
                    == old(self)@.queue[0]
                &&& final(self)@ == (PromptView {
                    next_id: (old(self)@.next_id + 1) as u64,
                    queue: old(self)@.queue.drop_first(),
                    prompt_id: Some(old(self)@.next_id),
                    outstanding: old(self)@.outstanding,
                })
            },
    {
        let ghost q = self.queue@;
        match self.queue.pop_front() {
            None => None,
            Some(text) => {
                assert(self.queue@.map_values(|s: String| s@) =~= q.map_values(|s: String| s@).drop_first());
                let id = self.take_id();
                self.prompt_id = Some(id);
                Some(BridgeAction::StartPrompt { id, text })
            },
        }
    }

    /// A command from the host: cancel ends the task as cancelled; a prompt
    /// is queued and started at once when none is in flight; a closed
    /// command channel fails the task.
    pub fn on_command(&mut self, cmd: Option<BridgeCmd>) -> (r: (Option<BridgeAction>, Option<TaskEnd>))
        requires
            old(self)@.next_id < u64::MAX,
        ensures
            cmd is None ==> r == (None::<BridgeAction>, Some(TaskEnd::Failed)) && final(self)@ == old(self)@,
            cmd == Some(BridgeCmd::Cancel) ==> r == (None::<BridgeAction>, Some(TaskEnd::Cancelled)) && final(self)@
                == old(self)@,
            cmd matches Some(BridgeCmd::Prompt(t)) ==> r.1 is None && if old(self)@.prompt_id is None {
                let q = old(self)@.queue.push(t@);
                &&& r.0 matches Some(BridgeAction::StartPrompt { id, text }) && id == old(self)@.next_id && text@ == q[0]
                &&& final(self)@ == (PromptView {
                    next_id: (old(self)@.next_id + 1) as u64,
                    queue: q.drop_first(),
                    prompt_id: Some(old(self)@.next_id),
                    outstanding: old(self)@.outstanding,
                })
            } else {
                r.0 is None && final(self)@ == (PromptView { queue: old(self)@.queue.push(t@), ..old(self)@ })
            },
    {
        match cmd {
            None => (None, Some(TaskEnd::Failed)),
            Some(BridgeCmd::Cancel) => (None, Some(TaskEnd::Cancelled)),
            Some(BridgeCmd::Prompt(text)) => {
                let ghost q = self.queue@;
                let ghost tv = text@;
                self.queue.push_back(text);
                assert(self.queue@.map_values(|s: String| s@) =~= q.map_values(|s: String| s@).push(tv));
                if self.prompt_id.is_none() {
                    (self.start_prompt(), None)
                } else {
                    (None, None)
                }
            },
        }
    }

    fn remove_outstanding(&mut self, id: &str)
        ensures
            final(self)@ == (PromptView {
                outstanding: old(self)@.outstanding.filter(|o: (Seq<char>, u64)| o.0 != id@),
                ..old(self)@
            }),
    {
        let ghost s = self@.outstanding;
        let ghost pred = |o: (Seq<char>, u64)| o.0 != id@;
        let mut kept: Vec<Outstanding> = Vec::new();
        let mut i: usize = 0;
        while i < self.outstanding.len()
            invariant
                s == self.outstanding@.map_values(|o: Outstanding| (o.id@, o.deadline)),
                pred == (|o: (Seq<char>, u64)| o.0 != id@),
                i <= self.outstanding@.len(),
                kept@.map_values(|o: Outstanding| (o.id@, o.deadline)) == s.take(i as int).filter(pred),
            decreases self.outstanding@.len() - i,
        {
            proof {
                assert(s.take(i + 1) =~= s.take(i as int).push(s[i as int]));
                s.take(i as int).lemma_filter_push(s[i as int], pred);
            }
            let o = &self.outstanding[i];
            if !str_eq(o.id.as_str(), id) {
                let c = Outstanding { id: o.id.clone(), deadline: o.deadline };
                let ghost before = kept@.map_values(|o: Outstanding| (o.id@, o.deadline));
                kept.push(c);
                assert(kept@.map_values(|o: Outstanding| (o.id@, o.deadline)) =~= before.push(s[i as int]));
            }
            i = i + 1;
        }
        assert(s.take(s.len() as int) =~= s);
        self.outstanding = kept;
    }

    /// A line from the child. A permission request is settled by the
    /// visibility matrix (answered at once, or forwarded with a deadline of
    /// `now + timeout`); a chunk goes to the host; the answer to the prompt in
    /// flight completes the turn (the next queued prompt starts, or the task
    /// completes); any other answer settles the forwarded request it names.
    pub fn on_child_line(
        &mut self,
        line: &RpcMessage,
        visibility_local: bool,
        now: u64,
        timeout: u64,
    ) -> (r: (Vec<BridgeAction>, LineOutcome))
        requires
            old(self)@.next_id < u64::MAX,
        ensures
            is_permission_request(*line) ==> r.1 == LineOutcome::Continue && match decide_spec(
                line_request(*line),
                ask_route_spec(visibility_local),
                visibility_local,
            ) {
                DecisionView::AutoAllow(t) => permission_actions(r.0@, "auto-allowed"@, Some(t)) && final(self)@ == old(
                    self,
                )@,
                DecisionView::OwnerLocal(t) => permission_actions(r.0@, "owner-local"@, Some(t)) && final(self)@ == old(
                    self,
                )@,
                DecisionView::Forward => permission_actions(r.0@, "forwarded"@, None) && final(self)@ == (PromptView {
                    outstanding: old(self)@.outstanding.push((line.id->0@, deadline_of(now, timeout))),
                    ..old(self)@
                }),
            },
            !is_permission_request(*line) && is_chunk_spec(*line) ==> r.1 == LineOutcome::Chunk && r.0@.len() == 0 && final(self)@
                == old(self)@,
            !is_permission_request(*line) && !is_chunk_spec(*line) && answers_prompt(old(self)@, *line) ==> if old(self)@.queue.len()
                > 0 {
                &&& r.1 == LineOutcome::Continue
                &&& r.0@.len() == 1
                &&& r.0@[0] matches BridgeAction::StartPrompt { id, text } && id == old(self)@.next_id
                    && text@ == old(self)@.queue[0]
                &&& final(self)@ == (PromptView {
                    next_id: (old(self)@.next_id + 1) as u64,
                    queue: old(self)@.queue.drop_first(),
                    prompt_id: Some(old(self)@.next_id),
                    outstanding: old(self)@.outstanding,
                })
            } else {
                r.1 == LineOutcome::End(TaskEnd::Completed) && r.0@.len() == 0 && final(self)@ == (PromptView {
                    prompt_id: None,
                    ..old(self)@
                })
            },
            !is_permission_request(*line) && !is_chunk_spec(*line) && !answers_prompt(old(self)@, *line) ==> r.1
                == LineOutcome::Continue && r.0@.len() == 0 && final(self)@ == match line.id {
                Some(i) => PromptView {
                    outstanding: old(self)@.outstanding.filter(|o: (Seq<char>, u64)| o.0 != i@),
                    ..old(self)@
                },
                None => old(self)@,
            },
    {
        if let Some(req) = classify(line) {
            assert(req@ == line_request(*line));
            let decision = decide_scoped(&req, ask_route(visibility_local), visibility_local);
            let kind = match &req.tool_kind {
                Some(k) => k.clone(),
                None => "unknown".to_owned(),
            };
            let mut actions: Vec<BridgeAction> = Vec::new();
            match decision {
                Decision::AutoAllow(response) => {
                    actions.push(BridgeAction::AuditPermission { action: "auto-allowed", tool_kind: kind });
                    actions.push(BridgeAction::Answer(response));
                },
                Decision::OwnerLocal(response) => {
                    actions.push(BridgeAction::AuditPermission { action: "owner-local", tool_kind: kind });
                    actions.push(BridgeAction::Answer(response));
                },
                Decision::Forward => {
                    actions.push(BridgeAction::AuditPermission { action: "forwarded", tool_kind: kind });
                    let ghost before = self@.outstanding;
                    let deadline = now.saturating_add(timeout);
                    assert(deadline == deadline_of(now, timeout));
                    let ghost idv = req.id@;
                    self.outstanding.push(Outstanding { id: req.id, deadline });
                    assert(self@.outstanding =~= before.push((idv, deadline)));
                },
            }
            return (actions, LineOutcome::Continue);
        }
        if is_chunk_update(line) {
            return (Vec::new(), LineOutcome::Chunk);
        }
        let answers_prompt = match (self.prompt_id, &line.id) {
            (Some(p), Some(i)) => {
                let mut t = String::new();
                push_decimal(&mut t, p);
                str_eq(t.as_str(), i.as_str())
            },
            _ => false,
        };
        if answers_prompt {
            self.prompt_id = None;
            if self.queue.len() > 0 {
                let mut actions: Vec<BridgeAction> = Vec::new();
                match self.start_prompt() {
                    Some(a) => actions.push(a),
                    None => {},
                }
                return (actions, LineOutcome::Continue);
            }
            return (Vec::new(), LineOutcome::End(TaskEnd::Completed));
        }
        if let Some(i) = &line.id {
            self.remove_outstanding(i.as_str());
        }
        (Vec::new(), LineOutcome::Continue)
    }

    /// The forwarded requests whose window has passed at `now`, each with
    /// its reject-once answer (the host writes it, then calls `settle`).
    pub fn due(&self, now: u64) -> (r: Vec<(String, String)>)
        ensures
            r@.map_values(|p: (String, String)| (p.0@, p.1@)) == self@.outstanding.filter(
                |o: (Seq<char>, u64)| o.1 <= now,
            ).map_values(|o: (Seq<char>, u64)| (o.0, rejected_text(o.0))),
    {
        let ghost s = self@.outstanding;
        let ghost pred = |o: (Seq<char>, u64)| o.1 <= now;
        let ghost f = |o: (Seq<char>, u64)| (o.0, rejected_text(o.0));
        let mut r: Vec<(String, String)> = Vec::new();
        let mut i: usize = 0;
        while i < self.outstanding.len()
            invariant
                s == self.outstanding@.map_values(|o: Outstanding| (o.id@, o.deadline)),
                pred == (|o: (Seq<char>, u64)| o.1 <= now),
                f == (|o: (Seq<char>, u64)| (o.0, rejected_text(o.0))),
                i <= self.outstanding@.len(),
                r@.map_values(|p: (String, String)| (p.0@, p.1@)) == s.take(i as int).filter(pred).map_values(f),
            decreases self.outstanding@.len() - i,
        {
            proof {
                assert(s.take(i + 1) =~= s.take(i as int).push(s[i as int]));
                s.take(i as int).lemma_filter_push(s[i as int], pred);
            }
            let o = &self.outstanding[i];
            if o.deadline <= now {
                let answer = rejected_response(o.id.as_str());
                let ghost before = r@.map_values(|p: (String, String)| (p.0@, p.1@));
                let ghost fl = s.take(i as int).filter(pred);
                r.push((o.id.clone(), answer));
                assert(r@.map_values(|p: (String, String)| (p.0@, p.1@)) =~= before.push(f(s[i as int])));
                assert(fl.push(s[i as int]).map_values(f) =~= fl.map_values(f).push(f(s[i as int])));
            }
            i = i + 1;
        }
        assert(s.take(s.len() as int) =~= s);
        r
    }

    /// Drops a forwarded request once its answer went out.
    pub fn settle(&mut self, id: &str)
        ensures
            final(self)@ == (PromptView {
                outstanding: old(self)@.outstanding.filter(|o: (Seq<char>, u64)| o.0 != id@),
                ..old(self)@
            }),
    {
        self.remove_outstanding(id)
    }
}

} // verus!
