//! The task phase's admission rules: an agent must exist and be enabled, and
//! its visibility decides who may open a task on it (local: the owner only;
//! public: anyone; private: the owner and granted peers). A refused cap
//! becomes the task error the wire reports.

use vstd::prelude::*;
use vstd::string::*;

use crate::agents::{first_with_id, has_id, AgentDefView, AgentStore, Visibility};
use crate::audit::{AuditEvent, AuditView};
use crate::grants::{granted, GrantStore, GrantView};
use crate::limits::TaskCapKind;
use crate::jail::{sanitize, sanitized, JailPlan, JailPlanView};
use crate::text::{push_str, str_eq};

verus! {

broadcast use vstd::string::group_string_axioms;

/// Errors of the task operations: `GateDenied` is the visibility gate,
/// `Cap` the admission caps.
#[derive(Debug, Clone, PartialEq, Eq)]
pub enum TaskOpError {
    /// No enabled agent with this id.
    AgentUnknown,
    /// The agent is not open to the requester.
    GateDenied,
    /// No such task for this requester.
    TaskUnknown,
    /// A task cap was reached (`per-peer` or `total`).
    Cap(&'static str),
    /// The child could not be spawned.
    Spawn(String),
    /// The task state machine refused the operation.
    State(String),
}

/// Name of a visibility in audit details.
pub open spec fn visibility_name(v: Visibility) -> Seq<char> {
    match v {
        Visibility::Public => "Public"@,
        Visibility::Private => "Private"@,
        Visibility::Local => "Local"@,
    }
}

/// Why the requester may not open a task on this (enabled) definition, as
/// the audit detail; None when it may. The owner may always; anyone may use
/// a public agent; a local one is the owner's only; for a private one the
/// peer-level authorization (`peer_level`, read from the authorization
/// table: its refusal text) is checked first, then the agent-level grant.
pub open spec fn task_denial(
    d: AgentDefView,
    grants: Seq<GrantView>,
    agent_id: Seq<char>,
    peer: Seq<char>,
    is_owner: bool,
    peer_level: Result<(), String>,
) -> Option<Seq<char>> {
    if is_owner {
        None
    } else {
        match d.visibility {
            Visibility::Public => None,
            Visibility::Local => Some("agent "@ + agent_id + " visibility="@ + visibility_name(Visibility::Local)),
            Visibility::Private => match peer_level {
                Err(e) => Some(e@),
                Ok(()) => if granted(grants, agent_id, peer) {
                    None
                } else {
                    Some("agent "@ + agent_id + " visibility="@ + visibility_name(Visibility::Private))
                },
            },
        }
    }
}

/// The visibility gate: the first definition with `agent_id` must exist and
/// be enabled (else `AgentUnknown`), and be open to the requester (else
/// `GateDenied`, with the audit event that records why).
pub fn authorize(
    agents: &AgentStore,
    grants: &GrantStore,
    agent_id: &str,
    peer: &str,
    is_owner: bool,
    peer_level: &Result<(), String>,
) -> (r: (Result<(), TaskOpError>, Option<AuditEvent>))
    ensures
        !has_id(agents@, agent_id@) ==> r.0 == Err::<(), TaskOpError>(TaskOpError::AgentUnknown) && r.1 is None,
        has_id(agents@, agent_id@) ==> exists|i: int| first_with_id(agents@, agent_id@, i) && {
            let d = agents@[i];
            if !d.enabled {
                r.0 == Err::<(), TaskOpError>(TaskOpError::AgentUnknown) && r.1 is None
            } else {
                match task_denial(d, grants@, agent_id@, peer@, is_owner, *peer_level) {
                    Some(detail) => r.0 == Err::<(), TaskOpError>(TaskOpError::GateDenied) && (r.1 matches Some(e)
                        && e@ == (AuditView::A2aTaskDenied { peer: peer@, detail })),
                    None => r.0 is Ok && r.1 is None,
                }
            }
        },
{
    let def = match agents.get(agent_id) {
        Some(d) => d,
        None => return (Err(TaskOpError::AgentUnknown), None),
    };
    if !def.enabled {
        return (Err(TaskOpError::AgentUnknown), None);
    }
    if is_owner {
        return (Ok(()), None);
    }
    let denial: Option<String> = match def.visibility {
        Visibility::Public => None,
        Visibility::Local => {
            let mut detail = String::new();
            push_str(&mut detail, "agent ");
            push_str(&mut detail, agent_id);
            push_str(&mut detail, " visibility=Local");
            proof {
                reveal_strlit("Local");
                assert(" visibility=Local"@ =~= " visibility="@ + "Local"@) by {
                    reveal_strlit(" visibility=Local");
                    reveal_strlit(" visibility=");
                }
            }
            Some(detail)
        },
        Visibility::Private => match peer_level {
            Err(e) => Some(e.clone()),
            Ok(()) => if grants.is_granted(agent_id, peer) {
                None
            } else {
                let mut detail = String::new();
                push_str(&mut detail, "agent ");
                push_str(&mut detail, agent_id);
                push_str(&mut detail, " visibility=Private");
                proof {
                    reveal_strlit("Private");
                    assert(" visibility=Private"@ =~= " visibility="@ + "Private"@) by {
                        reveal_strlit(" visibility=Private");
                        reveal_strlit(" visibility=");
                    }
                }
                Some(detail)
            },
        },
    };
    assert(match denial {
        Some(x) => task_denial(def@, grants@, agent_id@, peer@, is_owner, *peer_level) == Some(x@),
        None => task_denial(def@, grants@, agent_id@, peer@, is_owner, *peer_level) is None,
    });
    match denial {
        Some(detail) => (Err(TaskOpError::GateDenied), Some(AuditEvent::A2aTaskDenied { peer: peer.to_owned(), detail })),
        None => (Ok(()), None),
    }
}

/// The task error of a refused admission.
pub fn cap_error(kind: TaskCapKind) -> (e: TaskOpError)
    ensures
        e == TaskOpError::Cap(match kind {
            TaskCapKind::PerPeer => "per-peer",
            TaskCapKind::Total => "total",
        }),
{
    match kind {
        TaskCapKind::PerPeer => TaskOpError::Cap("per-peer"),
        TaskCapKind::Total => TaskOpError::Cap("total"),
    }
}


/// Text of an error, as carried in a JSON-RPC error message.
pub open spec fn error_text(e: TaskOpError) -> Seq<char> {
    match e {
        TaskOpError::AgentUnknown => "not-found: agent 不存在或停用"@,
        TaskOpError::GateDenied => "gate-denied: agent 不对请求方开放"@,
        TaskOpError::TaskUnknown => "not-found: task 不存在或不属请求方"@,
        TaskOpError::Cap(k) => "task-cap: "@ + k@,
        TaskOpError::Spawn(d) => "subprocess-failed: "@ + d@,
        TaskOpError::State(d) => d@,
    }
}

impl TaskOpError {
    /// The error's text (machine code first).
    pub fn message(&self) -> (s: String)
        ensures
            s@ == error_text(*self),
    {
        let mut s = String::new();
        match self {
            TaskOpError::AgentUnknown => push_str(&mut s, "not-found: agent 不存在或停用"),
            TaskOpError::GateDenied => push_str(&mut s, "gate-denied: agent 不对请求方开放"),
            TaskOpError::TaskUnknown => push_str(&mut s, "not-found: task 不存在或不属请求方"),
            TaskOpError::Cap(k) => {
                push_str(&mut s, "task-cap: ");
                push_str(&mut s, k);
            },
            TaskOpError::Spawn(d) => {
                push_str(&mut s, "subprocess-failed: ");
                push_str(&mut s, d.as_str());
            },
            TaskOpError::State(d) => push_str(&mut s, d.as_str()),
        }
        s
    }
}

/// JSON-RPC code of every task-phase business error (the machine code goes
/// in front of the message).
pub const ERR_SERVER: i64 = -32000;
/// JSON-RPC code of a frame that does not parse.
pub const ERR_PARSE: i64 = -32700;

/// What the task phase reads of a request frame.
#[derive(Debug, Clone, PartialEq, Eq)]
pub struct TaskCall {
    pub method: String,
    /// `params.taskId`, when it is a string.
    pub task_id: Option<String>,
    /// `params.message` holds a well-formed message.
    pub has_message: bool,
}

/// What to do with a request on a task stream.
#[derive(Debug, Clone, PartialEq, Eq)]
pub enum TaskRoute {
    /// Create the stream's task.
    Create,
    /// Read a snapshot of a task of the requester.
    Get { task_id: String },
    /// Send the message to the stream's task.
    Send { task_id: String },
    /// Cancel the stream's task.
    Cancel { task_id: String },
    /// Answer with a business error.
    Fail { message: String },
}

/// Abstract route.
pub enum TaskRouteView {
    Create,
    Get { task_id: Seq<char> },
    Send { task_id: Seq<char> },
    Cancel { task_id: Seq<char> },
    Fail { message: Seq<char> },
}

impl View for TaskRoute {
    type V = TaskRouteView;

    open spec fn view(&self) -> TaskRouteView {
        match self {
            TaskRoute::Create => TaskRouteView::Create,
            TaskRoute::Get { task_id } => TaskRouteView::Get { task_id: task_id@ },
            TaskRoute::Send { task_id } => TaskRouteView::Send { task_id: task_id@ },
            TaskRoute::Cancel { task_id } => TaskRouteView::Cancel { task_id: task_id@ },
            TaskRoute::Fail { message } => TaskRouteView::Fail { message: message@ },
        }
    }
}

/// The route of a request, given the id of the task the stream carries (one
/// task per stream; `get` may read any task of the requester).
pub open spec fn route_spec(call: TaskCall, current: Option<Seq<char>>) -> TaskRouteView {
    let m = call.method@;
    if m == "tasks/create"@ {
        if current is Some {
            TaskRouteView::Fail { message: "one-task-per-stream"@ }
        } else {
            TaskRouteView::Create
        }
    } else if m == "tasks/get"@ {
        match call.task_id {
            Some(t) => TaskRouteView::Get { task_id: t@ },
            None => TaskRouteView::Fail { message: "invalid-params: taskId required"@ },
        }
    } else if m == "tasks/send"@ {
        match current {
            None => TaskRouteView::Fail { message: "no-task-on-stream: tasks/create first"@ },
            Some(cur) => match call.task_id {
                None => TaskRouteView::Fail { message: "invalid-params: taskId required"@ },
                Some(t) => if t@ != cur {
                    TaskRouteView::Fail { message: "task-mismatch: stream carries another task"@ }
                } else if !call.has_message {
                    TaskRouteView::Fail { message: "invalid-params: message required"@ }
                } else {
                    TaskRouteView::Send { task_id: t@ }
                },
            },
        }
    } else if m == "tasks/cancel"@ {
        match current {
            None => TaskRouteView::Fail { message: "no-task-on-stream: tasks/create first"@ },
            Some(cur) => TaskRouteView::Cancel { task_id: cur },
        }
    } else {
        TaskRouteView::Fail { message: "unknown method "@ + m }
    }
}

/// Routes a request on a task stream.
pub fn route_request(call: &TaskCall, current: Option<&str>) -> (r: TaskRoute)
    ensures
        r@ == route_spec(*call, match current {
            Some(c) => Some(c@),
            None => None,
        }),
{
    proof {
        reveal_strlit("tasks/create");
        reveal_strlit("tasks/get");
        reveal_strlit("tasks/send");
        reveal_strlit("tasks/cancel");
    }
    let m = call.method.as_str();
    if str_eq(m, "tasks/create") {
        if current.is_some() {
            return TaskRoute::Fail { message: "one-task-per-stream".to_owned() };
        }
        return TaskRoute::Create;
    }
    if str_eq(m, "tasks/get") {
        return match &call.task_id {
            Some(t) => TaskRoute::Get { task_id: t.clone() },
            None => TaskRoute::Fail { message: "invalid-params: taskId required".to_owned() },
        };
    }
    if str_eq(m, "tasks/send") {
        let cur = match current {
            Some(c) => c,
            None => return TaskRoute::Fail { message: "no-task-on-stream: tasks/create first".to_owned() },
        };
        let t = match &call.task_id {
            Some(t) => t,
            None => return TaskRoute::Fail { message: "invalid-params: taskId required".to_owned() },
        };
        if !str_eq(t.as_str(), cur) {
            return TaskRoute::Fail { message: "task-mismatch: stream carries another task".to_owned() };
        }
        if !call.has_message {
            return TaskRoute::Fail { message: "invalid-params: message required".to_owned() };
        }
        return TaskRoute::Send { task_id: t.clone() };
    }
    if str_eq(m, "tasks/cancel") {
        return match current {
            Some(c) => TaskRoute::Cancel { task_id: c.to_owned() },
            None => TaskRoute::Fail { message: "no-task-on-stream: tasks/create first".to_owned() },
        };
    }
    let mut message = String::new();
    push_str(&mut message, "unknown method ");
    push_str(&mut message, m);
    TaskRoute::Fail { message }
}


/// Most tasks kept for `tasks/get` (the oldest ended one leaves first).
pub const REGISTRY_MAX: usize = 256;

/// One registered task: its id, the peer that created it, whether it ended.
#[derive(Debug, Clone, PartialEq, Eq)]
pub struct TaskRecord {
    pub task_id: String,
    pub peer: String,
    pub ended: bool,
}

/// Abstract task record.
pub type TaskRecordView = (Seq<char>, Seq<char>, bool);

/// Registered tasks in creation order, ids distinct.
pub struct TaskRegistry {
    tasks: Vec<TaskRecord>,
}

impl View for TaskRegistry {
    type V = Seq<TaskRecordView>;

    closed spec fn view(&self) -> Seq<TaskRecordView> {
        self.tasks@.map_values(|t: TaskRecord| (t.task_id@, t.peer@, t.ended))
    }
}

/// No two tasks share an id.
pub open spec fn task_ids_distinct(s: Seq<TaskRecordView>) -> bool {
    forall|i: int, j: int| 0 <= i < j < s.len() ==> #[trigger] s[i].0 != #[trigger] s[j].0
}

/// Index of the oldest ended task.
pub open spec fn first_ended(s: Seq<TaskRecordView>, i: int) -> bool {
    &&& 0 <= i < s.len()
    &&& s[i].2
    &&& forall|k: int| 0 <= k < i ==> !(#[trigger] s[k]).2
}

/// The registry with room made for one more task: when full, the oldest
/// ended task leaves (a full registry of live tasks keeps them all).
pub open spec fn make_room(s: Seq<TaskRecordView>) -> Seq<TaskRecordView> {
    if s.len() >= REGISTRY_MAX && exists|i: int| first_ended(s, i) {
        s.remove(choose|i: int| first_ended(s, i))
    } else {
        s
    }
}

/// The task with this id belongs to this peer.
pub open spec fn owned_by(s: Seq<TaskRecordView>, task_id: Seq<char>, peer: Seq<char>) -> bool {
    exists|i: int| 0 <= i < s.len() && s[i].0 == task_id && s[i].1 == peer
}

proof fn lemma_remove_keeps_distinct(s: Seq<TaskRecordView>, i: int)
    requires
        task_ids_distinct(s),
        0 <= i < s.len(),
    ensures
        task_ids_distinct(s.remove(i)),
{
    let t = s.remove(i);
    assert forall|a: int, b: int| 0 <= a < b < t.len() implies #[trigger] t[a].0 != #[trigger] t[b].0 by {
        let ia = if a < i { a } else { a + 1 };
        let ib = if b < i { b } else { b + 1 };
        assert(t[a] == s[ia] && t[b] == s[ib]);
    }
}

impl TaskRegistry {
    pub closed spec fn wf(&self) -> bool {
        task_ids_distinct(self@)
    }

    /// An empty registry.
    pub fn new() -> (r: Self)
        ensures
            r.wf(),
            r@ == Seq::<TaskRecordView>::empty(),
    {
        let r = TaskRegistry { tasks: Vec::new() };
        assert(r@ =~= Seq::<TaskRecordView>::empty());
        r
    }

    fn find(&self, task_id: &str) -> (r: Option<usize>)
        ensures
            match r {
                Some(i) => i < self@.len() && self@[i as int].0 == task_id@,
                None => forall|k: int| 0 <= k < self@.len() ==> #[trigger] self@[k].0 != task_id@,
            },
    {
        let mut i: usize = 0;
        while i < self.tasks.len()
            invariant
                i <= self.tasks@.len(),
                forall|k: int| 0 <= k < i ==> #[trigger] self@[k].0 != task_id@,
            decreases self.tasks@.len() - i,
        {
            assert(self@[i as int].0 == self.tasks@[i as int].task_id@);
            if str_eq(self.tasks[i].task_id.as_str(), task_id) {
                return Some(i);
            }
            i = i + 1;
        }
        None
    }

    /// Registers a live task of `peer`, after making room as `make_room`
    /// says; a task already registered under this id is replaced in place.
    pub fn insert(&mut self, task_id: &str, peer: &str)
        requires
            old(self).wf(),
        ensures
            final(self).wf(),
            ({
                let r = make_room(old(self)@);
                if exists|i: int| 0 <= i < r.len() && r[i].0 == task_id@ {
                    exists|i: int|
                        0 <= i < r.len() && r[i].0 == task_id@ && final(self)@ == r.update(i, (task_id@, peer@, false))
                } else {
                    final(self)@ == r.push((task_id@, peer@, false))
                }
            }),
    {
        if self.tasks.len() >= REGISTRY_MAX {
            let mut i: usize = 0;
            while i < self.tasks.len() && !self.tasks[i].ended
                invariant
                    self@ == old(self)@,
                    i <= self.tasks@.len(),
                    forall|k: int| 0 <= k < i ==> !(#[trigger] self@[k]).2,
                decreases self.tasks@.len() - i,
            {
                assert(self@[i as int].2 == self.tasks@[i as int].ended);
                i = i + 1;
            }
            if i < self.tasks.len() {
                proof {
                    assert(self@[i as int].2 == self.tasks@[i as int].ended);
                    assert(first_ended(self@, i as int));
                    let c = choose|k: int| first_ended(old(self)@, k);
                    if c < i {
                        assert(!self@[c].2);
                    }
                    if i < c {
                        assert(!old(self)@[i as int].2);
                    }
                    lemma_remove_keeps_distinct(old(self)@, i as int);
                }
                let ghost s = self@;
                self.tasks.remove(i);
                assert(self@ =~= s.remove(i as int));
            } else {
                assert(!exists|k: int| first_ended(old(self)@, k));
            }
        }
        let ghost before = self@;
        assert(before == make_room(old(self)@));
        let rec = TaskRecord { task_id: task_id.to_owned(), peer: peer.to_owned(), ended: false };
        match self.find(task_id) {
            Some(i) => {
                self.tasks.set(i, rec);
                assert(self@ =~= before.update(i as int, (task_id@, peer@, false)));
                assert forall|a: int, b: int| 0 <= a < b < self@.len() implies #[trigger] self@[a].0
                    != #[trigger] self@[b].0 by {
                    assert(self@[a].0 == before[a].0 && self@[b].0 == before[b].0);
                }
            },
            None => {
                self.tasks.push(rec);
                assert(self@ =~= before.push((task_id@, peer@, false)));
                assert forall|a: int, b: int| 0 <= a < b < self@.len() implies #[trigger] self@[a].0
                    != #[trigger] self@[b].0 by {
                    if b < before.len() {
                        assert(self@[a] == before[a] && self@[b] == before[b]);
                    } else {
                        assert(self@[a] == before[a]);
                    }
                }
            },
        }
    }

    /// A task of this peer: `get`, `send` and `cancel` only reach the tasks
    /// their requester created.
    pub fn lookup(&self, peer: &str, task_id: &str) -> (r: Result<(), TaskOpError>)
        requires
            self.wf(),
        ensures
            r is Ok <==> owned_by(self@, task_id@, peer@),
            r is Err ==> r == Err::<(), TaskOpError>(TaskOpError::TaskUnknown),
    {
        match self.find(task_id) {
            Some(i) => {
                if str_eq(self.tasks[i].peer.as_str(), peer) {
                    assert(self@[i as int].1 == self.tasks@[i as int].peer@);
                    Ok(())
                } else {
                    proof {
                        assert(self@[i as int].1 == self.tasks@[i as int].peer@);
                        if owned_by(self@, task_id@, peer@) {
                            let k = choose|k: int| 0 <= k < self@.len() && self@[k].0 == task_id@ && self@[k].1 == peer@;
                            if k < i {
                                assert(self@[k].0 != self@[i as int].0);
                            } else if i < k {
                                assert(self@[i as int].0 != self@[k].0);
                            }
                        }
                    }
                    Err(TaskOpError::TaskUnknown)
                }
            },
            None => Err(TaskOpError::TaskUnknown),
        }
    }

    /// Marks a task ended (it stays for `tasks/get`).
    pub fn mark_ended(&mut self, task_id: &str)
        requires
            old(self).wf(),
        ensures
            final(self).wf(),
            final(self)@ == old(self)@.map_values(
                |t: TaskRecordView| if t.0 == task_id@ { (t.0, t.1, true) } else { t },
            ),
    {
        match self.find(task_id) {
            Some(i) => {
                let ghost s = self@;
                let mut rec = self.tasks.remove(i);
                rec.ended = true;
                self.tasks.insert(i, rec);
                assert(self@ =~= s.map_values(|t: TaskRecordView| if t.0 == task_id@ { (t.0, t.1, true) } else { t }))
                    by {
                    assert forall|k: int| 0 <= k < s.len() && k != i implies #[trigger] s[k].0 != task_id@ by {
                        if k < i {
                            assert(s[k].0 != s[i as int].0);
                        } else {
                            assert(s[i as int].0 != s[k].0);
                        }
                    }
                }
            },
            None => {
                assert(self@ =~= self@.map_values(
                    |t: TaskRecordView| if t.0 == task_id@ { (t.0, t.1, true) } else { t },
                ));
            },
        }
    }

    /// Drops a task.
    pub fn remove(&mut self, task_id: &str)
        requires
            old(self).wf(),
        ensures
            final(self).wf(),
            (exists|i: int| 0 <= i < old(self)@.len() && old(self)@[i].0 == task_id@) ==> exists|i: int|
                0 <= i < old(self)@.len() && old(self)@[i].0 == task_id@ && final(self)@ == old(self)@.remove(i),
            !(exists|i: int| 0 <= i < old(self)@.len() && old(self)@[i].0 == task_id@) ==> final(self)@ == old(self)@,
    {
        match self.find(task_id) {
            Some(i) => {
                let ghost s = self@;
                proof {
                    lemma_remove_keeps_distinct(s, i as int);
                }
                self.tasks.remove(i);
                assert(self@ =~= s.remove(i as int));
            },
            None => {},
        }
    }
}

/// The working directory plan of a task bridge: a local agent (driven by
/// the owner) inherits the bridge's; a public or private one runs in the
/// sandbox jail of `agent-<id>`.
pub fn agent_cwd_plan(sandbox_root: &str, visibility_local: bool, agent_id: &str) -> (p: JailPlan)
    ensures
        visibility_local ==> p@ == JailPlanView::Inherit,
        !visibility_local ==> p@ == (JailPlanView::Sandbox {
            root: sandbox_root@,
            peer_dir: sanitized("agent-"@ + agent_id@),
        }),
{
    if visibility_local {
        return JailPlan::Inherit;
    }
    let mut jail_id = String::new();
    push_str(&mut jail_id, "agent-");
    push_str(&mut jail_id, agent_id);
    JailPlan::Sandbox { root: sandbox_root.to_owned(), peer_dir: sanitize(jail_id.as_str()) }
}

/// A task is reachable only by the peer that created it.
pub proof fn tasks_stay_with_their_creator(s: Seq<TaskRecordView>, task_id: Seq<char>, creator: Seq<char>, other: Seq<char>)
    requires
        task_ids_distinct(s),
        owned_by(s, task_id, creator),
        other != creator,
    ensures
        !owned_by(s, task_id, other),
{
    let i = choose|i: int| 0 <= i < s.len() && s[i].0 == task_id && s[i].1 == creator;
    if owned_by(s, task_id, other) {
        let j = choose|j: int| 0 <= j < s.len() && s[j].0 == task_id && s[j].1 == other;
        if i < j {
            assert(s[i].0 != s[j].0);
        } else if j < i {
            assert(s[j].0 != s[i].0);
        }
    }
}

/// One task per stream: a stream that carries a task creates no other, and
/// `send` and `cancel` only ever reach the task the stream carries.
pub proof fn streams_touch_only_their_task(call: TaskCall, current: Option<Seq<char>>)
    ensures
        route_spec(call, current) is Create ==> current is None,
        route_spec(call, current) matches TaskRouteView::Send { task_id } ==> current == Some(task_id),
        route_spec(call, current) matches TaskRouteView::Cancel { task_id } ==> current == Some(task_id),
{
}

/// The refusals of a task stream: sending or cancelling on a stream that
/// carries no task is answered `no-task-on-stream`, and a send that names
/// another task than the stream's is answered `task-mismatch` and reaches no
/// task.
pub proof fn stream_refusals(call: TaskCall, current: Option<Seq<char>>)
    ensures
        (call.method@ == "tasks/send"@ || call.method@ == "tasks/cancel"@) && current is None ==> route_spec(call, current)
            == (TaskRouteView::Fail { message: "no-task-on-stream: tasks/create first"@ }),
        call.method@ == "tasks/send"@ && current is Some && call.task_id is Some && call.task_id->0@ != current->0
            ==> route_spec(call, current) == (TaskRouteView::Fail {
            message: "task-mismatch: stream carries another task"@,
        }),
{
    reveal_strlit("tasks/create");
    reveal_strlit("tasks/get");
    reveal_strlit("tasks/send");
    reveal_strlit("tasks/cancel");
    assert("tasks/send"@.len() != "tasks/create"@.len());
    assert("tasks/send"@.len() != "tasks/get"@.len());
    assert("tasks/cancel"@[7] != "tasks/create"@[7]);
    assert("tasks/cancel"@.len() != "tasks/get"@.len());
    assert("tasks/cancel"@.len() != "tasks/send"@.len());
}

/// What reaches a task stream besides a request.
#[derive(Debug, Clone, Copy, PartialEq, Eq, Structural)]
pub enum StreamInput {
    /// The bridge produced an agent message.
    AgentMessage,
    /// The bridge ended the task with a final state.
    BridgeDone,
    /// The bridge went away without a final state.
    BridgeGone,
    /// The peer closed the stream.
    PeerClosed,
}

/// What the stream does about it.
#[derive(Debug, Clone, Copy, PartialEq, Eq, Structural)]
pub enum StreamAction {
    /// Append the message to the live task and notify the peer.
    Notify,
    /// Move the live task to its final state (`failed` when the bridge gave
    /// none), tell the peer, and remove the task from the stream and the
    /// registry of live tasks.
    Conclude { failed: bool },
    /// Cancel the live task, wait for the bridge's final state, then remove
    /// the task; the stream ends.
    CancelAndRemove,
    /// The stream ends; it carried no task.
    Stop,
    /// Nothing to do: no task is live on the stream.
    Idle,
}

/// The stream's next step: whether a task is still live on it, and what to do.
pub open spec fn stream_step_spec(has_task: bool, input: StreamInput) -> (bool, StreamAction) {
    match input {
        StreamInput::AgentMessage => if has_task {
            (true, StreamAction::Notify)
        } else {
            (false, StreamAction::Idle)
        },
        StreamInput::BridgeDone => if has_task {
            (false, StreamAction::Conclude { failed: false })
        } else {
            (false, StreamAction::Idle)
        },
        StreamInput::BridgeGone => if has_task {
            (false, StreamAction::Conclude { failed: true })
        } else {
            (false, StreamAction::Idle)
        },
        StreamInput::PeerClosed => if has_task {
            (false, StreamAction::CancelAndRemove)
        } else {
            (false, StreamAction::Stop)
        },
    }
}

/// Decides what a task stream does when the bridge reports or the peer
/// closes the stream.
pub fn stream_step(has_task: bool, input: StreamInput) -> (r: (bool, StreamAction))
    ensures
        r == stream_step_spec(has_task, input),
{
    match input {
        StreamInput::AgentMessage => if has_task {
            (true, StreamAction::Notify)
        } else {
            (false, StreamAction::Idle)
        },
        StreamInput::BridgeDone => if has_task {
            (false, StreamAction::Conclude { failed: false })
        } else {
            (false, StreamAction::Idle)
        },
        StreamInput::BridgeGone => if has_task {
            (false, StreamAction::Conclude { failed: true })
        } else {
            (false, StreamAction::Idle)
        },
        StreamInput::PeerClosed => if has_task {
            (false, StreamAction::CancelAndRemove)
        } else {
            (false, StreamAction::Stop)
        },
    }
}

/// A stream leaves no task behind: once the peer closes it no task is live
/// on it, and a live task is cancelled and removed; a task that ends is
/// removed from the stream at once.
pub proof fn closed_stream_leaves_no_task(has_task: bool, input: StreamInput)
    ensures
        input == StreamInput::PeerClosed ==> !stream_step_spec(has_task, input).0,
        input == StreamInput::PeerClosed && has_task ==> stream_step_spec(has_task, input).1
            == StreamAction::CancelAndRemove,
        stream_step_spec(has_task, input).1 is Conclude ==> !stream_step_spec(has_task, input).0,
        !has_task ==> !stream_step_spec(has_task, input).0,
{
}

/// `tasks/get` reads the task its `params.taskId` names, whichever task the
/// stream carries (a peer may read any of its tasks from any stream), and
/// without a task id it is refused.
pub proof fn get_reads_the_named_task(call: TaskCall, current: Option<Seq<char>>)
    requires
        call.method@ == "tasks/get"@,
    ensures
        call.task_id matches Some(t) ==> route_spec(call, current) == (TaskRouteView::Get { task_id: t@ }),
        call.task_id is None ==> route_spec(call, current) is Fail,
        forall|other: Option<Seq<char>>| route_spec(call, current) == #[trigger] route_spec(call, other),
{
    reveal_strlit("tasks/create");
    reveal_strlit("tasks/get");
    assert("tasks/get"@.len() != "tasks/create"@.len());
}

} // verus!
