//! The `request_permission` waterfall: a static policy answers what it may
//! (`think` always, `read`/`fetch` only for agents the owner drives locally),
//! everything else goes by the ask route (forward to the remote GUI, or a
//! local reject-once). A grant is one-shot and never stored.
//!
//! Lines from the child are read by the host into an [`RpcMessage`]; ids and
//! option ids are carried as their JSON text and copied verbatim into the
//! answers.

use vstd::prelude::*;
use vstd::string::*;

use crate::text::{push_str, seq_ends_with, seq_starts_with, str_ends_with, str_eq, str_starts_with};

verus! {

broadcast use vstd::string::group_string_axioms;

/// Outcome of a reject-once answer.
pub const CANCELLED_OUTCOME: &'static str = "cancelled";
/// Outcome of an answer that selects an option.
pub const SELECTED_OUTCOME: &'static str = "selected";

/// Where a request that needs a human goes.
#[derive(Debug, Clone, Copy, PartialEq, Eq, Structural)]
pub enum AskRoute {
    /// Audited locally and answered reject-once at once.
    OwnerLocal,
    /// Forwarded to the client's GUI.
    RemoteGui,
}

/// One option offered by a permission request.
#[derive(Debug, Clone, PartialEq, Eq)]
pub struct PermissionOption {
    /// The option's `kind` when it is a string.
    pub kind: Option<String>,
    /// JSON text of the option's `optionId` member, when present.
    pub option_id: Option<String>,
}

/// What the bridge reads of one JSON-RPC line.
#[derive(Debug, Clone, PartialEq, Eq)]
pub struct RpcMessage {
    /// The line is an object with a `method` member (of any type).
    pub has_method: bool,
    /// `method`, when the line is an object whose `method` is a string.
    pub method: Option<String>,
    /// JSON text of the `id` member, when present (`null` included).
    pub id: Option<String>,
    /// `params.sessionId`, when it is a string.
    pub session_id: Option<String>,
    /// `params.update.sessionUpdate`, when it is a string.
    pub update_kind: Option<String>,
    /// `params.toolCall.kind`, when it is a string.
    pub tool_kind: Option<String>,
    /// `params.options`, when it is an array.
    pub options: Option<Vec<PermissionOption>>,
}

/// A permission request the bridge can answer.
#[derive(Debug, Clone, PartialEq, Eq)]
pub struct PermissionRequest {
    /// JSON text of the request id (never `null`).
    pub id: String,
    /// The tool call's kind.
    pub tool_kind: Option<String>,
    /// JSON text of the `optionId` of the first option whose kind begins
    /// with `allow` (`null` when that option has no id); None without one.
    pub allow_option: Option<String>,
}

/// Abstract permission request: (id, tool kind, allow option id).
pub type RequestView = (Seq<char>, Option<Seq<char>>, Option<Seq<char>>);

pub open spec fn opt_chars(o: Option<String>) -> Option<Seq<char>> {
    match o {
        Some(s) => Some(s@),
        None => None,
    }
}

impl View for PermissionRequest {
    type V = RequestView;

    open spec fn view(&self) -> RequestView {
        (self.id@, opt_chars(self.tool_kind), opt_chars(self.allow_option))
    }
}

/// An option whose kind begins with `allow`.
pub open spec fn is_allow_option(o: PermissionOption) -> bool {
    o.kind matches Some(k) && seq_starts_with(k@, "allow"@)
}

/// Index of the first allow option.
pub open spec fn first_allow(opts: Seq<PermissionOption>, i: int) -> bool {
    &&& 0 <= i < opts.len()
    &&& is_allow_option(opts[i])
    &&& forall|k: int| 0 <= k < i ==> !is_allow_option(#[trigger] opts[k])
}

/// Some option is an allow option.
pub open spec fn has_allow(opts: Seq<PermissionOption>) -> bool {
    exists|i: int| 0 <= i < opts.len() && is_allow_option(opts[i])
}

/// The id text of an option (`null` when absent).
pub open spec fn option_id_text(o: PermissionOption) -> Seq<char> {
    match o.option_id {
        Some(t) => t@,
        None => "null"@,
    }
}

/// The allow option id a request carries.
pub open spec fn allow_option_spec(options: Option<Vec<PermissionOption>>) -> Option<Seq<char>> {
    match options {
        Some(v) => if has_allow(v@) {
            Some(option_id_text(v@[choose|i: int| first_allow(v@, i)]))
        } else {
            None
        },
        None => None,
    }
}

/// A line is an answerable permission request: its method ends with
/// `request_permission` and it carries a non-null id.
pub open spec fn is_permission_request(m: RpcMessage) -> bool {
    &&& m.method matches Some(method) && seq_ends_with(method@, "request_permission"@)
    &&& m.id matches Some(id) && id@ != "null"@
}

/// Abstract waterfall decision.
pub enum DecisionView {
    AutoAllow(Seq<char>),
    OwnerLocal(Seq<char>),
    Forward,
}

/// Waterfall decision.
#[derive(Debug, Clone, PartialEq, Eq)]
pub enum Decision {
    /// The static policy allows: the answer selecting the allow option.
    AutoAllow(String),
    /// Ask routed to the owner locally: the reject-once answer.
    OwnerLocal(String),
    /// Ask routed to the remote GUI: the request goes to the client.
    Forward,
}

impl View for Decision {
    type V = DecisionView;

    open spec fn view(&self) -> DecisionView {
        match self {
            Decision::AutoAllow(s) => DecisionView::AutoAllow(s@),
            Decision::OwnerLocal(s) => DecisionView::OwnerLocal(s@),
            Decision::Forward => DecisionView::Forward,
        }
    }
}

/// Abstract gated decision.
pub enum GatedView {
    Inner(DecisionView),
    AuthzDenied(Seq<char>),
}

/// Decision of the gated waterfall: the static decision, or a local
/// reject-once when the authorization gate refuses a forward.
#[derive(Debug, Clone, PartialEq, Eq)]
pub enum GatedDecision {
    Inner(Decision),
    AuthzDenied(String),
}

impl View for GatedDecision {
    type V = GatedView;

    open spec fn view(&self) -> GatedView {
        match self {
            GatedDecision::Inner(d) => GatedView::Inner(d@),
            GatedDecision::AuthzDenied(s) => GatedView::AuthzDenied(s@),
        }
    }
}

/// Text of the reject-once answer to request `id`.
pub open spec fn rejected_text(id: Seq<char>) -> Seq<char> {
    "{\"id\":"@ + id + ",\"jsonrpc\":\"2.0\",\"result\":{\"outcome\":{\"outcome\":\""@ + CANCELLED_OUTCOME@ + "\"}}}"@
}

/// Text of the answer selecting option `option_id` for request `id`.
pub open spec fn selected_text(id: Seq<char>, option_id: Seq<char>) -> Seq<char> {
    "{\"id\":"@ + id + ",\"jsonrpc\":\"2.0\",\"result\":{\"outcome\":{\"optionId\":"@ + option_id
        + ",\"outcome\":\""@ + SELECTED_OUTCOME@ + "\"}}}"@
}

/// The static policy allows this kind: `think` always; `read` and `fetch`
/// only for an agent driven locally by its owner.
pub open spec fn statically_allowed(kind: Seq<char>, visibility_local: bool) -> bool {
    kind == "think"@ || (visibility_local && (kind == "read"@ || kind == "fetch"@))
}

/// The waterfall's decision for a request.
pub open spec fn decide_spec(req: RequestView, route: AskRoute, visibility_local: bool) -> DecisionView {
    if req.1 is Some && req.2 is Some && statically_allowed(req.1->0, visibility_local) {
        DecisionView::AutoAllow(selected_text(req.0, req.2->0))
    } else {
        match route {
            AskRoute::OwnerLocal => DecisionView::OwnerLocal(rejected_text(req.0)),
            AskRoute::RemoteGui => DecisionView::Forward,
        }
    }
}

fn first_allow_option(options: &Vec<PermissionOption>) -> (r: Option<usize>)
    ensures
        match r {
            Some(i) => first_allow(options@, i as int),
            None => !has_allow(options@),
        },
{
    let mut i: usize = 0;
    while i < options.len()
        invariant
            i <= options@.len(),
            forall|k: int| 0 <= k < i ==> !is_allow_option(#[trigger] options@[k]),
        decreases options@.len() - i,
    {
        let hit = match &options[i].kind {
            Some(k) => str_starts_with(k.as_str(), "allow"),
            None => false,
        };
        if hit {
            return Some(i);
        }
        i = i + 1;
    }
    None
}

proof fn lemma_first_allow_unique(opts: Seq<PermissionOption>, i: int, j: int)
    requires
        first_allow(opts, i),
        first_allow(opts, j),
    ensures
        i == j,
{
    if i < j {
        assert(!is_allow_option(opts[i]));
    }
    if j < i {
        assert(!is_allow_option(opts[j]));
    }
}

/// Recognizes a permission request among the child's lines.
pub fn classify(root: &RpcMessage) -> (r: Option<PermissionRequest>)
    ensures
        r is Some <==> is_permission_request(*root),
        r matches Some(req) ==> {
            &&& req.id@ == root.id->0@
            &&& opt_chars(req.tool_kind) == opt_chars(root.tool_kind)
            &&& opt_chars(req.allow_option) == allow_option_spec(root.options)
        },
{
    let method = match &root.method {
        Some(m) => m,
        None => return None,
    };
    if !str_ends_with(method.as_str(), "request_permission") {
        return None;
    }
    let id = match &root.id {
        Some(id) => id,
        None => return None,
    };
    if str_eq(id.as_str(), "null") {
        return None;
    }
    let allow_option = match &root.options {
        Some(options) => match first_allow_option(options) {
            Some(i) => {
                proof {
                    let c = choose|k: int| first_allow(options@, k);
                    lemma_first_allow_unique(options@, c, i as int);
                }
                match &options[i].option_id {
                    Some(t) => Some(t.clone()),
                    None => Some("null".to_owned()),
                }
            },
            None => None,
        },
        None => None,
    };
    Some(PermissionRequest { id: id.clone(), tool_kind: root.tool_kind.clone(), allow_option })
}

/// The reject-once answer (cancelled outcome) to request `id`.
pub fn rejected_response(id: &str) -> (s: String)
    ensures
        s@ == rejected_text(id@),
{
    let mut s = String::new();
    push_str(&mut s, "{\"id\":");
    push_str(&mut s, id);
    push_str(&mut s, ",\"jsonrpc\":\"2.0\",\"result\":{\"outcome\":{\"outcome\":\"");
    push_str(&mut s, CANCELLED_OUTCOME);
    push_str(&mut s, "\"}}}");
    s
}

/// The answer selecting option `option_id` for request `id`.
pub fn selected_response(id: &str, option_id: &str) -> (s: String)
    ensures
        s@ == selected_text(id@, option_id@),
{
    let mut s = String::new();
    push_str(&mut s, "{\"id\":");
    push_str(&mut s, id);
    push_str(&mut s, ",\"jsonrpc\":\"2.0\",\"result\":{\"outcome\":{\"optionId\":");
    push_str(&mut s, option_id);
    push_str(&mut s, ",\"outcome\":\"");
    push_str(&mut s, SELECTED_OUTCOME);
    push_str(&mut s, "\"}}}");
    s
}

/// The waterfall with the visibility column: `think` is answered by the
/// bridge; `read`/`fetch` only when the agent is local; all else asks.
pub fn decide_scoped(req: &PermissionRequest, route: AskRoute, visibility_local: bool) -> (d: Decision)
    ensures
        d@ == decide_spec(req@, route, visibility_local),
{
    proof {
        reveal_strlit("think");
        reveal_strlit("read");
        reveal_strlit("fetch");
    }
    if let (Some(kind), Some(option)) = (&req.tool_kind, &req.allow_option) {
        let k = kind.as_str();
        if str_eq(k, "think") {
            return Decision::AutoAllow(selected_response(req.id.as_str(), option.as_str()));
        }
        if visibility_local && (str_eq(k, "read") || str_eq(k, "fetch")) {
            return Decision::AutoAllow(selected_response(req.id.as_str(), option.as_str()));
        }
    }
    match route {
        AskRoute::OwnerLocal => Decision::OwnerLocal(rejected_response(req.id.as_str())),
        AskRoute::RemoteGui => Decision::Forward,
    }
}

/// The waterfall of the ACP flow, where the owner drives the agent: the
/// same as [`decide_scoped`] with a local agent.
pub fn decide(req: &PermissionRequest, route: AskRoute) -> (d: Decision)
    ensures
        d@ == decide_spec(req@, route, true),
{
    decide_scoped(req, route, true)
}

/// The waterfall with the authorization check in front of every ask: `gate`
/// is called only when the static decision forwards, and a refusal becomes
/// a local reject-once.
pub fn decide_gated<F: FnOnce() -> bool>(req: &PermissionRequest, route: AskRoute, gate: F) -> (d: GatedDecision)
    requires
        gate.requires(()),
    ensures
        !(decide_spec(req@, route, true) is Forward) ==> d@ == GatedView::Inner(decide_spec(req@, route, true)),
        decide_spec(req@, route, true) is Forward ==> {
            ||| (d@ == GatedView::Inner(DecisionView::Forward) && gate.ensures((), true))
            ||| (d@ == GatedView::AuthzDenied(rejected_text(req.id@)) && gate.ensures((), false))
        },
{
    match decide(req, route) {
        Decision::Forward => {
            let allowed = gate();
            if allowed {
                GatedDecision::Inner(Decision::Forward)
            } else {
                GatedDecision::AuthzDenied(rejected_response(req.id.as_str()))
            }
        },
        other => GatedDecision::Inner(other),
    }
}

/// An agent driven remotely never has `read` or `fetch` (or anything but
/// `think`) answered by the static policy: it asks.
pub proof fn remote_agents_only_bridge_answer_think(req: RequestView, route: AskRoute)
    requires
        !(req.1 == Some("think"@)),
    ensures
        !(decide_spec(req, route, false) is AutoAllow),
{
}

/// Without an allow option nothing is allowed statically: the request asks.
pub proof fn no_allow_option_asks(req: RequestView, route: AskRoute, visibility_local: bool)
    requires
        req.2 is None,
    ensures
        decide_spec(req, route, visibility_local) == (match route {
            AskRoute::OwnerLocal => DecisionView::OwnerLocal(rejected_text(req.0)),
            AskRoute::RemoteGui => DecisionView::Forward,
        }),
{
}

} // verus!
