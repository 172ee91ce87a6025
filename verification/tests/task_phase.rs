use acp_agent::task::{stream_step, StreamAction, StreamInput};
use acp_agent::agents::{AgentStore, Visibility};
use acp_agent::audit::AuditEvent;
use acp_agent::grants::GrantStore;
use acp_agent::limits::TaskCapKind;
use acp_agent::task::{authorize, cap_error, route_request, TaskCall, TaskOpError, TaskRoute};

fn agents() -> AgentStore {
    let mut a = AgentStore::new();
    a.create(Some("pub".into()), "n".into(), "d".into(), vec![], Visibility::Public, 1).unwrap();
    a.create(Some("priv".into()), "n".into(), "d".into(), vec![], Visibility::Private, 1).unwrap();
    a.create(Some("loc".into()), "n".into(), "d".into(), vec![], Visibility::Local, 1).unwrap();
    a.create(Some("off".into()), "n".into(), "d".into(), vec![], Visibility::Public, 1).unwrap();
    a.set_enabled("off", false).unwrap();
    a
}

#[test]
fn visibility_gate_decides_who_may_open_a_task() {
    let a = agents();
    let mut g = GrantStore::new();
    assert_eq!(authorize(&a, &g, "pub", "p", false, &Ok(())).0, Ok(()));
    assert_eq!(authorize(&a, &g, "priv", "p", false, &Ok(())).0, Err(TaskOpError::GateDenied));
    assert_eq!(authorize(&a, &g, "priv", "p", true, &Ok(())).0, Ok(()));
    assert_eq!(authorize(&a, &g, "loc", "p", false, &Ok(())).0, Err(TaskOpError::GateDenied));
    assert_eq!(authorize(&a, &g, "loc", "p", true, &Ok(())).0, Ok(()));
    assert_eq!(authorize(&a, &g, "off", "p", true, &Ok(())).0, Err(TaskOpError::AgentUnknown));
    assert_eq!(authorize(&a, &g, "none", "p", true, &Ok(())).0, Err(TaskOpError::AgentUnknown));
    g.grant("priv", "p", 1).unwrap();
    assert_eq!(authorize(&a, &g, "priv", "p", false, &Ok(())).0, Ok(()));
    assert_eq!(authorize(&a, &g, "priv", "q", false, &Ok(())).0, Err(TaskOpError::GateDenied));
}

#[test]
fn cap_errors_name_the_cap() {
    assert_eq!(cap_error(TaskCapKind::PerPeer), TaskOpError::Cap("per-peer"));
    assert_eq!(cap_error(TaskCapKind::Total).message(), "task-cap: total");
    assert_eq!(TaskOpError::GateDenied.message(), "gate-denied: agent 不对请求方开放");
    assert_eq!(TaskOpError::Spawn("boom".into()).message(), "subprocess-failed: boom");
    assert_eq!(TaskOpError::State("bad state".into()).message(), "bad state");
}

fn call(method: &str, task_id: Option<&str>, has_message: bool) -> TaskCall {
    TaskCall { method: method.into(), task_id: task_id.map(str::to_owned), has_message }
}

fn fail(message: &str) -> TaskRoute {
    TaskRoute::Fail { message: message.into() }
}

#[test]
fn one_task_per_stream() {
    assert_eq!(route_request(&call("tasks/create", None, true), None), TaskRoute::Create);
    assert_eq!(route_request(&call("tasks/create", None, true), Some("t1")), fail("one-task-per-stream"));
}

#[test]
fn send_and_cancel_need_the_stream_task() {
    assert_eq!(route_request(&call("tasks/send", Some("t1"), true), None), fail("no-task-on-stream: tasks/create first"));
    assert_eq!(route_request(&call("tasks/send", None, true), Some("t1")), fail("invalid-params: taskId required"));
    assert_eq!(
        route_request(&call("tasks/send", Some("t2"), true), Some("t1")),
        fail("task-mismatch: stream carries another task")
    );
    assert_eq!(route_request(&call("tasks/send", Some("t1"), false), Some("t1")), fail("invalid-params: message required"));
    assert_eq!(route_request(&call("tasks/send", Some("t1"), true), Some("t1")), TaskRoute::Send { task_id: "t1".into() });
    assert_eq!(route_request(&call("tasks/cancel", None, false), Some("t1")), TaskRoute::Cancel { task_id: "t1".into() });
    assert_eq!(route_request(&call("tasks/cancel", None, false), None), fail("no-task-on-stream: tasks/create first"));
}

#[test]
fn get_reads_any_task_and_unknown_methods_fail() {
    assert_eq!(route_request(&call("tasks/get", Some("t9"), false), None), TaskRoute::Get { task_id: "t9".into() });
    assert_eq!(route_request(&call("tasks/get", None, false), None), fail("invalid-params: taskId required"));
    assert_eq!(route_request(&call("tasks/pause", None, false), None), fail("unknown method tasks/pause"));
}

#[test]
fn private_owner_and_public_paths_untouched() {
    let mut private = AgentStore::new();
    private.create(Some("agent-1".into()), "n".into(), "d".into(), vec![], Visibility::Private, 1).unwrap();
    let grants = GrantStore::new();
    assert!(authorize(&private, &grants, "agent-1", "peer-a", true, &Ok(())).0.is_ok(), "the owner needs no grant");
    assert!(grants.list().is_empty());
    let mut public = AgentStore::new();
    public.create(Some("agent-1".into()), "n".into(), "d".into(), vec![], Visibility::Public, 1).unwrap();
    assert!(authorize(&public, &grants, "agent-1", "peer-a", false, &Ok(())).0.is_ok(), "a public agent is open to all");
}

fn denied(peer: &str, detail: &str) -> (Result<(), TaskOpError>, Option<AuditEvent>) {
    (Err(TaskOpError::GateDenied), Some(AuditEvent::A2aTaskDenied { peer: peer.into(), detail: detail.into() }))
}

#[test]
fn grant_without_binding_denied_at_peer_level() {
    let a = agents();
    let mut g = GrantStore::new();
    g.grant("priv", "peer-a", 1).unwrap();
    let no_binding: Result<(), String> = Err("authz Deny(NotBound)".into());
    assert_eq!(authorize(&a, &g, "priv", "peer-a", false, &no_binding), denied("peer-a", "authz Deny(NotBound)"));
}

#[test]
fn grant_with_operator_binding_allowed() {
    let a = agents();
    let mut g = GrantStore::new();
    g.grant("priv", "peer-a", 1).unwrap();
    assert_eq!(authorize(&a, &g, "priv", "peer-a", false, &Ok(())), (Ok(()), None));
}

#[test]
fn binding_without_grant_denied_at_agent_level() {
    let a = agents();
    let g = GrantStore::new();
    let (result, event) = authorize(&a, &g, "priv", "peer-a", false, &Ok(()));
    assert_eq!(result, Err(TaskOpError::GateDenied));
    let Some(AuditEvent::A2aTaskDenied { detail, .. }) = event else { panic!("no audit event") };
    assert_eq!(detail, "agent priv visibility=Private");
    assert!(!detail.contains("authz"), "the refusal is the agent level's");
}

#[test]
fn authz_read_failure_denies_with_signal() {
    let a = agents();
    let mut g = GrantStore::new();
    g.grant("priv", "peer-a", 1).unwrap();
    let unreadable: Result<(), String> = Err("authz read error: corrupted bindings".into());
    let (result, event) = authorize(&a, &g, "priv", "peer-a", false, &unreadable);
    assert_eq!(result, Err(TaskOpError::GateDenied));
    let Some(AuditEvent::A2aTaskDenied { detail, .. }) = event else { panic!("no audit event") };
    assert!(detail.contains("authz read error"));
}

#[test]
fn local_agent_refusal_is_audited() {
    let a = agents();
    let g = GrantStore::new();
    assert_eq!(authorize(&a, &g, "loc", "p", false, &Ok(())), denied("p", "agent loc visibility=Local"));
    assert_eq!(authorize(&a, &g, "pub", "p", false, &Err("authz Deny(NotBound)".into())), (Ok(()), None));
}

#[test]
fn stream_step_follows_the_bridge() {
    assert_eq!(stream_step(true, StreamInput::AgentMessage), (true, StreamAction::Notify));
    assert_eq!(stream_step(true, StreamInput::BridgeDone), (false, StreamAction::Conclude { failed: false }));
    assert_eq!(stream_step(true, StreamInput::BridgeGone), (false, StreamAction::Conclude { failed: true }));
    assert_eq!(stream_step(false, StreamInput::AgentMessage), (false, StreamAction::Idle));
    assert_eq!(stream_step(false, StreamInput::BridgeDone), (false, StreamAction::Idle));
}

#[test]
fn closed_stream_cancels_its_live_task() {
    assert_eq!(stream_step(true, StreamInput::PeerClosed), (false, StreamAction::CancelAndRemove));
    assert_eq!(stream_step(false, StreamInput::PeerClosed), (false, StreamAction::Stop));
}
