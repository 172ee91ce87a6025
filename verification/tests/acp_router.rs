use acp_agent::permission::{AskRoute, PermissionOption, RpcMessage};
use acp_agent::router::{Router, RouterAction, RouterExit};

fn update(session: &str) -> RpcMessage {
    RpcMessage {
        has_method: true,
        method: Some("session/update".into()),
        id: None,
        session_id: Some(session.into()),
        update_kind: None,
        tool_kind: None,
        options: None,
    }
}

fn ask(id: &str, kind: &str) -> RpcMessage {
    RpcMessage {
        has_method: true,
        method: Some("session/request_permission".into()),
        id: Some(id.into()),
        session_id: None,
        update_kind: None,
        tool_kind: Some(kind.into()),
        options: Some(vec![PermissionOption { kind: Some("allow_once".into()), option_id: Some("\"a\"".into()) }]),
    }
}

fn client(method: Option<&str>, id: Option<&str>) -> RpcMessage {
    RpcMessage {
        has_method: method.is_some(),
        method: method.map(str::to_owned),
        id: id.map(str::to_owned),
        session_id: None,
        update_kind: None,
        tool_kind: None,
        options: None,
    }
}

fn reject(id: &str) -> String {
    format!("{{\"id\":{id},\"jsonrpc\":\"2.0\",\"result\":{{\"outcome\":{{\"outcome\":\"cancelled\"}}}}}}")
}

#[test]
fn early_output_is_held_until_attach() {
    let mut r = Router::new();
    assert!(r.on_child_line(b"one".to_vec(), None, AskRoute::RemoteGui, 0, 60).is_empty());
    assert!(r.on_child_line(b"two".to_vec(), None, AskRoute::RemoteGui, 0, 60).is_empty());
    assert_eq!(
        r.attach(false),
        vec![RouterAction::ToClient(b"one".to_vec()), RouterAction::ToClient(b"two".to_vec())]
    );
    assert_eq!(
        r.on_child_line(b"three".to_vec(), None, AskRoute::RemoteGui, 0, 60),
        vec![RouterAction::ToClient(b"three".to_vec())]
    );
}

#[test]
fn forwarded_ask_is_rejected_when_the_client_leaves() {
    let mut r = Router::new();
    r.attach(false);
    let actions = r.on_child_line(b"ask".to_vec(), Some(&ask("5", "execute")), AskRoute::RemoteGui, 0, 60);
    assert_eq!(
        actions,
        vec![
            RouterAction::AuditPermission { action: "forwarded", id: "5".into() },
            RouterAction::ToClient(b"ask".to_vec()),
        ]
    );
    assert_eq!(r.next_deadline(), Some(60));
    let actions = r.enter_window(100, 30);
    assert_eq!(
        actions,
        vec![
            RouterAction::AnswerChild(reject("5")),
            RouterAction::AuditPermission { action: "unanswered-rejected", id: "5".into() },
        ]
    );
    assert_eq!(r.next_deadline(), Some(130));
}

#[test]
fn ask_without_a_client_is_answered_reject_once() {
    let mut r = Router::new();
    r.attach(false);
    r.enter_window(0, 30);
    let actions = r.on_child_line(b"ask".to_vec(), Some(&ask("6", "execute")), AskRoute::RemoteGui, 0, 60);
    assert_eq!(
        actions,
        vec![
            RouterAction::AnswerChild(reject("6")),
            RouterAction::AuditPermission { action: "unanswered-rejected", id: "6".into() },
        ]
    );
}

#[test]
fn window_caches_updates_and_replays_on_initialize() {
    let mut r = Router::new();
    r.attach(false);
    r.enter_window(0, 30);
    assert!(r.on_child_line(b"u2".to_vec(), Some(&update("s2")), AskRoute::RemoteGui, 1, 60).is_empty());
    assert!(r.on_child_line(b"u1".to_vec(), Some(&update("s1")), AskRoute::RemoteGui, 2, 60).is_empty());
    assert!(r.attach(true).is_empty());
    assert!(r.on_child_line(b"u3".to_vec(), Some(&update("s1")), AskRoute::RemoteGui, 3, 60).is_empty());
    assert!(r.on_client_line(&client(Some("ping"), Some("1"))).is_empty());
    let actions = r.on_client_line(&client(Some("initialize"), Some("2")));
    assert_eq!(
        actions,
        vec![
            RouterAction::ToClient(
                b"{\"jsonrpc\":\"2.0\",\"method\":\"dsh/bridge/reattach\",\"params\":{\"replayed\":3}}".to_vec()
            ),
            RouterAction::ToClient(b"u1".to_vec()),
            RouterAction::ToClient(b"u3".to_vec()),
            RouterAction::ToClient(b"u2".to_vec()),
            RouterAction::AuditReplay { replayed: 3 },
        ]
    );
    assert_eq!(
        r.on_child_line(b"u4".to_vec(), Some(&update("s1")), AskRoute::RemoteGui, 4, 60),
        vec![RouterAction::ToClient(b"u4".to_vec())]
    );
}

#[test]
fn deadlines_reject_asks_and_expire_the_window() {
    let mut r = Router::new();
    r.attach(false);
    r.on_child_line(b"a".to_vec(), Some(&ask("7", "edit")), AskRoute::RemoteGui, 0, 10);
    r.on_child_line(b"b".to_vec(), Some(&ask("8", "edit")), AskRoute::RemoteGui, 5, 10);
    let (actions, exit) = r.on_deadline(12);
    assert_eq!(exit, None);
    assert_eq!(
        actions,
        vec![
            RouterAction::AnswerChild(reject("7")),
            RouterAction::AuditPermission { action: "timeout-rejected", id: "7".into() },
        ]
    );
    assert!(r.on_client_line(&client(None, Some("8"))).is_empty());
    assert_eq!(r.next_deadline(), None);
    r.enter_window(20, 30);
    assert_eq!(r.on_deadline(49).1, None);
    assert_eq!(r.on_deadline(50).1, Some(RouterExit::WindowExpired));
}

#[test]
fn static_answers_never_reach_the_client() {
    let mut r = Router::new();
    r.attach(false);
    let actions = r.on_child_line(b"ask".to_vec(), Some(&ask("9", "read")), AskRoute::RemoteGui, 0, 10);
    assert_eq!(actions.len(), 2);
    assert!(matches!(&actions[0], RouterAction::AnswerChild(_)));
    let actions = r.on_child_line(b"ask".to_vec(), Some(&ask("10", "execute")), AskRoute::OwnerLocal, 0, 10);
    assert_eq!(
        actions,
        vec![
            RouterAction::AnswerChild(reject("10")),
            RouterAction::AuditPermission { action: "owner-local", id: "10".into() },
        ]
    );
}

#[test]
fn detached_router_forwards_no_plain_line() {
    let mut r = Router::new();
    r.attach(false);
    r.enter_window(0, 30);
    assert!(r.on_child_line(b"not json".to_vec(), None, AskRoute::RemoteGui, 1, 60).is_empty());
    let plain = client(Some("session/other"), Some("4"));
    assert!(r.on_child_line(b"{}".to_vec(), Some(&plain), AskRoute::RemoteGui, 1, 60).is_empty());
}
