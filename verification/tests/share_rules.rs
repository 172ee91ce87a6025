use acp_agent::jail::Scope;
use acp_agent::permission::AskRoute;
use acp_agent::share::{
    check_create_request, check_target, create_refusal, workspace_refusal, AdminRefusal, CreateRequest, ShareCreateError,
};
use acp_agent::workspaces::{WorkspaceDef, WorkspaceStore, WorkspaceStoreError, WorkspacesLoad};

fn store(rows: Vec<WorkspaceDef>, legacy: Option<&str>) -> WorkspaceStore {
    WorkspaceStore::open(&rows, legacy.map(str::to_owned), "/tmp/ws.json", WorkspacesLoad::Missing).expect("open").0
}

fn request(ttl_secs: u64, max_activations: Option<u32>) -> CreateRequest {
    CreateRequest {
        scope: Scope::Sandbox,
        workspace: None,
        allow_mcp: vec!["fs".into()],
        ask_route: None,
        ttl_secs,
        max_activations,
        note: None,
    }
}

#[test]
fn workspace_scope_requires_workspace_dir_owner_never_shareable() {
    let empty = store(vec![], None);
    assert_eq!(check_target(&empty, Scope::Workspace, None), Err(ShareCreateError::WorkspaceUnconfigured));
    assert_eq!(check_target(&empty, Scope::Owner, None), Err(ShareCreateError::OwnerScope));
    let legacy = store(vec![], Some("/tmp/scope-ws"));
    assert!(check_target(&legacy, Scope::Workspace, None).is_ok());
    assert!(check_target(&empty, Scope::Sandbox, None).is_ok());
}

#[test]
fn workspace_share_unknown_id_rejected_at_create() {
    let ws = store(vec![WorkspaceDef { id: "ws1".into(), name: "p2p".into(), dir: "/tmp/ws".into() }], None);
    assert!(check_target(&ws, Scope::Workspace, Some("ws1")).is_ok());
    assert!(matches!(
        check_target(&ws, Scope::Workspace, Some("nope")),
        Err(ShareCreateError::WorkspaceUnknown(id)) if id == "nope"
    ));
}

#[test]
fn invalid_input_is_explicit() {
    assert_eq!(check_create_request(request(0, None), 1), Err(AdminRefusal { status: 400, code: "invalid-ttl" }));
    assert_eq!(
        check_create_request(request(60, Some(0)), 1),
        Err(AdminRefusal { status: 400, code: "invalid-max-activations" })
    );
    let spec = check_create_request(request(60, None), 3).expect("valid");
    assert_eq!(spec.ask_route, AskRoute::RemoteGui);
    assert_eq!(spec.max_activations, 3);
    assert_eq!(spec.note, "");
    assert_eq!(spec.allow_mcp, vec!["fs".to_owned()]);
}

#[test]
fn refusals_map_to_status_and_code() {
    assert_eq!(create_refusal(&ShareCreateError::OwnerScope), AdminRefusal { status: 400, code: "owner-scope-not-shareable" });
    assert_eq!(
        create_refusal(&ShareCreateError::WorkspaceUnconfigured),
        AdminRefusal { status: 422, code: "workspace-unconfigured" }
    );
    assert_eq!(create_refusal(&ShareCreateError::Store("disk".into())).status, 500);
}

#[test]
fn workspace_admin_refusals() {
    let mut s = store(vec![], None);
    s.add("a", "A", "/tmp", true).expect("first add");
    let dup = s.add("a", "A", "/tmp", true).unwrap_err();
    assert_eq!(workspace_refusal(&dup), AdminRefusal { status: 409, code: "duplicate-id" });
    let rel = s.add("b", "B", "rel/path", false).unwrap_err();
    assert_eq!(workspace_refusal(&rel), AdminRefusal { status: 422, code: "invalid-dir" });
    let gone = s.remove("zz").unwrap_err();
    assert_eq!(workspace_refusal(&gone), AdminRefusal { status: 404, code: "unknown-workspace" });
    assert_eq!(workspace_refusal(&WorkspaceStoreError::Io("disk".into())), AdminRefusal { status: 500, code: "store" });
}
