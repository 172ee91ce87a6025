use acp_agent::jail::{is_within, require_prefix, resolve, sanitize, JailError, JailPlan, Scope};
use acp_agent::workspaces::{WorkspaceDef, WorkspaceStore, WorkspacesLoad};

fn store(rows: Vec<WorkspaceDef>, legacy: Option<&str>) -> WorkspaceStore {
    WorkspaceStore::open(&rows, legacy.map(str::to_owned), "/tmp/ws.json", WorkspacesLoad::Missing)
        .expect("open")
        .0
}

#[test]
fn sanitize_neutralizes_path_segments() {
    assert_eq!(sanitize("../etc/passwd"), "___etc_passwd");
    assert_eq!(sanitize("abc-XYZ_123"), "abc-XYZ_123");
}

#[test]
fn prefix_is_component_wise() {
    let base = "/tmp/jail-test-prefix";
    let inside = "/tmp/jail-test-prefix/peer/sub";
    let sibling = "/tmp/jail-test-prefix/peer-twin";
    assert!(require_prefix(inside, base).is_ok());
    assert!(require_prefix(sibling, "/tmp/jail-test-prefix/peer").is_err());
}

#[test]
fn escape_error_names_both_paths() {
    match require_prefix("/srv/other", "/srv/jail") {
        Err(JailError::Escape { resolved, jail }) => {
            assert_eq!(resolved, "/srv/other");
            assert_eq!(jail, "/srv/jail");
        }
        other => panic!("unexpected {other:?}"),
    }
}

#[test]
fn components_ignore_repeated_separators_and_dots() {
    assert!(is_within("/a//b/./c/", "/a/b"));
    assert!(is_within("/a/b", "/a/b/"));
    assert!(!is_within("a/b", "/a"));
    assert!(!is_within("/a", "a"));
    assert!(is_within("./a/b", "./a"));
    assert!(!is_within("a/b", "./a"));
    assert!(is_within("/anything", ""));
    assert!(!is_within("/a/..", "/a/b"));
}

#[test]
fn sandbox_creates_per_peer_jail() {
    let ws = store(vec![], None);
    let plan = resolve("/tmp/jail-test-sandbox", &ws, Scope::Sandbox, "peer/other", None).expect("sandbox jail");
    assert_eq!(
        plan,
        JailPlan::Sandbox { root: "/tmp/jail-test-sandbox".to_owned(), peer_dir: "peer_other".to_owned() }
    );
}

#[test]
fn owner_inherits_the_bridge_cwd() {
    let ws = store(vec![], None);
    assert_eq!(resolve("/tmp/s", &ws, Scope::Owner, "p", None).expect("owner"), JailPlan::Inherit);
}

#[test]
fn workspace_without_config_rejects() {
    let ws = store(vec![], None);
    let err = resolve("/tmp/s", &ws, Scope::Workspace, "peer", None).expect_err("must reject");
    assert!(matches!(err, JailError::WorkspaceUnconfigured));
}

#[test]
fn workspace_locks_configured_dir() {
    let ws = store(vec![], Some("/tmp/jail-test-workspace"));
    let plan = resolve("/tmp/s", &ws, Scope::Workspace, "peer", None).expect("workspace jail");
    assert_eq!(plan, JailPlan::Workspace { dir: "/tmp/jail-test-workspace".to_owned() });
}

#[test]
fn workspace_by_id_locks_named_dir() {
    let ws = store(
        vec![WorkspaceDef { id: "ws1".to_owned(), name: "named".to_owned(), dir: "/tmp/jail-test-ws-named".to_owned() }],
        None,
    );
    let plan = resolve("/tmp/s", &ws, Scope::Workspace, "peer", Some("ws1")).expect("named jail");
    assert_eq!(plan, JailPlan::Workspace { dir: "/tmp/jail-test-ws-named".to_owned() });
    let err = resolve("/tmp/s", &ws, Scope::Workspace, "peer", Some("nope")).expect_err("must reject");
    assert!(matches!(err, JailError::WorkspaceUnknown { id } if id == "nope"));
}
