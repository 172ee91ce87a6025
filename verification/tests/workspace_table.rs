use acp_agent::config::AgentConfig;
use acp_agent::workspaces::{WorkspaceDef, WorkspaceStore, WorkspaceStoreError, WorkspacesLoad, DEFAULT_WORKSPACE_ID};

fn seed() -> Vec<WorkspaceDef> {
    vec![WorkspaceDef { id: "ws1".to_owned(), name: "first".to_owned(), dir: "/tmp".to_owned() }]
}

fn open(rows: &[WorkspaceDef], legacy: Option<&str>) -> WorkspaceStore {
    WorkspaceStore::open(&rows.to_vec(), legacy.map(str::to_owned), "/tmp/acp-workspaces.json", WorkspacesLoad::Missing)
        .expect("open")
        .0
}

fn config() -> AgentConfig {
    AgentConfig::defaults("/dsh-acp/1".to_owned(), 300, 60)
}

#[test]
fn missing_file_seeds_and_persists() {
    let (store, write) =
        WorkspaceStore::open(&seed(), None, "/tmp/acp-workspaces.json", WorkspacesLoad::Missing).expect("open");
    assert!(write, "a missing file is seeded and written");
    assert_eq!(store.rows().len(), 1);
    let (reopened, write) = WorkspaceStore::open(
        &vec![],
        None,
        "/tmp/acp-workspaces.json",
        WorkspacesLoad::Parsed { version: 1, workspaces: store.rows() },
    )
    .expect("reopen");
    assert!(!write);
    assert_eq!(reopened.rows().len(), 1);
}

#[test]
fn corrupt_file_refuses_open() {
    let err = WorkspaceStore::open(&vec![], None, "/p", WorkspacesLoad::Unparsable { detail: "eof".into() })
        .err()
        .expect("must refuse");
    assert!(matches!(err, WorkspaceStoreError::Corrupt { .. }));
    let err = WorkspaceStore::open(&vec![], None, "/p", WorkspacesLoad::Parsed { version: 2, workspaces: vec![] })
        .err()
        .expect("must refuse");
    assert_eq!(err, WorkspaceStoreError::Corrupt { path: "/p".into(), detail: "version 2".into() });
    let err = WorkspaceStore::open(&vec![], None, "/p", WorkspacesLoad::Unreadable { detail: "denied".into() })
        .err()
        .expect("must refuse");
    assert_eq!(err, WorkspaceStoreError::Io("denied".into()));
}

#[test]
fn add_rejects_bad_fields_and_duplicate() {
    let mut store = open(&seed(), None);
    assert!(matches!(store.add("", "n", "/tmp", true), Err(WorkspaceStoreError::EmptyField)));
    assert!(matches!(store.add("bad id!", "n", "/tmp", true), Err(WorkspaceStoreError::BadId)));
    assert!(matches!(store.add("ws2", "n", "relative/path", true), Err(WorkspaceStoreError::InvalidDir(_))));
    assert!(matches!(store.add("ws2", "n", "/definitely/not/a/dir-xyz", false), Err(WorkspaceStoreError::InvalidDir(_))));
    assert!(matches!(store.add("ws1", "dup", "/tmp", true), Err(WorkspaceStoreError::DuplicateId(_))));
    assert_eq!(store.rows().len(), 1);
}

#[test]
fn add_trims_fields() {
    let mut store = open(&[], None);
    let def = store.add("  ws2 ", " second\t", " /tmp ", true).expect("add");
    assert_eq!(def, WorkspaceDef { id: "ws2".into(), name: "second".into(), dir: "/tmp".into() });
}

#[test]
fn add_persists_and_remove_roundtrips() {
    let mut store = open(&seed(), None);
    let def = store.add("ws2", "second", "/tmp", true).expect("add");
    assert_eq!(def.id, "ws2");
    assert_eq!(store.rows().len(), 2);
    store.remove("ws2").expect("remove");
    assert!(store.resolve(Some("ws2")).is_none());
}

#[test]
fn undo_restores_the_table() {
    let mut store = open(&seed(), None);
    store.add("ws2", "second", "/tmp", true).expect("add");
    store.undo_add();
    assert_eq!(store.rows(), seed());
    let (at, removed) = store.remove("ws1").expect("remove");
    assert_eq!(at, 0);
    store.undo_remove(at, removed);
    assert_eq!(store.rows(), seed());
}

#[test]
fn undo_remove_keeps_the_order() {
    let rows: Vec<WorkspaceDef> = ["a", "b", "c"]
        .iter()
        .map(|id| WorkspaceDef { id: (*id).to_owned(), name: id.to_uppercase(), dir: "/tmp".to_owned() })
        .collect();
    let mut store = open(&rows, None);
    let (at, removed) = store.remove("a").expect("remove");
    assert_eq!(store.entries().len(), 2);
    store.undo_remove(at, removed);
    assert_eq!(store.entries(), rows, "the row goes back where it was");
}

#[test]
fn legacy_default_falls_back_and_is_not_removable() {
    let mut store = open(&[], Some("/tmp/legacy"));
    let fallback = store.resolve(None).expect("legacy default");
    assert_eq!(fallback.dir, "/tmp/legacy");
    assert!(matches!(store.remove("default"), Err(WorkspaceStoreError::LegacyDefault)));
    assert!(matches!(store.remove("nope"), Err(WorkspaceStoreError::Unknown(_))));
}

#[test]
fn explicit_default_shadows_legacy() {
    let mut store = open(
        &[WorkspaceDef { id: "default".to_owned(), name: "explicit".to_owned(), dir: "/tmp".to_owned() }],
        Some("/tmp/legacy"),
    );
    let hit = store.resolve(None).expect("explicit default");
    assert_eq!(hit.dir, "/tmp");
    store.remove("default").expect("remove explicit default");
    assert_eq!(store.resolve(None).expect("legacy").dir, "/tmp/legacy");
}

#[test]
fn open_for_config_seeds_from_configuration() {
    let mut cfg = config();
    cfg.workspaces = seed();
    cfg.workspace_dir = Some("/tmp/legacy".into());
    let (store, write) = WorkspaceStore::open_for_config(&cfg, "/p", WorkspacesLoad::Missing).expect("open");
    assert!(write);
    assert_eq!(store.rows().len(), 2);
    assert_eq!(store.resolve(None).expect("legacy").id, DEFAULT_WORKSPACE_ID);
}

#[test]
fn entries_leave_out_the_legacy_row() {
    let s = open(&seed(), Some("/srv/legacy"));
    assert_eq!(s.rows().len(), 2);
    assert_eq!(s.rows()[1].id, DEFAULT_WORKSPACE_ID);
    assert_eq!(s.entries(), seed());
}
