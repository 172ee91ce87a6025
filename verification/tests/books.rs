use acp_agent::agents::{AgentStore, StoreError, Visibility, AGENTS_MAX};
use acp_agent::grants::{GrantEntry, GrantStore, GRANTS_MAX};
use acp_agent::invites::{InviteEntry, InviteStatus, InviteStore};

#[test]
fn create_list_update_remove_roundtrip() {
    let mut store = AgentStore::new();
    let def = store
        .create(
            Some("code-review".into()),
            "代码评审员".into(),
            "对 PR 做代码评审".into(),
            vec![],
            Visibility::Public,
            1_000,
        )
        .unwrap();
    assert_eq!(def.agent_id, "code-review");
    assert_eq!(store.list().len(), 1);
    store.set_visibility("code-review", Visibility::Private).unwrap();
    assert_eq!(store.get("code-review").unwrap().visibility, Visibility::Private);
    store.set_enabled("code-review", false).unwrap();
    assert!(store.network_defs().is_empty(), "a disabled agent is offered nowhere");
    store.remove("code-review").unwrap();
    assert!(store.list().is_empty());
    assert!(store.remove("code-review").is_err());
}

#[test]
fn duplicate_rejected_and_persist_reopens() {
    let mut store = AgentStore::new();
    store.create(None, "n".into(), "d".into(), vec![], Visibility::Public, 1).unwrap();
    let id = store.list()[0].agent_id.clone();
    assert_eq!(id.len(), 16);
    assert!(id.chars().all(|c| c.is_ascii_hexdigit() && !c.is_ascii_uppercase()));
    assert!(matches!(
        store.create(Some(id), "n".into(), "d".into(), vec![], Visibility::Public, 1),
        Err(StoreError::Duplicate(_))
    ));
    let reopened = AgentStore::from_defs(store.list());
    assert_eq!(reopened.list().len(), 1);
}

#[test]
fn book_is_capped() {
    let mut store = AgentStore::new();
    for i in 0..AGENTS_MAX {
        store.create(Some(format!("a{i}")), "n".into(), "d".into(), vec![], Visibility::Public, 1).unwrap();
    }
    assert_eq!(
        store.create(Some("late".into()), "n".into(), "d".into(), vec![], Visibility::Public, 1),
        Err(StoreError::Full)
    );
}

#[test]
fn network_defs_skip_local_and_disabled() {
    let mut store = AgentStore::new();
    store.create(Some("p".into()), "n".into(), "d".into(), vec![], Visibility::Public, 1).unwrap();
    store.create(Some("l".into()), "n".into(), "d".into(), vec![], Visibility::Local, 1).unwrap();
    store.create(Some("q".into()), "n".into(), "d".into(), vec![], Visibility::Private, 1).unwrap();
    store.set_enabled("q", false).unwrap();
    let ids: Vec<String> = store.network_defs().into_iter().map(|d| d.agent_id).collect();
    assert_eq!(ids, vec!["p"]);
}

#[test]
fn card_carries_the_agent_address() {
    let mut store = AgentStore::new();
    let def = store.create(Some("x".into()), "n".into(), "d".into(), vec![], Visibility::Public, 1).unwrap();
    let card = AgentStore::card_of(&def, "host-1").expect("card");
    assert_eq!(card.url, "a2a://host-1/x");
    assert_eq!(card.host_peer, "host-1");
    assert!(card.capabilities.streaming);
}

#[test]
fn grant_is_granted_roundtrip_and_persist() {
    let mut store = GrantStore::new();
    assert!(!store.is_granted("a1", "peer-x"));
    store.grant("a1", "peer-x", 100).unwrap();
    store.grant("a1", "peer-x", 200).unwrap();
    assert!(store.is_granted("a1", "peer-x"));
    assert!(!store.is_granted("a1", "peer-y"));
    assert_eq!(store.list().len(), 1);
    assert_eq!(store.list()[0].granted_at, 100);
    let store = GrantStore::from_grants(store.list());
    assert!(store.is_granted("a1", "peer-x"));
}

#[test]
fn revoke_single_and_whole_agent() {
    let mut store = GrantStore::new();
    store.grant("a1", "p1", 1).unwrap();
    store.grant("a1", "p2", 1).unwrap();
    store.grant("a2", "p1", 1).unwrap();
    assert!(store.revoke("a1", "p1"));
    assert!(!store.revoke("a1", "p1"), "a second revoke finds nothing");
    assert_eq!(store.peers_for("a1").len(), 1);
    assert_eq!(store.revoke_agent("a1"), 1);
    assert!(store.peers_for("a1").is_empty());
    assert_eq!(store.list().len(), 1, "grants of a2 stay");
    assert_eq!(store.agents_for_peer("p1"), vec!["a2".to_owned()]);
}

#[test]
fn grant_list_is_capped() {
    let mut store = GrantStore::new();
    for i in 0..GRANTS_MAX {
        store.grant("a", &format!("p{i}"), 1).unwrap();
    }
    assert_eq!(store.grant("a", "late", 1), Err(format!("grant store full ({GRANTS_MAX})")));
    store.grant("a", "p0", 9).unwrap();
    let _ = GrantEntry { agent_id: "a".into(), peer: "p".into(), granted_at: 0 };
}

fn make_entry(nonce: &str, agent_id: &str, invitee_peer: &str) -> InviteEntry {
    InviteEntry {
        nonce: nonce.to_owned(),
        agent_id: agent_id.to_owned(),
        host_peer: "host-peer-123".to_owned(),
        invitee_peer: invitee_peer.to_owned(),
        expiry: 9999999999,
        issued_at: 1000,
        status: InviteStatus::Pending,
        receipt_sig: None,
    }
}

#[test]
fn insert_and_nonce_check() {
    let mut store = InviteStore::new();
    assert!(!store.is_nonce_used("nonce-1"));
    store.insert(make_entry("nonce-1", "a1", "peer-1")).unwrap();
    assert!(store.is_nonce_used("nonce-1"));
    assert_eq!(
        store.insert(make_entry("nonce-1", "a1", "peer-2")),
        Err("nonce already used: nonce-1".to_owned())
    );
    let store = InviteStore::from_invites(store.list());
    assert!(store.is_nonce_used("nonce-1"));
}

#[test]
fn accept_and_reject() {
    let mut store = InviteStore::new();
    store.insert(make_entry("n1", "a1", "p1")).unwrap();
    store.insert(make_entry("n2", "a1", "p2")).unwrap();
    store.accept("n1", "receipt-sig-123").unwrap();
    let list = store.list();
    let entry = list.iter().find(|i| i.nonce == "n1").unwrap();
    assert_eq!(entry.status, InviteStatus::Accepted);
    assert_eq!(entry.receipt_sig.as_deref(), Some("receipt-sig-123"));
    store.reject("n2").unwrap();
    let list = store.list();
    let entry = list.iter().find(|i| i.nonce == "n2").unwrap();
    assert_eq!(entry.status, InviteStatus::Rejected);
    assert!(store.accept("n1", "sig").is_err());
    assert_eq!(store.reject("n9"), Err("nonce not found: n9".to_owned()));
}

#[test]
fn revoke_agent_removes_pending() {
    let mut store = InviteStore::new();
    store.insert(make_entry("n1", "a1", "p1")).unwrap();
    store.insert(make_entry("n2", "a1", "p2")).unwrap();
    store.insert(make_entry("n3", "a2", "p1")).unwrap();
    store.accept("n1", "sig").unwrap();
    let removed = store.revoke_agent("a1");
    assert_eq!(removed, 1, "only pending n2 removed, n1 already accepted");
    assert_eq!(store.list().len(), 2);
}

#[test]
fn pending_for_invitee() {
    let mut store = InviteStore::new();
    store.insert(make_entry("n1", "a1", "p1")).unwrap();
    store.insert(make_entry("n2", "a1", "p1")).unwrap();
    store.insert(make_entry("n3", "a2", "p2")).unwrap();
    let pending = store.pending_for_invitee("p1");
    assert_eq!(pending.len(), 2);
    assert_eq!(store.sent_by_host("host-peer-123").len(), 3);
    assert!(store.sent_by_host("other").is_empty());
}
