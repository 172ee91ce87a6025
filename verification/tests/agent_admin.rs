use acp_agent::agents::{agent_path_id, AgentStore, StoreError, Visibility};

#[test]
fn update_prefers_visibility_then_enabled() {
    let mut store = AgentStore::new();
    store.create(Some("a1".into()), "n".into(), "d".into(), vec![], Visibility::Public, 1).unwrap();
    let d = store.update("a1", Some(Visibility::Local), Some(false)).unwrap();
    assert_eq!(d.visibility, Visibility::Local);
    assert!(d.enabled, "enabled is left alone when a visibility is given");
    let d = store.update("a1", None, Some(false)).unwrap();
    assert!(!d.enabled);
    assert_eq!(store.update("a1", None, None), Err(StoreError::Unknown("a1".into())));
    assert_eq!(store.update("zz", Some(Visibility::Public), None), Err(StoreError::Unknown("zz".into())));
}

#[test]
fn errors_have_text_and_status() {
    assert_eq!(StoreError::Unknown("x".into()).status(), 404);
    assert_eq!(StoreError::Full.status(), 422);
    assert_eq!(StoreError::Full.message(), "簿条目已达上限 32");
    assert_eq!(StoreError::Duplicate("a".into()).message(), "agent_id 已存在: a");
}

#[test]
fn admin_targets_name_the_agent() {
    assert_eq!(agent_path_id("/a2a/agents/code-review"), Some("code-review".into()));
    assert_eq!(agent_path_id("/a2a/agents//x"), Some("x".into()));
    assert_eq!(agent_path_id("/a2a/agents"), Some(String::new()));
    assert_eq!(agent_path_id("/shares/x"), None);
}

#[test]
fn signed_cards_visibility_filter() {
    let mut store = AgentStore::new();
    store.create(Some("pub-a".into()), "a".into(), "d".into(), vec![], Visibility::Public, 1).unwrap();
    store.create(Some("priv-b".into()), "b".into(), "d".into(), vec![], Visibility::Private, 1).unwrap();
    let host = "12D3KooWhost";
    // the owner sees every card
    assert_eq!(store.visible_defs(true, &vec![]).len(), 2);
    // a remote peer without grants sees the public one only
    let cards = store.visible_defs(false, &vec![]);
    assert_eq!(cards.len(), 1);
    assert_eq!(cards[0].agent_id, "pub-a");
    // a granted private agent is visible to that peer
    let cards = store.visible_defs(false, &vec!["priv-b".to_owned()]);
    assert_eq!(cards.len(), 2);
    for def in &cards {
        let card = AgentStore::card_of(def, host).expect("card");
        assert_eq!(card.url, format!("a2a://{host}/{}", def.agent_id));
    }
}

#[test]
fn local_agent_stays_on_the_host() {
    let mut store = AgentStore::new();
    store.create(Some("loc".into()), "l".into(), "d".into(), vec![], Visibility::Local, 1).unwrap();
    assert!(store.visible_defs(false, &vec!["loc".to_owned()]).is_empty(), "a grant does not open a local agent");
    assert_eq!(store.visible_defs(true, &vec![]).len(), 1);
    assert!(store.network_defs().is_empty());
}

#[test]
fn repeated_prefixes_are_all_removed() {
    assert_eq!(agent_path_id("/a2a/agents/a2a/agents/x"), Some("x".into()));
    assert_eq!(agent_path_id("/a2a/agentsX"), Some("X".into()));
}
